use plua::errors::PluginError;
use plua::runtime::can_load;
use plua::runtime::{LuaRuntime, PluginSource};

fn src(path: &str, script: &str) -> PluginSource {
    PluginSource { file_path: path.to_string(), script: script.to_string() }
}

fn ready_runtime(sources: Vec<PluginSource>) -> LuaRuntime {
    let mut rt = LuaRuntime::new();
    rt.init_api().expect("api bootstrap");
    rt.discover_plugins(&sources);
    rt
}

#[test]
fn unknown_plugin_is_refused_everywhere() {
    let mut rt = ready_runtime(vec![]);
    assert!(matches!(rt.enable_plugin("ghost"), Ok(false)));
    assert!(matches!(rt.disable_plugin("ghost"), Ok(false)));
    assert!(matches!(rt.reload_plugin("ghost", &vec![]), Ok(false)));
    assert!(rt.get_plugin_info("ghost").is_none());
    assert!(rt.get_plugin_list().is_empty());
}

#[test]
fn greeter_logs_hi_exactly_once() {
    let script = "return { name = 'Greeter', on_enable = function() pumpkin.log.info('hi') end }";
    let mut rt = ready_runtime(vec![src("greeter.lua", script)]);
    assert!(matches!(rt.enable_plugin("Greeter"), Ok(true)));
    let lines = rt.log_lines();
    assert_eq!(lines, vec!["[INFO] hi".to_string()]);
    // a second enable answers false and does not re-invoke on_enable
    assert!(matches!(rt.enable_plugin("Greeter"), Ok(false)));
    assert_eq!(rt.log_lines().len(), 1);
}

#[test]
fn disable_twice_invokes_hook_once() {
    let script = "counters = counters or { up = 0, down = 0 }\n\
                  return { name = 'Counted',\n\
                    on_enable = function() counters.up = counters.up + 1 end,\n\
                    on_disable = function() counters.down = counters.down + 1 end }";
    let mut rt = ready_runtime(vec![src("counted.lua", script)]);
    assert!(matches!(rt.disable_plugin("Counted"), Ok(false)));
    assert!(matches!(rt.enable_plugin("Counted"), Ok(true)));
    assert!(matches!(rt.disable_plugin("Counted"), Ok(true)));
    assert!(matches!(rt.disable_plugin("Counted"), Ok(false)));
    assert_eq!(rt.global_i64("cdown_probe"), None);
    // read the counters through the interpreter globals
    let probe = "return { name = 'Probe', on_enable = function()\n\
                   probe_up = counters.up; probe_down = counters.down end }";
    rt.discover_plugins(&vec![src("counted.lua", script), src("probe.lua", probe)]);
    assert!(matches!(rt.enable_plugin("Probe"), Ok(true)));
    assert_eq!(rt.global_i64("probe_up"), Some(1));
    assert_eq!(rt.global_i64("probe_down"), Some(1));
}

#[test]
fn manifest_fields_default() {
    let mut rt = ready_runtime(vec![src("bare.lua", "return { name = 'Bare' }")]);
    let info = rt.get_plugin_info("Bare").expect("registered");
    assert_eq!(info.0, "Bare");
    assert_eq!(info.1, "");
    assert_eq!(info.2, "1.0.0");
    assert_eq!(info.3, "Unknown");
    assert!(!info.4);
    assert_eq!(info.5, "bare.lua");
    let _ = rt.enable_plugin("Bare");
}

#[test]
fn manifest_fields_are_taken_when_present() {
    let script = "return { name = 'Full', description = 'does things',\n\
                  version = '2.3.4', author = 'Someone' }";
    let rt = ready_runtime(vec![src("full.lua", script)]);
    let info = rt.get_plugin_info("Full").expect("registered");
    assert_eq!(info.1, "does things");
    assert_eq!(info.2, "2.3.4");
    assert_eq!(info.3, "Someone");
}

#[test]
fn bad_manifest_is_skipped_but_others_register() {
    let sources = vec![
        src("bad.lua", "return 42"),
        src("good.lua", "return { name = 'Good' }"),
        src("broken.lua", "this is not lua ("),
    ];
    let rt = ready_runtime(sources);
    let list = rt.get_plugin_list();
    assert_eq!(list.len(), 1);
    assert_eq!(list[0].0, "Good");
    assert!(!list[0].1);
}

#[test]
fn failing_script_body_keeps_plugin_disabled() {
    // The body runs clean at discovery, then fails when enabling re-runs it.
    let script = "if armed then error('boom') end\n\
                  armed = true\n\
                  return { name = 'Flaky' }";
    let mut rt = ready_runtime(vec![src("flaky.lua", script)]);
    let r = rt.enable_plugin("Flaky");
    assert!(matches!(r, Err(PluginError::ScriptRuntime { .. })));
    let info = rt.get_plugin_info("Flaky").expect("still registered");
    assert!(!info.4);
}

#[test]
fn failing_on_enable_keeps_plugin_disabled() {
    let script = "return { name = 'Grumpy', on_enable = function() error('no thanks') end }";
    let mut rt = ready_runtime(vec![src("grumpy.lua", script)]);
    let r = rt.enable_plugin("Grumpy");
    assert!(matches!(r, Err(PluginError::ScriptRuntime { .. })));
    assert!(!rt.get_plugin_info("Grumpy").expect("registered").4);
}

#[test]
fn failing_on_disable_keeps_plugin_enabled() {
    let script = "return { name = 'Clingy', on_disable = function() error('never') end }";
    let mut rt = ready_runtime(vec![src("clingy.lua", script)]);
    assert!(matches!(rt.enable_plugin("Clingy"), Ok(true)));
    let r = rt.disable_plugin("Clingy");
    assert!(matches!(r, Err(PluginError::ScriptRuntime { .. })));
    // the policy: enabled flips only when on_disable succeeds
    assert!(rt.get_plugin_info("Clingy").expect("registered").4);
}

#[test]
fn round_trip_preserves_enabled_state() {
    let script = "return { name = 'Steady' }";
    let sources = vec![src("steady.lua", script)];
    let mut rt = ready_runtime(vec![src("steady.lua", script)]);
    assert!(matches!(rt.enable_plugin("Steady"), Ok(true)));
    assert!(matches!(rt.reload_plugin("Steady", &sources), Ok(true)));
    assert!(rt.get_plugin_info("Steady").expect("registered").4);
    assert!(matches!(rt.disable_plugin("Steady"), Ok(true)));
    assert!(matches!(rt.reload_plugin("Steady", &sources), Ok(true)));
    assert!(!rt.get_plugin_info("Steady").expect("registered").4);
}

#[test]
fn reload_picks_up_changed_file() {
    let v1 = "return { name = 'Evolving', version = '1.0.0' }";
    let v2 = "return { name = 'Evolving', version = '2.0.0' }";
    let mut rt = ready_runtime(vec![src("evolving.lua", v1)]);
    assert_eq!(rt.get_plugin_info("Evolving").expect("registered").2, "1.0.0");
    let fresh = vec![src("evolving.lua", v2)];
    assert!(matches!(rt.reload_plugin("Evolving", &fresh), Ok(true)));
    assert_eq!(rt.get_plugin_info("Evolving").expect("registered").2, "2.0.0");
}

#[test]
fn reload_with_missing_file_fails() {
    let mut rt = ready_runtime(vec![src("gone.lua", "return { name = 'Gone' }")]);
    let r = rt.reload_plugin("Gone", &vec![]);
    assert!(matches!(r, Err(PluginError::ScriptParse { .. })));
}

#[test]
fn loader_recognizes_script_extensions() {
    assert!(can_load("greeter.lua"));
    assert!(can_load("greeter.LUA"));
    assert!(can_load("deep/dir/file.Luau"));
    assert!(can_load("x.luau"));
    assert!(!can_load("greeter.lua.txt"));
    assert!(!can_load("greeter.luax"));
    assert!(!can_load("greeter"));
    assert!(!can_load("greeter."));
    assert!(!can_load(".lua.bak"));
}
