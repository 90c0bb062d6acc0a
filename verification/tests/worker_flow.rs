use plua::config::ConfigManager;
use plua::errors::PluginError;
use plua::runtime::PluginSource;
use plua::worker::{CommandResponse, LuaCommand, LuaManager};
use plua::PLuaPlugin;

fn src(path: &str, script: &str) -> PluginSource {
    PluginSource { file_path: path.to_string(), script: script.to_string() }
}

fn counted(name: &str) -> String {
    format!(
        "counters = counters or {{}}\n\
         counters['{n}'] = counters['{n}'] or {{ up = 0, down = 0 }}\n\
         return {{ name = '{n}',\n\
           on_enable = function()\n\
             counters['{n}'].up = counters['{n}'].up + 1\n\
             probe_{n}_up = counters['{n}'].up\n\
           end,\n\
           on_disable = function()\n\
             counters['{n}'].down = counters['{n}'].down + 1\n\
             probe_{n}_down = counters['{n}'].down\n\
           end }}",
        n = name
    )
}

#[test]
fn handle_lives_behind_a_default() {
    let a = PLuaPlugin::new();
    let b = PLuaPlugin::default();
    let _ = (a, b);
}

#[test]
fn config_membership_changes_report_and_dedup() {
    let mut c = ConfigManager::from_json("{\"enabled_plugins\":[\"a\",\"b\",\"a\"]}")
        .expect("parses");
    // duplicates collapse: adding an existing name changes nothing
    assert!(!c.enable_plugin("a".to_string()));
    assert!(!c.enable_plugin("b".to_string()));
    assert!(c.enable_plugin("c".to_string()));
    assert!(c.disable_plugin("a"));
    assert!(!c.disable_plugin("a"));
    // what it renders is what it reads back
    let text = c.to_json();
    let mut again = ConfigManager::from_json(text.as_str()).expect("round trips");
    assert!(!again.enable_plugin("b".to_string()));
    assert!(!again.enable_plugin("c".to_string()));
    assert!(again.enable_plugin("a".to_string()));
}

#[test]
fn unreadable_store_is_a_config_error() {
    assert!(matches!(
        ConfigManager::from_json("not json at all"),
        Err(PluginError::ConfigIo { .. })
    ));
    assert!(matches!(
        ConfigManager::from_json("{\"enabled_plugins\":[1,2]}"),
        Err(PluginError::ConfigIo { .. })
    ));
    assert!(matches!(
        LuaManager::new(Some("broken")),
        Err(PluginError::ConfigIo { .. })
    ));
}

#[test]
fn error_labels_are_stable() {
    let e = PluginError::NotFound { name: "x".to_string() };
    assert_eq!(e.label(), "plugin not found");
    assert_eq!(PluginError::WorkerUnavailable.label(), "worker unreachable");
    assert_eq!(PluginError::ProtocolTimeout.label(), "timed out");
}

#[test]
fn startup_enables_exactly_the_auto_enable_set() {
    let sources = vec![
        src("a.lua", &counted("A")),
        src("b.lua", &counted("B")),
        src("c.lua", &counted("C")),
    ];
    let mut m = LuaManager::new(Some("{\"enabled_plugins\":[\"A\",\"B\"]}")).expect("config");
    m.startup(&sources).expect("startup");
    assert_eq!(m.runtime.global_i64("probe_A_up"), Some(1));
    assert_eq!(m.runtime.global_i64("probe_B_up"), Some(1));
    assert_eq!(m.runtime.global_i64("probe_C_up"), None);
    let list = m.runtime.get_plugin_list();
    let mut enabled: Vec<(String, bool)> = list;
    enabled.sort();
    assert_eq!(
        enabled,
        vec![
            ("A".to_string(), true),
            ("B".to_string(), true),
            ("C".to_string(), false),
        ]
    );
}

#[test]
fn global_reload_fires_each_hook_exactly_once() {
    let sources = vec![src("a.lua", &counted("A")), src("b.lua", &counted("B"))];
    let mut m = LuaManager::new(Some("{\"enabled_plugins\":[\"A\",\"B\"]}")).expect("config");
    m.startup(&sources).expect("startup");
    // files on disk changed between the passes: B gained a description
    let changed = vec![
        src("a.lua", &counted("A")),
        src("b.lua", &format!("{}\n-- refreshed", counted("B"))),
    ];
    let out = m.handle_command(
        LuaCommand::Reload,
        &changed,
        Some("{\"enabled_plugins\":[\"A\",\"B\"]}"),
    );
    assert!(matches!(out.response, CommandResponse::Completed(Ok(()))));
    // each on_disable fired exactly once, each on_enable re-fired exactly once
    assert_eq!(m.runtime.global_i64("probe_A_down"), Some(1));
    assert_eq!(m.runtime.global_i64("probe_B_down"), Some(1));
    assert_eq!(m.runtime.global_i64("probe_A_up"), Some(2));
    assert_eq!(m.runtime.global_i64("probe_B_up"), Some(2));
}

#[test]
fn global_reload_drops_names_no_longer_listed() {
    let sources = vec![src("a.lua", &counted("A")), src("b.lua", &counted("B"))];
    let mut m = LuaManager::new(Some("{\"enabled_plugins\":[\"A\",\"B\"]}")).expect("config");
    m.startup(&sources).expect("startup");
    let out = m.handle_command(
        LuaCommand::Reload,
        &sources,
        Some("{\"enabled_plugins\":[\"A\"]}"),
    );
    assert!(matches!(out.response, CommandResponse::Completed(Ok(()))));
    assert_eq!(m.runtime.global_i64("probe_A_up"), Some(2));
    // B was disabled by the sweep and not re-enabled
    assert_eq!(m.runtime.global_i64("probe_B_up"), Some(1));
    assert_eq!(m.runtime.global_i64("probe_B_down"), Some(1));
    assert!(!m.runtime.get_plugin_info("B").expect("still registered").4);
}

#[test]
fn commands_flow_through_the_worker() {
    let sources = vec![src("a.lua", &counted("A"))];
    let mut m = LuaManager::new(None).expect("config");
    m.startup(&sources).expect("startup");

    let out = m.handle_command(
        LuaCommand::EnablePlugin { name: "A".to_string() },
        &sources,
        None,
    );
    assert!(matches!(out.response, CommandResponse::Changed(Ok(true))));
    let saved = out.config_to_save.expect("membership changed");
    assert!(saved.contains("\"A\""));

    let out = m.handle_command(
        LuaCommand::EnablePlugin { name: "A".to_string() },
        &sources,
        None,
    );
    assert!(matches!(out.response, CommandResponse::Changed(Ok(false))));
    assert!(out.config_to_save.is_none());

    let out = m.handle_command(LuaCommand::GetPluginList, &sources, None);
    match out.response {
        CommandResponse::PluginList(l) => assert_eq!(l, vec![("A".to_string(), true)]),
        other => panic!("unexpected response {:?}", other),
    }

    let out = m.handle_command(
        LuaCommand::GetPluginInfo { name: "A".to_string() },
        &sources,
        None,
    );
    match out.response {
        CommandResponse::Info(Some(info)) => {
            assert_eq!(info.0, "A");
            assert!(info.4);
        },
        other => panic!("unexpected response {:?}", other),
    }

    let out = m.handle_command(
        LuaCommand::DisablePlugin { name: "A".to_string() },
        &sources,
        None,
    );
    assert!(matches!(out.response, CommandResponse::Changed(Ok(true))));
    assert!(out.config_to_save.is_some());
    assert_eq!(m.runtime.global_i64("probe_A_down"), Some(1));
}

#[test]
fn trigger_event_command_reaches_listeners() {
    let sources: Vec<PluginSource> = vec![];
    let mut m = LuaManager::new(None).expect("config");
    m.startup(&sources).expect("startup");
    let cb = plua::manifest::extract_manifest(
        &m.runtime.lua,
        "return { name = 'cb', on_enable = function(e) seen = (seen or 0) + 1 end }",
        "cb",
    )
    .expect("manifest")
    .on_enable
    .expect("function");
    m.runtime
        .listeners
        .register_listener_with("player_join", "host", "cb", 1, 1, cb)
        .expect("registered");
    let payload = "{\"player_name\":\"Zoe\",\"player_uuid\":\"u\",\"join_message\":\"hi\"}";
    let out = m.handle_command(
        LuaCommand::TriggerEvent {
            event_type: "player_join".to_string(),
            event_data: payload.to_string(),
        },
        &sources,
        None,
    );
    assert!(matches!(out.response, CommandResponse::Silent));
    assert_eq!(m.runtime.global_i64("seen"), Some(1));
}

#[test]
fn worker_refuses_commands_before_startup() {
    let mut m = LuaManager::new(None).expect("config");
    let (r, changed) = m.enable_plugin("A");
    assert!(matches!(r, Err(PluginError::WorkerUnavailable)));
    assert!(!changed);
    let (r, _) = m.disable_plugin("A");
    assert!(matches!(r, Err(PluginError::WorkerUnavailable)));
    let r = m.reload_all(&vec![], None);
    assert!(matches!(r, Err(PluginError::WorkerUnavailable)));
}

#[test]
fn registry_refs_track_registrations() {
    let mut m = LuaManager::new(None).expect("config");
    m.register_plugin_ref("A");
    m.register_plugin_ref("B");
    m.register_plugin_ref("A");
    assert_eq!(
        m.get_registered_plugins(),
        vec!["A".to_string(), "B".to_string(), "A".to_string()]
    );
    m.clear_plugin_ref("A");
    assert_eq!(m.get_registered_plugins(), vec!["B".to_string()]);
}
