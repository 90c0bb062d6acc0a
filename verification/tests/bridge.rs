use plua::errors::PluginError;
use plua::events::make_listener_id;
use plua::manifest::extract_manifest;
use plua::runtime::{LuaRuntime, PluginSource};

fn ready_runtime() -> LuaRuntime {
    let mut rt = LuaRuntime::new();
    rt.init_api().expect("api bootstrap");
    rt.discover_plugins(&vec![]);
    rt
}

fn callback_of(rt: &LuaRuntime, body: &str) -> mlua::Function {
    let script = format!("return {{ name = 'cb', on_enable = {} }}", body);
    let m = extract_manifest(&rt.lua, &script, "cb").expect("callback manifest");
    m.on_enable.expect("a function")
}

#[test]
fn listener_id_is_built_exactly() {
    let id = make_listener_id("plug", "my_cb!", 123, 45);
    assert_eq!(id, "listener_plug_mycb_123_45");
    let empty = make_listener_id("", "", 0, 0);
    assert_eq!(empty, "listener___0_0");
}

#[test]
fn unknown_event_type_is_a_typed_rejection() {
    let mut rt = ready_runtime();
    let cb = callback_of(&rt, "function(e) end");
    let r = rt.listeners.register_listener_with("player_hops", "p", "cb", 1, 1, cb);
    match r {
        Err(PluginError::UnknownEventType { name }) => assert_eq!(name, "player_hops"),
        other => panic!("expected a typed rejection, got {:?}", other.map(|_| ())),
    }
    let r2 = rt.listeners.unregister_listener("player_hops", "whatever");
    assert!(matches!(r2, Err(PluginError::UnknownEventType { .. })));
}

#[test]
fn two_listeners_both_fire_once_despite_first_failing() {
    let mut rt = ready_runtime();
    let failing = callback_of(
        &rt,
        "function(e) first_runs = (first_runs or 0) + 1; error('down') end",
    );
    let counting = callback_of(&rt, "function(e) second_runs = (second_runs or 0) + 1 end");
    rt.listeners
        .register_listener_with("player_join", "p", "a", 1, 1, failing)
        .expect("registered");
    rt.listeners
        .register_listener_with("player_join", "p", "b", 2, 2, counting)
        .expect("registered");
    let payload = "{\"player_name\":\"Ann\",\"player_uuid\":\"u\",\"join_message\":\"m\"}";
    rt.dispatch_event("player_join", payload);
    assert_eq!(rt.global_i64("first_runs"), Some(1));
    assert_eq!(rt.global_i64("second_runs"), Some(1));
}

#[test]
fn player_join_payload_exposes_exactly_three_fields() {
    let mut rt = ready_runtime();
    let cb = callback_of(
        &rt,
        "function(e)\n\
           jname = e.player_name; juuid = e.player_uuid; jmsg = e.join_message\n\
           local n = 0\n\
           for k, v in pairs(e) do n = n + 1 end\n\
           jfields = n\n\
         end",
    );
    rt.listeners
        .register_listener_with("player_join", "p", "cb", 1, 1, cb)
        .expect("registered");
    let payload = "{\"player_name\":\"Alice\",\"player_uuid\":\"u-1\",\
                   \"join_message\":\"Alice joined\"}";
    rt.dispatch_event("player_join", payload);
    assert_eq!(rt.global_string("jname").as_deref(), Some("Alice"));
    assert_eq!(rt.global_string("juuid").as_deref(), Some("u-1"));
    assert_eq!(rt.global_string("jmsg").as_deref(), Some("Alice joined"));
    assert_eq!(rt.global_i64("jfields"), Some(3));
}

#[test]
fn malformed_payload_invokes_no_listener() {
    let mut rt = ready_runtime();
    let cb = callback_of(&rt, "function(e) ran = (ran or 0) + 1 end");
    rt.listeners
        .register_listener_with("player_join", "p", "cb", 1, 1, cb)
        .expect("registered");
    // the join message is missing, so the snapshot fails its schema
    rt.dispatch_event("player_join", "{\"player_name\":\"A\",\"player_uuid\":\"u\"}");
    // not even valid JSON
    rt.dispatch_event("player_join", "}{");
    // an unknown type tag is dropped silently
    rt.dispatch_event("player_warp", "{}");
    assert_eq!(rt.global_i64("ran"), None);
}

#[test]
fn unregistered_listener_no_longer_fires() {
    let mut rt = ready_runtime();
    let cb = callback_of(&rt, "function(e) ran = (ran or 0) + 1 end");
    let id = rt
        .listeners
        .register_listener_with("player_leave", "p", "cb", 1, 1, cb)
        .expect("registered");
    assert!(matches!(rt.listeners.unregister_listener("player_leave", id.as_str()), Ok(true)));
    let payload = "{\"player_name\":\"A\",\"player_uuid\":\"u\",\"leave_message\":\"bye\"}";
    rt.dispatch_event("player_leave", payload);
    assert_eq!(rt.global_i64("ran"), None);
}

#[test]
fn same_id_registration_replaces_the_listener() {
    let mut rt = ready_runtime();
    let first = callback_of(&rt, "function(e) from_first = (from_first or 0) + 1 end");
    let second = callback_of(&rt, "function(e) from_second = (from_second or 0) + 1 end");
    rt.listeners
        .register_listener_with("player_chat", "p", "cb", 7, 7, first)
        .expect("registered");
    rt.listeners
        .register_listener_with("player_chat", "p", "cb", 7, 7, second)
        .expect("registered");
    let payload = "{\"player_name\":\"A\",\"player_uuid\":\"u\",\
                   \"message\":\"hello\",\"recipients\":3}";
    rt.dispatch_event("player_chat", payload);
    assert_eq!(rt.global_i64("from_first"), None);
    assert_eq!(rt.global_i64("from_second"), Some(1));
}

#[test]
fn block_break_payload_supports_absent_player() {
    let mut rt = ready_runtime();
    let cb = callback_of(
        &rt,
        "function(e)\n\
           btype = e.block_type; bx = e.position_x; bexp = e.experience\n\
           bdrop = e.drop_items and 1 or 0\n\
           bhasplayer = e.player_name ~= nil and 1 or 0\n\
           local n = 0\n\
           for k, v in pairs(e) do n = n + 1 end\n\
           bfields = n\n\
         end",
    );
    rt.listeners
        .register_listener_with("block_break", "p", "cb", 1, 1, cb)
        .expect("registered");
    let payload = "{\"player_name\":null,\"player_uuid\":null,\"block_type\":\"stone\",\
                   \"position_x\":-3,\"position_y\":64,\"position_z\":12,\
                   \"experience\":5,\"drop_items\":true}";
    rt.dispatch_event("block_break", payload);
    assert_eq!(rt.global_string("btype").as_deref(), Some("stone"));
    assert_eq!(rt.global_i64("bx"), Some(-3));
    assert_eq!(rt.global_i64("bexp"), Some(5));
    assert_eq!(rt.global_i64("bdrop"), Some(1));
    assert_eq!(rt.global_i64("bhasplayer"), Some(0));
    assert_eq!(rt.global_i64("bfields"), Some(6));
}

#[test]
fn out_of_range_coordinate_drops_the_event() {
    let mut rt = ready_runtime();
    let cb = callback_of(&rt, "function(e) ran = (ran or 0) + 1 end");
    rt.listeners
        .register_listener_with("block_break", "p", "cb", 1, 1, cb)
        .expect("registered");
    let payload = "{\"block_type\":\"stone\",\"position_x\":4294967296,\
                   \"position_y\":0,\"position_z\":0,\"experience\":0,\"drop_items\":false}";
    rt.dispatch_event("block_break", payload);
    assert_eq!(rt.global_i64("ran"), None);
}

#[test]
fn block_place_payload_reaches_listeners() {
    let mut rt = ready_runtime();
    let cb = callback_of(
        &rt,
        "function(e) placed = e.block_placed; can = e.can_build and 1 or 0 end",
    );
    rt.listeners
        .register_listener_with("block_place", "p", "cb", 1, 1, cb)
        .expect("registered");
    let payload = "{\"player_name\":\"A\",\"player_uuid\":\"u\",\"block_placed\":\"torch\",\
                   \"block_against\":\"wall\",\"can_build\":true}";
    rt.dispatch_event("block_place", payload);
    assert_eq!(rt.global_string("placed").as_deref(), Some("torch"));
    assert_eq!(rt.global_i64("can"), Some(1));
}

#[test]
fn scripts_can_queue_broadcasts_for_the_host() {
    let script = "return { name = 'Town', on_enable = function()\n\
                    pumpkin.server.broadcast_message('hello all')\n\
                  end }";
    let mut rt = LuaRuntime::new();
    rt.init_api().expect("api bootstrap");
    rt.discover_plugins(&vec![PluginSource {
        file_path: "town.lua".to_string(),
        script: script.to_string(),
    }]);
    assert!(matches!(rt.enable_plugin("Town"), Ok(true)));
    assert_eq!(rt.drain_outbox(), vec!["hello all".to_string()]);
    assert!(rt.drain_outbox().is_empty());
}

#[test]
fn fresh_registration_yields_a_wellformed_id() {
    let mut rt = ready_runtime();
    let cb = callback_of(&rt, "function(e) end");
    let id = rt
        .listeners
        .register_listener("player_join", "plug", "cb", cb)
        .expect("registered");
    assert!(id.starts_with("listener_plug_cb_"));
}

#[test]
fn listener_id_handles_extreme_numbers() {
    let id = make_listener_id("p", "c", 18446744073709551615, 4294967295);
    assert_eq!(id, "listener_p_c_18446744073709551615_4294967295");
}

#[test]
fn negative_recipient_count_drops_the_chat_event() {
    let mut rt = ready_runtime();
    let cb = callback_of(&rt, "function(e) ran = (ran or 0) + 1 end");
    rt.listeners
        .register_listener_with("player_chat", "p", "cb", 1, 1, cb)
        .expect("registered");
    let payload = "{\"player_name\":\"A\",\"player_uuid\":\"u\",\
                   \"message\":\"hi\",\"recipients\":-2}";
    rt.dispatch_event("player_chat", payload);
    assert_eq!(rt.global_i64("ran"), None);
}
