use vstd::prelude::*;

pub mod config;
pub mod errors;
pub mod events;
pub mod host_ffi;
pub mod json_ffi;
pub mod lua_ffi;
pub mod manifest;
pub mod payload;
pub mod runtime;
pub mod text;
pub mod trace;
pub mod worker;

verus! {

/// Host-facing handle for the plugin subsystem. The host keeps one of these
/// and drives everything else through the command protocol.
pub struct PLuaPlugin {}

impl PLuaPlugin {
    pub fn new() -> (r: Self)
        ensures
            r == (PLuaPlugin {}),
    {
        PLuaPlugin {}
    }
}

impl Default for PLuaPlugin {
    fn default() -> (r: Self)
        ensures
            r == (PLuaPlugin {}),
    {
        PLuaPlugin::new()
    }
}

} // verus!
