use vstd::prelude::*;
use vstd::string::StringExecFns;
use crate::errors::PluginError;
use crate::lua_ffi::{
    lua_error_message, lua_eval_table, table_get_opt_function, table_get_opt_string,
    table_get_string,
};

verus! {

/// Identity, metadata and optional lifecycle callback references extracted
/// from a plugin script. The callback values are only meaningful while the
/// interpreter that produced them is alive.
pub struct LuaPluginManifest {
    pub name: String,
    pub description: String,
    pub version: String,
    pub author: String,
    pub on_enable: Option<mlua::Function>,
    pub on_disable: Option<mlua::Function>,
}

impl LuaPluginManifest {
    pub open spec fn has_on_enable(self) -> bool {
        self.on_enable is Some
    }

    pub open spec fn has_on_disable(self) -> bool {
        self.on_disable is Some
    }
}

/// Builds a manifest from the raw fields a manifest table yields: `name` as
/// given; `description` defaults to the empty string, `version` to "1.0.0"
/// and `author` to "Unknown" when absent.
pub fn manifest_of_fields(
    name: String,
    description: Option<String>,
    version: Option<String>,
    author: Option<String>,
    on_enable: Option<mlua::Function>,
    on_disable: Option<mlua::Function>,
) -> (r: LuaPluginManifest)
    ensures
        r.name == name,
        r.description@ == (match description {
            Some(d) => d@,
            None => ""@,
        }),
        r.version@ == (match version {
            Some(v) => v@,
            None => "1.0.0"@,
        }),
        r.author@ == (match author {
            Some(a) => a@,
            None => "Unknown"@,
        }),
        r.on_enable == on_enable,
        r.on_disable == on_disable,
{
    proof {
        reveal_strlit("");
    }
    LuaPluginManifest {
        name,
        description: (match description {
            Some(d) => d,
            None => String::new(),
        }),
        version: (match version {
            Some(v) => v,
            None => "1.0.0".to_owned(),
        }),
        author: (match author {
            Some(a) => a,
            None => "Unknown".to_owned(),
        }),
        on_enable,
        on_disable,
    }
}

/// Evaluates a plugin script and reads the manifest table it returns.
/// `name` is required; the metadata fields default; a lifecycle field that
/// holds a non-function value is an error, a missing one is fine. Every
/// failure is reported as a parse failure of that one script.
pub fn extract_manifest(lua: &mlua::Lua, script: &str, chunk_name: &str) -> (r: Result<
    LuaPluginManifest,
    PluginError,
>)
    ensures
        r matches Err(e) ==> e matches PluginError::ScriptParse { .. },
{
    let table = match lua_eval_table(lua, script, chunk_name) {
        Ok(t) => t,
        Err(e) => {
            return Err(PluginError::ScriptParse { message: lua_error_message(&e) });
        },
    };
    let name = match table_get_string(&table, "name") {
        Ok(n) => n,
        Err(e) => {
            return Err(PluginError::ScriptParse { message: lua_error_message(&e) });
        },
    };
    let description = table_get_opt_string(&table, "description");
    let version = table_get_opt_string(&table, "version");
    let author = table_get_opt_string(&table, "author");
    let on_enable = match table_get_opt_function(&table, "on_enable") {
        Ok(f) => f,
        Err(e) => {
            return Err(PluginError::ScriptParse { message: lua_error_message(&e) });
        },
    };
    let on_disable = match table_get_opt_function(&table, "on_disable") {
        Ok(f) => f,
        Err(e) => {
            return Err(PluginError::ScriptParse { message: lua_error_message(&e) });
        },
    };
    Ok(manifest_of_fields(name, description, version, author, on_enable, on_disable))
}

} // verus!
