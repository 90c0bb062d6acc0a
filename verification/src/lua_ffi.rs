use vstd::prelude::*;

verus! {

#[verifier::external_type_specification]
#[verifier::external_body]
pub struct ExLua(mlua::Lua);

#[verifier::external_type_specification]
#[verifier::external_body]
pub struct ExLuaTable(mlua::Table);

#[verifier::external_type_specification]
#[verifier::external_body]
pub struct ExLuaFunction(mlua::Function);

#[verifier::external_type_specification]
#[verifier::external_body]
pub struct ExLuaError(mlua::Error);

/// Relies on mlua::Lua::new: a fresh interpreter with an empty global
/// namespace and the standard safe libraries.
#[verifier::external_body]
pub(crate) fn lua_new() -> (r: mlua::Lua) {
    mlua::Lua::new()
}

/// Relies on mlua's Chunk::exec: parses and runs `script` inside `lua` under
/// the chunk name `chunk_name`; any parse or runtime failure comes back as Err.
#[verifier::external_body]
pub(crate) fn lua_exec_chunk(lua: &mlua::Lua, script: &str, chunk_name: &str) -> (r: Result<
    (),
    mlua::Error,
>) {
    lua.load(script).set_name(chunk_name).exec()
}

/// Relies on mlua's Chunk::eval: parses and runs `script`, converting the value
/// it returns to a table; a script that returns anything else gives Err.
#[verifier::external_body]
pub(crate) fn lua_eval_table(lua: &mlua::Lua, script: &str, chunk_name: &str) -> (r: Result<
    mlua::Table,
    mlua::Error,
>) {
    lua.load(script).set_name(chunk_name).eval::<mlua::Table>()
}

/// Relies on mlua's Table::get for String: the field's value coerced to a
/// string, or None when it is nil or not coercible.
#[verifier::external_body]
pub(crate) fn table_get_opt_string(t: &mlua::Table, key: &str) -> (r: Option<String>) {
    match t.get::<Option<String>>(key) {
        Ok(v) => v,
        Err(_) => None,
    }
}

/// Relies on mlua's Table::get for String: Err when the field is nil or not
/// coercible to a string.
#[verifier::external_body]
pub(crate) fn table_get_string(t: &mlua::Table, key: &str) -> (r: Result<String, mlua::Error>) {
    t.get::<String>(key)
}

/// Relies on mlua's Table::get for Option<Function>: None when the field is
/// nil, Err when it holds a non-function value.
#[verifier::external_body]
pub(crate) fn table_get_opt_function(t: &mlua::Table, key: &str) -> (r: Result<
    Option<mlua::Function>,
    mlua::Error,
>) {
    t.get::<Option<mlua::Function>>(key)
}

/// Relies on mlua's Function::call with no arguments and no results.
#[verifier::external_body]
pub(crate) fn lua_call_unit(f: &mlua::Function) -> (r: Result<(), mlua::Error>) {
    f.call::<()>(())
}

/// Relies on mlua's Function::call with one table argument and no results.
#[verifier::external_body]
pub(crate) fn lua_call_with_table(f: &mlua::Function, arg: &mlua::Table) -> (r: Result<
    (),
    mlua::Error,
>) {
    f.call::<()>(arg)
}

/// Relies on mlua's Lua::create_table: a fresh empty table.
#[verifier::external_body]
pub(crate) fn lua_new_table(lua: &mlua::Lua) -> (r: Result<mlua::Table, mlua::Error>) {
    lua.create_table()
}

/// Relies on mlua's Table::set for a string value.
#[verifier::external_body]
pub(crate) fn table_set_string(t: &mlua::Table, key: &str, value: &str) -> (r: Result<
    (),
    mlua::Error,
>) {
    t.set(key, value)
}

/// Relies on mlua's Table::set for an integer value.
#[verifier::external_body]
pub(crate) fn table_set_i64(t: &mlua::Table, key: &str, value: i64) -> (r: Result<
    (),
    mlua::Error,
>) {
    t.set(key, value)
}

/// Relies on mlua's Table::set for a boolean value.
#[verifier::external_body]
pub(crate) fn table_set_bool(t: &mlua::Table, key: &str, value: bool) -> (r: Result<
    (),
    mlua::Error,
>) {
    t.set(key, value)
}

/// Relies on mlua's Lua::globals plus Table::get: the global of that name
/// coerced to a string, or None.
#[verifier::external_body]
pub(crate) fn lua_global_string(lua: &mlua::Lua, name: &str) -> (r: Option<String>) {
    match lua.globals().get::<Option<String>>(name) {
        Ok(v) => v,
        Err(_) => None,
    }
}

/// Relies on mlua's Lua::globals plus Table::get: the global of that name as
/// an integer, or None.
#[verifier::external_body]
pub(crate) fn lua_global_i64(lua: &mlua::Lua, name: &str) -> (r: Option<i64>) {
    match lua.globals().get::<Option<i64>>(name) {
        Ok(v) => v,
        Err(_) => None,
    }
}

/// Relies on mlua's Lua::globals plus Table::get: the global of that name when
/// it is a table.
#[verifier::external_body]
pub(crate) fn lua_global_table(lua: &mlua::Lua, name: &str) -> (r: Option<mlua::Table>) {
    match lua.globals().get::<Option<mlua::Table>>(name) {
        Ok(v) => v,
        Err(_) => None,
    }
}

/// Relies on mlua's Table::sequence_values for String: the array part of the
/// table, in order, each element coerced to a string.
#[verifier::external_body]
pub(crate) fn table_string_values(t: &mlua::Table) -> (r: Result<Vec<String>, mlua::Error>) {
    t.sequence_values::<String>().collect::<Result<Vec<String>, mlua::Error>>()
}

/// Relies on mlua's Table::clear: removes every entry of the table.
#[verifier::external_body]
pub(crate) fn table_clear(t: &mlua::Table) -> (r: Result<(), mlua::Error>) {
    t.clear()
}

/// Relies on mlua's Error Display rendering: a human-readable message.
#[verifier::external_body]
pub(crate) fn lua_error_message(e: &mlua::Error) -> (r: String) {
    e.to_string()
}

} // verus!
