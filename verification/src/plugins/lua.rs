//! Trusted boundary to the embedded Lua interpreter.
//!
//! Each wrapper makes one small mlua call chain and converts the outcome
//! to plain values; Verus believes the stated contracts and reads nothing
//! else of the interpreter.  Lua errors come back as their rendered
//! messages.

use vstd::prelude::*;

verus! {

#[verifier::external_type_specification]
#[verifier::external_body]
pub struct ExLua(mlua::Lua);

#[verifier::external_type_specification]
#[verifier::external_body]
pub struct ExTable(mlua::Table);

#[verifier::external_type_specification]
#[verifier::external_body]
pub struct ExFunction(mlua::Function);

#[verifier::external_type_specification]
#[verifier::external_body]
pub struct ExLuaValue(mlua::Value);

/// Relies on `mlua::Lua::new` and `Lua::set_memory_limit`: a fresh
/// interpreter with the safe standard libraries loaded, capped so that a
/// runaway script cannot exhaust the process's memory.
#[verifier::external_body]
pub fn lua_new() -> mlua::Lua {
    let lua = mlua::Lua::new();
    let _ = lua.set_memory_limit(64 * 1024 * 1024);
    lua
}

/// Relies on `mlua::Lua::load` and `mlua::Chunk::exec`: compiles and runs
/// the chunk under the given name.
#[verifier::external_body]
pub fn lua_exec(lua: &mlua::Lua, source: &str, name: &str) -> (r: Result<(), String>) {
    lua.load(source).set_name(name).exec().map_err(|e| e.to_string())
}

/// Relies on `mlua::Lua::load` and `mlua::Chunk::into_function` together
/// with the `package.preload` convention: compiles the chunk under the
/// given name and records it so that `require(name)` runs it.
#[verifier::external_body]
pub fn lua_preload(lua: &mlua::Lua, name: &str, source: &str) -> (r: Result<(), String>) {
    let f = lua.load(source).set_name(name).into_function().map_err(|e| e.to_string())?;
    let preload: mlua::Table = lua
        .globals()
        .get::<mlua::Table>("package")
        .and_then(|p| p.get::<mlua::Table>("preload"))
        .map_err(|e| e.to_string())?;
    preload.set(name, f).map_err(|e| e.to_string())
}

/// Relies on `mlua::Lua::globals`: the global environment table.
#[verifier::external_body]
pub fn lua_globals(lua: &mlua::Lua) -> mlua::Table {
    lua.globals()
}

/// Relies on `mlua::Lua::create_table`: a fresh empty table.
#[verifier::external_body]
pub fn lua_new_table(lua: &mlua::Lua) -> (r: Result<mlua::Table, String>) {
    lua.create_table().map_err(|e| e.to_string())
}

/// Relies on `mlua::Table::get`: looks a table field up as a table.
#[verifier::external_body]
pub fn table_get_table(t: &mlua::Table, key: &str) -> (r: Result<mlua::Table, String>) {
    t.get::<mlua::Table>(key).map_err(|e| e.to_string())
}

/// Relies on `mlua::Table::get`: looks a table field up as a string.
#[verifier::external_body]
pub fn table_get_str(t: &mlua::Table, key: &str) -> (r: Result<String, String>) {
    t.get::<String>(key).map_err(|e| e.to_string())
}

/// Relies on `mlua::Table::get`: looks a table field up as a string,
/// absent fields reading as `None`.
#[verifier::external_body]
pub fn table_get_opt_str(t: &mlua::Table, key: &str) -> (r: Result<Option<String>, String>) {
    t.get::<Option<String>>(key).map_err(|e| e.to_string())
}

/// Relies on `mlua::Table::get`: looks a table field up as a table,
/// absent fields reading as `None`.
#[verifier::external_body]
pub fn table_get_opt_table(t: &mlua::Table, key: &str) -> (r: Result<
    Option<mlua::Table>,
    String,
>) {
    t.get::<Option<mlua::Table>>(key).map_err(|e| e.to_string())
}

/// Relies on `mlua::Table::get`: looks a table field up as a function.
#[verifier::external_body]
pub fn table_get_function(t: &mlua::Table, key: &str) -> (r: Result<mlua::Function, String>) {
    t.get::<mlua::Function>(key).map_err(|e| e.to_string())
}

/// Relies on `mlua::Table::set`: stores a string under a string key.
#[verifier::external_body]
pub fn table_set_str(t: &mlua::Table, key: &str, value: &str) -> (r: Result<(), String>) {
    t.set(key, value).map_err(|e| e.to_string())
}

/// Relies on `mlua::Table::set`: stores a table under a string key.
#[verifier::external_body]
pub fn table_set_table(t: &mlua::Table, key: &str, value: &mlua::Table) -> (r: Result<
    (),
    String,
>) {
    t.set(key, value.clone()).map_err(|e| e.to_string())
}

/// Relies on `mlua::Table::pairs`: the key-value pairs of a table whose
/// keys are strings and whose values are tables, collected in iteration
/// order.
#[verifier::external_body]
pub fn table_pairs_tables(t: &mlua::Table) -> (r: Result<Vec<(String, mlua::Table)>, String>) {
    t.pairs::<String, mlua::Table>().collect::<Result<Vec<_>, _>>().map_err(|e| e.to_string())
}

/// Relies on `mlua::Table::pairs`: the key-value pairs of a table whose
/// keys and values are strings, collected in iteration order.
#[verifier::external_body]
pub fn table_pairs_strs(t: &mlua::Table) -> (r: Result<Vec<(String, String)>, String>) {
    t.pairs::<String, String>().collect::<Result<Vec<_>, _>>().map_err(|e| e.to_string())
}

/// Relies on `mlua::Table::sequence_values`: the values of the table's
/// array part, as strings, in order.
#[verifier::external_body]
pub fn table_seq_strs(t: &mlua::Table) -> (r: Result<Vec<String>, String>) {
    t.sequence_values::<String>().collect::<Result<Vec<_>, _>>().map_err(|e| e.to_string())
}

/// Relies on `mlua::Function::call`: invokes a registered tool callback
/// with its plugin table and the input table, reading the result as an
/// optional string.
#[verifier::external_body]
pub fn lua_call_method(f: &mlua::Function, plugin: &mlua::Table, input: &mlua::Table) -> (r:
    Result<Option<String>, String>) {
    f.call::<Option<String>>((plugin.clone(), input.clone())).map_err(|e| e.to_string())
}

} // verus!
