//! Built-in native modules handed to plugin scripts: outbound HTTP and
//! JSON encoding, plus the glue that registers them with the interpreter.

use vstd::prelude::*;
use super::lua::lua_new_table;
use super::lua::table_get_opt_table;
use super::lua::table_pairs_strs;
use mlua::serde::LuaSerdeExt;

verus! {

#[verifier::external_type_specification]
#[verifier::external_body]
pub struct ExJsonValue(serde_json::Value);

/// Relies on `ureq::get`: performs the request with the given headers and
/// reads the body as text.  The outcome depends on the network.
#[verifier::external_body]
pub(crate) fn http_get(url: &str, headers: &Vec<(String, String)>) -> (r: Result<String, String>) {
    let mut req = ureq::get(url);
    for (k, v) in headers.iter() {
        req = req.header(k, v);
    }
    let mut resp = req.call().map_err(|e| e.to_string())?;
    resp.body_mut().read_to_string().map_err(|e| e.to_string())
}

/// Relies on `ureq::post`: performs the request with the given headers
/// and body and reads the reply as text.  The outcome depends on the
/// network.
#[verifier::external_body]
fn http_post(url: &str, body: &str, headers: &Vec<(String, String)>) -> (r: Result<
    String,
    String,
>) {
    let mut req = ureq::post(url);
    for (k, v) in headers.iter() {
        req = req.header(k, v);
    }
    let mut resp = req.send(body).map_err(|e| e.to_string())?;
    resp.body_mut().read_to_string().map_err(|e| e.to_string())
}

/// Relies on `serde_json::to_string` over mlua's serde support: renders a
/// Lua value as JSON text.
#[verifier::external_body]
fn json_encode_value(v: &mlua::Value) -> (r: Result<String, String>) {
    serde_json::to_string(v).map_err(|e| e.to_string())
}

/// Relies on `serde_json::from_str`: parses JSON text into a JSON value.
#[verifier::external_body]
fn json_parse_value(s: &str) -> (r: Result<serde_json::Value, String>) {
    serde_json::from_str(s).map_err(|e| e.to_string())
}

/// Relies on `mlua::LuaSerdeExt::to_value`: converts a JSON value into a
/// Lua value.
#[verifier::external_body]
fn json_value_to_lua(lua: &mlua::Lua, v: &serde_json::Value) -> (r: Result<mlua::Value, String>) {
    lua.to_value(v).map_err(|e| e.to_string())
}

/// The headers of an options table: the `headers` field's string pairs,
/// or none.
fn collect_headers(opts: &Option<mlua::Table>) -> Result<Vec<(String, String)>, String> {
    match opts {
        Option::None => Ok(Vec::new()),
        Option::Some(t) => {
            match table_get_opt_table(t, "headers") {
                Result::Err(m) => Err(m),
                Result::Ok(Option::None) => Ok(Vec::new()),
                Result::Ok(Option::Some(h)) => table_pairs_strs(&h),
            }
        },
    }
}

/// The body of the native `http.get` primitive: the reply text, or the
/// failure message for the Lua-side shim to raise.
pub fn http_get_cb(url: String, opts: Option<mlua::Table>) -> (Option<String>, Option<String>) {
    match collect_headers(&opts) {
        Result::Err(m) => (None, Some(m)),
        Result::Ok(headers) => {
            match http_get(url.as_str(), &headers) {
                Result::Ok(s) => (Some(s), None),
                Result::Err(m) => (None, Some(m)),
            }
        },
    }
}

/// The body of the native `http.post` primitive: the reply text, or the
/// failure message for the Lua-side shim to raise.
pub fn http_post_cb(url: String, body: String, opts: Option<mlua::Table>) -> (
    Option<String>,
    Option<String>,
) {
    match collect_headers(&opts) {
        Result::Err(m) => (None, Some(m)),
        Result::Ok(headers) => {
            match http_post(url.as_str(), body.as_str(), &headers) {
                Result::Ok(s) => (Some(s), None),
                Result::Err(m) => (None, Some(m)),
            }
        },
    }
}

/// The body of the native `json.encode` primitive: the JSON text, or the
/// failure message for the Lua-side shim to raise.
pub fn json_encode_cb(v: mlua::Value) -> (Option<String>, Option<String>) {
    match json_encode_value(&v) {
        Result::Ok(s) => (Some(s), None),
        Result::Err(m) => (None, Some(m)),
    }
}

/// The body of the native `json.decode` primitive: the decoded value, or
/// the failure message for the Lua-side shim to raise.
pub fn json_decode_cb(lua: &mlua::Lua, s: String) -> (Option<mlua::Value>, Option<String>) {
    match json_parse_value(s.as_str()) {
        Result::Ok(v) => {
            match json_value_to_lua(lua, &v) {
                Result::Ok(lv) => (Some(lv), None),
                Result::Err(m) => (None, Some(m)),
            }
        },
        Result::Err(m) => (None, Some(m)),
    }
}

/// Relies on `mlua::Lua::create_function` and `mlua::Table::set`: exposes
/// the `http.get` primitive; the closure only calls `http_get_cb`.
#[verifier::external_body]
fn register_http_get(lua: &mlua::Lua, tbl: &mlua::Table) -> (r: Result<(), String>) {
    let f = lua
        .create_function(|_, (url, opts): (String, Option<mlua::Table>)| Ok(http_get_cb(url, opts)))
        .map_err(|e| e.to_string())?;
    tbl.set("get", f).map_err(|e| e.to_string())
}

/// Relies on `mlua::Lua::create_function` and `mlua::Table::set`: exposes
/// the `http.post` primitive; the closure only calls `http_post_cb`.
#[verifier::external_body]
fn register_http_post(lua: &mlua::Lua, tbl: &mlua::Table) -> (r: Result<(), String>) {
    let f = lua
        .create_function(
            |_, (url, body, opts): (String, String, Option<mlua::Table>)| Ok(http_post_cb(
                url,
                body,
                opts,
            )),
        )
        .map_err(|e| e.to_string())?;
    tbl.set("post", f).map_err(|e| e.to_string())
}

/// Relies on `mlua::Lua::create_function` and `mlua::Table::set`: exposes
/// the `json.encode` primitive; the closure only calls `json_encode_cb`.
#[verifier::external_body]
fn register_json_encode(lua: &mlua::Lua, tbl: &mlua::Table) -> (r: Result<(), String>) {
    let f = lua
        .create_function(|_, v: mlua::Value| Ok(json_encode_cb(v)))
        .map_err(|e| e.to_string())?;
    tbl.set("encode", f).map_err(|e| e.to_string())
}

/// Relies on `mlua::Lua::create_function` and `mlua::Table::set`: exposes
/// the `json.decode` primitive; the closure only calls `json_decode_cb`.
#[verifier::external_body]
fn register_json_decode(lua: &mlua::Lua, tbl: &mlua::Table) -> (r: Result<(), String>) {
    let f = lua
        .create_function(|l, s: String| Ok(json_decode_cb(l, s)))
        .map_err(|e| e.to_string())?;
    tbl.set("decode", f).map_err(|e| e.to_string())
}

/// Relies on `mlua::Lua::create_function` and `mlua::Table::set`: exposes
/// the native `cache_key` helper; the closure only calls
/// `cache_file_name`.
#[verifier::external_body]
pub fn register_cache_key(lua: &mlua::Lua, tbl: &mlua::Table) -> (r: Result<(), String>) {
    let f = lua
        .create_function(|_, name: String| Ok(crate::plugins::cache_file_name(name.as_str())))
        .map_err(|e| e.to_string())?;
    tbl.set("cache_key", f).map_err(|e| e.to_string())
}

/// The native `http` module: outbound GET and POST with optional headers.
pub fn http_loader(lua: &mlua::Lua) -> Result<mlua::Table, String> {
    let tbl = lua_new_table(lua)?;
    register_http_get(lua, &tbl)?;
    register_http_post(lua, &tbl)?;
    Ok(tbl)
}

/// The native `json` module: JSON encode and decode for plugin scripts.
pub fn json_loader(lua: &mlua::Lua) -> Result<mlua::Table, String> {
    let tbl = lua_new_table(lua)?;
    register_json_encode(lua, &tbl)?;
    register_json_decode(lua, &tbl)?;
    Ok(tbl)
}

} // verus!
