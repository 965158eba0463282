//! The plugin host: loads user-supplied Lua scripts, keeps the registry
//! of the tools they publish, and resolves tool invocations by composite
//! `plugin-tool` name.

pub mod bindings;
pub mod lua;

use vstd::prelude::*;
use crate::claude::api::Tool;
use crate::claude::api::spec_tool_name;
use crate::claude::schema::Schema;
use crate::dispatch::ToolHost;
use crate::dispatch::find_first_char;
use crate::dispatch::lemma_find_first_char;
use crate::dispatch::spec_find_first;
use crate::strings::chars_to_string;
use crate::strings::concat_str;
use crate::strings::str_eq;
use crate::strings::to_chars;
use bindings::http_loader;
use bindings::json_loader;
use bindings::register_cache_key;
use lua::lua_call_method;
use lua::lua_exec;
use lua::lua_globals;
use lua::lua_new;
use lua::lua_new_table;
use lua::lua_preload;
use lua::table_get_function;
use lua::table_get_opt_str;
use lua::table_get_opt_table;
use lua::table_get_table;
use lua::table_pairs_tables;
use lua::table_seq_strs;
use lua::table_set_str;
use lua::table_set_table;
use vstd::string::*;

verus! {

/// One script handed to the host: its display name and its source text.
#[derive(Debug, PartialEq)]
pub struct PluginScript {
    pub name: String,
    pub source: String,
}

/// One script that failed during a load, with the failure rendered.
#[derive(Debug, PartialEq)]
pub struct ScriptFailure {
    pub script: String,
    pub message: String,
}

/// Why a tool invocation returned no output.
#[derive(Debug, PartialEq)]
pub enum HostError {
    /// No registered tool matches the composite name.
    NotFound,
    /// The tool's callback itself failed, with its message.
    Invocation { message: String },
}

impl HostError {
    /// Render this error as one human-readable line.
    pub fn message(&self) -> (r: String)
        ensures
            self matches HostError::Invocation { message } ==> r@ == message@,
            self is NotFound ==> r@ == "No tool found!"@,
    {
        match self {
            HostError::NotFound => "No tool found!".to_owned(),
            HostError::Invocation { message } => message.clone(),
        }
    }
}

/// One registered tool: its short name and the Lua callback that runs it.
pub struct Command {
    pub name: String,
    pub method: mlua::Function,
}

/// One loaded plugin: its name, its Lua-side table (handed to callbacks),
/// and its registered commands.
pub struct Plugin {
    pub name: String,
    pub table: mlua::Table,
    pub commands: Vec<Command>,
}

/// The abstract value of a plugin: its name and its command names.
pub struct PluginView {
    pub name: Seq<char>,
    pub commands: Seq<Seq<char>>,
}

impl View for Plugin {
    type V = PluginView;

    open spec fn view(&self) -> PluginView {
        PluginView { name: self.name@, commands: self.commands@.map_values(|c: Command| c.name@) }
    }
}

/// The abstract registry of a sequence of plugins.
pub open spec fn reg_views(s: Seq<Plugin>) -> Seq<PluginView> {
    s.map_values(|p: Plugin| p@)
}

/// The composite key a tool is invoked by: `plugin-tool`.
pub open spec fn composite_name(plug: Seq<char>, cmd: Seq<char>) -> Seq<char> {
    plug + seq!['-'] + cmd
}

/// The composite names of one plugin's tools, in order.
pub open spec fn partial_names(plug: Seq<char>, cmds: Seq<Seq<char>>) -> Seq<Seq<char>> {
    cmds.map_values(|c: Seq<char>| composite_name(plug, c))
}

/// The composite names of one plugin's tools.
pub open spec fn plugin_tool_names(p: PluginView) -> Seq<Seq<char>> {
    partial_names(p.name, p.commands)
}

/// All composite tool names of a registry, plugin by plugin, in order.
pub open spec fn flat_names(reg: Seq<PluginView>) -> Seq<Seq<char>>
    decreases reg.len(),
{
    if reg.len() == 0 {
        Seq::empty()
    } else {
        flat_names(reg.drop_last()) + plugin_tool_names(reg.last())
    }
}

/// The names of a tool list, in order.
pub open spec fn tool_names_of(ts: Seq<Tool>) -> Seq<Seq<char>> {
    ts.map_values(|t: Tool| spec_tool_name(t))
}

/// No two entries of `s` are equal.
pub open spec fn distinct_strs(s: Seq<Seq<char>>) -> bool {
    forall|a: int, b: int| 0 <= a < b < s.len() ==> s[a] != s[b]
}

/// The plugin names of a registry, in order.
pub open spec fn reg_names(reg: Seq<PluginView>) -> Seq<Seq<char>> {
    reg.map_values(|p: PluginView| p.name)
}

/// Plugin names are unique, and tool names are unique within each plugin.
pub open spec fn registry_distinct(reg: Seq<PluginView>) -> bool {
    distinct_strs(reg_names(reg)) && (forall|i: int|
        0 <= i < reg.len() ==> distinct_strs(#[trigger] reg[i].commands))
}

/// Whether the composite `name` resolves to a registered tool: the part
/// before the first dash names a plugin, the part after it one of that
/// plugin's tools.
pub open spec fn has_tool(reg: Seq<PluginView>, name: Seq<char>) -> bool {
    let d = spec_find_first(name, '-');
    d >= 0 && exists|i: int, j: int|
        0 <= i < reg.len() && 0 <= j < reg[i].commands.len() && reg[i].name == name.subrange(
            0,
            d,
        ) && (#[trigger] reg[i].commands[j]) == name.subrange(d + 1, name.len() as int)
}

/// What an outside digest function computes of a plugin name; relies on
/// `md5::compute`, whose result depends on the input bytes alone.
pub uninterp spec fn md5_hex_of(s: Seq<char>) -> Seq<char>;

/// Relies on `md5::compute` and its lower-hex rendering: 16 digest bytes
/// become exactly 32 hex characters, a function of the input alone.
#[verifier::external_body]
fn md5_hex(s: &str) -> (r: String)
    ensures
        r@ == md5_hex_of(s@),
        r@.len() == 32,
{
    format!("{:x}", md5::compute(s))
}

/// The file name a plugin's cache table persists under: the hex digest of
/// the plugin's name with a `.json` suffix.
pub fn cache_file_name(plugin_name: &str) -> (r: String)
    ensures
        r@ == md5_hex_of(plugin_name@) + ".json"@,
        r@.len() == 32 + ".json"@.len(),
{
    concat_str(md5_hex(plugin_name), ".json")
}

/// The module name a library file resolves as: `a/b.lua` loads for
/// `require("a.b")`; files without the `.lua` suffix resolve nothing.
pub open spec fn spec_module_name(path: Seq<char>) -> Option<Seq<char>> {
    if path.len() >= 4 && path.subrange(path.len() - 4, path.len() as int) == seq![
        '.',
        'l',
        'u',
        'a',
    ] {
        Some(
            path.subrange(0, path.len() - 4).map_values(
                |c: char|
                    if c == '/' {
                        '.'
                    } else {
                        c
                    },
            ),
        )
    } else {
        None
    }
}

/// The module name of a library file path, or `None` for a file that is
/// not a Lua module.
pub fn module_name_of_path(path: &str) -> (r: Option<String>)
    ensures
        match r {
            Option::Some(n) => spec_module_name(path@) matches Option::Some(m) && n@ == m,
            Option::None => spec_module_name(path@) is None,
        },
{
    let chars = to_chars(path);
    let n = chars.len();
    if n < 4 {
        return None;
    }
    let suffix_ok = chars[n - 4] == '.' && chars[n - 3] == 'l' && chars[n - 2] == 'u'
        && chars[n - 1] == 'a';
    proof {
        if suffix_ok {
            assert(path@.subrange(n - 4, n as int) =~= seq!['.', 'l', 'u', 'a']);
        } else {
            assert(path@.subrange(n - 4, n as int) != seq!['.', 'l', 'u', 'a']) by {
                if path@.subrange(n - 4, n as int) == seq!['.', 'l', 'u', 'a'] {
                    assert(path@.subrange(n - 4, n as int)[0] == '.');
                    assert(path@.subrange(n - 4, n as int)[1] == 'l');
                    assert(path@.subrange(n - 4, n as int)[2] == 'u');
                    assert(path@.subrange(n - 4, n as int)[3] == 'a');
                }
            }
        }
    }
    if !suffix_ok {
        return None;
    }
    let mut out: Vec<char> = Vec::new();
    let mut i: usize = 0;
    while i < n - 4
        invariant
            i <= n - 4,
            n == chars@.len(),
            chars@ == path@,
            out@ == path@.subrange(0, n - 4).map_values(
                |c: char|
                    if c == '/' {
                        '.'
                    } else {
                        c
                    },
            ).take(i as int),
        decreases n - 4 - i,
    {
        let c = chars[i];
        if c == '/' {
            out.push('.');
        } else {
            out.push(c);
        }
        proof {
            assert(out@ =~= path@.subrange(0, n - 4).map_values(
                |c: char|
                    if c == '/' {
                        '.'
                    } else {
                        c
                    },
            ).take(i + 1));
        }
        i += 1;
    }
    proof {
        let mapped = path@.subrange(0, n - 4).map_values(
            |c: char|
                if c == '/' {
                    '.'
                } else {
                    c
                },
        );
        assert(mapped.take(mapped.len() as int) =~= mapped);
    }
    Some(chars_to_string(&out))
}

/// The preloaded module table of a library-file list: each file that is a
/// Lua module, under its module name, first occurrence winning.
pub open spec fn module_table_model(
    ms: Seq<(Seq<char>, Seq<char>)>,
    seen: Seq<Seq<char>>,
) -> Seq<(Seq<char>, Seq<char>)>
    decreases ms.len(),
{
    if ms.len() == 0 {
        Seq::empty()
    } else {
        match spec_module_name(ms[0].0) {
            Option::None => module_table_model(ms.drop_first(), seen),
            Option::Some(n) => if seen.contains(n) {
                module_table_model(ms.drop_first(), seen)
            } else {
                seq![(n, ms[0].1)] + module_table_model(ms.drop_first(), seen.push(n))
            },
        }
    }
}

/// The views of a script list as (name, source) pairs.
pub open spec fn script_views(ms: Seq<PluginScript>) -> Seq<(Seq<char>, Seq<char>)> {
    ms.map_values(|m: PluginScript| (m.name@, m.source@))
}

/// The views of a name-to-source table.
pub open spec fn pair_views(ms: Seq<(String, String)>) -> Seq<(Seq<char>, Seq<char>)> {
    ms.map_values(|m: (String, String)| (m.0@, m.1@))
}

proof fn lemma_pair_views_push(s: Seq<(String, String)>, x: (String, String))
    ensures
        pair_views(s.push(x)) == pair_views(s).push((x.0@, x.1@)),
        names_of_pairs(s.push(x)) == names_of_pairs(s).push(x.0@),
{
    assert(pair_views(s.push(x)) =~= pair_views(s).push((x.0@, x.1@)));
    assert(names_of_pairs(s.push(x)) =~= names_of_pairs(s).push(x.0@));
}

/// Resolve the library files into the module table the interpreter will
/// consult: names translate as paths, and among files resolving to the
/// same module name the first one wins.
pub fn module_table(modules: &Vec<PluginScript>) -> (r: Vec<(String, String)>)
    ensures
        pair_views(r@) == module_table_model(script_views(modules@), Seq::empty()),
{
    let ghost all = script_views(modules@);
    let mut out: Vec<(String, String)> = Vec::new();
    let mut i: usize = 0;
    proof {
        assert(names_of_pairs(out@) =~= Seq::<Seq<char>>::empty());
        assert(pair_views(out@) =~= Seq::<(Seq<char>, Seq<char>)>::empty());
        assert(pair_views(out@) + module_table_model(all.skip(0), names_of_pairs(out@))
            =~= module_table_model(all.skip(0), names_of_pairs(out@)));
        assert(all.skip(0) =~= all);
    }
    while i < modules.len()
        invariant
            i <= modules@.len(),
            all == script_views(modules@),
            all.len() == modules@.len(),
            module_table_model(all, Seq::empty()) =~= pair_views(out@) + module_table_model(
                all.skip(i as int),
                names_of_pairs(out@),
            ),
        decreases modules@.len() - i,
    {
        let ghost rest_pre = all.skip(i as int);
        let ghost out_pre = pair_views(out@);
        let ghost seen_pre = names_of_pairs(out@);
        proof {
            assert(rest_pre[0] == all[i as int]);
            assert(rest_pre.drop_first() =~= all.skip(i + 1));
        }
        let name = module_name_of_path(modules[i].name.as_str());
        match name {
            Option::Some(n) => {
                if contains_pair_name(&out, n.as_str()) {
                    proof {
                        assert(module_table_model(rest_pre, seen_pre) == module_table_model(
                            rest_pre.drop_first(),
                            seen_pre,
                        ));
                    }
                } else {
                    let ghost out_vec_pre = out@;
                    let ghost m = spec_module_name(all[i as int].0).unwrap();
                    let src = modules[i].source.clone();
                    out.push((n, src));
                    proof {
                        let x = out@.last();
                        assert(out@ =~= out_vec_pre.push(x));
                        lemma_pair_views_push(out_vec_pre, x);
                        assert(x.0@ == m);
                        assert(x.1@ == all[i as int].1);
                        assert(!seen_pre.contains(m));
                        assert(module_table_model(rest_pre, seen_pre) == seq![(m, all[i as int].1)]
                            + module_table_model(rest_pre.drop_first(), seen_pre.push(m)));
                        assert(pair_views(out@) =~= out_pre.push((m, all[i as int].1)));
                        assert(names_of_pairs(out@) =~= seen_pre.push(m));
                        assert(out_pre + (seq![(m, all[i as int].1)] + module_table_model(
                            all.skip(i + 1),
                            seen_pre.push(m),
                        )) =~= pair_views(out@) + module_table_model(
                            all.skip(i + 1),
                            names_of_pairs(out@),
                        ));
                    }
                }
            },
            Option::None => {
                proof {
                    assert(module_table_model(rest_pre, seen_pre) == module_table_model(
                        rest_pre.drop_first(),
                        seen_pre,
                    ));
                }
            },
        }
        i += 1;
    }
    out
}

/// The module names of a name-to-source table.
pub open spec fn names_of_pairs(ms: Seq<(String, String)>) -> Seq<Seq<char>> {
    ms.map_values(|m: (String, String)| m.0@)
}

/// Whether `v` holds a pair whose name reads `s`.
fn contains_pair_name(v: &Vec<(String, String)>, s: &str) -> (r: bool)
    ensures
        r == names_of_pairs(v@).contains(s@),
{
    let mut i: usize = 0;
    while i < v.len()
        invariant
            i <= v@.len(),
            forall|j: int| 0 <= j < i ==> v@[j].0@ != s@,
        decreases v@.len() - i,
    {
        if str_eq(v[i].0.as_str(), s) {
            proof {
                assert(names_of_pairs(v@)[i as int] == s@);
            }
            return true;
        }
        i += 1;
    }
    proof {
        if names_of_pairs(v@).contains(s@) {
            let j = choose|j: int|
                0 <= j < names_of_pairs(v@).len() && names_of_pairs(v@)[j] == s@;
            assert(v@[j].0@ == s@);
        }
    }
    false
}


/// The host-side runtime handed to every plugin script: the `bot` module
/// with `plugin`/`register` and the per-plugin cache, `http` and `json`
/// shims over the native primitives, and a `require` that yields a
/// "not found" sentinel for unresolved names so that scripts can probe
/// for optional modules.
fn bootstrap_source() -> &'static str {
    r#"
local bot = { plugins = {} }
function bot.plugin(name, description)
  local p = { name = name, description = description, commands = {} }
  p.command = function(self, cmd) self.commands[cmd.name] = cmd end
  p.log = function(self, ...) end
  local cache = { data = {}, _ref = p }
  cache.get = function(c, key) return c.data[key] end
  cache.set = function(c, key, value) c.data[key] = value end
  cache.clear = function(c) c.data = {} end
  cache.load = function(c)
    local f = io.open("cache/" .. __native.cache_key(c._ref.name), "r")
    if f then
      local buf = f:read("*a")
      f:close()
      local v = __native_json.decode(buf)
      if v then c.data = v end
    end
  end
  cache.save = function(c)
    local f = io.open("cache/" .. __native.cache_key(c._ref.name), "w")
    if f then
      local v = __native_json.encode(c.data)
      if v then f:write(v) end
      f:close()
    end
  end
  p.cache = cache
  return p
end
function bot.register(a, b)
  local p = b or a
  bot.plugins[p.name] = p
end
package.loaded.bot = bot
local http = {}
function http.get(url, opts)
  local v, e = __native_http.get(url, opts)
  if e then error(e) end
  return v
end
function http.post(url, body, opts)
  local v, e = __native_http.post(url, body, opts)
  if e then error(e) end
  return v
end
package.loaded.http = http
local json = {}
function json.encode(value)
  local v, e = __native_json.encode(value)
  if e then error(e) end
  return v
end
function json.decode(buf)
  local v, e = __native_json.decode(buf)
  if e then error(e) end
  return v
end
package.loaded.json = json
local raw_require = require
require = function(name)
  local ok, mod = pcall(raw_require, name)
  if ok then return mod end
  return "not found"
end
"#
}

/// Read a tool-input schema out of the table a plugin script declared:
/// a `type` field selects the kind, objects carry `properties` and
/// `required`, arrays carry `items`.
fn extract_schema(t: &mlua::Table, depth: usize) -> Result<Schema, String>
    decreases depth,
{
    if depth == 0 {
        return Err("schema nests too deep".to_owned());
    }
    let kind = match table_get_opt_str(t, "type")? {
        Option::Some(k) => k,
        Option::None => {
            return Err("schema table has no type field".to_owned());
        },
    };
    let description = match table_get_opt_str(t, "description")? {
        Option::Some(d) => d,
        Option::None => String::new(),
    };
    if str_eq(kind.as_str(), "string") {
        Ok(Schema::String { description })
    } else if str_eq(kind.as_str(), "integer") {
        Ok(Schema::Integer { description })
    } else if str_eq(kind.as_str(), "number") {
        Ok(Schema::Number { description })
    } else if str_eq(kind.as_str(), "array") {
        match table_get_opt_table(t, "items")? {
            Option::Some(it) => {
                let items = extract_schema(&it, depth - 1)?;
                Ok(Schema::Array { description, items: Box::new(items) })
            },
            Option::None => Err("array schema has no items".to_owned()),
        }
    } else if str_eq(kind.as_str(), "object") {
        let mut properties: Vec<(String, Schema)> = Vec::new();
        match table_get_opt_table(t, "properties")? {
            Option::None => {},
            Option::Some(pt) => {
                let mut entries = table_pairs_tables(&pt)?;
                while entries.len() > 0
                    invariant
                        depth >= 1,
                    decreases entries@.len(),
                {
                    let (pname, ptable) = entries.remove(0);
                    let ps = extract_schema(&ptable, depth - 1)?;
                    if !props_contain(&properties, pname.as_str()) {
                        properties.push((pname, ps));
                    }
                }
            },
        }
        let required = match table_get_opt_table(t, "required")? {
            Option::Some(rt) => table_seq_strs(&rt)?,
            Option::None => Vec::new(),
        };
        Ok(Schema::Object { properties, required })
    } else {
        Err("schema table has an unknown type".to_owned())
    }
}

/// Whether a property of this name was already collected.
fn props_contain(props: &Vec<(String, Schema)>, name: &str) -> (r: bool)
    ensures
        r == exists|i: int| 0 <= i < props@.len() && (#[trigger] props@[i].0@) == name@,
{
    let mut i: usize = 0;
    while i < props.len()
        invariant
            i <= props@.len(),
            forall|j: int| 0 <= j < i ==> (#[trigger] props@[j].0@) != name@,
        decreases props@.len() - i,
    {
        if str_eq(props[i].0.as_str(), name) {
            return true;
        }
        i += 1;
    }
    false
}

proof fn lemma_tool_names_push(ts: Seq<Tool>, t: Tool)
    ensures
        tool_names_of(ts.push(t)) == tool_names_of(ts).push(spec_tool_name(t)),
{
    assert(tool_names_of(ts.push(t)) =~= tool_names_of(ts).push(spec_tool_name(t)));
}

proof fn lemma_partial_names_push(plug: Seq<char>, cs: Seq<Seq<char>>, c: Seq<char>)
    ensures
        partial_names(plug, cs.push(c)) == partial_names(plug, cs).push(composite_name(plug, c)),
{
    assert(partial_names(plug, cs.push(c)) =~= partial_names(plug, cs).push(
        composite_name(plug, c),
    ));
}

proof fn lemma_cmd_names_push(cs: Seq<Command>, c: Command)
    ensures
        cmd_names(cs.push(c)) == cmd_names(cs).push(c.name@),
{
    assert(cmd_names(cs.push(c)) =~= cmd_names(cs).push(c.name@));
}

proof fn lemma_reg_views_push(s: Seq<Plugin>, p: Plugin)
    ensures
        reg_views(s.push(p)) == reg_views(s).push(p@),
{
    assert(reg_views(s.push(p)) =~= reg_views(s).push(p@));
}

/// The command names of a command list, in order.
pub open spec fn cmd_names(cs: Seq<Command>) -> Seq<Seq<char>> {
    cs.map_values(|c: Command| c.name@)
}

/// Read the whole plugin registry back out of the interpreter: every
/// registered plugin with its commands, and the flattened tool list whose
/// composite names follow the registry exactly, plugin by plugin.
fn extract_registry(lua: &mlua::Lua) -> (r: Result<(Vec<Plugin>, Vec<Tool>), String>)
    ensures
        r matches Ok(pair) ==> tool_names_of(pair.1@) == flat_names(reg_views(pair.0@))
            && registry_distinct(reg_views(pair.0@)),
{
    let g = lua_globals(lua);
    let pkg = table_get_table(&g, "package")?;
    let loaded = table_get_table(&pkg, "loaded")?;
    let bot = table_get_table(&loaded, "bot")?;
    let plugins_tbl = table_get_table(&bot, "plugins")?;
    let mut entries = table_pairs_tables(&plugins_tbl)?;
    let mut reg: Vec<Plugin> = Vec::new();
    let mut tools: Vec<Tool> = Vec::new();
    proof {
        assert(reg_views(reg@) =~= Seq::<PluginView>::empty());
        assert(tool_names_of(tools@) =~= Seq::<Seq<char>>::empty());
        assert(tool_names_of(tools@) =~= flat_names(reg_views(reg@)));
    }
    while entries.len() > 0
        invariant
            tool_names_of(tools@) == flat_names(reg_views(reg@)),
            registry_distinct(reg_views(reg@)),
        decreases entries@.len(),
    {
        let (plugname, ptable) = entries.remove(0);
        if find_plugin(&reg, plugname.as_str()).is_some() {
            continue;
        }
        let commands_tbl = table_get_table(&ptable, "commands")?;
        let mut cpairs = table_pairs_tables(&commands_tbl)?;
        let mut cmds: Vec<Command> = Vec::new();
        let ghost base_names = tool_names_of(tools@);
        proof {
            assert(cmd_names(cmds@) =~= Seq::<Seq<char>>::empty());
            assert(partial_names(plugname@, cmd_names(cmds@)) =~= Seq::<Seq<char>>::empty());
            assert(base_names + partial_names(plugname@, cmd_names(cmds@)) =~= base_names);
        }
        while cpairs.len() > 0
            invariant
                tool_names_of(tools@) == base_names + partial_names(
                    plugname@,
                    cmd_names(cmds@),
                ),
                distinct_strs(cmd_names(cmds@)),
            decreases cpairs@.len(),
        {
            let (cmdname, ctable) = cpairs.remove(0);
            if find_command(&cmds, cmdname.as_str()).is_some() {
                continue;
            }
            proof {
                assert(forall|k: int|
                    0 <= k < cmds@.len() ==> (#[trigger] cmds@[k].name@) != cmdname@);
            }
            let description = match table_get_opt_str(&ctable, "description")? {
                Option::Some(d) => d,
                Option::None => String::new(),
            };
            let method = table_get_function(&ctable, "method")?;
            let schema = match table_get_opt_table(&ctable, "schema")? {
                Option::Some(st) => extract_schema(&st, 32)?,
                Option::None => Schema::default(),
            };
            let composite = concat_str(concat_str(plugname.clone(), "-"), cmdname.as_str());
            proof {
                reveal_strlit("-");
                assert("-"@ =~= seq!['-']);
                assert(composite@ == composite_name(plugname@, cmdname@));
            }
            let ghost tools_pre = tools@;
            let ghost cmds_pre = cmds@;
            tools.push(Tool::Custom { name: composite, description, input_schema: schema });
            cmds.push(Command { name: cmdname, method });
            proof {
                lemma_tool_names_push(tools_pre, tools@.last());
                lemma_cmd_names_push(cmds_pre, cmds@.last());
                lemma_partial_names_push(plugname@, cmd_names(cmds_pre), cmds@.last().name@);
                assert(tools@ =~= tools_pre.push(tools@.last()));
                assert(cmds@ =~= cmds_pre.push(cmds@.last()));
                assert(spec_tool_name(tools@.last()) == composite_name(
                    plugname@,
                    cmds@.last().name@,
                ));
                assert(base_names + partial_names(plugname@, cmd_names(cmds@)) =~= (base_names
                    + partial_names(plugname@, cmd_names(cmds_pre))).push(
                    composite_name(plugname@, cmds@.last().name@),
                ));
                assert forall|a: int, b: int|
                    0 <= a < b < cmd_names(cmds@).len() implies cmd_names(cmds@)[a] != cmd_names(
                    cmds@,
                )[b] by {
                    if b < cmds_pre.len() {
                        assert(cmd_names(cmds_pre)[a] != cmd_names(cmds_pre)[b]);
                    } else {
                        assert(cmd_names(cmds@)[b] == cmds@.last().name@);
                        assert(cmds_pre[a].name@ != cmds@.last().name@);
                    }
                }
            }
        }
        proof {
            assert(forall|k: int|
                0 <= k < reg@.len() ==> (#[trigger] reg@[k].name@) != plugname@);
        }
        let ghost reg_pre = reg@;
        let p = Plugin { name: plugname, table: ptable, commands: cmds };
        let ghost pv = p@;
        reg.push(p);
        proof {
            lemma_reg_views_push(reg_pre, reg@.last());
            assert(reg@ =~= reg_pre.push(reg@.last()));
            assert(reg_views(reg@).drop_last() =~= reg_views(reg_pre));
            assert(plugin_tool_names(pv) == partial_names(pv.name, pv.commands));
            assert(flat_names(reg_views(reg@)) == flat_names(reg_views(reg_pre))
                + plugin_tool_names(reg_views(reg@).last()));
            assert(tool_names_of(tools@) =~= flat_names(reg_views(reg@)));
            assert(reg_names(reg_views(reg@)) =~= reg_names(reg_views(reg_pre)).push(pv.name));
            assert forall|a: int, b: int|
                0 <= a < b < reg_names(reg_views(reg@)).len() implies reg_names(
                reg_views(reg@),
            )[a] != reg_names(reg_views(reg@))[b] by {
                if b < reg_pre.len() {
                    assert(reg_names(reg_views(reg_pre))[a] != reg_names(reg_views(reg_pre))[b]);
                } else {
                    assert(reg_names(reg_views(reg@))[b] == pv.name);
                    assert(reg_pre[a].name@ != plugname@);
                    assert(reg_names(reg_views(reg@))[a] == reg_pre[a].name@);
                }
            }
            assert forall|i: int|
                0 <= i < reg_views(reg@).len() implies distinct_strs(
                #[trigger] reg_views(reg@)[i].commands,
            ) by {
                if i < reg_pre.len() {
                    assert(reg_views(reg@)[i] == reg_views(reg_pre)[i]);
                    assert(distinct_strs(reg_views(reg_pre)[i].commands));
                } else {
                    assert(reg_views(reg@)[i] == pv);
                }
            }
        }
    }
    Ok((reg, tools))
}

/// The index of the plugin with this name, if any.
fn find_plugin(reg: &Vec<Plugin>, name: &str) -> (r: Option<usize>)
    ensures
        match r {
            Option::Some(i) => i < reg@.len() && reg@[i as int].name@ == name@,
            Option::None => forall|i: int| 0 <= i < reg@.len() ==> (#[trigger] reg@[i].name@)
                != name@,
        },
{
    let mut i: usize = 0;
    while i < reg.len()
        invariant
            i <= reg@.len(),
            forall|j: int| 0 <= j < i ==> (#[trigger] reg@[j].name@) != name@,
        decreases reg@.len() - i,
    {
        if str_eq(reg[i].name.as_str(), name) {
            return Some(i);
        }
        i += 1;
    }
    None
}

/// The index of the command with this name, if any.
fn find_command(cmds: &Vec<Command>, name: &str) -> (r: Option<usize>)
    ensures
        match r {
            Option::Some(j) => j < cmds@.len() && cmds@[j as int].name@ == name@,
            Option::None => forall|j: int| 0 <= j < cmds@.len() ==> (#[trigger] cmds@[j].name@)
                != name@,
        },
{
    let mut j: usize = 0;
    while j < cmds.len()
        invariant
            j <= cmds@.len(),
            forall|k: int| 0 <= k < j ==> (#[trigger] cmds@[k].name@) != name@,
        decreases cmds@.len() - j,
    {
        if str_eq(cmds[j].name.as_str(), name) {
            return Some(j);
        }
        j += 1;
    }
    None
}

/// The plugin host: the embedded interpreter, the registry of loaded
/// plugins, and the flattened tool list the agent loop declares to the
/// remote model.  The registry is rebuilt wholesale on each successful
/// load; a failed load leaves the previous registry active.
pub struct PluginEnv {
    lua: mlua::Lua,
    registry: Vec<Plugin>,
    tool_list: Vec<Tool>,
}

impl PluginEnv {
    /// The abstract registry.
    pub closed spec fn registry_view(&self) -> Seq<PluginView> {
        reg_views(self.registry@)
    }

    /// The tool list as published to the agent loop.
    pub closed spec fn spec_tool_list(&self) -> Seq<Tool> {
        self.tool_list@
    }

    /// The published tool names follow the registry exactly, plugin by
    /// plugin.
    pub open spec fn wf(&self) -> bool {
        tool_names_of(self.spec_tool_list()) == flat_names(self.registry_view())
    }

    /// A fresh host with no plugins loaded.
    pub fn new() -> (r: PluginEnv)
        ensures
            r.wf(),
            r.registry_view() == Seq::<PluginView>::empty(),
            r.spec_tool_list() == Seq::<Tool>::empty(),
    {
        let env = PluginEnv { lua: lua_new(), registry: Vec::new(), tool_list: Vec::new() };
        proof {
            assert(env.registry_view() =~= Seq::<PluginView>::empty());
            assert(tool_names_of(env.spec_tool_list()) =~= Seq::<Seq<char>>::empty());
        }
        env
    }

    /// The tools of all loaded plugins, under their composite names.
    pub fn tools(&self) -> (r: &Vec<Tool>)
        ensures
            r@ == self.spec_tool_list(),
            self.wf() ==> tool_names_of(r@) == flat_names(self.registry_view()),
    {
        &self.tool_list
    }

    /// Install the host runtime into a fresh interpreter.
    fn init_runtime(&self) -> Result<(), String> {
        let g = lua_globals(&self.lua);
        let native = lua_new_table(&self.lua)?;
        register_cache_key(&self.lua, &native)?;
        table_set_table(&g, "__native", &native)?;
        let http_tbl = http_loader(&self.lua)?;
        table_set_table(&g, "__native_http", &http_tbl)?;
        let json_tbl = json_loader(&self.lua)?;
        table_set_table(&g, "__native_json", &json_tbl)?;
        lua_exec(&self.lua, bootstrap_source(), "bootstrap")
    }

    /// Load (or reload) the plugin set: run every script against the host
    /// runtime, then rebuild the registry and tool list wholesale from
    /// what the scripts registered.  Script failures are collected per
    /// script, and any failure leaves the previous registry and tool list
    /// active.
    pub fn load(
        &mut self,
        scripts: &Vec<PluginScript>,
        modules: &Vec<PluginScript>,
        reload: bool,
    ) -> (r: Result<(), Vec<ScriptFailure>>)
        ensures
            r is Ok ==> final(self).wf() && registry_distinct(final(self).registry_view()),
            r is Err ==> final(self).registry_view() == old(self).registry_view()
                && final(self).spec_tool_list() == old(self).spec_tool_list()
                && final(self).wf() == old(self).wf(),
            r matches Err(fails) ==> fails@.len() > 0,
    {
        let mut failures: Vec<ScriptFailure> = Vec::new();
        let _ = lua_exec(&self.lua, "math.randomseed(os.time())", "seed");
        if !reload {
            if let Err(m) = self.init_runtime() {
                failures.push(ScriptFailure { script: "bootstrap".to_owned(), message: m });
                return Err(failures);
            }
        } else {
            if let Err(m) = lua_exec(&self.lua, "package.loaded.bot.plugins = {}", "reload") {
                failures.push(ScriptFailure { script: "reload".to_owned(), message: m });
                return Err(failures);
            }
        }
        let mods = module_table(modules);
        let mut i: usize = 0;
        while i < mods.len()
            decreases mods@.len() - i,
        {
            if let Err(m) = lua_preload(&self.lua, mods[i].0.as_str(), mods[i].1.as_str()) {
                failures.push(ScriptFailure { script: mods[i].0.clone(), message: m });
            }
            i += 1;
        }
        let mut j: usize = 0;
        while j < scripts.len()
            decreases scripts@.len() - j,
        {
            if let Err(m) = lua_exec(
                &self.lua,
                scripts[j].source.as_str(),
                scripts[j].name.as_str(),
            ) {
                failures.push(ScriptFailure { script: scripts[j].name.clone(), message: m });
            }
            j += 1;
        }
        if failures.len() > 0 {
            return Err(failures);
        }
        match extract_registry(&self.lua) {
            Result::Ok((reg, tools)) => {
                self.registry = reg;
                self.tool_list = tools;
                Ok(())
            },
            Result::Err(m) => {
                failures.push(ScriptFailure { script: "registry".to_owned(), message: m });
                Err(failures)
            },
        }
    }

    /// Resolve a composite `plugin-tool` name against the registry and
    /// run the matching callback on the given input.  A name that matches
    /// no registered tool yields `NotFound` exactly; a matching callback
    /// that fails yields its message as an invocation error.
    pub fn invoke_tool(&self, name: &str, input: &Vec<(String, String)>) -> (r: Result<
        Option<String>,
        HostError,
    >)
        ensures
            (r matches Err(e) && e is NotFound) <==> !has_tool(self.registry_view(), name@),
    {
        let chars = to_chars(name);
        let d_opt = find_first_char(&chars, '-');
        proof {
            lemma_find_first_char(name@, '-');
        }
        let d = match d_opt {
            Option::Some(d) => d,
            Option::None => {
                return Err(HostError::NotFound);
            },
        };
        let n = chars.len();
        let plugname = name.substring_char(0, d);
        let cmdname = name.substring_char(d + 1, n);
        let ghost pv = plugname@;
        let ghost cv = cmdname@;
        let mut i: usize = 0;
        while i < self.registry.len()
            invariant
                i <= self.registry@.len(),
                pv == name@.subrange(0, spec_find_first(name@, '-')),
                cv == name@.subrange(spec_find_first(name@, '-') + 1, name@.len() as int),
                pv == plugname@,
                cv == cmdname@,
                spec_find_first(name@, '-') >= 0,
                forall|ii: int, j: int|
                    0 <= ii < i && 0 <= j < self.registry_view()[ii].commands.len() ==> !(
                    self.registry_view()[ii].name == pv && (#[trigger] self.registry_view(
                    )[ii].commands[j]) == cv),
            decreases self.registry@.len() - i,
        {
            let plugin = &self.registry[i];
            proof {
                assert(self.registry_view()[i as int] == self.registry@[i as int]@);
                assert(self.registry_view()[i as int].name == plugin.name@);
                assert(self.registry_view()[i as int].commands.len() == plugin.commands@.len());
            }
            if str_eq(plugin.name.as_str(), plugname) {
                let j_opt = find_command(&plugin.commands, cmdname);
                if let Some(j) = j_opt {
                    proof {
                        assert(self.registry_view()[i as int].commands[j as int]
                            == plugin.commands@[j as int].name@);
                        assert(self.registry_view()[i as int].commands[j as int] == cv);
                        assert(has_tool(self.registry_view(), name@));
                    }
                    let input_tbl = match lua_new_table(&self.lua) {
                        Result::Ok(t) => t,
                        Result::Err(m) => {
                            return Err(HostError::Invocation { message: m });
                        },
                    };
                    let mut k: usize = 0;
                    while k < input.len()
                        invariant
                            has_tool(self.registry_view(), name@),
                        decreases input@.len() - k,
                    {
                        if let Err(m) = table_set_str(
                            &input_tbl,
                            input[k].0.as_str(),
                            input[k].1.as_str(),
                        ) {
                            return Err(HostError::Invocation { message: m });
                        }
                        k += 1;
                    }
                    match lua_call_method(&plugin.commands[j].method, &plugin.table, &input_tbl) {
                        Result::Ok(s) => {
                            return Ok(s);
                        },
                        Result::Err(m) => {
                            return Err(HostError::Invocation { message: m });
                        },
                    }
                } else {
                    proof {
                        assert forall|j: int|
                            0 <= j < self.registry_view()[i as int].commands.len() implies (
                        #[trigger] self.registry_view()[i as int].commands[j]) != cv by {
                            assert(self.registry_view()[i as int].commands[j]
                                == plugin.commands@[j].name@);
                        }
                    }
                }
            }
            i += 1;
        }
        proof {
            assert(!has_tool(self.registry_view(), name@));
        }
        Err(HostError::NotFound)
    }
}

impl ToolHost for PluginEnv {
    fn invoke_tool(&mut self, name: &str, input: &Vec<(String, String)>) -> Result<
        Option<String>,
        String,
    > {
        match PluginEnv::invoke_tool(self, name, input) {
            Result::Ok(s) => Ok(s),
            Result::Err(e) => Err(e.message()),
        }
    }
}

} // verus!
