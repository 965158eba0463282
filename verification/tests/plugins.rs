use scrubby::claude::Schema;
use scrubby::claude::Tool;
use scrubby::plugins::HostError;
use scrubby::plugins::PluginEnv;
use scrubby::plugins::PluginScript;
use scrubby::plugins::cache_file_name;
use scrubby::plugins::module_name_of_path;
use scrubby::plugins::module_table;
use scrubby::channel::Channel;
use scrubby::claude::Content;

fn weather_script() -> PluginScript {
    PluginScript {
        name: "weather.lua".to_string(),
        source: r#"
local bot = require("bot")
local p = bot.plugin("weather", "weather tools")
p:command({
  name = "forecast",
  description = "forecast for a place",
  schema = {
    type = "object",
    properties = { location = { type = "string", description = "place" } },
    required = { "location" },
  },
  method = function(self, input) return "Sunny in " .. input.location end,
})
bot.register(p)
"#
        .to_string(),
    }
}

#[test]
fn invoke_tool_reaches_the_registered_callback() {
    let mut env = PluginEnv::new();
    env.load(&vec![weather_script()], &Vec::new(), false).unwrap();

    let input = vec![("location".to_string(), "Seattle".to_string())];
    let r = env.invoke_tool("weather-forecast", &input);
    assert_eq!(r, Ok(Some("Sunny in Seattle".to_string())));

    let bogus = env.invoke_tool("weather-bogus", &Vec::new());
    assert_eq!(bogus, Err(HostError::NotFound));

    let no_dash = env.invoke_tool("weather", &Vec::new());
    assert_eq!(no_dash, Err(HostError::NotFound));
}

#[test]
fn tools_lists_composite_names_with_schemas() {
    let mut env = PluginEnv::new();
    env.load(&vec![weather_script()], &Vec::new(), false).unwrap();
    let tools = env.tools();
    assert_eq!(tools.len(), 1);
    match &tools[0] {
        Tool::Custom { name, description, input_schema } => {
            assert_eq!(name, "weather-forecast");
            assert_eq!(description, "forecast for a place");
            assert_eq!(
                *input_schema,
                Schema::Object {
                    properties: vec![(
                        "location".to_string(),
                        Schema::String { description: "place".to_string() },
                    )],
                    required: vec!["location".to_string()],
                }
            );
        }
        other => panic!("expected a custom tool, got {:?}", other),
    }
}

#[test]
fn reload_without_the_script_drops_its_tools() {
    let mut env = PluginEnv::new();
    env.load(&vec![weather_script()], &Vec::new(), false).unwrap();
    assert_eq!(env.tools().len(), 1);

    env.load(&Vec::new(), &Vec::new(), true).unwrap();
    assert_eq!(env.tools().len(), 0);
    assert_eq!(env.invoke_tool("weather-forecast", &Vec::new()), Err(HostError::NotFound));
}

#[test]
fn failed_script_is_reported_and_keeps_the_previous_set() {
    let mut env = PluginEnv::new();
    env.load(&vec![weather_script()], &Vec::new(), false).unwrap();

    let broken = PluginScript {
        name: "broken.lua".to_string(),
        source: "this is not lua at all (".to_string(),
    };
    let r = env.load(&vec![broken], &Vec::new(), true);
    let failures = r.unwrap_err();
    assert_eq!(failures.len(), 1);
    assert_eq!(failures[0].script, "broken.lua");
    assert!(!failures[0].message.is_empty());

    // The previous registry stays active until a load fully succeeds.
    assert_eq!(env.tools().len(), 1);
    let input = vec![("location".to_string(), "Kent".to_string())];
    assert_eq!(
        env.invoke_tool("weather-forecast", &input),
        Ok(Some("Sunny in Kent".to_string()))
    );
}

#[test]
fn scripts_resolve_bundled_modules_by_dotted_name() {
    let module = PluginScript {
        name: "lib/greet.lua".to_string(),
        source: "return { hello = function(who) return \"hi \" .. who end }".to_string(),
    };
    let script = PluginScript {
        name: "greeter.lua".to_string(),
        source: r#"
local bot = require("bot")
local greet = require("lib.greet")
local p = bot.plugin("greeter", "greets")
p:command({
  name = "hello",
  description = "say hello",
  method = function(self, input) return greet.hello(input.who) end,
})
bot.register(p)
"#
        .to_string(),
    };
    let mut env = PluginEnv::new();
    env.load(&vec![script], &vec![module], false).unwrap();
    let input = vec![("who".to_string(), "world".to_string())];
    assert_eq!(env.invoke_tool("greeter-hello", &input), Ok(Some("hi world".to_string())));
}

#[test]
fn scripts_use_the_native_json_module() {
    let script = PluginScript {
        name: "jsonuser.lua".to_string(),
        source: r#"
local bot = require("bot")
local json = require("json")
local p = bot.plugin("jsonuser", "uses json")
p:command({
  name = "roundtrip",
  description = "decode then read",
  method = function(self, input)
    local v = json.decode('{"k":"v"}')
    return v.k
  end,
})
bot.register(p)
"#
        .to_string(),
    };
    let mut env = PluginEnv::new();
    env.load(&vec![script], &Vec::new(), false).unwrap();
    assert_eq!(env.invoke_tool("jsonuser-roundtrip", &Vec::new()), Ok(Some("v".to_string())));
}

#[test]
fn failing_callback_reports_an_invocation_error() {
    let script = PluginScript {
        name: "angry.lua".to_string(),
        source: r#"
local bot = require("bot")
local p = bot.plugin("angry", "always fails")
p:command({
  name = "shout",
  description = "fails",
  method = function(self, input) error("no thanks") end,
})
bot.register(p)
"#
        .to_string(),
    };
    let mut env = PluginEnv::new();
    env.load(&vec![script], &Vec::new(), false).unwrap();
    match env.invoke_tool("angry-shout", &Vec::new()) {
        Err(HostError::Invocation { message }) => assert!(message.contains("no thanks")),
        other => panic!("expected an invocation error, got {:?}", other),
    }
}

#[test]
fn plugin_cache_keeps_values_in_memory() {
    let script = PluginScript {
        name: "memo.lua".to_string(),
        source: r#"
local bot = require("bot")
local p = bot.plugin("memo", "remembers")
p:command({
  name = "put",
  description = "store",
  method = function(self, input)
    self.cache:set("k", input.value)
    return "stored"
  end,
})
p:command({
  name = "get",
  description = "recall",
  method = function(self, input) return self.cache:get("k") end,
})
bot.register(p)
"#
        .to_string(),
    };
    let mut env = PluginEnv::new();
    env.load(&vec![script], &Vec::new(), false).unwrap();
    let input = vec![("value".to_string(), "42".to_string())];
    assert_eq!(env.invoke_tool("memo-put", &input), Ok(Some("stored".to_string())));
    assert_eq!(env.invoke_tool("memo-get", &Vec::new()), Ok(Some("42".to_string())));
}

#[test]
fn cache_file_name_is_a_hashed_json_name() {
    let a = cache_file_name("weather");
    let b = cache_file_name("weather");
    let c = cache_file_name("memo");
    assert_eq!(a, b);
    assert_ne!(a, c);
    assert_eq!(a.len(), 37);
    assert!(a.ends_with(".json"));
    assert!(!a.starts_with("weather"));
}

#[test]
fn module_names_translate_paths() {
    assert_eq!(module_name_of_path("lib/greet.lua"), Some("lib.greet".to_string()));
    assert_eq!(module_name_of_path("top.lua"), Some("top".to_string()));
    assert_eq!(module_name_of_path("notes.txt"), None);
    assert_eq!(module_name_of_path("x"), None);
}

#[test]
fn module_table_keeps_first_occurrence() {
    let mods = vec![
        PluginScript { name: "a.lua".to_string(), source: "return 1".to_string() },
        PluginScript { name: "a.lua".to_string(), source: "return 2".to_string() },
        PluginScript { name: "skip.txt".to_string(), source: "nope".to_string() },
        PluginScript { name: "b/c.lua".to_string(), source: "return 3".to_string() },
    ];
    let table = module_table(&mods);
    assert_eq!(
        table,
        vec![
            ("a".to_string(), "return 1".to_string()),
            ("b.c".to_string(), "return 3".to_string()),
        ]
    );
}

#[test]
fn nested_schemas_come_back_structured() {
    let script = PluginScript {
        name: "nested.lua".to_string(),
        source: r#"
local bot = require("bot")
local p = bot.plugin("nested", "nested schema")
p:command({
  name = "go",
  description = "takes a list",
  schema = {
    type = "object",
    properties = {
      items = { type = "array", description = "the list", items = { type = "number", description = "one entry" } },
    },
    required = { "items" },
  },
  method = function(self, input) return "ok" end,
})
bot.register(p)
"#
        .to_string(),
    };
    let mut env = PluginEnv::new();
    env.load(&vec![script], &Vec::new(), false).unwrap();
    match &env.tools()[0] {
        Tool::Custom { input_schema, .. } => {
            assert_eq!(
                *input_schema,
                Schema::Object {
                    properties: vec![(
                        "items".to_string(),
                        Schema::Array {
                            description: "the list".to_string(),
                            items: Box::new(Schema::Number {
                                description: "one entry".to_string(),
                            }),
                        },
                    )],
                    required: vec!["items".to_string()],
                }
            );
        }
        other => panic!("expected a custom tool, got {:?}", other),
    }
}

#[test]
fn unresolved_modules_yield_a_sentinel_not_an_error() {
    let script = PluginScript {
        name: "probe.lua".to_string(),
        source: r#"
local bot = require("bot")
local maybe = require("entirely.absent")
local p = bot.plugin("probe", "probes optional modules")
p:command({
  name = "check",
  description = "report the probe",
  method = function(self, input)
    if maybe == "not found" then return "absent" else return "present" end
  end,
})
bot.register(p)
"#
        .to_string(),
    };
    let mut env = PluginEnv::new();
    env.load(&vec![script], &Vec::new(), false).unwrap();
    assert_eq!(env.invoke_tool("probe-check", &Vec::new()), Ok(Some("absent".to_string())));
}

#[test]
fn shrink_with_zero_limit_no_longer_removes_a_lone_turn() {
    let mut channel = Channel::new(11, Some(0));
    channel.user_message(vec![Content::text("only")]);
    channel.shrink();
    assert_eq!(channel.history().len(), 1);
}
