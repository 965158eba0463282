use scrubby::channel::Channel;
use scrubby::claude::APIError;
use scrubby::claude::Citation;
use scrubby::claude::Content;
use scrubby::claude::Interaction;
use scrubby::claude::Model;
use scrubby::claude::Response;
use scrubby::claude::Role;
use scrubby::claude::Tool;
use scrubby::claude::Transport;
use scrubby::claude::error::Error;
use scrubby::dispatch::BotResponse;
use scrubby::dispatch::MAX_TOOL_ROUNDS;
use scrubby::dispatch::ToolHost;
use scrubby::dispatch::dispatch_llm;
use scrubby::dispatch::extract_segments;
use scrubby::dispatch::fixup_json;

struct ScriptedTransport {
    replies: Vec<Result<Response, Error>>,
    calls: usize,
}

impl Transport for ScriptedTransport {
    fn create_message(
        &mut self,
        _model_override: Option<Model>,
        _messages: &Vec<Interaction>,
        _tools: &Vec<Tool>,
        _prompt: &str,
    ) -> Result<Response, Error> {
        self.calls += 1;
        self.replies.remove(0)
    }
}

struct RecordingHost {
    invocations: Vec<(String, Vec<(String, String)>)>,
    reply: Result<Option<String>, String>,
}

impl ToolHost for RecordingHost {
    fn invoke_tool(
        &mut self,
        name: &str,
        input: &Vec<(String, String)>,
    ) -> Result<Option<String>, String> {
        self.invocations.push((name.to_string(), input.clone()));
        self.reply.clone()
    }
}

fn message(content: Vec<Content>) -> Response {
    Response::Message {
        id: "msg".to_string(),
        model: "m".to_string(),
        role: "assistant".to_string(),
        stop_reason: None,
        stop_sequence: None,
        usage: scrubby::claude::Usage { input_tokens: 1, output_tokens: 1 },
        content,
    }
}

fn tool_use(id: &str, name: &str) -> Content {
    Content::ToolUse {
        id: id.to_string(),
        name: name.to_string(),
        input: vec![("location".to_string(), "Seattle".to_string())],
    }
}

#[test]
fn tool_round_trip_ends_after_two_calls_with_one_text_segment() {
    let mut channel = Channel::new(1, None);
    channel.user_message(vec![Content::text("what is the weather")]);
    let mut transport = ScriptedTransport {
        replies: vec![
            Ok(message(vec![tool_use("t1", "weather-forecast")])),
            Ok(message(vec![Content::text("it is sunny")])),
        ],
        calls: 0,
    };
    let mut host = RecordingHost { invocations: Vec::new(), reply: Ok(Some("sun".to_string())) };

    let (replies, _log) =
        dispatch_llm(&mut channel, "prompt", &Vec::new(), &mut transport, &mut host);
    let replies = replies.unwrap();

    assert_eq!(transport.calls, 2);
    assert_eq!(replies, vec![BotResponse::Text("it is sunny".to_string())]);
    assert_eq!(host.invocations.len(), 1);
    assert_eq!(host.invocations[0].0, "weather-forecast");

    // history: user, assistant (tool use), user (tool result), assistant.
    let hist = channel.history();
    assert_eq!(hist.len(), 4);
    assert_eq!(hist[0].role, Role::User);
    assert_eq!(hist[1].role, Role::Assistant);
    assert_eq!(hist[1].content, vec![tool_use("t1", "weather-forecast")]);
    assert_eq!(hist[2].role, Role::User);
    assert_eq!(hist[2].content.len(), 1);
    match &hist[2].content[0] {
        Content::ToolResult { tool_use_id, content, is_error } => {
            assert_eq!(tool_use_id, "t1");
            assert_eq!(content, "sun");
            assert!(!is_error);
        }
        other => panic!("expected a tool result, got {:?}", other),
    }
    assert_eq!(hist[3].role, Role::Assistant);
    assert_eq!(hist[3].content, vec![Content::text("it is sunny")]);
}

#[test]
fn failing_tool_becomes_error_result_not_abort() {
    let mut channel = Channel::new(2, None);
    channel.user_message(vec![Content::text("q")]);
    let mut transport = ScriptedTransport {
        replies: vec![
            Ok(message(vec![tool_use("t9", "broken-tool")])),
            Ok(message(vec![Content::text("recovered")])),
        ],
        calls: 0,
    };
    let mut host =
        RecordingHost { invocations: Vec::new(), reply: Err("tool blew up".to_string()) };

    let (replies, _log) = dispatch_llm(&mut channel, "p", &Vec::new(), &mut transport, &mut host);
    assert_eq!(replies.unwrap(), vec![BotResponse::Text("recovered".to_string())]);
    match &channel.history()[2].content[0] {
        Content::ToolResult { content, is_error, .. } => {
            assert_eq!(content, "tool blew up");
            assert!(is_error);
        }
        other => panic!("expected a tool result, got {:?}", other),
    }
}

#[test]
fn transport_failure_rolls_back_user_turn() {
    let mut channel = Channel::new(3, None);
    channel.user_message(vec![Content::text("old")]);
    channel.bot_message(Interaction {
        role: Role::Assistant,
        content: vec![Content::text("old answer")],
    });
    let len_before = channel.history().len();

    channel.user_message(vec![Content::text("new question")]);
    let mut transport = ScriptedTransport {
        replies: vec![Err(Error::Transport { message: "connection reset".to_string() })],
        calls: 0,
    };
    let mut host = RecordingHost { invocations: Vec::new(), reply: Ok(None) };

    let (r, _log) = dispatch_llm(&mut channel, "p", &Vec::new(), &mut transport, &mut host);
    assert!(matches!(r, Err(Error::Transport { .. })));
    assert_eq!(channel.history().len(), len_before);
}

#[test]
fn api_rejection_rolls_back_and_reports() {
    let mut channel = Channel::new(4, None);
    channel.user_message(vec![Content::text("q")]);
    let mut transport = ScriptedTransport {
        replies: vec![Ok(Response::Error {
            error: APIError::RateLimitError { message: "slow down".to_string() },
        })],
        calls: 0,
    };
    let mut host = RecordingHost { invocations: Vec::new(), reply: Ok(None) };
    let (r, _log) = dispatch_llm(&mut channel, "p", &Vec::new(), &mut transport, &mut host);
    match r {
        Err(e) => assert_eq!(e.message(), "API Error: slow down"),
        Ok(_) => panic!("expected an error"),
    }
    assert_eq!(channel.history().len(), 0);
}

#[test]
fn model_emitting_image_is_a_protocol_violation() {
    let mut channel = Channel::new(5, None);
    channel.user_message(vec![Content::text("q")]);
    let mut transport = ScriptedTransport {
        replies: vec![Ok(message(vec![Content::Image {
            source: scrubby::claude::ImageSource::Base64 {
                media_type: "image/png".to_string(),
                data: "AAAA".to_string(),
            },
        }]))],
        calls: 0,
    };
    let mut host = RecordingHost { invocations: Vec::new(), reply: Ok(None) };
    let (r, _log) = dispatch_llm(&mut channel, "p", &Vec::new(), &mut transport, &mut host);
    assert!(matches!(r, Err(Error::Protocol { .. })));
    assert_eq!(channel.history().len(), 0);
}

#[test]
fn endless_tool_requests_hit_the_round_cap() {
    let mut channel = Channel::new(6, None);
    channel.user_message(vec![Content::text("q")]);
    let mut replies: Vec<Result<Response, Error>> = Vec::new();
    for i in 0..(MAX_TOOL_ROUNDS + 1) {
        replies.push(Ok(message(vec![tool_use(&format!("t{}", i), "loop-forever")])));
    }
    let mut transport = ScriptedTransport { replies, calls: 0 };
    let mut host = RecordingHost { invocations: Vec::new(), reply: Ok(None) };
    let (r, _log) = dispatch_llm(&mut channel, "p", &Vec::new(), &mut transport, &mut host);
    assert!(matches!(r, Err(Error::TurnLimit { .. })));
    assert_eq!(transport.calls, MAX_TOOL_ROUNDS);
}

#[test]
fn missing_output_becomes_no_output_marker() {
    let mut channel = Channel::new(7, None);
    channel.user_message(vec![Content::text("q")]);
    let mut transport = ScriptedTransport {
        replies: vec![
            Ok(message(vec![tool_use("t1", "quiet-tool")])),
            Ok(message(vec![Content::text("done")])),
        ],
        calls: 0,
    };
    let mut host = RecordingHost { invocations: Vec::new(), reply: Ok(None) };
    let (r, _log) = dispatch_llm(&mut channel, "p", &Vec::new(), &mut transport, &mut host);
    r.unwrap();
    match &channel.history()[2].content[0] {
        Content::ToolResult { content, is_error, .. } => {
            assert_eq!(content, "<no output>");
            assert!(!is_error);
        }
        other => panic!("expected a tool result, got {:?}", other),
    }
}

#[test]
fn citations_render_bracketed_and_deduplicated() {
    fn cite(url: &str) -> Citation {
        Citation {
            kind: "web".to_string(),
            url: url.to_string(),
            title: "t".to_string(),
            encrypted_index: "e".to_string(),
            cited_text: "c".to_string(),
        }
    }
    let mut channel = Channel::new(8, None);
    channel.user_message(vec![Content::text("q")]);
    let mut transport = ScriptedTransport {
        replies: vec![Ok(message(vec![Content::Text {
            text: "sourced claim".to_string(),
            citations: Some(vec![cite("http://a"), cite("http://b"), cite("http://a")]),
        }]))],
        calls: 0,
    };
    let mut host = RecordingHost { invocations: Vec::new(), reply: Ok(None) };
    let (replies, _log) = dispatch_llm(&mut channel, "p", &Vec::new(), &mut transport, &mut host);
    assert_eq!(
        replies.unwrap(),
        vec![BotResponse::Text("sourced claim [`http://a` `http://b`]".to_string())]
    );
}

#[test]
fn fixup_json_escapes_newlines_only_inside_strings() {
    assert_eq!(fixup_json("{\"a\":\"b\nc\"}"), "{\"a\":\"b\\nc\"}");
    assert_eq!(fixup_json("{\n\"a\": 1\n}"), "{\n\"a\": 1\n}");
    assert_eq!(fixup_json("{\"a\":\"b\\\"x\ny\"}"), "{\"a\":\"b\\\"x\\ny\"}");
}

#[test]
fn segments_split_around_a_parsing_payload() {
    let texts = vec!["look: {\"content\": \"hello\"} done".to_string()];
    let segs = extract_segments(&texts);
    assert_eq!(
        segs,
        vec![
            BotResponse::Text("look: ".to_string()),
            BotResponse::Payload("{\"content\": \"hello\"}".to_string()),
            BotResponse::Text(" done".to_string()),
        ]
    );
}

#[test]
fn segments_fall_back_to_plain_texts_without_payload() {
    let texts = vec!["just words".to_string(), "more words".to_string()];
    let segs = extract_segments(&texts);
    assert_eq!(
        segs,
        vec![
            BotResponse::Text("just words".to_string()),
            BotResponse::Text("more words".to_string()),
        ]
    );
}

#[test]
fn segments_fall_back_when_the_span_does_not_parse() {
    let texts = vec!["braces { but not } json".to_string()];
    let segs = extract_segments(&texts);
    assert_eq!(segs, vec![BotResponse::Text("braces { but not } json".to_string())]);
}

#[test]
fn payload_with_raw_newline_in_string_still_parses() {
    let texts = vec!["{\"content\": \"line one\nline two\"}".to_string()];
    let segs = extract_segments(&texts);
    assert_eq!(
        segs,
        vec![BotResponse::Payload("{\"content\": \"line one\\nline two\"}".to_string())]
    );
}
