use scrubby::channel::Channel;
use scrubby::claude::APIError;
use scrubby::claude::Client;
use scrubby::claude::Content;
use scrubby::claude::ImageSource;
use scrubby::claude::Model;
use scrubby::claude::Schema;
use scrubby::claude::Tool;
use scrubby::claude::error::Error;
use scrubby::claude::retry::Retry5xx;
use scrubby::claude::tools::FetchTool;
use scrubby::claude::tools::invoke_tool;
use scrubby::claude::tools::page_text;
use scrubby::handler::Attachment;
use scrubby::handler::bundle_replies;
use scrubby::handler::reply_needs_attachment;
use scrubby::handler::channel_limit;
use scrubby::handler::message_is_respondable;
use scrubby::handler::msg_to_content;
use scrubby::strings::contains_sub;

#[test]
fn respondable_follows_the_gate_order() {
    assert!(!message_is_respondable(true, false, true, true, true));
    assert!(!message_is_respondable(false, true, true, true, true));
    assert!(message_is_respondable(false, false, true, false, false));
    assert!(message_is_respondable(false, false, false, true, false));
    assert!(message_is_respondable(false, false, false, false, true));
    assert!(!message_is_respondable(false, false, false, false, false));
}

#[test]
fn public_threads_have_no_history_limit() {
    assert_eq!(channel_limit(true), None);
    assert_eq!(channel_limit(false), Some(10));
    let channel = Channel::new(1, channel_limit(false));
    assert_eq!(channel.history().len(), 0);
}

#[test]
fn text_message_becomes_an_authored_block() {
    let items = msg_to_content("hello there", "bob", Vec::new());
    assert_eq!(items, vec![Content::text("bob: hello there")]);
}

#[test]
fn empty_message_without_attachments_yields_nothing() {
    let items = msg_to_content("", "bob", Vec::new());
    assert_eq!(items.len(), 0);
}

#[test]
fn text_attachment_becomes_a_document_block() {
    let att = Attachment {
        filename: "notes.txt".to_string(),
        content_type: Some("text/plain".to_string()),
        bytes: b"remember the milk".to_vec(),
    };
    let items = msg_to_content("", "bob", vec![att]);
    assert_eq!(
        items,
        vec![Content::text("<document name=\"notes.txt\">\nremember the milk</document>")]
    );
}

#[test]
fn charset_content_type_counts_as_text() {
    let att = Attachment {
        filename: "page.html".to_string(),
        content_type: Some("text/html; charset=utf-8".to_string()),
        bytes: b"<b>hi</b>".to_vec(),
    };
    let items = msg_to_content("", "bob", vec![att]);
    assert_eq!(items.len(), 1);
}

#[test]
fn image_attachment_is_resized_and_base64_encoded() {
    let img = image::RgbaImage::new(2, 2);
    let mut png: Vec<u8> = Vec::new();
    img.write_to(&mut std::io::Cursor::new(&mut png), image::ImageFormat::Png).unwrap();

    let att = Attachment {
        filename: "pic.png".to_string(),
        content_type: Some("image/png".to_string()),
        bytes: png,
    };
    let items = msg_to_content("look", "ann", vec![att]);
    assert_eq!(items.len(), 2);
    assert_eq!(items[0], Content::text("ann: look"));
    match &items[1] {
        Content::Image { source: ImageSource::Base64 { media_type, data } } => {
            assert_eq!(media_type, "image/png");
            // A PNG starts with bytes 0x89 P N G, which is "iVBOR" in base64;
            // this fails if the encoder handed its input back unchanged.
            assert!(data.starts_with("iVBOR"));
        }
        other => panic!("expected an image block, got {:?}", other),
    }
}

#[test]
fn undecodable_image_contributes_nothing() {
    let att = Attachment {
        filename: "junk.png".to_string(),
        content_type: Some("image/png".to_string()),
        bytes: vec![1, 2, 3, 4],
    };
    let items = msg_to_content("", "bob", vec![att]);
    assert_eq!(items.len(), 0);
}

#[test]
fn unknown_attachment_type_is_skipped() {
    let att = Attachment {
        filename: "song.ogg".to_string(),
        content_type: Some("audio/ogg".to_string()),
        bytes: vec![0, 1, 2],
    };
    let items = msg_to_content("hi", "bob", vec![att]);
    assert_eq!(items, vec![Content::text("bob: hi")]);
}

#[test]
fn retry_policy_marks_only_5xx_transient() {
    let policy = Retry5xx {};
    assert!(policy.is_transient(500));
    assert!(policy.is_transient(599));
    assert!(!policy.is_transient(499));
    assert!(!policy.is_transient(600));
    assert!(!policy.is_transient(200));
}

#[test]
fn backoff_doubles_from_a_quarter_second() {
    let policy = Retry5xx {};
    assert_eq!(policy.backoff_delay_ms(0), 250);
    assert_eq!(policy.backoff_delay_ms(1), 500);
    assert_eq!(policy.backoff_delay_ms(3), 2000);
}

#[test]
fn clients_keep_their_key_and_default_model() {
    let client = Client::new("key".to_string(), Model::Sonnet4);
    assert_eq!(client.model, Model::Sonnet4);
    assert_eq!(client.api_key, "key");
    assert!(Model::Haiku35.is_cheap());
    assert!(!Model::Sonnet4.is_cheap());
}

#[test]
fn error_messages_carry_their_prefixes() {
    let api = Error::Api { error: APIError::OverloadedError { message: "busy".to_string() } };
    assert_eq!(api.message(), "API Error: busy");
    let http = Error::Transport { message: "refused".to_string() };
    assert_eq!(http.message(), "HTTP Error: refused");
}

#[test]
fn schema_builder_replaces_and_requires() {
    let s = Schema::object()
        .with_property("a".to_string(), Schema::string("first".to_string()), true)
        .with_property("b".to_string(), Schema::integer("second".to_string()), false)
        .with_property("a".to_string(), Schema::number("third".to_string()), true);
    match s {
        Schema::Object { properties, required } => {
            assert_eq!(
                properties,
                vec![
                    ("b".to_string(), Schema::Integer { description: "second".to_string() }),
                    ("a".to_string(), Schema::Number { description: "third".to_string() }),
                ]
            );
            assert_eq!(required, vec!["a".to_string(), "a".to_string()]);
        }
        other => panic!("expected an object schema, got {:?}", other),
    }
}

#[test]
fn with_property_leaves_non_objects_alone() {
    let s = Schema::string("plain".to_string());
    let s2 = s.with_property("x".to_string(), Schema::integer("i".to_string()), true);
    assert_eq!(s2, Schema::String { description: "plain".to_string() });
}

#[test]
fn provider_tools_carry_their_wire_kinds() {
    let ws = Tool::web_search(3, None);
    assert_eq!(ws.name(), "web_search");
    let ce = Tool::code_execution();
    assert_eq!(ce.name(), "code_execution");
}

#[test]
fn page_text_extracts_and_truncates() {
    assert_eq!(page_text("<html><body><p>hi</p></body></html>"), "hi");
    let body: String = "x".repeat(1300);
    let long = format!("<p>{}</p>", body);
    let out = page_text(&long);
    assert_eq!(out.len(), 1024 + " <truncated>".len());
    assert!(out.ends_with(" <truncated>"));
}

#[test]
fn fetch_tool_demands_a_url() {
    let mut tools = vec![FetchTool::new()];
    let r = invoke_tool(&mut tools, "fetch_url", &Vec::new());
    assert_eq!(r, Err("No URL provided!".to_string()));
    let r2 = invoke_tool(&mut tools, "no_such_tool", &Vec::new());
    assert_eq!(r2, Err("No tool found!".to_string()));
}

#[test]
fn contains_sub_finds_runs() {
    assert!(contains_sub("text/html; charset=utf-8", "charset=utf-8"));
    assert!(!contains_sub("text/html", "charset=utf-8"));
    assert!(contains_sub("anything", ""));
}

#[test]
fn bundle_replies_joins_and_skips_blanks() {
    let parts = vec![
        "first".to_string(),
        "   ".to_string(),
        "".to_string(),
        "second".to_string(),
    ];
    assert_eq!(bundle_replies(&parts), "first second");
    assert_eq!(bundle_replies(&Vec::new()), "");
}

#[test]
fn long_replies_become_attachments() {
    assert!(!reply_needs_attachment(&"x".repeat(2000)));
    assert!(reply_needs_attachment(&"x".repeat(2001)));
}
