use scrubby::channel::Channel;
use scrubby::claude::Content;
use scrubby::claude::Interaction;
use scrubby::claude::Role;

fn user(texts: &[&str]) -> Interaction {
    Interaction { role: Role::User, content: texts.iter().map(|t| Content::text(t)).collect() }
}

fn assistant(text: &str) -> Interaction {
    Interaction { role: Role::Assistant, content: vec![Content::text(text)] }
}

#[test]
fn test_user_message_merging() {
    let mut channel = Channel::new(123, None);

    channel.user_message(vec![Content::text("Hello")]);
    channel.user_message(vec![Content::text("World")]);

    assert_eq!(channel.history().len(), 1);
    assert_eq!(
        channel.history()[0].content,
        vec![Content::text("Hello"), Content::text("World")]
    );
}

#[test]
fn user_message_after_assistant_pushes_new_turn() {
    let mut channel = Channel::new(1, None);
    channel.user_message(vec![Content::text("q")]);
    channel.bot_message(assistant("a"));
    channel.user_message(vec![Content::text("q2")]);
    assert_eq!(channel.history().len(), 3);
    assert_eq!(channel.history()[2].role, Role::User);
}

#[test]
fn ensure_valid_history_drops_invalid_front() {
    let mut channel = Channel::new(2, None);
    channel.bot_message(assistant("leading assistant"));
    channel.bot_message(Interaction { role: Role::User, content: vec![] });
    channel.bot_message(Interaction {
        role: Role::User,
        content: vec![Content::ToolResult {
            tool_use_id: "t1".to_string(),
            content: "out".to_string(),
            is_error: false,
        }],
    });
    channel.bot_message(user(&["real question"]));
    channel.bot_message(assistant("answer"));

    channel.ensure_valid_history();

    let hist = channel.history();
    assert_eq!(hist.len(), 2);
    assert_eq!(hist[0].role, Role::User);
    assert_eq!(hist[0].content, vec![Content::text("real question")]);
}

#[test]
fn ensure_valid_history_empties_hopeless_history() {
    let mut channel = Channel::new(3, None);
    channel.bot_message(assistant("a1"));
    channel.bot_message(assistant("a2"));
    channel.ensure_valid_history();
    assert_eq!(channel.history().len(), 0);
}

#[test]
fn no_two_consecutive_assistants_under_normal_flow() {
    let mut channel = Channel::new(4, Some(4));
    for turn in 0..5 {
        channel.user_message(vec![Content::text(&format!("q{}", turn))]);
        channel.bot_message(assistant(&format!("a{}", turn)));
        channel.shrink();
    }
    let hist = channel.history();
    for pair in hist.windows(2) {
        assert!(!(pair[0].role == Role::Assistant && pair[1].role == Role::Assistant));
    }
}

#[test]
fn shrink_removes_pairs_from_front() {
    let mut channel = Channel::new(5, Some(3));
    for turn in 0..3 {
        channel.user_message(vec![Content::text(&format!("q{}", turn))]);
        channel.bot_message(assistant(&format!("a{}", turn)));
    }
    channel.user_message(vec![Content::text("q3")]);
    assert_eq!(channel.history().len(), 7);

    channel.shrink();

    let hist = channel.history();
    assert_eq!(hist.len(), 3);
    assert_eq!(hist[0].content, vec![Content::text("q2")]);
    assert_eq!(hist[1].content, vec![Content::text("a2")]);
    assert_eq!(hist[2].content, vec![Content::text("q3")]);
}

#[test]
fn shrink_twice_is_idempotent() {
    let mut channel = Channel::new(6, Some(2));
    for turn in 0..4 {
        channel.user_message(vec![Content::text(&format!("q{}", turn))]);
        channel.bot_message(assistant(&format!("a{}", turn)));
    }
    channel.shrink();
    let after_first: Vec<Vec<Content>> =
        channel.history().iter().map(|i| i.content.iter().map(clone_text).collect()).collect();
    channel.shrink();
    let after_second: Vec<Vec<Content>> =
        channel.history().iter().map(|i| i.content.iter().map(clone_text).collect()).collect();
    assert_eq!(after_first, after_second);
}

fn clone_text(c: &Content) -> Content {
    match c {
        Content::Text { text, .. } => Content::text(text),
        _ => panic!("only text blocks expected here"),
    }
}

#[test]
fn shrink_without_limit_keeps_everything() {
    let mut channel = Channel::new(7, None);
    for turn in 0..6 {
        channel.user_message(vec![Content::text(&format!("q{}", turn))]);
        channel.bot_message(assistant(&format!("a{}", turn)));
    }
    channel.shrink();
    assert_eq!(channel.history().len(), 12);
}

#[test]
fn undo_last_pops_most_recent() {
    let mut channel = Channel::new(8, None);
    channel.user_message(vec![Content::text("q")]);
    channel.bot_message(assistant("a"));
    channel.undo_last();
    assert_eq!(channel.history().len(), 1);
    assert_eq!(channel.history()[0].role, Role::User);
    channel.undo_last();
    assert_eq!(channel.history().len(), 0);
    channel.undo_last();
    assert_eq!(channel.history().len(), 0);
}

#[test]
fn history_has_images_sees_nested_image() {
    let mut channel = Channel::new(9, None);
    channel.user_message(vec![Content::text("look")]);
    assert!(!channel.history_has_images());
    channel.user_message(vec![Content::Image {
        source: scrubby::claude::ImageSource::Base64 {
            media_type: "image/png".to_string(),
            data: "AAAA".to_string(),
        },
    }]);
    assert!(channel.history_has_images());
}

#[test]
fn cap_trailing_content_keeps_last_blocks() {
    let mut channel = Channel::new(10, None);
    let blocks: Vec<Content> = (0..12).map(|i| Content::text(&format!("b{}", i))).collect();
    channel.user_message(blocks);
    channel.cap_trailing_content(10);
    let hist = channel.history();
    assert_eq!(hist[0].content.len(), 10);
    assert_eq!(hist[0].content[0], Content::text("b2"));
    assert_eq!(hist[0].content[9], Content::text("b11"));
}
