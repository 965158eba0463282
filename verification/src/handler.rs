//! Decisions around one inbound platform message: whether the agent
//! should answer it, which history limit its channel gets, and how its
//! text and attachments become content blocks.

use vstd::prelude::*;
use crate::claude::content::Content;
use crate::claude::content::ImageSource;
use crate::claude::util::resize_image;
use crate::claude::util::resized_png;
use crate::strings::concat_str;
use crate::strings::contains_sub;
use crate::strings::spec_contains;
use crate::strings::str_eq;
use vstd::string::*;
use vstd::utf8::encode_utf8;
use vstd::utf8::valid_utf8;

verus! {

/// Whether the agent answers a message: never its own or a blank one,
/// always a private one or one in a public thread it joined, otherwise
/// only when it is mentioned.
pub fn message_is_respondable(
    is_own: bool,
    is_blank: bool,
    is_private: bool,
    in_joined_public_thread: bool,
    mentioned: bool,
) -> (r: bool)
    ensures
        r == (!is_own && !is_blank && (is_private || in_joined_public_thread || mentioned)),
{
    if is_own {
        return false;
    }
    if is_blank {
        return false;
    }
    if is_private {
        return true;
    }
    if in_joined_public_thread {
        return true;
    }
    mentioned
}

/// The history limit a conversation scope gets: public threads keep their
/// whole history, every other scope is bounded to ten interactions.
pub fn channel_limit(is_public_thread: bool) -> (r: Option<usize>)
    ensures
        r == if is_public_thread {
            Option::<usize>::None
        } else {
            Option::<usize>::Some(10usize)
        },
{
    if is_public_thread {
        None
    } else {
        Some(10)
    }
}

/// One attachment of an inbound message, already downloaded.
#[derive(Debug, PartialEq)]
pub struct Attachment {
    pub filename: String,
    pub content_type: Option<String>,
    pub bytes: Vec<u8>,
}

/// Whether an attachment's content type is an image the model can see.
pub open spec fn is_image_type(ct: Option<String>) -> bool {
    ct matches Some(s) && (s@ == "image/jpeg"@ || s@ == "image/png"@ || s@ == "image/gif"@ || s@
        == "image/webp"@)
}

/// Whether an attachment's content type reads as text: plain text, or
/// any type that names the UTF-8 charset.
pub open spec fn is_text_type(ct: Option<String>) -> bool {
    ct matches Some(s) && (s@ == "text/plain"@ || spec_contains(s@, "charset=utf-8"@))
}

/// The leading text block of a message: the author's name, a separating
/// colon, and the message text.
pub open spec fn author_line(author: Seq<char>, text: Seq<char>) -> Seq<char> {
    author + ": "@ + text
}

/// A text attachment rendered as a document block around its decoded
/// body.
pub open spec fn document_block(filename: Seq<char>, body: Seq<char>) -> Seq<char> {
    "<document name=\""@ + filename + "\">\n"@ + body + "</document>"@
}

/// What one content block derived from the message must hold.
pub enum BlockSpec {
    PlainText { text: Seq<char> },
    PngImage { data: Seq<u8> },
    Document { filename: Seq<char>, bytes: Seq<u8> },
}

/// The encoding of a byte vector as base64 text; relies on the base64
/// crate's standard engine, whose result is a function of the bytes
/// alone.
pub uninterp spec fn b64_of(bytes: Seq<u8>) -> Seq<char>;

/// Relies on base64's standard-alphabet engine: the rendering is a
/// function of the bytes alone, and empty input encodes to empty text.
#[verifier::external_body]
pub fn b64_encode(bytes: &Vec<u8>) -> (r: String)
    ensures
        r@ == b64_of(bytes@),
        bytes@.len() == 0 ==> r@.len() == 0,
{
    base64::Engine::encode(&base64::engine::general_purpose::STANDARD, bytes)
}

/// Relies on `String::from_utf8`: decodes exactly the valid UTF-8 byte
/// sequences, into the string whose encoding is those bytes.
#[verifier::external_body]
pub fn utf8_decode(bytes: Vec<u8>) -> (r: Option<String>)
    ensures
        r is Some <==> valid_utf8(bytes@),
        r matches Some(s) ==> encode_utf8(s@) == bytes@,
{
    let ghost b = bytes@;
    String::from_utf8(bytes).ok()
}

/// Whether `c` satisfies one derived block.
pub open spec fn block_matches(c: Content, b: BlockSpec) -> bool {
    match b {
        BlockSpec::PlainText { text } => c matches Content::Text {
            text: t,
            citations,
        } && t@ == text && citations is None,
        BlockSpec::PngImage { data } => c matches Content::Image { source } && source matches
            ImageSource::Base64 { media_type, data: d } && media_type@ == "image/png"@ && d@
            == b64_of(data),
        BlockSpec::Document { filename, bytes } => c matches Content::Text {
            text: t,
            citations,
        } && citations is None && exists|body: Seq<char>|
            #[trigger] encode_utf8(body) == bytes && t@ == document_block(filename, body),
    }
}

/// The blocks one attachment contributes: a bounded PNG for an image
/// type that decodes, a document block for a text type that is valid
/// UTF-8, nothing otherwise.
pub open spec fn attachment_blocks(a: Attachment) -> Seq<BlockSpec> {
    if is_image_type(a.content_type) {
        match resized_png(a.bytes@, 600, 600) {
            Some(v) => seq![BlockSpec::PngImage { data: v }],
            None => Seq::empty(),
        }
    } else if is_text_type(a.content_type) {
        if valid_utf8(a.bytes@) {
            seq![BlockSpec::Document { filename: a.filename@, bytes: a.bytes@ }]
        } else {
            Seq::empty()
        }
    } else {
        Seq::empty()
    }
}

/// The blocks of a whole attachment list, in order.
pub open spec fn attachments_blocks(atts: Seq<Attachment>) -> Seq<BlockSpec>
    decreases atts.len(),
{
    if atts.len() == 0 {
        Seq::empty()
    } else {
        attachments_blocks(atts.drop_last()) + attachment_blocks(atts.last())
    }
}

/// Every block the message turns into: the authored text when the text
/// is not empty, then one block per usable attachment.
pub open spec fn message_blocks(
    text: Seq<char>,
    author: Seq<char>,
    atts: Seq<Attachment>,
) -> Seq<BlockSpec> {
    (if text.len() > 0 {
        seq![BlockSpec::PlainText { text: author_line(author, text) }]
    } else {
        Seq::empty()
    }) + attachments_blocks(atts)
}

/// Whether this content type reads as an image the model can see.
fn ct_is_image(ct: &Option<String>) -> (r: bool)
    ensures
        r == is_image_type(*ct),
{
    match ct {
        Option::Some(s) => str_eq(s.as_str(), "image/jpeg") || str_eq(s.as_str(), "image/png")
            || str_eq(s.as_str(), "image/gif") || str_eq(s.as_str(), "image/webp"),
        Option::None => false,
    }
}

/// Whether this content type reads as text.
fn ct_is_text(ct: &Option<String>) -> (r: bool)
    ensures
        r == is_text_type(*ct),
{
    match ct {
        Option::Some(s) => str_eq(s.as_str(), "text/plain") || contains_sub(
            s.as_str(),
            "charset=utf-8",
        ),
        Option::None => false,
    }
}

/// Turn one inbound message into content blocks: the authored text
/// first, then each image attachment bounded and re-encoded, and each
/// text attachment wrapped as a document.  Attachments that do not
/// decode contribute nothing.
pub fn msg_to_content(text: &str, author: &str, attachments: Vec<Attachment>) -> (r: Vec<Content>)
    ensures
        r@.len() == message_blocks(text@, author@, attachments@).len(),
        forall|i: int|
            0 <= i < r@.len() ==> block_matches(
                #[trigger] r@[i],
                message_blocks(text@, author@, attachments@)[i],
            ),
{
    let ghost expected = message_blocks(text@, author@, attachments@);
    let mut items: Vec<Content> = Vec::new();
    if text.unicode_len() > 0 {
        let line = concat_str(concat_str(author.to_owned(), ": "), text);
        items.push(Content::Text { text: line, citations: None });
    }
    let ghost base = items@;
    let ghost atts_all = attachments@;
    let mut remaining = attachments;
    let ghost mut consumed: int = 0;
    proof {
        assert(attachments_blocks(atts_all.take(0)) =~= Seq::<BlockSpec>::empty());
        assert(expected =~= (if text@.len() > 0 {
            seq![BlockSpec::PlainText { text: author_line(author@, text@) }]
        } else {
            Seq::<BlockSpec>::empty()
        }) + attachments_blocks(atts_all));
    }
    while remaining.len() > 0
        invariant
            0 <= consumed,
            consumed + remaining@.len() == atts_all.len(),
            remaining@ == atts_all.skip(consumed),
            expected == message_blocks(text@, author@, atts_all),
            items@.len() == (if text@.len() > 0 {
                1int
            } else {
                0int
            }) + attachments_blocks(atts_all.take(consumed)).len(),
            forall|i: int|
                0 <= i < items@.len() ==> block_matches(
                    #[trigger] items@[i],
                    ((if text@.len() > 0 {
                        seq![BlockSpec::PlainText { text: author_line(author@, text@) }]
                    } else {
                        Seq::<BlockSpec>::empty()
                    }) + attachments_blocks(atts_all.take(consumed)))[i],
                ),
        decreases remaining@.len(),
    {
        let a = remaining.remove(0);
        let ghost ga = a;
        proof {
            assert(remaining@ =~= atts_all.skip(consumed + 1));
            assert(ga == atts_all[consumed]);
            assert(atts_all.take(consumed + 1).drop_last() =~= atts_all.take(consumed));
            assert(atts_all.take(consumed + 1).last() == ga);
        }
        if ct_is_image(&a.content_type) {
            match resize_image(&a.bytes, 600, 600) {
                Option::Some(png) => {
                    let data = b64_encode(&png);
                    items.push(
                        Content::Image {
                            source: ImageSource::Base64 {
                                media_type: "image/png".to_owned(),
                                data,
                            },
                        },
                    );
                },
                Option::None => {},
            }
        } else if ct_is_text(&a.content_type) {
            let filename = a.filename;
            let bytes = a.bytes;
            let ghost gbytes = bytes@;
            match utf8_decode(bytes) {
                Option::Some(body) => {
                    let s = concat_str(
                        concat_str(
                            concat_str(
                                concat_str("<document name=\"".to_owned(), filename.as_str()),
                                "\">\n",
                            ),
                            body.as_str(),
                        ),
                        "</document>",
                    );
                    items.push(Content::Text { text: s, citations: None });
                    proof {
                        assert(encode_utf8(body@) == gbytes);
                    }
                },
                Option::None => {},
            }
        }
        proof {
            consumed = consumed + 1;
            assert(attachments_blocks(atts_all.take(consumed)) =~= attachments_blocks(
                atts_all.take(consumed - 1),
            ) + attachment_blocks(ga));
        }
    }
    proof {
        assert(atts_all.take(atts_all.len() as int) =~= atts_all);
    }
    items
}


/// The non-blank entries of `parts`, in order.
pub open spec fn visible_parts(parts: Seq<Seq<char>>) -> Seq<Seq<char>>
    decreases parts.len(),
{
    if parts.len() == 0 {
        Seq::empty()
    } else {
        let rest = visible_parts(parts.drop_last());
        if crate::dispatch::has_visible(parts.last()) {
            rest + seq![parts.last()]
        } else {
            rest
        }
    }
}

/// One reply bundled out of the segments: the non-blank parts joined by
/// single spaces.
pub open spec fn bundled_reply(parts: Seq<Seq<char>>) -> Seq<char> {
    crate::dispatch::join_space(visible_parts(parts))
}

/// Bundle the rendered reply segments into one message: blank segments
/// are dropped and the rest join with single spaces.
pub fn bundle_replies(parts: &Vec<String>) -> (r: String)
    ensures
        r@ == bundled_reply(crate::dispatch::views_of(parts@)),
{
    let ghost all = crate::dispatch::views_of(parts@);
    let mut out = String::new();
    let mut pushed = false;
    let mut i: usize = 0;
    proof {
        assert(all.take(0) =~= Seq::<Seq<char>>::empty());
        assert(visible_parts(all.take(0)) =~= Seq::<Seq<char>>::empty());
    }
    while i < parts.len()
        invariant
            i <= parts@.len(),
            all == crate::dispatch::views_of(parts@),
            all.len() == parts@.len(),
            out@ == crate::dispatch::join_space(visible_parts(all.take(i as int))),
            pushed == (visible_parts(all.take(i as int)).len() > 0),
        decreases parts@.len() - i,
    {
        let ghost vis_pre = visible_parts(all.take(i as int));
        proof {
            assert(all.take(i + 1).drop_last() =~= all.take(i as int));
            assert(all.take(i + 1).last() == parts@[i as int]@);
        }
        if crate::dispatch::visible(parts[i].as_str()) {
            if pushed {
                out = concat_str(out, " ");
            }
            out = concat_str(out, parts[i].as_str());
            pushed = true;
            proof {
                reveal_strlit(" ");
                assert(" "@ =~= seq![' ']);
                let vis = visible_parts(all.take(i + 1));
                assert(vis =~= vis_pre + seq![parts@[i as int]@]);
                assert(vis.drop_last() =~= vis_pre);
                assert(vis.last() == parts@[i as int]@);
            }
        } else {
            proof {
                assert(visible_parts(all.take(i + 1)) =~= vis_pre);
            }
        }
        i += 1;
    }
    proof {
        assert(all.take(parts@.len() as int) =~= all);
    }
    out
}

/// Whether a bundled reply is too long to send inline and should travel
/// as a file attachment instead: over 2000 bytes.
pub fn reply_needs_attachment(reply: &str) -> (r: bool)
    ensures
        r == (reply.spec_bytes().len() as usize > 2000),
{
    reply.len() > 2000
}

} // verus!
