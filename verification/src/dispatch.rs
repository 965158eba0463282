//! The agent dispatch loop: drives a channel against the remote model,
//! invokes tools the model asks for, and turns the reply text into
//! response segments.

use vstd::prelude::*;
use crate::channel::Channel;
use crate::channel::cap_trailing_model;
use crate::channel::no_consec_assistant;
use crate::channel::lemma_cap_preserves_alternation;
use crate::channel::lemma_push_preserves_alternation;
use crate::claude::api::Interaction;
use crate::claude::api::InteractionView;
use crate::claude::api::Model;
use crate::claude::api::Response;
use crate::claude::api::Role;
use crate::claude::api::Tool;
use crate::claude::api::Transport;
use crate::claude::content::Citation;
use crate::claude::content::Content;
use crate::claude::error::Error;
use crate::strings::chars_to_string;
use crate::strings::concat_str;
use crate::strings::str_eq;
use crate::strings::to_chars;
use vstd::string::*;

verus! {

/// One response segment for the caller to render: plain text, or a
/// structured JSON payload extracted from the reply.
#[derive(Debug, PartialEq)]
pub enum BotResponse {
    Text(String),
    Payload(String),
}

/// The side of the plugin host the dispatch loop sees: resolve a tool by
/// name and run it on the given input.  Nothing is assumed of the result;
/// the loop is verified for every outcome.
pub trait ToolHost {
    /// Invoke the named tool; `Err` carries a message for the model.
    fn invoke_tool(&mut self, name: &str, input: &Vec<(String, String)>) -> Result<
        Option<String>,
        String,
    >;
}

/// Whether the text parses as JSON.  Relies on `serde_json::from_str`,
/// whose outcome depends on the text alone.
pub uninterp spec fn json_parses(s: Seq<char>) -> bool;

/// Relies on `serde_json::from_str::<Value>`: accepts exactly the texts
/// that are valid JSON.
#[verifier::external_body]
fn json_check(s: &str) -> (r: bool)
    ensures
        r == json_parses(s@),
{
    serde_json::from_str::<serde_json::Value>(s).is_ok()
}

/// A citation rendered for display: the URL between backticks.
pub open spec fn citation_marker(u: Seq<char>) -> Seq<char> {
    seq!['`'] + u + seq!['`']
}

/// `s` with entries already in `seen` (and later repetitions) removed,
/// keeping first occurrences in order.
pub open spec fn dedup_from(s: Seq<Seq<char>>, seen: Seq<Seq<char>>) -> Seq<Seq<char>>
    decreases s.len(),
{
    if s.len() == 0 {
        Seq::empty()
    } else if seen.contains(s[0]) {
        dedup_from(s.drop_first(), seen)
    } else {
        seq![s[0]] + dedup_from(s.drop_first(), seen.push(s[0]))
    }
}

/// The entries of `us` joined by single spaces.
pub open spec fn join_space(us: Seq<Seq<char>>) -> Seq<char>
    decreases us.len(),
{
    if us.len() == 0 {
        Seq::empty()
    } else if us.len() == 1 {
        us[0]
    } else {
        join_space(us.drop_last()) + seq![' '] + us.last()
    }
}

/// The rendered citation list of `cs`: each URL between backticks,
/// deduplicated keeping first occurrences, joined by spaces.
pub open spec fn rendered_citations(cs: Seq<Citation>) -> Seq<char> {
    join_space(
        dedup_from(cs.map_values(|c: Citation| citation_marker(c.url@)), Seq::empty()),
    )
}

/// A text block as it reaches the output buffer: the text itself, with a
/// bracketed citation list appended when citations are present.
pub open spec fn rendered_block(t: Seq<char>, citations: Option<Vec<Citation>>) -> Seq<char> {
    match citations {
        Option::Some(cs) => if cs@.len() > 0 {
            t + " ["@ + rendered_citations(cs@) + "]"@
        } else {
            t
        },
        Option::None => t,
    }
}

/// The views of a vector of strings.
pub open spec fn views_of(s: Seq<String>) -> Seq<Seq<char>> {
    s.map_values(|x: String| x@)
}

/// Whether `v` holds a string whose characters are `s`.
pub open spec fn contains_view(v: Seq<String>, s: Seq<char>) -> bool {
    exists|i: int| 0 <= i < v.len() && v[i]@ == s
}

/// Whether `v` holds a string equal to `s`.
fn contains_str(v: &Vec<String>, s: &str) -> (r: bool)
    ensures
        r == contains_view(v@, s@),
{
    let mut i: usize = 0;
    while i < v.len()
        invariant
            i <= v@.len(),
            forall|j: int| 0 <= j < i ==> v@[j]@ != s@,
        decreases v@.len() - i,
    {
        if str_eq(v[i].as_str(), s) {
            return true;
        }
        i += 1;
    }
    false
}

/// Render the citation list of one text block.
fn render_citations(cs: &Vec<Citation>) -> (r: String)
    ensures
        r@ == rendered_citations(cs@),
{
    let ghost marked_all = cs@.map_values(|c: Citation| citation_marker(c.url@));
    let mut marked: Vec<String> = Vec::new();
    let mut i: usize = 0;
    while i < cs.len()
        invariant
            i <= cs@.len(),
            marked_all == cs@.map_values(|c: Citation| citation_marker(c.url@)),
            marked_all.len() == cs@.len(),
            marked@.len() == i,
            views_of(marked@) == marked_all.take(i as int),
        decreases cs@.len() - i,
    {
        let m = concat_str(concat_str("`".to_owned(), cs[i].url.as_str()), "`");
        proof {
            reveal_strlit("`");
            assert("`"@ =~= seq!['`']);
            assert(m@ =~= citation_marker(cs@[i as int].url@));
        }
        let ghost m_view = m@;
        let ghost marked_pre = marked@;
        marked.push(m);
        proof {
            assert(marked_all[i as int] == citation_marker(cs@[i as int].url@));
            assert(m_view == marked_all[i as int]);
            assert(marked@ == marked_pre.push(m));
            assert(views_of(marked@).len() == i + 1);
            assert forall|k: int| 0 <= k < i + 1 implies views_of(marked@)[k] == marked_all.take(
                i + 1,
            )[k] by {
                if k < i {
                    assert(views_of(marked_pre)[k] == marked_all.take(i as int)[k]);
                    assert(marked@[k] == marked_pre[k]);
                } else {
                    assert(marked@[k] == m);
                }
            }
            assert(views_of(marked@) =~= marked_all.take(i + 1));
        }
        i += 1;
    }
    proof {
        assert(marked_all.take(cs@.len() as int) =~= marked_all);
    }
    // Deduplicate, keeping first occurrences.
    let mut uniq: Vec<String> = Vec::new();
    let mut rest = marked;
    proof {
        assert(views_of(uniq@) =~= Seq::<Seq<char>>::empty());
        assert(Seq::<Seq<char>>::empty() + dedup_from(views_of(rest@), views_of(uniq@))
            =~= dedup_from(views_of(rest@), views_of(uniq@)));
    }
    while rest.len() > 0
        invariant
            dedup_from(marked_all, Seq::empty()) =~= views_of(uniq@) + dedup_from(
                views_of(rest@),
                views_of(uniq@),
            ),
        decreases rest@.len(),
    {
        let ghost rest_pre = views_of(rest@);
        let ghost uniq_pre = views_of(uniq@);
        let s = rest.remove(0);
        proof {
            assert(views_of(rest@) =~= rest_pre.drop_first());
            assert(rest_pre[0] == s@);
        }
        if contains_str(&uniq, s.as_str()) {
            proof {
                assert(uniq_pre.contains(s@)) by {
                    let i = choose|i: int| 0 <= i < uniq@.len() && uniq@[i]@ == s@;
                    assert(uniq_pre[i] == s@);
                }
                assert(dedup_from(rest_pre, uniq_pre) == dedup_from(
                    rest_pre.drop_first(),
                    uniq_pre,
                ));
            }
        } else {
            uniq.push(s);
            proof {
                assert(!uniq_pre.contains(s@)) by {
                    if uniq_pre.contains(s@) {
                        let i = choose|i: int| 0 <= i < uniq_pre.len() && uniq_pre[i] == s@;
                        assert(uniq@[i]@ == s@);
                    }
                }
                assert(views_of(uniq@) =~= uniq_pre.push(s@));
                assert(dedup_from(rest_pre, uniq_pre) == seq![s@] + dedup_from(
                    rest_pre.drop_first(),
                    uniq_pre.push(s@),
                ));
                assert(dedup_from(marked_all, Seq::empty()) =~= views_of(uniq@) + dedup_from(
                    views_of(rest@),
                    views_of(uniq@),
                ));
            }
        }
    }
    proof {
        assert(views_of(rest@) =~= Seq::<Seq<char>>::empty());
        assert(dedup_from(marked_all, Seq::empty()) =~= views_of(uniq@));
    }
    // Join with single spaces.
    let ghost uniq_views = views_of(uniq@);
    let mut out = String::new();
    let mut j: usize = 0;
    while j < uniq.len()
        invariant
            j <= uniq@.len(),
            uniq_views == views_of(uniq@),
            out@ == join_space(uniq_views.take(j as int)),
        decreases uniq@.len() - j,
    {
        if j > 0 {
            out = concat_str(out, " ");
        }
        out = concat_str(out, uniq[j].as_str());
        proof {
            reveal_strlit(" ");
            assert(" "@ =~= seq![' ']);
            let t = uniq_views.take(j + 1);
            assert(t.drop_last() =~= uniq_views.take(j as int));
            assert(t.last() == uniq_views[j as int]);
            if j == 0 {
                assert(out@ =~= join_space(t));
            } else {
                assert(out@ =~= join_space(t));
            }
        }
        j += 1;
    }
    proof {
        assert(uniq_views.take(uniq@.len() as int) =~= uniq_views);
    }
    out
}

/// Render one text block with its citations for the output buffer.
fn render_block(text: &str, citations: &Option<Vec<Citation>>) -> (r: String)
    ensures
        r@ == rendered_block(text@, *citations),
{
    match citations {
        Option::Some(cs) => {
            if cs.len() > 0 {
                let mut out = concat_str(text.to_owned(), " [");
                out = concat_str(out, render_citations(cs).as_str());
                out = concat_str(out, "]");
                out
            } else {
                text.to_owned()
            }
        },
        Option::None => text.to_owned(),
    }
}


/// Whether `c` is an ASCII whitespace character.
pub open spec fn is_space_char(c: char) -> bool {
    c == ' ' || c == '\t' || c == '\n' || c == '\r'
}

/// Whether `s` holds any non-whitespace character.
pub open spec fn has_visible(s: Seq<char>) -> bool {
    exists|i: int| 0 <= i < s.len() && !is_space_char(s[i])
}

/// Whether `s` holds any non-whitespace character.
pub fn visible(s: &str) -> (r: bool)
    ensures
        r == has_visible(s@),
{
    let n = s.unicode_len();
    let mut i: usize = 0;
    while i < n
        invariant
            i <= n,
            n == s@.len(),
            forall|j: int| 0 <= j < i ==> is_space_char(s@[j]),
        decreases n - i,
    {
        let c = s.get_char(i);
        if !(c == ' ' || c == '\t' || c == '\n' || c == '\r') {
            return true;
        }
        i += 1;
    }
    false
}

/// The index of the first occurrence of `c` in `s`, or -1.
pub open spec fn spec_find_first(s: Seq<char>, c: char) -> int
    decreases s.len(),
{
    if s.len() == 0 {
        -1
    } else if s[0] == c {
        0
    } else {
        let r = spec_find_first(s.drop_first(), c);
        if r < 0 {
            -1
        } else {
            r + 1
        }
    }
}

/// The index of the last occurrence of `c` in `s`, or -1.
pub open spec fn spec_find_last(s: Seq<char>, c: char) -> int
    decreases s.len(),
{
    if s.len() == 0 {
        -1
    } else if s[s.len() - 1] == c {
        s.len() - 1
    } else {
        spec_find_last(s.drop_last(), c)
    }
}

/// `spec_find_first` names the first occurrence of `c`, or -1 when there
/// is none.
pub proof fn lemma_find_first_char(s: Seq<char>, c: char)
    ensures
        spec_find_first(s, c) == -1 <==> (forall|j: int| 0 <= j < s.len() ==> s[j] != c),
        spec_find_first(s, c) != -1 ==> 0 <= spec_find_first(s, c) < s.len() && s[spec_find_first(
            s,
            c,
        )] == c && (forall|j: int| 0 <= j < spec_find_first(s, c) ==> s[j] != c),
    decreases s.len(),
{
    if s.len() > 0 && s[0] != c {
        lemma_find_first_char(s.drop_first(), c);
        assert(forall|j: int|
            0 <= j < s.drop_first().len() ==> #[trigger] s.drop_first()[j] == s[j + 1]);
        let r = spec_find_first(s.drop_first(), c);
        if r >= 0 {
            assert(s[r + 1] == c);
            assert forall|j: int| 0 <= j < r + 1 implies s[j] != c by {
                if j > 0 {
                    assert(s.drop_first()[j - 1] != c);
                }
            }
        } else {
            assert forall|j: int| 0 <= j < s.len() implies s[j] != c by {
                if j > 0 {
                    assert(s.drop_first()[j - 1] != c);
                }
            }
        }
    }
}

/// `spec_find_last` names the last occurrence of `c`, or -1 when there is
/// none.
pub proof fn lemma_find_last_char(s: Seq<char>, c: char)
    ensures
        spec_find_last(s, c) == -1 <==> (forall|j: int| 0 <= j < s.len() ==> s[j] != c),
        spec_find_last(s, c) != -1 ==> 0 <= spec_find_last(s, c) < s.len() && s[spec_find_last(
            s,
            c,
        )] == c && (forall|j: int| spec_find_last(s, c) < j < s.len() ==> s[j] != c),
    decreases s.len(),
{
    if s.len() > 0 && s[s.len() - 1] != c {
        lemma_find_last_char(s.drop_last(), c);
        assert(forall|j: int|
            0 <= j < s.drop_last().len() ==> #[trigger] s.drop_last()[j] == s[j]);
        let r = spec_find_last(s.drop_last(), c);
        if r >= 0 {
            assert(s.drop_last()[r] == c);
            assert forall|j: int| r < j < s.len() implies s[j] != c by {
                if j < s.len() - 1 {
                    assert(s.drop_last()[j] != c);
                }
            }
        } else {
            assert forall|j: int| 0 <= j < s.len() implies s[j] != c by {
                if j < s.len() - 1 {
                    assert(s.drop_last()[j] != c);
                }
            }
        }
    }
}

/// The first occurrence of `c` in `v`, scanning forward.
pub fn find_first_char(v: &Vec<char>, c: char) -> (r: Option<usize>)
    ensures
        match r {
            Option::Some(i) => i == spec_find_first(v@, c),
            Option::None => spec_find_first(v@, c) == -1,
        },
{
    proof {
        lemma_find_first_char(v@, c);
    }
    let mut i: usize = 0;
    while i < v.len()
        invariant
            i <= v@.len(),
            forall|j: int| 0 <= j < i ==> v@[j] != c,
        decreases v@.len() - i,
    {
        if v[i] == c {
            proof {
                lemma_find_first_char(v@, c);
                let r = spec_find_first(v@, c);
                assert(v@[i as int] == c);
                assert(r != -1);
                if r < i {
                    assert(v@[r] != c);
                } else if r > i {
                    assert(v@[i as int] != c);
                }
            }
            return Some(i);
        }
        i += 1;
    }
    None
}

/// The last occurrence of `c` in `v`, scanning backward.
fn find_last_char(v: &Vec<char>, c: char) -> (r: Option<usize>)
    ensures
        match r {
            Option::Some(i) => i == spec_find_last(v@, c),
            Option::None => spec_find_last(v@, c) == -1,
        },
{
    proof {
        lemma_find_last_char(v@, c);
    }
    let mut i: usize = v.len();
    while i > 0
        invariant
            i <= v@.len(),
            forall|j: int| i <= j < v@.len() ==> v@[j] != c,
        decreases i,
    {
        i -= 1;
        if v[i] == c {
            proof {
                lemma_find_last_char(v@, c);
                let r = spec_find_last(v@, c);
                assert(v@[i as int] == c);
                assert(r != -1);
                if r < i {
                    assert(v@[i as int] != c);
                } else if r > i {
                    assert(v@[r] != c);
                }
            }
            return Some(i);
        }
    }
    None
}

/// One pass of the JSON quoting fix-up from position `i` onward, with the
/// scanner state (inside a quoted span, just after a backslash) and the
/// output accumulated so far.
pub open spec fn fixup_rec(s: Seq<char>, i: int, in_str: bool, esc: bool, acc: Seq<char>) -> Seq<
    char,
>
    decreases s.len() - i,
    when 0 <= i <= s.len()
{
    if i >= s.len() {
        acc
    } else {
        let c = s[i];
        if in_str {
            if esc {
                fixup_rec(s, i + 1, true, false, acc.push(c))
            } else if c == '\\' {
                fixup_rec(s, i + 1, true, true, acc.push(c))
            } else if c == '"' {
                fixup_rec(s, i + 1, false, false, acc.push(c))
            } else if c == '\n' {
                fixup_rec(s, i + 1, true, false, acc + seq!['\\', 'n'])
            } else {
                fixup_rec(s, i + 1, true, false, acc.push(c))
            }
        } else {
            if c == '"' {
                fixup_rec(s, i + 1, true, false, acc.push(c))
            } else {
                fixup_rec(s, i + 1, false, false, acc.push(c))
            }
        }
    }
}

/// The quoting fix-up applied to a whole candidate payload: literal
/// newlines inside quoted string spans become the two characters `\n`.
pub open spec fn fixup_json_model(s: Seq<char>) -> Seq<char> {
    fixup_rec(s, 0, false, false, Seq::empty())
}

/// Escape literal newlines inside quoted string spans, so that a payload
/// the model wrote with raw line breaks still parses.
pub fn fixup_json(s: &str) -> (r: String)
    ensures
        r@ == fixup_json_model(s@),
{
    let chars = to_chars(s);
    let mut acc: Vec<char> = Vec::new();
    let mut in_str = false;
    let mut esc = false;
    let mut i: usize = 0;
    while i < chars.len()
        invariant
            i <= chars@.len(),
            chars@ == s@,
            in_str || !esc,
            fixup_json_model(s@) == fixup_rec(s@, i as int, in_str, esc, acc@),
        decreases chars@.len() - i,
    {
        let c = chars[i];
        let ghost acc_pre = acc@;
        let ghost gi = i as int;
        let ghost gin = in_str;
        let ghost gesc = esc;
        proof {
            assert(c == s@[gi]);
        }
        if in_str {
            if esc {
                acc.push(c);
                esc = false;
                proof {
                    assert(fixup_rec(s@, gi, true, true, acc_pre) == fixup_rec(
                        s@,
                        gi + 1,
                        true,
                        false,
                        acc_pre.push(c),
                    ));
                }
            } else if c == '\\' {
                acc.push(c);
                esc = true;
                proof {
                    assert(fixup_rec(s@, gi, true, false, acc_pre) == fixup_rec(
                        s@,
                        gi + 1,
                        true,
                        true,
                        acc_pre.push(c),
                    ));
                }
            } else if c == '"' {
                acc.push(c);
                in_str = false;
                proof {
                    assert(fixup_rec(s@, gi, true, false, acc_pre) == fixup_rec(
                        s@,
                        gi + 1,
                        false,
                        false,
                        acc_pre.push(c),
                    ));
                }
            } else if c == '\n' {
                acc.push('\\');
                acc.push('n');
                proof {
                    assert(acc@ =~= acc_pre + seq!['\\', 'n']);
                    assert(fixup_rec(s@, gi, true, false, acc_pre) == fixup_rec(
                        s@,
                        gi + 1,
                        true,
                        false,
                        acc_pre + seq!['\\', 'n'],
                    ));
                }
            } else {
                acc.push(c);
                proof {
                    assert(fixup_rec(s@, gi, true, false, acc_pre) == fixup_rec(
                        s@,
                        gi + 1,
                        true,
                        false,
                        acc_pre.push(c),
                    ));
                }
            }
        } else {
            if c == '"' {
                acc.push(c);
                in_str = true;
                proof {
                    assert(fixup_rec(s@, gi, false, gesc, acc_pre) == fixup_rec(
                        s@,
                        gi + 1,
                        true,
                        false,
                        acc_pre.push(c),
                    ));
                }
            } else {
                acc.push(c);
                proof {
                    assert(fixup_rec(s@, gi, false, gesc, acc_pre) == fixup_rec(
                        s@,
                        gi + 1,
                        false,
                        false,
                        acc_pre.push(c),
                    ));
                }
            }
        }
        i += 1;
    }
    chars_to_string(&acc)
}

/// The output buffer texts joined into one blob.
pub open spec fn blob_of(texts: Seq<Seq<char>>) -> Seq<char>
    decreases texts.len(),
{
    if texts.len() == 0 {
        Seq::empty()
    } else {
        blob_of(texts.drop_last()) + texts.last()
    }
}

/// Whether `b` is a text segment holding `s`.
pub open spec fn seg_is_text(b: BotResponse, s: Seq<char>) -> bool {
    b matches BotResponse::Text(t) && t@ == s
}

/// Whether `b` is a payload segment holding `s`.
pub open spec fn seg_is_payload(b: BotResponse, s: Seq<char>) -> bool {
    b matches BotResponse::Payload(t) && t@ == s
}

/// Whether the blob holds an extractable structured payload: a first `{`
/// and a last `}` that span more than a trivial distance, such that the
/// fixed-up span parses as JSON.
pub open spec fn payload_case(blob: Seq<char>) -> bool {
    let st = spec_find_first(blob, '{');
    let en = spec_find_last(blob, '}');
    st >= 0 && en >= 0 && st + 3 < en && json_parses(fixup_json_model(blob.subrange(st, en + 1)))
}

/// The segments of a payload split: the leading text when visible, the
/// fixed-up payload, the trailing text when visible.
pub open spec fn payload_segments_ok(r: Seq<BotResponse>, blob: Seq<char>) -> bool {
    let st = spec_find_first(blob, '{');
    let en = spec_find_last(blob, '}');
    let pre = blob.subrange(0, st);
    let span = fixup_json_model(blob.subrange(st, en + 1));
    let suf = blob.subrange(en + 1, blob.len() as int);
    if has_visible(pre) && has_visible(suf) {
        r.len() == 3 && seg_is_text(r[0], pre) && seg_is_payload(r[1], span) && seg_is_text(
            r[2],
            suf,
        )
    } else if has_visible(pre) {
        r.len() == 2 && seg_is_text(r[0], pre) && seg_is_payload(r[1], span)
    } else if has_visible(suf) {
        r.len() == 2 && seg_is_payload(r[0], span) && seg_is_text(r[1], suf)
    } else {
        r.len() == 1 && seg_is_payload(r[0], span)
    }
}

/// How the returned segments relate to the accumulated texts: the
/// payload split when one parsing span runs across their blob, one text
/// segment per accumulated text otherwise.
pub open spec fn segments_match(segs: Seq<BotResponse>, texts: Seq<Seq<char>>) -> bool {
    if payload_case(blob_of(texts)) {
        payload_segments_ok(segs, blob_of(texts))
    } else {
        segs.len() == texts.len() && (forall|i: int|
            0 <= i < segs.len() ==> seg_is_text(#[trigger] segs[i], texts[i]))
    }
}

/// Split the accumulated reply texts into response segments: when one
/// bracketed span across the whole blob parses as JSON after the quoting
/// fix-up, the reply becomes (leading text, payload, trailing text);
/// otherwise each accumulated text stands as its own segment.
pub fn extract_segments(texts: &Vec<String>) -> (r: Vec<BotResponse>)
    ensures
        segments_match(r@, views_of(texts@)),
{
    let ghost bl = blob_of(views_of(texts@));
    let mut blob = String::new();
    let mut i: usize = 0;
    while i < texts.len()
        invariant
            i <= texts@.len(),
            blob@ == blob_of(views_of(texts@).take(i as int)),
        decreases texts@.len() - i,
    {
        blob = concat_str(blob, texts[i].as_str());
        proof {
            let t = views_of(texts@).take(i + 1);
            assert(t.drop_last() =~= views_of(texts@).take(i as int));
            assert(t.last() == texts@[i as int]@);
        }
        i += 1;
    }
    proof {
        assert(views_of(texts@).take(texts@.len() as int) =~= views_of(texts@));
        assert(blob@ == bl);
    }
    let chars = to_chars(blob.as_str());
    let st_opt = find_first_char(&chars, '{');
    let en_opt = find_last_char(&chars, '}');
    proof {
        lemma_find_first_char(blob@, '{');
        lemma_find_last_char(blob@, '}');
    }
    if let (Some(st), Some(en)) = (st_opt, en_opt) {
        if en > st && en - st > 3 {
            let nchars = chars.len();
            proof {
                assert(en == spec_find_last(blob@, '}'));
                assert(en < blob@.len());
                assert(en < nchars);
            }
            let span = blob.as_str().substring_char(st, en + 1);
            let fixed = fixup_json(span);
            if json_check(fixed.as_str()) {
                let pre = blob.as_str().substring_char(0, st);
                let n = blob.as_str().unicode_len();
                let suf = blob.as_str().substring_char(en + 1, n);
                let mut segs: Vec<BotResponse> = Vec::new();
                if visible(pre) {
                    segs.push(BotResponse::Text(pre.to_owned()));
                }
                segs.push(BotResponse::Payload(fixed));
                if visible(suf) {
                    segs.push(BotResponse::Text(suf.to_owned()));
                }
                return segs;
            }
        }
    }
    let mut segs: Vec<BotResponse> = Vec::new();
    let mut j: usize = 0;
    while j < texts.len()
        invariant
            j <= texts@.len(),
            segs@.len() == j,
            forall|k: int| 0 <= k < j ==> seg_is_text(#[trigger] segs@[k], texts@[k]@),
        decreases texts@.len() - j,
    {
        segs.push(BotResponse::Text(texts[j].clone()));
        j += 1;
    }
    segs
}


/// Whether any block of `s` is one the model may never emit.
pub open spec fn has_forbidden(s: Seq<Content>) -> bool {
    exists|i: int| 0 <= i < s.len() && (#[trigger] s[i] is Image || s[i] is ToolResult)
}

/// The tool-result block owed for one tool use, given the host's
/// outcome: the output string on success, a fixed marker for silent
/// success, the failure message with the error flag set otherwise.
pub open spec fn is_outcome_result(
    b: Content,
    id: Seq<char>,
    outcome: Result<Option<String>, String>,
) -> bool {
    b matches Content::ToolResult { tool_use_id, content, is_error } && tool_use_id@ == id && (
    match outcome {
        Result::Ok(Option::Some(s)) => content@ == s@ && !is_error,
        Result::Ok(Option::None) => content@ == "<no output>"@ && !is_error,
        Result::Err(m) => content@ == m@ && is_error,
    })
}

/// One reply as the dispatch loop processed it: the content blocks the
/// model sent, the outcome the host handed back for each tool use, and
/// the tool-result blocks fed back to the model.
pub struct ReplyLog {
    pub blocks: Seq<Content>,
    pub outcomes: Seq<Result<Option<String>, String>>,
    pub results: Seq<Content>,
}

/// A well-formed log entry: blocks the model may emit, with one outcome
/// and one matching result block per tool use, in block order.
pub open spec fn reply_log_ok(e: ReplyLog) -> bool {
    &&& !has_forbidden(e.blocks)
    &&& e.outcomes.len() == tool_use_ids(e.blocks).len()
    &&& e.results.len() == tool_use_ids(e.blocks).len()
    &&& forall|k: int|
        0 <= k < e.results.len() ==> is_outcome_result(
            #[trigger] e.results[k],
            tool_use_ids(e.blocks)[k],
            e.outcomes[k],
        )
}

/// The turns one processed reply appends to the history: the assistant
/// turn, then the fed-back tool results as one user turn when any tool
/// was requested.
pub open spec fn round_turns(e: ReplyLog) -> Seq<InteractionView> {
    seq![InteractionView { role: Role::Assistant, content: e.blocks }] + (if tool_use_ids(
        e.blocks,
    ).len() > 0 {
        seq![InteractionView { role: Role::User, content: e.results }]
    } else {
        Seq::empty()
    })
}

/// The turns a whole turn's replies append, in order.
pub open spec fn turns_of(log: Seq<ReplyLog>) -> Seq<InteractionView>
    decreases log.len(),
{
    if log.len() == 0 {
        Seq::empty()
    } else {
        turns_of(log.drop_last()) + round_turns(log.last())
    }
}

/// The texts the replies contribute to the output buffer, in order.
pub open spec fn rendered_of(log: Seq<ReplyLog>) -> Seq<Seq<char>>
    decreases log.len(),
{
    if log.len() == 0 {
        Seq::empty()
    } else {
        rendered_of(log.drop_last()) + rendered_texts(log.last().blocks)
    }
}

/// A completed turn, as one reply log tells it: at least one reply came;
/// every reply but the last asked for tools and the last asked for none;
/// each reply appended its assistant turn and fed-back results in order
/// after the capped history; and the returned segments are exactly the
/// split of the rendered reply texts.  Kept opaque so that only proofs
/// that ask for it unfold the whole scanner chain; `reveal(ok_turn)`
/// opens it.
#[verifier::opaque]
pub open spec fn ok_turn(
    capped: Seq<InteractionView>,
    final_h: Seq<InteractionView>,
    log: Seq<ReplyLog>,
    segs: Seq<BotResponse>,
) -> bool {
    &&& log.len() >= 1
    &&& (forall|i: int| 0 <= i < log.len() ==> reply_log_ok(#[trigger] log[i]))
    &&& (forall|i: int|
        0 <= i < log.len() - 1 ==> tool_use_ids((#[trigger] log[i]).blocks).len() > 0)
    &&& tool_use_ids(log.last().blocks).len() == 0
    &&& final_h == capped + turns_of(log)
    &&& segments_match(segs, rendered_of(log))
}

/// The identifiers of the tool-use blocks of `s`, in order.
pub open spec fn tool_use_ids(s: Seq<Content>) -> Seq<Seq<char>>
    decreases s.len(),
{
    if s.len() == 0 {
        Seq::empty()
    } else {
        let rest = tool_use_ids(s.drop_first());
        match s[0] {
            Content::ToolUse { id, .. } => seq![id@] + rest,
            _ => rest,
        }
    }
}

/// The texts that the blocks of `s` contribute to the output buffer, in
/// order, with citations rendered.
pub open spec fn rendered_texts(s: Seq<Content>) -> Seq<Seq<char>>
    decreases s.len(),
{
    if s.len() == 0 {
        Seq::empty()
    } else {
        let rest = rendered_texts(s.drop_first());
        match s[0] {
            Content::Text { text, citations } => seq![rendered_block(text@, citations)] + rest,
            _ => rest,
        }
    }
}

proof fn lemma_views_push(s: Seq<String>, x: String)
    ensures
        views_of(s.push(x)) == views_of(s).push(x@),
{
    assert(views_of(s.push(x)) =~= views_of(s).push(x@));
}

proof fn lemma_tool_use_ids_push(s: Seq<Content>, x: Content)
    ensures
        tool_use_ids(s.push(x)) == tool_use_ids(s) + tool_use_ids(seq![x]),
    decreases s.len(),
{
    if s.len() == 0 {
        assert(s.push(x) =~= seq![x]);
        assert(tool_use_ids(s) + tool_use_ids(seq![x]) =~= tool_use_ids(seq![x]));
    } else {
        assert(s.push(x).drop_first() =~= s.drop_first().push(x));
        lemma_tool_use_ids_push(s.drop_first(), x);
        assert(s.push(x)[0] == s[0]);
        match s[0] {
            Content::ToolUse { id, .. } => {
                assert((seq![id@] + tool_use_ids(s.drop_first())) + tool_use_ids(seq![x])
                    =~= seq![id@] + (tool_use_ids(s.drop_first()) + tool_use_ids(seq![x])));
            },
            _ => {},
        }
    }
}

proof fn lemma_rendered_texts_push(s: Seq<Content>, x: Content)
    ensures
        rendered_texts(s.push(x)) == rendered_texts(s) + rendered_texts(seq![x]),
    decreases s.len(),
{
    if s.len() == 0 {
        assert(s.push(x) =~= seq![x]);
        assert(rendered_texts(s) + rendered_texts(seq![x]) =~= rendered_texts(seq![x]));
    } else {
        assert(s.push(x).drop_first() =~= s.drop_first().push(x));
        lemma_rendered_texts_push(s.drop_first(), x);
        assert(s.push(x)[0] == s[0]);
        match s[0] {
            Content::Text { text, citations } => {
                assert((seq![rendered_block(text@, citations)] + rendered_texts(s.drop_first()))
                    + rendered_texts(seq![x]) =~= seq![rendered_block(text@, citations)] + (
                rendered_texts(s.drop_first()) + rendered_texts(seq![x])));
            },
            _ => {},
        }
    }
}

/// Whether any block of `content` is one the model may never emit.
fn scan_forbidden(content: &Vec<Content>) -> (r: bool)
    ensures
        r == has_forbidden(content@),
{
    let mut i: usize = 0;
    while i < content.len()
        invariant
            i <= content@.len(),
            forall|j: int| 0 <= j < i ==> !(#[trigger] content@[j] is Image || content@[j]
                is ToolResult),
        decreases content@.len() - i,
    {
        match &content[i] {
            Content::Image { .. } => {
                return true;
            },
            Content::ToolResult { .. } => {
                return true;
            },
            _ => {},
        }
        i += 1;
    }
    false
}

/// Walk one model reply: accumulate its rendered texts into the output
/// buffer, invoke each requested tool, and hand back the reply blocks
/// unchanged together with one tool-result block per tool use, each
/// result carrying the identifier of the use it answers.
fn process_blocks<H: ToolHost>(
    content: Vec<Content>,
    host: &mut H,
    output: &mut Vec<String>,
) -> (r: (Vec<Content>, Vec<Content>, Ghost<Seq<Result<Option<String>, String>>>))
    requires
        !has_forbidden(content@),
    ensures
        r.0@ == content@,
        r.1@.len() == tool_use_ids(content@).len(),
        r.2@.len() == tool_use_ids(content@).len(),
        forall|k: int|
            0 <= k < r.1@.len() ==> is_outcome_result(
                #[trigger] r.1@[k],
                tool_use_ids(content@)[k],
                r.2@[k],
            ),
        views_of(final(output)@) == views_of(old(output)@) + rendered_texts(content@),
{
    let ghost orig = content@;
    let ghost out0 = views_of(old(output)@);
    let mut remaining = content;
    let mut assistant: Vec<Content> = Vec::new();
    let mut results: Vec<Content> = Vec::new();
    let ghost mut outcomes: Seq<Result<Option<String>, String>> = Seq::empty();
    proof {
        assert(assistant@ + remaining@ =~= orig);
        assert(tool_use_ids(assistant@) =~= Seq::<Seq<char>>::empty());
        assert(rendered_texts(assistant@) =~= Seq::<Seq<char>>::empty());
        assert(views_of(output@) =~= out0 + rendered_texts(assistant@));
    }
    while remaining.len() > 0
        invariant
            assistant@ + remaining@ == orig,
            !has_forbidden(orig),
            out0 == views_of(old(output)@),
            results@.len() == tool_use_ids(assistant@).len(),
            outcomes.len() == tool_use_ids(assistant@).len(),
            forall|k: int|
                0 <= k < results@.len() ==> is_outcome_result(
                    #[trigger] results@[k],
                    tool_use_ids(assistant@)[k],
                    outcomes[k],
                ),
            views_of(output@) == out0 + rendered_texts(assistant@),
        decreases remaining@.len(),
    {
        let ghost rem_pre = remaining@;
        let ghost asst_pre = assistant@;
        let ghost ids_pre = tool_use_ids(assistant@);
        let ghost texts_pre = rendered_texts(assistant@);
        let e = remaining.remove(0);
        let ghost ge = e;
        proof {
            assert(remaining@ =~= rem_pre.drop_first());
            assert((asst_pre + rem_pre)[asst_pre.len() as int] == rem_pre[0]);
            assert(ge == orig[asst_pre.len() as int]);
            assert(!(ge is Image) && !(ge is ToolResult));
            assert(seq![ge].drop_first() =~= Seq::<Content>::empty());
        }
        match e {
            Content::Text { text, citations } => {
                let ghost gtext = text@;
                let ghost gcit = citations;
                let rendered = render_block(text.as_str(), &citations);
                let ghost grendered = rendered@;
                let ghost out_pre = output@;
                output.push(rendered);
                assistant.push(Content::Text { text, citations });
                proof {
                    assert(assistant@.last() == ge);
                    assert(assistant@ =~= asst_pre.push(ge));
                    lemma_tool_use_ids_push(asst_pre, ge);
                    lemma_rendered_texts_push(asst_pre, ge);
                    lemma_views_push(out_pre, output@.last());
                    assert(tool_use_ids(seq![ge].drop_first()) =~= Seq::<Seq<char>>::empty());
                    assert(rendered_texts(seq![ge].drop_first()) =~= Seq::<Seq<char>>::empty());
                    assert(tool_use_ids(seq![ge]) =~= Seq::<Seq<char>>::empty());
                    assert(tool_use_ids(assistant@) =~= ids_pre);
                    assert(rendered_texts(seq![ge]) =~= seq![rendered_block(gtext, gcit)]);
                    assert(grendered == rendered_block(gtext, gcit));
                    assert(views_of(output@) =~= views_of(out_pre).push(grendered));
                    assert(rendered_texts(assistant@) =~= texts_pre + seq![grendered]);
                    assert(out0 + (texts_pre + seq![grendered]) =~= (out0 + texts_pre).push(
                        grendered,
                    ));
                    assert(views_of(output@) =~= out0 + rendered_texts(assistant@));
                    assert(assistant@ + remaining@ =~= orig);
                }
            },
            Content::ToolUse { id, name, input } => {
                let res = host.invoke_tool(name.as_str(), &input);
                let ghost gres = res;
                let tr = match res {
                    Result::Err(emsg) => Content::ToolResult {
                        tool_use_id: id.clone(),
                        content: emsg,
                        is_error: true,
                    },
                    Result::Ok(Option::None) => Content::ToolResult {
                        tool_use_id: id.clone(),
                        content: "<no output>".to_owned(),
                        is_error: false,
                    },
                    Result::Ok(Option::Some(sout)) => Content::ToolResult {
                        tool_use_id: id.clone(),
                        content: sout,
                        is_error: false,
                    },
                };
                results.push(tr);
                assistant.push(Content::ToolUse { id, name, input });
                proof {
                    assert(assistant@.last() == ge);
                    assert(assistant@ =~= asst_pre.push(ge));
                    lemma_tool_use_ids_push(asst_pre, ge);
                    lemma_rendered_texts_push(asst_pre, ge);
                    assert(tool_use_ids(seq![ge].drop_first()) =~= Seq::<Seq<char>>::empty());
                    assert(rendered_texts(seq![ge].drop_first()) =~= Seq::<Seq<char>>::empty());
                    assert(rendered_texts(seq![ge]) =~= Seq::<Seq<char>>::empty());
                    assert(rendered_texts(assistant@) =~= texts_pre);
                    assert(tool_use_ids(assistant@) =~= ids_pre + tool_use_ids(seq![ge]));
                    assert(tool_use_ids(assistant@) =~= ids_pre.push(
                        tool_use_ids(seq![ge])[0],
                    ));
                    outcomes = outcomes.push(gres);
                    assert(is_outcome_result(
                        results@.last(),
                        tool_use_ids(seq![ge])[0],
                        gres,
                    ));
                    assert(views_of(output@) =~= out0 + rendered_texts(assistant@));
                    assert(assistant@ + remaining@ =~= orig);
                }
            },
            other => {
                assistant.push(other);
                proof {
                    assert(assistant@.last() == ge);
                    assert(assistant@ =~= asst_pre.push(ge));
                    lemma_tool_use_ids_push(asst_pre, ge);
                    lemma_rendered_texts_push(asst_pre, ge);
                    assert(tool_use_ids(seq![ge].drop_first()) =~= Seq::<Seq<char>>::empty());
                    assert(rendered_texts(seq![ge].drop_first()) =~= Seq::<Seq<char>>::empty());
                    assert(tool_use_ids(seq![ge]) =~= Seq::<Seq<char>>::empty());
                    assert(rendered_texts(seq![ge]) =~= Seq::<Seq<char>>::empty());
                    assert(tool_use_ids(assistant@) =~= ids_pre);
                    assert(rendered_texts(assistant@) =~= texts_pre);
                    assert(views_of(output@) =~= out0 + rendered_texts(assistant@));
                    assert(assistant@ + remaining@ =~= orig);
                }
            },
        }
    }
    proof {
        assert(remaining@.len() == 0);
        assert(assistant@ =~= orig);
    }
    (assistant, results, Ghost(outcomes))
}


proof fn lemma_drop_last_preserves_alternation(h: Seq<InteractionView>)
    requires
        no_consec_assistant(h),
        h.len() > 0,
    ensures
        no_consec_assistant(h.drop_last()),
{
    assert forall|i: int|
        0 <= i && i + 1 < h.drop_last().len() implies !(#[trigger] h.drop_last()[i].role
        is Assistant && h.drop_last()[i + 1].role is Assistant) by {
        assert(h.drop_last()[i] == h[i]);
        assert(h.drop_last()[i + 1] == h[i + 1]);
    }
}

/// The defensive cap on tool rounds within one turn.
pub const MAX_TOOL_ROUNDS: usize = 8;

/// The alternation invariant, kept opaque so that the dispatch loop's
/// reasoning does not unfold the quantifier at every step.
#[verifier::opaque]
spec fn alternation_ok(h: Seq<InteractionView>) -> bool {
    no_consec_assistant(h)
}

/// The reply log's running invariant, kept opaque for the same reason:
/// every entry is well formed, and an entry without tool uses can only be
/// the last, reached exactly when the loop finished.
#[verifier::opaque]
spec fn log_wf(log: Seq<ReplyLog>, done: bool) -> bool {
    &&& (forall|i: int| 0 <= i < log.len() ==> reply_log_ok(#[trigger] log[i]))
    &&& (!done ==> forall|i: int|
        0 <= i < log.len() ==> tool_use_ids((#[trigger] log[i]).blocks).len() > 0)
    &&& (done ==> log.len() >= 1 && tool_use_ids(log.last().blocks).len() == 0 && (forall|i: int|
        0 <= i < log.len() - 1 ==> tool_use_ids((#[trigger] log[i]).blocks).len() > 0))
}

proof fn lemma_concat_assoc<A>(a: Seq<A>, b: Seq<A>, c: Seq<A>)
    ensures
        (a + b) + c == a + (b + c),
{
    assert((a + b) + c =~= a + (b + c));
}

/// Appending one well-formed reply to a still-running log keeps the log
/// invariant and extends its turns and rendered texts by that reply's.
proof fn lemma_log_push(log: Seq<ReplyLog>, entry: ReplyLog)
    requires
        log_wf(log, false),
        reply_log_ok(entry),
    ensures
        log_wf(log.push(entry), tool_use_ids(entry.blocks).len() == 0),
        turns_of(log.push(entry)) == turns_of(log) + round_turns(entry),
        rendered_of(log.push(entry)) == rendered_of(log) + rendered_texts(entry.blocks),
{
    reveal(log_wf);
    assert(log.push(entry).drop_last() =~= log);
    assert(log.push(entry).last() == entry);
}

/// A finished log whose turns and rendered texts match the history and
/// segments makes a completed turn.
proof fn lemma_ok_turn(
    capped: Seq<InteractionView>,
    h: Seq<InteractionView>,
    log: Seq<ReplyLog>,
    segs: Seq<BotResponse>,
)
    requires
        log_wf(log, true),
        h == capped + turns_of(log),
        segments_match(segs, rendered_of(log)),
    ensures
        ok_turn(capped, h, log, segs),
{
    reveal(log_wf);
    reveal(ok_turn);
}

/// Roll back the turn after a terminal failure: the trailing interaction
/// (the just-sent user turn, or the freshly fed tool results) leaves the
/// history.
#[verifier::rlimit(60)]
fn rollback_failed_turn(
    channel: &mut Channel,
    Ghost(orig): Ghost<Seq<InteractionView>>,
    Ghost(capped): Ghost<Seq<InteractionView>>,
)
    requires
        capped == cap_trailing_model(orig, 10),
        orig.len() > 0,
        capped.len() > 0,
        capped.drop_last() == orig.drop_last(),
        alternation_ok(old(channel)@),
        capped.is_prefix_of(old(channel)@),
        old(channel)@.len() >= capped.len(),
        old(channel)@.len() > capped.len() ==> old(channel)@.len() >= capped.len() + 2
            && old(channel)@[old(channel)@.len() - 2].role is Assistant,
    ensures
        final(channel).spec_limit() == old(channel).spec_limit(),
        final(channel).spec_id() == old(channel).spec_id(),
        alternation_ok(final(channel)@),
        no_consec_assistant(final(channel)@),
        final(channel)@ == orig.drop_last() || (capped.is_prefix_of(final(channel)@)
            && final(channel)@.len() > 0 && final(channel)@.last().role is Assistant),
{
    let ghost pre = channel@;
    channel.undo_last();
    proof {
        reveal(alternation_ok);
        lemma_drop_last_preserves_alternation(pre);
        if pre.len() == capped.len() {
            assert(pre =~= capped);
            assert(channel@ =~= orig.drop_last());
        } else {
            assert(channel@ =~= pre.drop_last());
            assert(capped =~= channel@.subrange(0, capped.len() as int));
            assert(capped.is_prefix_of(channel@));
            assert(channel@.last() == pre[pre.len() - 2]);
        }
    }
}

/// Apply one model reply to the channel: append the assistant turn, and
/// when tools were requested, feed their results back as one user turn.
/// Returns whether the turn is complete (no tool was requested) together
/// with the reply's log entry.
fn apply_reply<H: ToolHost>(
    channel: &mut Channel,
    content: Vec<Content>,
    host: &mut H,
    output: &mut Vec<String>,
    Ghost(capped): Ghost<Seq<InteractionView>>,
) -> (r: (bool, Ghost<ReplyLog>))
    requires
        !has_forbidden(content@),
        alternation_ok(old(channel)@),
        old(channel)@.len() > 0,
        old(channel)@.last().role is User,
        capped.is_prefix_of(old(channel)@),
        capped.len() > 0,
    ensures
        final(channel).spec_limit() == old(channel).spec_limit(),
        final(channel).spec_id() == old(channel).spec_id(),
        alternation_ok(final(channel)@),
        capped.is_prefix_of(final(channel)@),
        final(channel)@.len() > old(channel)@.len(),
        r.0 ==> final(channel)@.last().role is Assistant && final(channel)@.len() > capped.len(),
        !r.0 ==> final(channel)@.last().role is User && final(channel)@.len() >= capped.len() + 2
            && final(channel)@[final(channel)@.len() - 2].role is Assistant,
        reply_log_ok(r.1@),
        r.1@.blocks == content@,
        r.0 == (tool_use_ids(content@).len() == 0),
        final(channel)@ == old(channel)@ + round_turns(r.1@),
        views_of(final(output)@) == views_of(old(output)@) + rendered_texts(content@),
{
    let ghost gblocks = content@;
    let (assistant_blocks, tool_results, Ghost(outcomes)) = process_blocks(content, host, output);
    let ghost entry = ReplyLog { blocks: gblocks, outcomes, results: tool_results@ };
    let n_results = tool_results.len();
    let ghost pre = channel@;
    channel.bot_message(Interaction { role: Role::Assistant, content: assistant_blocks });
    proof {
        reveal(alternation_ok);
        lemma_push_preserves_alternation(pre, channel@.last());
        assert(capped =~= channel@.subrange(0, capped.len() as int));
        assert(capped.is_prefix_of(channel@));
    }
    if n_results > 0 {
        let ghost mid = channel@;
        channel.bot_message(Interaction { role: Role::User, content: tool_results });
        proof {
            reveal(alternation_ok);
            lemma_push_preserves_alternation(mid, channel@.last());
            assert(capped =~= channel@.subrange(0, capped.len() as int));
            assert(capped.is_prefix_of(channel@));
            assert(channel@[channel@.len() - 2].role is Assistant);
            assert(channel@ =~= pre + round_turns(entry));
        }
        (false, Ghost(entry))
    } else {
        proof {
            assert(round_turns(entry) =~= seq![
                InteractionView { role: Role::Assistant, content: entry.blocks },
            ]);
            assert(channel@ =~= pre + round_turns(entry));
        }
        (true, Ghost(entry))
    }
}

/// Drive one turn: cap the trailing user turn, then repeatedly send the
/// history to the remote model, append its reply, run any requested tools
/// and feed their results back, until a reply asks for no tool.  On a
/// transport failure, a typed rejection, or a protocol violation, the
/// just-sent user turn is rolled back and the turn ends with that error.
/// Beside the result comes the reply log, through which the contract pins
/// the appended turns, the tool-outcome mapping, and the returned
/// segments of a completed turn.
#[verifier::rlimit(100)]
#[verifier::spinoff_prover]
pub fn dispatch_llm<T: Transport, H: ToolHost>(
    channel: &mut Channel,
    prompt: &str,
    tools: &Vec<Tool>,
    transport: &mut T,
    host: &mut H,
) -> (r: (Result<Vec<BotResponse>, Error>, Ghost<Seq<ReplyLog>>))
    requires
        old(channel)@.len() > 0,
        old(channel)@.last().role is User,
        no_consec_assistant(old(channel)@),
    ensures
        final(channel).spec_limit() == old(channel).spec_limit(),
        final(channel).spec_id() == old(channel).spec_id(),
        no_consec_assistant(final(channel)@),
        r.0 is Ok ==> cap_trailing_model(old(channel)@, 10).is_prefix_of(final(channel)@)
            && final(channel)@.len() > 0 && final(channel)@.last().role is Assistant,
        r.0 matches Ok(segs) ==> ok_turn(
            cap_trailing_model(old(channel)@, 10),
            final(channel)@,
            r.1@,
            segs@,
        ),
        r.0 is Err ==> final(channel)@ == old(channel)@.drop_last() || (cap_trailing_model(
            old(channel)@,
            10,
        ).is_prefix_of(final(channel)@) && final(channel)@.len() > 0
            && final(channel)@.last().role is Assistant),
{
    let ghost orig = old(channel)@;
    channel.cap_trailing_content(10);
    let ghost capped = channel@;
    proof {
        reveal(alternation_ok);
        lemma_cap_preserves_alternation(orig, 10);
        assert(alternation_ok(capped));
        assert(capped.is_prefix_of(capped));
    }
    let mut output: Vec<String> = Vec::new();
    let mut done = false;
    let mut rounds: usize = 0;
    let ghost mut log: Seq<ReplyLog> = Seq::empty();
    proof {
        reveal(log_wf);
        assert(turns_of(log) =~= Seq::<InteractionView>::empty());
        assert(capped + turns_of(log) =~= capped);
        assert(rendered_of(log) =~= Seq::<Seq<char>>::empty());
        assert(views_of(output@) =~= rendered_of(log));
    }
    while !done
        invariant
            channel.spec_limit() == old(channel).spec_limit(),
            channel.spec_id() == old(channel).spec_id(),
            orig == old(channel)@,
            capped == cap_trailing_model(orig, 10),
            orig.len() > 0,
            capped.len() > 0,
            capped.drop_last() == orig.drop_last(),
            capped.last().role is User,
            alternation_ok(channel@),
            capped.is_prefix_of(channel@),
            channel@.len() >= capped.len(),
            !done ==> channel@.last().role is User,
            !done && channel@.len() > capped.len() ==> channel@.len() >= capped.len() + 2
                && channel@[channel@.len() - 2].role is Assistant,
            done ==> channel@.len() > capped.len() && channel@.last().role is Assistant,
            log_wf(log, done),
            channel@ == capped + turns_of(log),
            views_of(output@) == rendered_of(log),
            rounds <= MAX_TOOL_ROUNDS,
        decreases MAX_TOOL_ROUNDS - rounds, (if done {
            0int
        } else {
            1int
        }),
    {
        if rounds == MAX_TOOL_ROUNDS {
            rollback_failed_turn(channel, Ghost(orig), Ghost(capped));
            return (
                Result::Err(
                    Error::TurnLimit {
                        message:
                            "the model asked for tools on too many rounds in one turn".to_owned(),
                    },
                ),
                Ghost(log),
            );
        }
        rounds += 1;
        let has_imgs = channel.history_has_images();
        let model = if has_imgs {
            Option::None
        } else {
            Option::Some(Model::Haiku35)
        };
        let resp = transport.create_message(model, channel.history(), tools, prompt);
        match resp {
            Result::Err(e) => {
                rollback_failed_turn(channel, Ghost(orig), Ghost(capped));
                return (Result::Err(e), Ghost(log));
            },
            Result::Ok(Response::Error { error }) => {
                rollback_failed_turn(channel, Ghost(orig), Ghost(capped));
                return (Result::Err(Error::Api { error }), Ghost(log));
            },
            Result::Ok(Response::Message { content, .. }) => {
                if scan_forbidden(&content) {
                    rollback_failed_turn(channel, Ghost(orig), Ghost(capped));
                    return (
                        Result::Err(
                            Error::Protocol {
                                message:
                                    "the model replied with an image or tool result".to_owned(),
                            },
                        ),
                        Ghost(log),
                    );
                }
                let ghost log_pre = log;
                let (finished, Ghost(entry)) = apply_reply(
                    channel,
                    content,
                    host,
                    &mut output,
                    Ghost(capped),
                );
                done = finished;
                proof {
                    log = log_pre.push(entry);
                    lemma_log_push(log_pre, entry);
                    lemma_concat_assoc(capped, turns_of(log_pre), round_turns(entry));
                }
            },
        }
    }
    let segments = extract_segments(&output);
    proof {
        reveal(alternation_ok);
        lemma_ok_turn(capped, channel@, log, segments@);
    }
    (Result::Ok(segments), Ghost(log))
}

} // verus!
