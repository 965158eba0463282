//! One conversation's state: an ordered history of interactions with the
//! alternation and merge invariants the remote model demands, bounded by an
//! optional size limit.

use vstd::prelude::*;
use crate::claude::api::Interaction;
use crate::claude::api::InteractionView;
use crate::claude::api::Role;
use crate::claude::api::interactions_view;
use crate::claude::content::Content;

verus! {

/// A conversation scope: its identifier, its ordered history, and an
/// optional cap on how many interactions the history may hold.
pub struct Channel {
    id: u64,
    hist: Vec<Interaction>,
    limit: Option<usize>,
}

impl View for Channel {
    type V = Seq<InteractionView>;

    closed spec fn view(&self) -> Seq<InteractionView> {
        interactions_view(self.hist@)
    }
}

/// Whether the front interaction of `h` would be rejected by the remote
/// model: an assistant turn first, or a user turn that is empty or starts
/// with a tool result.
pub open spec fn front_invalid(h: Seq<InteractionView>) -> bool {
    h.len() > 0 && (h[0].role is Assistant || h[0].content.len() == 0 || h[0].content[0]
        is ToolResult)
}

/// Whether `h` starts with a well-formed user turn (or is empty).
pub open spec fn starts_valid(h: Seq<InteractionView>) -> bool {
    h.len() > 0 ==> h[0].role is User && h[0].content.len() > 0 && !(h[0].content[0]
        is ToolResult)
}

/// `h` with every invalid front interaction dropped.
pub open spec fn drop_invalid_prefix(h: Seq<InteractionView>) -> Seq<InteractionView>
    decreases h.len(),
{
    if front_invalid(h) {
        drop_invalid_prefix(h.drop_first())
    } else {
        h
    }
}

/// No two consecutive interactions of `h` both carry the assistant role.
pub open spec fn no_consec_assistant(h: Seq<InteractionView>) -> bool {
    forall|i: int|
        0 <= i && i + 1 < h.len() ==> !(#[trigger] h[i].role is Assistant && h[i + 1].role
            is Assistant)
}

/// What appending user content does to a history: a new user turn after
/// an assistant turn (or on an empty history), a merge into the trailing
/// user turn otherwise.
pub open spec fn user_message_model(h: Seq<InteractionView>, c: Seq<Content>) -> Seq<
    InteractionView,
> {
    if h.len() == 0 || h.last().role is Assistant {
        h.push(InteractionView { role: Role::User, content: c })
    } else {
        h.update(h.len() - 1, InteractionView { role: Role::User, content: h.last().content + c })
    }
}

/// What enforcing the size limit `l` does to a history: the two oldest
/// interactions leave, in pairs, until the length is within the limit.
pub open spec fn shrink_model(h: Seq<InteractionView>, l: nat) -> Seq<InteractionView>
    decreases h.len(),
{
    if h.len() > l && h.len() >= 2 {
        shrink_model(h.skip(2), l)
    } else {
        h
    }
}

/// What capping the trailing interaction's content to its last `n` blocks
/// does to a history: only the trailing interaction changes, and only by
/// dropping its oldest content blocks.
pub open spec fn cap_trailing_model(h: Seq<InteractionView>, n: nat) -> Seq<InteractionView> {
    if h.len() == 0 {
        h
    } else {
        h.update(
            h.len() - 1,
            InteractionView {
                role: h.last().role,
                content: h.last().content.skip(
                    if h.last().content.len() >= n {
                        h.last().content.len() - n
                    } else {
                        0
                    },
                ),
            },
        )
    }
}

impl Channel {
    /// The size limit this channel was created with.
    pub closed spec fn spec_limit(&self) -> Option<usize> {
        self.limit
    }

    /// The identifier this channel was created with.
    pub closed spec fn spec_id(&self) -> u64 {
        self.id
    }

    /// A fresh channel with an empty history and an optional interaction
    /// limit.
    pub fn new(id: u64, limit: Option<usize>) -> (r: Channel)
        ensures
            r@ == Seq::<InteractionView>::empty(),
            r.spec_limit() == limit,
            r.spec_id() == id,
    {
        let c = Channel { id, hist: Vec::new(), limit };
        proof {
            assert(c@ =~= Seq::<InteractionView>::empty());
        }
        c
    }

    /// The conversation history, oldest first.
    pub fn history(&self) -> (r: &Vec<Interaction>)
        ensures
            interactions_view(r@) == self@,
    {
        &self.hist
    }

    /// Whether any content block anywhere in the history is an image.
    pub fn history_has_images(&self) -> (r: bool)
        ensures
            r == has_images(self@),
    {
        let mut i: usize = 0;
        while i < self.hist.len()
            invariant
                i <= self.hist@.len(),
                forall|a: int, b: int|
                    0 <= a < i && 0 <= b < self@[a].content.len() ==> !(self@[a].content[b]
                        is Image),
            decreases self.hist@.len() - i,
        {
            let content = &self.hist[i].content;
            let mut j: usize = 0;
            while j < content.len()
                invariant
                    i < self.hist@.len(),
                    j <= content@.len(),
                    content@ == self@[i as int].content,
                    forall|b: int| 0 <= b < j ==> !(content@[b] is Image),
                decreases content@.len() - j,
            {
                if content[j].is_image() {
                    return true;
                }
                j += 1;
            }
            i += 1;
        }
        false
    }

    /// Append an assistant (or tool-result) interaction to the history.
    pub fn bot_message(&mut self, interaction: Interaction)
        ensures
            final(self)@ == old(self)@.push(interaction@),
            final(self).spec_limit() == old(self).spec_limit(),
            final(self).spec_id() == old(self).spec_id(),
    {
        let ghost iv = interaction@;
        self.hist.push(interaction);
        proof {
            assert(self@ =~= old(self)@.push(iv));
        }
    }

    /// Remove the most recent interaction, if any; used to roll back a
    /// turn that failed before a usable reply arrived.
    pub fn undo_last(&mut self)
        ensures
            old(self)@.len() > 0 ==> final(self)@ == old(self)@.drop_last(),
            old(self)@.len() == 0 ==> final(self)@ == old(self)@,
            final(self).spec_limit() == old(self).spec_limit(),
            final(self).spec_id() == old(self).spec_id(),
    {
        let _ = self.hist.pop();
        proof {
            if old(self)@.len() > 0 {
                assert(self@ =~= old(self)@.drop_last());
            } else {
                assert(self@ =~= old(self)@);
            }
        }
    }

    /// Add user content: pushed as a new user turn after an assistant
    /// turn or on an empty history, merged into the trailing user turn
    /// otherwise.
    pub fn user_message(&mut self, new_content: Vec<Content>)
        ensures
            final(self)@ == user_message_model(old(self)@, new_content@),
            final(self).spec_limit() == old(self).spec_limit(),
            final(self).spec_id() == old(self).spec_id(),
    {
        let ghost c = new_content@;
        let n = self.hist.len();
        let push_new = if n == 0 {
            true
        } else {
            match self.hist[n - 1].role {
                Role::Assistant => true,
                Role::User => false,
            }
        };
        if push_new {
            self.hist.push(Interaction { role: Role::User, content: new_content });
            proof {
                assert(self@ =~= old(self)@.push(
                    InteractionView { role: Role::User, content: c },
                ));
            }
        } else {
            let mut last = self.hist.pop().unwrap();
            let mut extra = new_content;
            last.content.append(&mut extra);
            self.hist.push(last);
            proof {
                assert(self@ =~= old(self)@.update(
                    old(self)@.len() - 1,
                    InteractionView {
                        role: Role::User,
                        content: old(self)@.last().content + c,
                    },
                ));
            }
        }
    }

    /// Keep only the last `n` content blocks of the trailing interaction.
    pub fn cap_trailing_content(&mut self, n: usize)
        requires
            old(self)@.len() > 0,
        ensures
            final(self)@.len() == old(self)@.len(),
            final(self)@ == cap_trailing_model(old(self)@, n as nat),
            final(self).spec_limit() == old(self).spec_limit(),
            final(self).spec_id() == old(self).spec_id(),
    {
        let ghost orig = old(self)@.last().content;
        let mut last = self.hist.pop().unwrap();
        proof {
            assert(last.content@ =~= orig.skip(0));
        }
        while last.content.len() > n
            invariant
                old(self)@.len() > 0,
                exists|k: int|
                    0 <= k <= orig.len() && last.content@ == #[trigger] orig.skip(k) && (k == 0
                        || orig.len() - k >= n),
                last.role == old(self)@.last().role,
            decreases last.content@.len(),
        {
            let ghost pre = last.content@;
            let _ = last.content.remove(0);
            proof {
                let k = choose|k: int|
                    0 <= k <= orig.len() && pre == #[trigger] orig.skip(k) && (k == 0 || orig.len()
                        - k >= n);
                assert(last.content@ =~= orig.skip(k + 1));
            }
        }
        self.hist.push(last);
        proof {
            let cut = if orig.len() >= n {
                orig.len() - n
            } else {
                0
            };
            let k = choose|k: int|
                0 <= k <= orig.len() && last.content@ == #[trigger] orig.skip(k) && (k == 0
                    || orig.len() - k >= n);
            assert(last.content@.len() == orig.len() - k);
            assert(last.content@ =~= orig.skip(cut));
            assert(self@ =~= old(self)@.update(
                old(self)@.len() - 1,
                InteractionView {
                    role: old(self)@.last().role,
                    content: orig.skip(cut),
                },
            ));
        }
    }

    /// Enforce the size limit by dropping the two oldest interactions at a
    /// time; a no-op without a limit.
    pub fn shrink(&mut self)
        ensures
            final(self).spec_limit() == old(self).spec_limit(),
            final(self).spec_id() == old(self).spec_id(),
            match old(self).spec_limit() {
                Option::None => final(self)@ == old(self)@,
                Option::Some(l) => final(self)@ == shrink_model(old(self)@, l as nat),
            },
    {
        if let Some(limit) = self.limit {
            while self.hist.len() > limit && self.hist.len() >= 2
                invariant
                    shrink_model(old(self)@, limit as nat) == shrink_model(self@, limit as nat),
                    self.limit == old(self).spec_limit(),
                    self.id == old(self).spec_id(),
                decreases self.hist@.len(),
            {
                let ghost pre = self@;
                let _ = self.hist.remove(0);
                let _ = self.hist.remove(0);
                proof {
                    assert(self@ =~= pre.skip(2));
                }
            }
            proof {
                assert(shrink_model(self@, limit as nat) == self@);
            }
        }
    }

    /// Drop front interactions while they violate the "starts with a
    /// well-formed user turn" invariant, so that the history sent to the
    /// remote model is valid regardless of prior trimming.
    pub fn ensure_valid_history(&mut self)
        ensures
            final(self)@ == drop_invalid_prefix(old(self)@),
            starts_valid(final(self)@),
            final(self).spec_limit() == old(self).spec_limit(),
            final(self).spec_id() == old(self).spec_id(),
    {
        let mut done = false;
        while !done
            invariant
                drop_invalid_prefix(old(self)@) == drop_invalid_prefix(self@),
                done ==> !front_invalid(self@),
                self.limit == old(self).spec_limit(),
                self.id == old(self).spec_id(),
            decreases 2 * self.hist@.len() + (if done {
                0int
            } else {
                1int
            }),
        {
            if self.hist.len() == 0 {
                done = true;
            } else {
                let first = &self.hist[0];
                let bad = match first.role {
                    Role::Assistant => true,
                    Role::User => {
                        if first.content.len() == 0 {
                            true
                        } else {
                            match &first.content[0] {
                                Content::ToolResult { .. } => true,
                                _ => false,
                            }
                        }
                    },
                };
                if bad {
                    let ghost pre = self@;
                    let _ = self.hist.remove(0);
                    proof {
                        assert(self@ =~= pre.drop_first());
                    }
                } else {
                    done = true;
                }
            }
        }
    }
}

/// Whether any content block of any interaction of `h` is an image.
pub open spec fn has_images(h: Seq<InteractionView>) -> bool {
    exists|a: int, b: int|
        0 <= a < h.len() && 0 <= b < h[a].content.len() && h[a].content[b] is Image
}

/// After dropping every invalid front interaction, the first interaction
/// of the history, if any, is a user turn whose first content block is not
/// a tool result.
pub proof fn lemma_drop_invalid_prefix_starts_valid(h: Seq<InteractionView>)
    ensures
        starts_valid(drop_invalid_prefix(h)),
    decreases h.len(),
{
    if front_invalid(h) {
        lemma_drop_invalid_prefix_starts_valid(h.drop_first());
    }
}

/// Appending user content never creates two consecutive assistant turns.
pub proof fn lemma_user_message_preserves_alternation(h: Seq<InteractionView>, c: Seq<Content>)
    requires
        no_consec_assistant(h),
    ensures
        no_consec_assistant(user_message_model(h, c)),
{
}

/// Appending an interaction keeps the alternation invariant as long as an
/// assistant turn never directly follows another assistant turn.
pub proof fn lemma_push_preserves_alternation(h: Seq<InteractionView>, iv: InteractionView)
    requires
        no_consec_assistant(h),
        iv.role is Assistant ==> h.len() == 0 || !(h.last().role is Assistant),
    ensures
        no_consec_assistant(h.push(iv)),
{
}

/// Dropping invalid front interactions keeps the alternation invariant.
pub proof fn lemma_drop_invalid_prefix_preserves_alternation(h: Seq<InteractionView>)
    requires
        no_consec_assistant(h),
    ensures
        no_consec_assistant(drop_invalid_prefix(h)),
    decreases h.len(),
{
    if front_invalid(h) {
        assert(no_consec_assistant(h.drop_first()));
        lemma_drop_invalid_prefix_preserves_alternation(h.drop_first());
    }
}

/// Enforcing the size limit keeps the alternation invariant.
pub proof fn lemma_shrink_preserves_alternation(h: Seq<InteractionView>, l: nat)
    requires
        no_consec_assistant(h),
    ensures
        no_consec_assistant(shrink_model(h, l)),
    decreases h.len(),
{
    if h.len() > l && h.len() >= 2 {
        assert(no_consec_assistant(h.skip(2)));
        lemma_shrink_preserves_alternation(h.skip(2), l);
    }
}

/// Two user messages in a row, on an empty or assistant-terminated
/// history, merge into exactly one trailing user turn holding both
/// contents in order.
pub proof fn lemma_user_messages_merge(
    h: Seq<InteractionView>,
    a: Seq<Content>,
    b: Seq<Content>,
)
    requires
        h.len() == 0 || h.last().role is Assistant,
    ensures
        user_message_model(user_message_model(h, a), b) == h.push(
            InteractionView { role: Role::User, content: a + b },
        ),
{
    let h1 = user_message_model(h, a);
    assert(h1 == h.push(InteractionView { role: Role::User, content: a }));
    assert(h1.last().role is User);
    assert(user_message_model(h1, b) =~= h.push(
        InteractionView { role: Role::User, content: a + b },
    ));
}

/// Enforcing the limit leaves a history that a second enforcement keeps
/// unchanged.
pub proof fn lemma_shrink_idempotent(h: Seq<InteractionView>, l: nat)
    ensures
        shrink_model(shrink_model(h, l), l) == shrink_model(h, l),
    decreases h.len(),
{
    if h.len() > l && h.len() >= 2 {
        lemma_shrink_idempotent(h.skip(2), l);
    }
}

/// With a positive limit, enforcement leaves at most `l` interactions and
/// removes interactions only in pairs from the front.
pub proof fn lemma_shrink_bounds(h: Seq<InteractionView>, l: nat)
    requires
        l >= 1,
    ensures
        shrink_model(h, l).len() <= l,
        exists|k: int| 0 <= 2 * k <= h.len() && shrink_model(h, l) == #[trigger] h.skip(2 * k),
    decreases h.len(),
{
    if h.len() > l && h.len() >= 2 {
        lemma_shrink_bounds(h.skip(2), l);
        let k0 = choose|k: int|
            0 <= 2 * k <= h.skip(2).len() && shrink_model(h.skip(2), l) == #[trigger] h.skip(
                2,
            ).skip(2 * k);
        assert(h.skip(2).skip(2 * k0) =~= h.skip(2 * (k0 + 1)));
        assert(0 <= 2 * (k0 + 1) <= h.len() && shrink_model(h, l) == h.skip(2 * (k0 + 1)));
    } else {
        assert(h.skip(0) =~= h);
        assert(0 <= 2 * 0 <= h.len() && shrink_model(h, l) == h.skip(0int));
    }
}


/// Capping the trailing interaction's content keeps every role, so it
/// keeps the alternation invariant and everything before the last turn.
pub proof fn lemma_cap_preserves_alternation(h: Seq<InteractionView>, n: nat)
    requires
        h.len() > 0,
    ensures
        cap_trailing_model(h, n).len() == h.len(),
        forall|i: int| 0 <= i < h.len() ==> #[trigger] cap_trailing_model(h, n)[i].role
            == h[i].role,
        cap_trailing_model(h, n).drop_last() == h.drop_last(),
        no_consec_assistant(h) ==> no_consec_assistant(cap_trailing_model(h, n)),
{
    assert(cap_trailing_model(h, n).drop_last() =~= h.drop_last());
}

} // verus!
