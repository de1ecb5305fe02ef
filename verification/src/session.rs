//! Conversation messages and the history that is sent to a model.

use crate::text;
use vstd::prelude::*;

verus! {

/// Who a message is from.
#[derive(Clone, Copy, Debug, PartialEq, Eq, Structural)]
pub enum Role {
    System,
    User,
    Assistant,
}

/// A message of a conversation.
#[derive(Debug)]
pub struct Message {
    pub role: Role,
    pub content: String,
}

/// What a [`Message`] says.
#[verifier::ext_equal]
pub struct MessageView {
    pub role: Role,
    pub content: Seq<char>,
}

impl View for Message {
    type V = MessageView;

    open spec fn view(&self) -> MessageView {
        MessageView { role: self.role, content: self.content@ }
    }
}

impl Clone for Message {
    fn clone(&self) -> (r: Self)
        ensures
            r@ == self@,
    {
        Message { role: self.role, content: self.content.clone() }
    }
}

pub open spec fn said(role: Role, content: Seq<char>) -> MessageView {
    MessageView { role, content }
}

impl Message {
    pub fn system(content: &str) -> (r: Message)
        ensures
            r@ == said(Role::System, content@),
    {
        Message { role: Role::System, content: content.to_string() }
    }

    pub fn user(content: &str) -> (r: Message)
        ensures
            r@ == said(Role::User, content@),
    {
        Message { role: Role::User, content: content.to_string() }
    }

    pub fn assistant(content: &str) -> (r: Message)
        ensures
            r@ == said(Role::Assistant, content@),
    {
        Message { role: Role::Assistant, content: content.to_string() }
    }
}

pub open spec fn message_views(v: Seq<Message>) -> Seq<MessageView> {
    v.map_values(|m: Message| m@)
}

/// The messages that come from the system.
pub open spec fn system_only(ms: Seq<MessageView>) -> Seq<MessageView> {
    ms.filter(|m: MessageView| m.role == Role::System)
}

/// The messages that do not come from the system.
pub open spec fn conversation(ms: Seq<MessageView>) -> Seq<MessageView> {
    ms.filter(|m: MessageView| m.role != Role::System)
}

/// The estimated number of tokens of a text: one for four bytes, and one more.
pub open spec fn cost(content: Seq<char>) -> nat {
    text::size(content) / 4 + 1
}

/// The estimated number of tokens of several messages.
pub open spec fn total_cost(ms: Seq<MessageView>) -> nat
    decreases ms.len(),
{
    if ms.len() == 0 {
        0
    } else {
        total_cost(ms.drop_last()) + cost(ms.last().content)
    }
}

/// What the system prompt leaves of a context window.
pub open spec fn budget(window: nat, prompt: Seq<char>) -> nat {
    if window >= cost(prompt) {
        (window - cost(prompt)) as nat
    } else {
        0
    }
}

/// The newest messages whose cost stays within `limit`: taken from the end, up to
/// the first one that no longer fits.
pub open spec fn newest_within(ms: Seq<MessageView>, limit: nat) -> Seq<MessageView>
    decreases ms.len(),
{
    if ms.len() == 0 || cost(ms.last().content) > limit {
        Seq::empty()
    } else {
        newest_within(ms.drop_last(), (limit - cost(ms.last().content)) as nat).push(ms.last())
    }
}

/// A question is among the messages.
pub open spec fn asked(ms: Seq<MessageView>) -> bool {
    exists|i: int| 0 <= i < ms.len() && (#[trigger] ms[i]).role == Role::User
}

/// The messages without the replies that they open with.
pub open spec fn from_question(ms: Seq<MessageView>) -> Seq<MessageView>
    decreases ms.len(),
{
    if ms.len() > 0 && ms[0].role == Role::Assistant {
        from_question(ms.drop_first())
    } else {
        ms
    }
}

/// The newest messages whose cost stays within `limit`, without the replies whose question
/// does not fit any more.
pub open spec fn newest_turns(ms: Seq<MessageView>, limit: nat) -> Seq<MessageView> {
    let kept = newest_within(ms, limit);
    if asked(ms.take(ms.len() - kept.len())) {
        from_question(kept)
    } else {
        kept
    }
}

/// The messages for a model: the system prompt, then the newest of the
/// conversation that fit in the window beside it, no reply without its question.
pub open spec fn assembled(ms: Seq<MessageView>, window: nat, prompt: Seq<char>) -> Seq<
    MessageView,
> {
    seq![said(Role::System, prompt)] + newest_turns(conversation(ms), budget(window, prompt))
}

/// The messages of a conversation and the size of the window they must fit in.
pub struct ConversationHistory {
    messages: Vec<Message>,
    context_window: usize,
}

/// What a [`ConversationHistory`] holds.
#[verifier::ext_equal]
pub struct HistoryView {
    pub messages: Seq<MessageView>,
    pub context_window: usize,
}

impl View for ConversationHistory {
    type V = HistoryView;

    closed spec fn view(&self) -> HistoryView {
        HistoryView {
            messages: message_views(self.messages@),
            context_window: self.context_window,
        }
    }
}

impl ConversationHistory {
    pub fn new(context_window: usize) -> (r: Self)
        ensures
            r@ == (HistoryView { messages: Seq::empty(), context_window }),
    {
        let r = ConversationHistory { messages: Vec::new(), context_window };
        assert(r@.messages =~= Seq::<MessageView>::empty());
        r
    }

    pub fn push(&mut self, msg: Message)
        ensures
            final(self)@ == (HistoryView { messages: old(self)@.messages.push(msg@), ..old(self)@ }),
    {
        self.messages.push(msg);
        assert(self@.messages =~= old(self)@.messages.push(msg@));
    }

    pub fn messages(&self) -> (r: &[Message])
        ensures
            message_views(r@) == self@.messages,
    {
        self.messages.as_slice()
    }

    pub fn set_context_window(&mut self, cw: usize)
        ensures
            final(self)@ == (HistoryView { context_window: cw, ..old(self)@ }),
    {
        self.context_window = cw;
    }

    /// Forgets the conversation; what the system said stays.
    pub fn clear(&mut self)
        ensures
            final(self)@ == (HistoryView {
                messages: system_only(old(self)@.messages),
                ..old(self)@
            }),
    {
        let mut kept: Vec<Message> = Vec::new();
        let mut i: usize = 0;
        let ghost all = self@.messages;
        assert(message_views(kept@) =~= system_only(all.take(0)));
        while i < self.messages.len()
            invariant
                i <= self.messages.len(),
                all == message_views(self.messages@),
                message_views(kept@) == system_only(all.take(i as int)),
                self.context_window == old(self).context_window,
            decreases self.messages.len() - i,
        {
            let ghost before = message_views(kept@);
            proof {
                assert(all.take(i + 1).drop_last() =~= all.take(i as int));
                assert(all.take(i + 1).last() == self.messages[i as int]@);
                reveal_with_fuel(Seq::filter, 2);
            }
            if self.messages[i].role == Role::System {
                kept.push(self.messages[i].clone());
                assert(message_views(kept@) =~= before.push(self.messages[i as int]@));
            }
            i += 1;
        }
        assert(all.take(i as int) =~= all);
        self.messages = kept;
    }

    /// Whether one of the first `n` messages is a question.
    fn asks_before(&self, n: usize) -> (r: bool)
        requires
            n <= self@.messages.len(),
        ensures
            r == asked(conversation(self@.messages.take(n as int))),
    {
        let ghost all = self@.messages;
        let mut i: usize = 0;
        proof {
            reveal_with_fuel(Seq::filter, 1);
            assert(all.take(0) =~= Seq::<MessageView>::empty());
            assert(!asked(conversation(all.take(0))));
        }
        while i < n
            invariant
                i <= n,
                n <= self.messages.len(),
                all == message_views(self.messages@),
                !asked(conversation(all.take(i as int))),
            decreases n - i,
        {
            proof {
                lemma_asked_step(all, i as int);
                assert(all[i as int] == self.messages[i as int]@);
            }
            if self.messages[i].role == Role::User {
                proof {
                    lemma_asked_prefix(all, i + 1, n as int);
                }
                return true;
            }
            i += 1;
        }
        false
    }

    /// Assembles the messages for a model within the token budget: the system prompt stays,
    /// and where there are too many messages the oldest questions are dropped with their
    /// replies.
    pub fn assemble(&self, system_prompt: &str) -> (r: Vec<Message>)
        ensures
            message_views(r@) == assembled(
                self@.messages,
                self@.context_window as nat,
                system_prompt@,
            ),
    {
        let prompt_cost = text::byte_size(system_prompt) / 4 + 1;
        let limit: usize = if self.context_window >= prompt_cost {
            self.context_window - prompt_cost
        } else {
            0
        };
        let ghost all = self@.messages;
        let ghost talk = conversation(all);
        let mut kept: Vec<Message> = Vec::new();
        let mut left: usize = limit;
        let mut i: usize = self.messages.len();
        assert(all.take(i as int) =~= all);
        assert(message_views(kept@) =~= Seq::<MessageView>::empty());
        assert(newest_within(talk, limit as nat) + message_views(kept@).reverse()
            =~= newest_within(talk, limit as nat));
        assert(talk + message_views(kept@).reverse() =~= talk);
        while i > 0
            invariant_except_break
                newest_within(talk, limit as nat) == newest_within(
                    conversation(all.take(i as int)),
                    left as nat,
                ) + message_views(kept@).reverse(),
            invariant
                i <= self.messages.len(),
                all == message_views(self.messages@),
                talk == conversation(all),
                talk == conversation(all.take(i as int)) + message_views(kept@).reverse(),
            ensures
                newest_within(talk, limit as nat) == message_views(kept@).reverse(),
            decreases i,
        {
            let ghost before = message_views(kept@);
            let m = &self.messages[i - 1];
            proof {
                assert(all.take(i as int).drop_last() =~= all.take(i - 1));
                assert(all.take(i as int).last() == m@);
                reveal_with_fuel(Seq::filter, 2);
            }
            if m.role != Role::System {
                proof {
                    let c = conversation(all.take(i as int));
                    assert(c == conversation(all.take(i - 1)).push(m@));
                    assert(c.drop_last() =~= conversation(all.take(i - 1)));
                }
                let need = text::byte_size(m.content.as_str()) / 4 + 1;
                if need > left {
                    assert(Seq::<MessageView>::empty() + before.reverse() =~= before.reverse());
                    break;
                }
                left = left - need;
                kept.push(m.clone());
                assert(message_views(kept@) =~= before.push(m@));
                assert(newest_within(conversation(all.take(i - 1)), left as nat).push(m@)
                    + before.reverse() =~= newest_within(
                    conversation(all.take(i - 1)),
                    left as nat,
                ) + message_views(kept@).reverse());
                assert(conversation(all.take(i - 1)).push(m@) + before.reverse()
                    =~= conversation(all.take(i - 1)) + message_views(kept@).reverse());
            }
            i -= 1;
            if i == 0 {
                assert(conversation(all.take(0)).len() == 0) by {
                    reveal_with_fuel(Seq::filter, 1);
                }
                assert(Seq::<MessageView>::empty() + message_views(kept@).reverse()
                    =~= message_views(kept@).reverse());
            }
        }
        let mut out: Vec<Message> = Vec::new();
        out.push(Message::system(system_prompt));
        let ghost fitting = message_views(kept@).reverse();
        assert(talk.take(talk.len() - fitting.len()) =~= conversation(all.take(i as int)));
        let mut n = kept.len();
        assert(fitting.skip(0) =~= fitting);
        if self.asks_before(i) {
            while n > 0 && kept[n - 1].role == Role::Assistant
                invariant
                    n <= kept.len(),
                    fitting == message_views(kept@).reverse(),
                    from_question(fitting) == from_question(fitting.skip(kept.len() - n)),
                decreases n,
            {
                let ghost rest = fitting.skip(kept.len() - n);
                assert(rest[0] == kept[n - 1]@);
                assert(rest.drop_first() =~= fitting.skip(kept.len() - (n - 1)));
                n -= 1;
            }
            proof {
                let rest = fitting.skip(kept.len() - n);
                if n > 0 {
                    assert(rest[0] == kept[n - 1]@);
                }
                assert(from_question(fitting) == rest);
            }
        }
        let ghost back = newest_turns(talk, limit as nat);
        assert(back == fitting.skip(kept.len() - n));
        assert(message_views(out@) =~= seq![said(Role::System, system_prompt@)] + back.take(0));
        let mut j: usize = 0;
        while j < n
            invariant
                j <= n,
                n <= kept.len(),
                back == message_views(kept@).reverse().skip(kept.len() - n),
                message_views(out@) == seq![said(Role::System, system_prompt@)] + back.take(
                    j as int,
                ),
            decreases n - j,
        {
            let ghost before = message_views(out@);
            out.push(kept[n - 1 - j].clone());
            assert(message_views(out@) =~= before.push(back[j as int]));
            j += 1;
            assert(message_views(out@) =~= seq![said(Role::System, system_prompt@)] + back.take(
                j as int,
            ));
        }
        assert(back.take(j as int) =~= back);
        out
    }
}

/// One more message is a question, or there is one exactly if there was.
proof fn lemma_asked_step(all: Seq<MessageView>, i: int)
    requires
        0 <= i < all.len(),
    ensures
        asked(conversation(all.take(i + 1))) == (asked(conversation(all.take(i)))
            || all[i].role == Role::User),
{
    let before = conversation(all.take(i));
    let after = conversation(all.take(i + 1));
    assert(all.take(i + 1).drop_last() =~= all.take(i));
    assert(all.take(i + 1).last() == all[i]);
    reveal_with_fuel(Seq::filter, 2);
    if all[i].role != Role::System {
        assert(after == before.push(all[i]));
        assert forall|j: int| 0 <= j < before.len() implies #[trigger] after[j] == before[j] by {}
        if asked(before) {
            let j = choose|j: int| 0 <= j < before.len() && (#[trigger] before[j]).role == Role::User;
            assert(after[j].role == Role::User);
        }
        if all[i].role == Role::User {
            assert(after[before.len() as int].role == Role::User);
        }
        if asked(after) {
            let j = choose|j: int| 0 <= j < after.len() && (#[trigger] after[j]).role == Role::User;
            if j < before.len() {
                assert(before[j].role == Role::User);
            }
        }
    } else {
        assert(after == before);
    }
}

/// A question among the first messages is among more of them.
proof fn lemma_asked_prefix(all: Seq<MessageView>, i: int, n: int)
    requires
        0 <= i <= n <= all.len(),
        asked(conversation(all.take(i))),
    ensures
        asked(conversation(all.take(n))),
    decreases n - i,
{
    if i < n {
        lemma_asked_step(all, i);
        lemma_asked_prefix(all, i + 1, n);
    }
}

/// What is left of messages without the replies that they open with: their end, after
/// replies only, and it opens with no reply.
proof fn lemma_from_question(ms: Seq<MessageView>)
    ensures
        ({
            let n = ms.len() - from_question(ms).len();
            &&& 0 <= n <= ms.len()
            &&& from_question(ms) == ms.skip(n)
            &&& forall|j: int| 0 <= j < n ==> (#[trigger] ms[j]).role == Role::Assistant
            &&& n < ms.len() ==> ms[n].role != Role::Assistant
        }),
    decreases ms.len(),
{
    if ms.len() > 0 && ms[0].role == Role::Assistant {
        let rest = ms.drop_first();
        lemma_from_question(rest);
        let k = rest.len() - from_question(rest).len();
        assert(rest.skip(k) =~= ms.skip(k + 1));
        assert forall|j: int| 0 <= j < k + 1 implies (#[trigger] ms[j]).role == Role::Assistant by {
            if j > 0 {
                assert(rest[j - 1] == ms[j]);
            }
        }
        if k < rest.len() {
            assert(rest[k] == ms[k + 1]);
        }
    } else {
        assert(ms.skip(0) =~= ms);
    }
}

/// The kept messages as the end of the conversation, and what is left out of those that fit.
proof fn lemma_newest_turns(ms: Seq<MessageView>, limit: nat)
    ensures
        ({
            let fit = ms.len() - newest_within(ms, limit).len();
            let n = ms.len() - newest_turns(ms, limit).len();
            &&& 0 <= fit <= n <= ms.len()
            &&& newest_turns(ms, limit) == ms.skip(n)
            &&& n > fit ==> asked(ms.take(fit))
            &&& forall|j: int| fit <= j < n ==> (#[trigger] ms[j]).role == Role::Assistant
            &&& asked(ms.take(fit)) && n < ms.len() ==> ms[n].role != Role::Assistant
        }),
{
    let kept = newest_within(ms, limit);
    let fit = ms.len() - kept.len();
    law_newest_within(ms, limit);
    lemma_from_question(kept);
    let k = kept.len() - from_question(kept).len();
    assert(kept.skip(k) =~= ms.skip(fit + k));
    assert forall|j: int| fit <= j < fit + k implies (#[trigger] ms[j]).role == Role::Assistant by {
        assert(kept[j - fit] == ms[j]);
    }
    if k < kept.len() {
        assert(kept[k] == ms[fit + k]);
    }
}

proof fn lemma_total_cost_push(ms: Seq<MessageView>, m: MessageView)
    ensures
        total_cost(ms.push(m)) == total_cost(ms) + cost(m.content),
{
    assert(ms.push(m).drop_last() =~= ms);
}

proof fn lemma_total_cost_cons(m: MessageView, ms: Seq<MessageView>)
    ensures
        total_cost(seq![m] + ms) == cost(m.content) + total_cost(ms),
    decreases ms.len(),
{
    let all = seq![m] + ms;
    if ms.len() == 0 {
        assert(all.drop_last() =~= Seq::<MessageView>::empty());
        assert(total_cost(all.drop_last()) == 0);
    } else {
        assert(all.drop_last() =~= seq![m] + ms.drop_last());
        lemma_total_cost_cons(m, ms.drop_last());
    }
}

/// The messages that are kept are the end of the conversation in its order; they
/// stay within the limit, and the next older one would not.
pub proof fn law_newest_within(ms: Seq<MessageView>, limit: nat)
    ensures
        ({
            let kept = newest_within(ms, limit);
            let n = ms.len() - kept.len();
            &&& n >= 0
            &&& kept == ms.skip(n)
            &&& total_cost(kept) <= limit
            &&& n > 0 ==> total_cost(ms.skip(n - 1)) > limit
        }),
    decreases ms.len(),
{
    let kept = newest_within(ms, limit);
    if ms.len() == 0 {
        assert(kept =~= ms.skip(0));
    } else if cost(ms.last().content) > limit {
        assert(kept =~= ms.skip(ms.len() as int));
        let one = ms.skip(ms.len() - 1);
        assert(one =~= Seq::<MessageView>::empty().push(ms.last()));
        lemma_total_cost_push(Seq::empty(), ms.last());
    } else {
        let rest = ms.drop_last();
        let left = (limit - cost(ms.last().content)) as nat;
        law_newest_within(rest, left);
        let older = newest_within(rest, left);
        let n = rest.len() - older.len();
        assert(kept =~= ms.skip(n));
        lemma_total_cost_push(older, ms.last());
        if n > 0 {
            assert(ms.skip(n - 1) =~= rest.skip(n - 1).push(ms.last()));
            lemma_total_cost_push(rest.skip(n - 1), ms.last());
        }
    }
}

/// Of the newest messages that fit, exactly the replies whose question was dropped are
/// dropped too: where a question is dropped and a later reply is kept, there is a question
/// between the two that is kept.
pub proof fn law_no_reply_without_its_question(ms: Seq<MessageView>, limit: nat, i: int, j: int)
    requires
        forall|m: int| 0 <= m < ms.len() ==> (#[trigger] ms[m]).role != Role::System,
    ensures
        ({
            let fit = ms.len() - newest_within(ms, limit).len();
            let kept = newest_turns(ms, limit);
            let n = ms.len() - kept.len();
            &&& 0 <= fit <= n <= ms.len()
            &&& kept == ms.skip(n)
            &&& total_cost(kept) <= limit
            &&& 0 <= i < n <= j < ms.len() && ms[i].role == Role::User && ms[j].role
                == Role::Assistant ==> asked(ms.subrange(n, j))
            &&& n > fit ==> asked(ms.take(fit))
            &&& forall|m: int| fit <= m < n ==> (#[trigger] ms[m]).role == Role::Assistant
        }),
{
    let fit = ms.len() - newest_within(ms, limit).len();
    let n = ms.len() - newest_turns(ms, limit).len();
    law_newest_within(ms, limit);
    lemma_newest_turns(ms, limit);
    lemma_total_cost_suffix(ms.skip(fit), n - fit);
    assert(ms.skip(fit).skip(n - fit) =~= ms.skip(n));
    if 0 <= i < n <= j < ms.len() && ms[i].role == Role::User && ms[j].role == Role::Assistant {
        assert(i < fit);
        assert(ms.take(fit)[i].role == Role::User);
        assert(ms[n].role == Role::User);
        assert(ms.subrange(n, j)[0].role == Role::User);
    }
}

/// A question that fits together with everything after it is kept.
pub proof fn law_question_that_fits_is_kept(ms: Seq<MessageView>, limit: nat, i: int)
    requires
        0 <= i < ms.len(),
        ms[i].role == Role::User,
        total_cost(ms.skip(i)) <= limit,
    ensures
        newest_turns(ms, limit).contains(ms[i]),
{
    let fit = ms.len() - newest_within(ms, limit).len();
    let n = ms.len() - newest_turns(ms, limit).len();
    law_newest_within(ms, limit);
    lemma_newest_turns(ms, limit);
    if fit > i {
        lemma_total_cost_suffix(ms.skip(i), fit - 1 - i);
        assert(ms.skip(i).skip(fit - 1 - i) =~= ms.skip(fit - 1));
    }
    assert(n <= i);
    assert(newest_turns(ms, limit)[i - n] == ms[i]);
}

/// Assembled messages open with the system prompt and, where the prompt itself
/// fits, stay within the window as a whole.
pub proof fn law_assembled_fits(ms: Seq<MessageView>, window: nat, prompt: Seq<char>)
    ensures
        assembled(ms, window, prompt)[0] == said(Role::System, prompt),
        cost(prompt) <= window ==> total_cost(assembled(ms, window, prompt)) <= window,
        cost(prompt) >= window ==> assembled(ms, window, prompt).len() == 1,
{
    let talk = conversation(ms);
    let limit = budget(window, prompt);
    let kept = newest_turns(talk, limit);
    let fit = talk.len() - newest_within(talk, limit).len();
    law_newest_within(talk, limit);
    lemma_newest_turns(talk, limit);
    lemma_total_cost_suffix(talk.skip(fit), talk.len() - kept.len() - fit);
    assert(talk.skip(fit).skip(talk.len() - kept.len() - fit) =~= kept);
    lemma_total_cost_cons(said(Role::System, prompt), kept);
    if cost(prompt) >= window && kept.len() > 0 {
        lemma_total_cost_push(kept.drop_last(), kept.last());
        assert(kept.drop_last().push(kept.last()) =~= kept);
    }
}

/// Where the whole conversation fits beside the prompt, nothing of it is dropped.
pub proof fn law_nothing_dropped_in_vain(ms: Seq<MessageView>, window: nat, prompt: Seq<char>)
    requires
        cost(prompt) + total_cost(conversation(ms)) <= window,
    ensures
        assembled(ms, window, prompt) == seq![said(Role::System, prompt)] + conversation(ms),
{
    let talk = conversation(ms);
    let limit = budget(window, prompt);
    law_newest_within(talk, limit);
    let n = talk.len() - newest_within(talk, limit).len();
    if n > 0 {
        lemma_total_cost_suffix(talk, n - 1);
    }
    assert(talk.skip(0) =~= talk);
    assert(talk.take(0) =~= Seq::<MessageView>::empty());
}

proof fn lemma_total_cost_suffix(ms: Seq<MessageView>, n: int)
    requires
        0 <= n <= ms.len(),
    ensures
        total_cost(ms.skip(n)) <= total_cost(ms),
    decreases ms.len(),
{
    if n < ms.len() {
        lemma_total_cost_suffix(ms.drop_last(), n);
        assert(ms.skip(n).drop_last() =~= ms.drop_last().skip(n));
    } else {
        assert(ms.skip(n) =~= Seq::<MessageView>::empty());
    }
}

/// After clearing, every message left is the system's, none of the system's is
/// lost, and clearing again changes nothing.
pub proof fn law_clear_keeps_system(ms: Seq<MessageView>)
    ensures
        forall|i: int|
            0 <= i < system_only(ms).len() ==> (#[trigger] system_only(ms)[i]).role
                == Role::System,
        forall|i: int|
            0 <= i < ms.len() && (#[trigger] ms[i]).role == Role::System
                ==> system_only(ms).contains(ms[i]),
        system_only(system_only(ms)) == system_only(ms),
        conversation(system_only(ms)).len() == 0,
    decreases ms.len(),
{
    let is_system = |m: MessageView| m.role == Role::System;
    let is_talk = |m: MessageView| m.role != Role::System;
    reveal_with_fuel(Seq::filter, 2);
    if ms.len() > 0 {
        let rest = ms.drop_last();
        law_clear_keeps_system(rest);
        let kept = system_only(rest);
        assert(kept.push(ms.last()).drop_last() =~= kept);
        assert forall|i: int| 0 <= i < ms.len() && (#[trigger] ms[i]).role == Role::System implies
            system_only(ms).contains(ms[i]) by {
            if i < rest.len() {
                assert(rest[i] == ms[i]);
                let j = choose|j: int| 0 <= j < kept.len() && kept[j] == ms[i];
                assert(system_only(ms)[j] == ms[i]);
            } else {
                assert(system_only(ms)[kept.len() as int] == ms[i]);
            }
        }
    }
}

/// A text is taken for one token for each four bytes begun, or one more.
pub proof fn law_cost(content: Seq<char>)
    ensures
        4 * (cost(content) - 1) <= text::size(content) < 4 * cost(content),
        cost(content) >= 1,
{
}

/// A conversation without words of the system is handed on whole and in order where it fits.
pub proof fn law_short_conversations_are_whole(
    ms: Seq<MessageView>,
    window: nat,
    prompt: Seq<char>,
)
    requires
        forall|i: int| 0 <= i < ms.len() ==> (#[trigger] ms[i]).role != Role::System,
        cost(prompt) + total_cost(ms) <= window,
    ensures
        assembled(ms, window, prompt) == seq![MessageView { role: Role::System, content: prompt }]
            + ms,
{
    lemma_all_talk(ms);
    law_nothing_dropped_in_vain(ms, window, prompt);
}

proof fn lemma_all_talk(ms: Seq<MessageView>)
    requires
        forall|i: int| 0 <= i < ms.len() ==> (#[trigger] ms[i]).role != Role::System,
    ensures
        conversation(ms) == ms,
    decreases ms.len(),
{
    reveal_with_fuel(Seq::filter, 2);
    if ms.len() > 0 {
        let rest = ms.drop_last();
        assert forall|i: int| 0 <= i < rest.len() implies (#[trigger] rest[i]).role
            != Role::System by {
            assert(rest[i] == ms[i]);
        }
        lemma_all_talk(rest);
        assert(ms[ms.len() - 1].role != Role::System);
        assert(rest.push(ms.last()) =~= ms);
    } else {
        assert(ms =~= Seq::<MessageView>::empty());
    }
}

/// Every message that is handed to a model but the first is one of the conversation, with its
/// role and its words unchanged, and what the system said is not among them.
pub proof fn law_nothing_is_made_up(
    ms: Seq<MessageView>,
    window: nat,
    prompt: Seq<char>,
    i: int,
)
    requires
        0 < i < assembled(ms, window, prompt).len(),
    ensures
        ms.contains(assembled(ms, window, prompt)[i]),
        assembled(ms, window, prompt)[i].role != Role::System,
{
    let talk = conversation(ms);
    let kept = newest_turns(talk, budget(window, prompt));
    lemma_newest_turns(talk, budget(window, prompt));
    let n = talk.len() - kept.len();
    assert(assembled(ms, window, prompt)[i] == kept[i - 1]);
    assert(kept[i - 1] == talk[n + i - 1]);
    lemma_talk_is_said(ms, n + i - 1);
}

proof fn lemma_talk_is_said(ms: Seq<MessageView>, i: int)
    requires
        0 <= i < conversation(ms).len(),
    ensures
        ms.contains(conversation(ms)[i]),
        conversation(ms)[i].role != Role::System,
    decreases ms.len(),
{
    reveal_with_fuel(Seq::filter, 2);
    if ms.len() > 0 {
        let rest = ms.drop_last();
        let before = conversation(rest);
        if i < before.len() {
            lemma_talk_is_said(rest, i);
            assert(conversation(ms)[i] == before[i]);
            let j = choose|j: int| 0 <= j < rest.len() && rest[j] == before[i];
            assert(ms[j] == before[i]);
        } else {
            assert(ms[ms.len() - 1] == conversation(ms)[i]);
        }
    }
}

/// The newest message of the user is handed to the model where it fits beside the prompt.
pub proof fn law_newest_question_is_kept(
    ms: Seq<MessageView>,
    question: Seq<char>,
    window: nat,
    prompt: Seq<char>,
)
    requires
        cost(prompt) + cost(question) <= window,
    ensures
        ({
            let q = MessageView { role: Role::User, content: question };
            let out = assembled(ms.push(q), window, prompt);
            out.len() > 1 && out.last() == q && out[0] == (MessageView {
                role: Role::System,
                content: prompt,
            })
        }),
{
    let q = MessageView { role: Role::User, content: question };
    let all = ms.push(q);
    reveal_with_fuel(Seq::filter, 2);
    assert(all.drop_last() =~= ms);
    let talk = conversation(all);
    assert(talk == conversation(ms).push(q));
    let i = talk.len() - 1;
    assert(talk.skip(i) =~= seq![q]);
    assert(seq![q].drop_last() =~= Seq::<MessageView>::empty());
    assert(total_cost(seq![q].drop_last()) == 0);
    assert(total_cost(talk.skip(i)) == cost(question));
    let limit = budget(window, prompt);
    law_question_that_fits_is_kept(talk, limit, i);
    lemma_newest_turns(talk, limit);
    let kept = newest_turns(talk, limit);
    assert(kept.len() > 0);
    assert(kept.last() == talk[i]);
    assert(assembled(all, window, prompt).last() == kept.last());
}

} // verus!
