//! Per-agent output accumulators.
//!
//! Each registered subagent owns one buffer of streamed partial text, streamed
//! reasoning text, its last finalized message, and a log of tool-invocation
//! events. The text buffers keep at most a fixed number of trailing
//! characters; the event log keeps at most a fixed number of newest events.

use vstd::prelude::*;
use vstd::string::*;

verus! {

/// Character budget of the streamed partial-message buffer.
pub const MAX_SUBAGENT_OUTPUT_CHARS: usize = 8000;

/// Character budget of the streamed reasoning buffer.
pub const MAX_SUBAGENT_REASONING_CHARS: usize = 8000;

/// Count budget of the tool-event log.
pub const MAX_SUBAGENT_TOOL_EVENTS: usize = 200;

/// The last `max` elements of a sequence; the whole sequence when it is short
/// enough.
pub open spec fn last_of<A>(s: Seq<A>, max: nat) -> Seq<A> {
    if s.len() <= max {
        s
    } else {
        s.skip((s.len() - max) as int)
    }
}

/// Drops the oldest characters of `value` so that at most `max_chars` remain.
pub fn trim_to_max_chars(value: &mut String, max_chars: usize)
    ensures
        final(value)@ == last_of(old(value)@, max_chars as nat),
{
    let total = value.as_str().unicode_len();
    if total <= max_chars {
        return ;
    }
    let sub = value.as_str().substring_char(total - max_chars, total).to_owned();
    *value = sub;
}

/// A size-limited copy of a text buffer: nothing when the buffer is empty,
/// otherwise its trailing `max_chars` characters.
pub fn trim_snapshot(value: &str, max_chars: usize) -> (r: Option<String>)
    ensures
        (r is Some) == (value@.len() > 0),
        r matches Some(t) ==> t@ == last_of(value@, max_chars as nat),
{
    if value.is_empty() {
        return None;
    }
    let total = value.unicode_len();
    if total <= max_chars {
        return Some(value.to_owned());
    }
    Some(value.substring_char(total - max_chars, total).to_owned())
}

/// Accumulated output of one subagent.
pub struct SubagentOutput {
    partial: String,
    last_message: Option<String>,
    reasoning: String,
    tool_events: Vec<String>,
}

/// Point-in-time copy of a subagent's accumulated output. Empty text buffers
/// are reported as absent.
pub struct SubagentOutputSnapshot {
    pub partial: Option<String>,
    pub last_message: Option<String>,
    pub reasoning: Option<String>,
    pub tool_events: Vec<String>,
}

/// What `snapshot` promises: each text buffer is reported absent when empty,
/// otherwise cut to the trailing `max_chars` characters when a limit is
/// given; the last message and the tool events are copied as they are.
pub open spec fn snapshot_matches(
    r: SubagentOutputSnapshot,
    o: SubagentOutput,
    max_chars: Option<usize>,
) -> bool {
    &&& (r.partial is Some) == (o.partial_text().len() > 0)
    &&& (r.partial matches Some(p) ==> p@ == match max_chars {
        Some(l) => last_of(o.partial_text(), l as nat),
        None => o.partial_text(),
    })
    &&& (r.reasoning is Some) == (o.reasoning_text().len() > 0)
    &&& (r.reasoning matches Some(t) ==> t@ == match max_chars {
        Some(l) => last_of(o.reasoning_text(), l as nat),
        None => o.reasoning_text(),
    })
    &&& (r.last_message is Some) == (o.message() is Some)
    &&& (r.last_message matches Some(m) ==> Some(m@) == o.message())
    &&& r.tool_events.deep_view() == o.events()
}

impl SubagentOutput {
    /// Streamed partial message text.
    pub closed spec fn partial_text(&self) -> Seq<char> {
        self.partial@
    }

    /// Streamed reasoning text.
    pub closed spec fn reasoning_text(&self) -> Seq<char> {
        self.reasoning@
    }

    /// Last finalized message, if one was recorded.
    pub closed spec fn message(&self) -> Option<Seq<char>> {
        match self.last_message {
            Some(m) => Some(m@),
            None => None,
        }
    }

    /// The logged tool events, oldest first.
    pub closed spec fn events(&self) -> Seq<Seq<char>> {
        self.tool_events.deep_view()
    }

    pub fn new() -> (r: Self)
        ensures
            r.partial_text() == Seq::<char>::empty(),
            r.reasoning_text() == Seq::<char>::empty(),
            r.message() is None,
            r.events() == Seq::<Seq<char>>::empty(),
    {
        let r = SubagentOutput {
            partial: String::new(),
            last_message: None,
            reasoning: String::new(),
            tool_events: Vec::new(),
        };
        proof {
            assert(r.events() =~= Seq::<Seq<char>>::empty());
        }
        r
    }

    /// Appends streamed message text, keeping only the newest characters when
    /// the budget is exceeded.
    pub fn push_delta(&mut self, delta: &str)
        ensures
            final(self).partial_text() == last_of(
                old(self).partial_text() + delta@,
                MAX_SUBAGENT_OUTPUT_CHARS as nat,
            ),
            final(self).reasoning_text() == old(self).reasoning_text(),
            final(self).message() == old(self).message(),
            final(self).events() == old(self).events(),
    {
        self.partial.append(delta);
        trim_to_max_chars(&mut self.partial, MAX_SUBAGENT_OUTPUT_CHARS);
    }

    /// Appends streamed reasoning text, keeping only the newest characters
    /// when the budget is exceeded.
    pub fn push_reasoning_delta(&mut self, delta: &str)
        ensures
            final(self).reasoning_text() == last_of(
                old(self).reasoning_text() + delta@,
                MAX_SUBAGENT_REASONING_CHARS as nat,
            ),
            final(self).partial_text() == old(self).partial_text(),
            final(self).message() == old(self).message(),
            final(self).events() == old(self).events(),
    {
        self.reasoning.append(delta);
        trim_to_max_chars(&mut self.reasoning, MAX_SUBAGENT_REASONING_CHARS);
    }

    /// Appends one tool event, evicting the oldest events beyond the budget.
    pub fn push_tool_event(&mut self, event: String)
        ensures
            final(self).events() == last_of(
                old(self).events().push(event@),
                MAX_SUBAGENT_TOOL_EVENTS as nat,
            ),
            final(self).partial_text() == old(self).partial_text(),
            final(self).reasoning_text() == old(self).reasoning_text(),
            final(self).message() == old(self).message(),
    {
        let ghost target: Seq<Seq<char>> = old(self).events().push(event@);
        self.tool_events.push(event);
        proof {
            assert(self.tool_events.deep_view() =~= target);
        }
        while self.tool_events.len() > MAX_SUBAGENT_TOOL_EVENTS
            invariant
                self.tool_events@.len() <= target.len(),
                self.tool_events@.len() >= MAX_SUBAGENT_TOOL_EVENTS as nat
                    || self.tool_events@.len() == target.len(),
                self.tool_events.deep_view() =~= target.skip(
                    target.len() - self.tool_events@.len(),
                ),
                self.last_message == old(self).last_message,
                self.partial == old(self).partial,
                self.reasoning == old(self).reasoning,
            decreases self.tool_events@.len(),
        {
            let ghost before = self.tool_events.deep_view();
            self.tool_events.remove(0);
            proof {
                assert(self.tool_events.deep_view() =~= before.drop_first());
                assert(self.tool_events.deep_view() =~= target.skip(
                    target.len() - self.tool_events@.len(),
                ));
            }
        }
        proof {
            assert(self.tool_events.deep_view() =~= last_of(
                target,
                MAX_SUBAGENT_TOOL_EVENTS as nat,
            ));
        }
    }

    /// Records the finalized message of the current turn and clears the
    /// streamed partial text it supersedes.
    pub fn set_message(&mut self, message: &str)
        ensures
            final(self).message() == Some(message@),
            final(self).partial_text() == Seq::<char>::empty(),
            final(self).reasoning_text() == old(self).reasoning_text(),
            final(self).events() == old(self).events(),
    {
        self.last_message = Some(message.to_owned());
        self.partial = String::new();
    }

    /// Clears the streamed buffers and the event log for a new prompt.
    pub fn reset_for_prompt(&mut self)
        ensures
            final(self).partial_text() == Seq::<char>::empty(),
            final(self).reasoning_text() == Seq::<char>::empty(),
            final(self).events() == Seq::<Seq<char>>::empty(),
            final(self).message() == old(self).message(),
    {
        self.partial = String::new();
        self.reasoning = String::new();
        self.tool_events.clear();
        proof {
            assert(self.events() =~= Seq::<Seq<char>>::empty());
        }
    }

    /// A point-in-time copy. With a limit, the text buffers are cut to at
    /// most that many trailing characters; without one they are copied whole.
    pub fn snapshot(&self, max_chars: Option<usize>) -> (r: SubagentOutputSnapshot)
        ensures
            snapshot_matches(r, *self, max_chars),
    {
        let partial = match max_chars {
            Some(limit) => trim_snapshot(self.partial.as_str(), limit),
            None => if self.partial.as_str().is_empty() {
                None
            } else {
                Some(self.partial.clone())
            },
        };
        let reasoning = match max_chars {
            Some(limit) => trim_snapshot(self.reasoning.as_str(), limit),
            None => if self.reasoning.as_str().is_empty() {
                None
            } else {
                Some(self.reasoning.clone())
            },
        };
        let last_message = self.last_message.clone();
        let tool_events = self.tool_events.clone();
        proof {
            assert(last_message matches Some(m) ==> Some(m@) == self.message());
            assert(forall|i: int|
                0 <= i < tool_events@.len() ==> #[trigger] tool_events@[i]@
                    == self.tool_events@[i]@);
            assert(tool_events.deep_view() =~= self.events());
        }
        SubagentOutputSnapshot { partial, last_message, reasoning, tool_events }
    }
}

/// The buffer text after a sequence of streamed deltas, starting from `init`,
/// with each push capped at `cap` trailing characters — the model of
/// `push_delta` / `push_reasoning_delta` applied in order.
pub open spec fn fold_deltas(init: Seq<char>, deltas: Seq<Seq<char>>, cap: nat) -> Seq<char>
    decreases deltas.len(),
{
    if deltas.len() == 0 {
        init
    } else {
        fold_deltas(last_of(init + deltas[0], cap), deltas.drop_first(), cap)
    }
}

/// All streamed deltas joined in order.
pub open spec fn concat_all(deltas: Seq<Seq<char>>) -> Seq<char>
    decreases deltas.len(),
{
    if deltas.len() == 0 {
        Seq::empty()
    } else {
        deltas[0] + concat_all(deltas.drop_first())
    }
}

/// Cutting to the trailing `cap` elements before appending more loses nothing
/// that cutting afterwards would keep.
pub proof fn lemma_last_of_absorb<A>(a: Seq<A>, b: Seq<A>, cap: nat)
    ensures
        last_of(last_of(a, cap) + b, cap) == last_of(a + b, cap),
{
    assert(last_of(last_of(a, cap) + b, cap) =~= last_of(a + b, cap));
}

proof fn lemma_fold_deltas_general(init: Seq<char>, deltas: Seq<Seq<char>>, cap: nat)
    ensures
        fold_deltas(last_of(init, cap), deltas, cap) == last_of(init + concat_all(deltas), cap),
    decreases deltas.len(),
{
    if deltas.len() == 0 {
        assert(init + concat_all(deltas) =~= init);
    } else {
        let d = deltas[0];
        lemma_last_of_absorb(init, d, cap);
        lemma_fold_deltas_general(init + d, deltas.drop_first(), cap);
        assert((init + d) + concat_all(deltas.drop_first()) =~= init + concat_all(deltas));
    }
}

/// LAW: for every sequence of deltas pushed into an initially empty text
/// buffer, the buffer never exceeds its character budget, and what it retains
/// is exactly the trailing characters of the full concatenation of the
/// deltas.
pub proof fn lemma_deltas_keep_true_suffix(deltas: Seq<Seq<char>>, cap: nat)
    ensures
        fold_deltas(Seq::empty(), deltas, cap) == last_of(concat_all(deltas), cap),
        fold_deltas(Seq::empty(), deltas, cap).len() <= cap,
{
    assert(last_of(Seq::<char>::empty(), cap) =~= Seq::<char>::empty());
    lemma_fold_deltas_general(Seq::empty(), deltas, cap);
    assert(Seq::<char>::empty() + concat_all(deltas) =~= concat_all(deltas));
}

/// The event log after a sequence of pushed events, starting from `init`,
/// with each push capped at the `cap` newest entries — the model of
/// `push_tool_event` applied in order.
pub open spec fn fold_events(init: Seq<Seq<char>>, events: Seq<Seq<char>>, cap: nat) -> Seq<
    Seq<char>,
>
    decreases events.len(),
{
    if events.len() == 0 {
        init
    } else {
        fold_events(last_of(init.push(events[0]), cap), events.drop_first(), cap)
    }
}

proof fn lemma_fold_events_general(init: Seq<Seq<char>>, events: Seq<Seq<char>>, cap: nat)
    ensures
        fold_events(last_of(init, cap), events, cap) == last_of(init + events, cap),
    decreases events.len(),
{
    if events.len() == 0 {
        assert(init + events =~= init);
    } else {
        let e = events[0];
        lemma_last_of_absorb(init, seq![e], cap);
        assert(last_of(init, cap).push(e) =~= last_of(init, cap) + seq![e]);
        assert(init.push(e) =~= init + seq![e]);
        lemma_fold_events_general(init.push(e), events.drop_first(), cap);
        assert(init.push(e) + events.drop_first() =~= init + events);
    }
}

/// LAW: for every sequence of events pushed into an initially empty event
/// log, the log never exceeds its count budget, and eviction is first-in
/// first-out: the log holds exactly the newest events, in push order.
pub proof fn lemma_events_fifo_eviction(events: Seq<Seq<char>>, cap: nat)
    ensures
        fold_events(Seq::empty(), events, cap) == last_of(events, cap),
        fold_events(Seq::empty(), events, cap).len() <= cap,
{
    assert(last_of(Seq::<Seq<char>>::empty(), cap) =~= Seq::<Seq<char>>::empty());
    lemma_fold_events_general(Seq::empty(), events, cap);
    assert(Seq::<Seq<char>>::empty() + events =~= events);
}

impl Default for SubagentOutput {
    fn default() -> (r: Self)
        ensures
            r.partial_text() == Seq::<char>::empty(),
            r.reasoning_text() == Seq::<char>::empty(),
            r.message() is None,
            r.events() == Seq::<Seq<char>>::empty(),
    {
        SubagentOutput::new()
    }
}

} // verus!
