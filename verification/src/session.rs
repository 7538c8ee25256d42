//! Session-wide mutable state and rollout-history handling.

use vstd::prelude::*;
use vstd::string::*;

use crate::chat::GroupChatState;
use crate::text::clone_opt_string;

verus! {

/// A subscription plan reported by the provider.
#[derive(Clone, Copy, Debug, PartialEq, Eq)]
pub enum PlanType {
    Free,
    Plus,
    Pro,
}

/// Rate-limit fields reported by the provider. Newer snapshots may omit the
/// credits and plan information that an earlier one carried.
#[derive(Debug, PartialEq, Eq)]
pub struct RateLimitSnapshot {
    pub credits: Option<String>,
    pub plan_type: Option<PlanType>,
}

impl Clone for RateLimitSnapshot {
    fn clone(&self) -> (r: Self)
        ensures
            r == *self,
    {
        RateLimitSnapshot {
            credits: clone_opt_string(&self.credits),
            plan_type: self.plan_type,
        }
    }
}

/// Fills the credits and plan fields of a new snapshot from the previous one
/// when the new snapshot does not include them.
pub fn merge_rate_limit_fields(
    previous: Option<&RateLimitSnapshot>,
    snapshot: RateLimitSnapshot,
) -> (r: RateLimitSnapshot)
    ensures
        r.credits == (if snapshot.credits is Some {
            snapshot.credits
        } else {
            match previous {
                Some(p) => p.credits,
                None => None::<String>,
            }
        }),
        r.plan_type == (if snapshot.plan_type is Some {
            snapshot.plan_type
        } else {
            match previous {
                Some(p) => p.plan_type,
                None => None::<PlanType>,
            }
        }),
{
    let mut snapshot = snapshot;
    if snapshot.credits.is_none() {
        snapshot.credits = match previous {
            Some(p) => clone_opt_string(&p.credits),
            None => None,
        };
    }
    if snapshot.plan_type.is_none() {
        snapshot.plan_type = match previous {
            Some(p) => p.plan_type,
            None => None,
        };
    }
    snapshot
}

/// One piece of a recorded message's content.
#[derive(Debug, PartialEq, Eq)]
pub enum ContentItem {
    OutputText { text: String },
    Other,
}

/// One recorded item of a conversation.
#[derive(Debug, PartialEq, Eq)]
pub enum ResponseItem {
    Message { id: Option<String>, role: String, content: Vec<ContentItem> },
    Reasoning { id: String, summary: Vec<String>, content: Option<String>, encrypted_content: Option<String> },
    FunctionCall { id: Option<String>, call_id: String, name: String, arguments: String },
    Other,
}

/// One persisted rollout entry.
#[derive(Debug, PartialEq, Eq)]
pub enum RolloutItem {
    ResponseItem(ResponseItem),
    Other,
}

/// A history a thread starts from: a fresh one, or recorded items being
/// forked or resumed.
#[derive(Debug, PartialEq, Eq)]
pub enum InitialHistory {
    New,
    Forked(Vec<RolloutItem>),
    Resumed(Vec<RolloutItem>),
}

impl InitialHistory {
    /// The rollout items this history carries.
    pub open spec fn items(self) -> Seq<RolloutItem> {
        match self {
            InitialHistory::New => Seq::empty(),
            InitialHistory::Forked(v) => v@,
            InitialHistory::Resumed(v) => v@,
        }
    }

    pub fn get_rollout_items(self) -> (r: Vec<RolloutItem>)
        ensures
            r@ == self.items(),
    {
        match self {
            InitialHistory::New => Vec::new(),
            InitialHistory::Forked(v) => v,
            InitialHistory::Resumed(v) => v,
        }
    }
}

/// The concatenated output text of a message's content pieces.
pub open spec fn message_text(content: Seq<ContentItem>) -> Seq<char>
    decreases content.len(),
{
    if content.len() == 0 {
        Seq::empty()
    } else {
        message_text(content.drop_last()) + (match content.last() {
            ContentItem::OutputText { text } => text@,
            ContentItem::Other => Seq::<char>::empty(),
        })
    }
}

pub open spec fn is_prefix_of(p: Seq<char>, s: Seq<char>) -> bool {
    p.len() <= s.len() && s.take(p.len() as int) == p
}

/// Whether a message is part of the session prefix (instructions and
/// environment context) rather than real conversation.
pub open spec fn is_session_prefix_text(t: Seq<char>) -> bool {
    is_prefix_of("<user_instructions>"@, t) || is_prefix_of("<environment_context>"@, t)
}

/// Whether an item counts as a user message for history truncation: a user
/// message that is not part of the session prefix.
pub open spec fn counted_user_message(item: RolloutItem) -> bool {
    match item {
        RolloutItem::ResponseItem(r) => match r {
            ResponseItem::Message { role, content, .. } => role@ == "user"@
                && !is_session_prefix_text(message_text(content@)),
            _ => false,
        },
        _ => false,
    }
}

/// How many counted user messages the items hold.
pub open spec fn user_count(items: Seq<RolloutItem>) -> nat
    decreases items.len(),
{
    if items.len() == 0 {
        0
    } else {
        user_count(items.drop_last()) + (if counted_user_message(items.last()) {
            1nat
        } else {
            0nat
        })
    }
}

/// The cut position strictly before the `n`th (0-based) counted user
/// message, when the items hold more than `n` of them.
pub open spec fn nth_user_cut(items: Seq<RolloutItem>, n: nat) -> Option<int> {
    if exists|p: int| is_user_cut(items, n, p) {
        Some(choose|p: int| is_user_cut(items, n, p))
    } else {
        None
    }
}

pub open spec fn is_user_cut(items: Seq<RolloutItem>, n: nat, p: int) -> bool {
    0 <= p < items.len() && counted_user_message(items[p]) && user_count(items.take(p)) == n
}

proof fn lemma_user_count_monotone(items: Seq<RolloutItem>, a: int, b: int)
    requires
        0 <= a <= b <= items.len(),
    ensures
        user_count(items.take(a)) <= user_count(items.take(b)),
    decreases b - a,
{
    if a < b {
        lemma_user_count_monotone(items, a, b - 1);
        assert(items.take(b).drop_last() =~= items.take(b - 1));
    }
}

/// The cut is unique: two positions that both sit exactly before the `n`th
/// user message are the same position.
proof fn lemma_user_cut_unique(items: Seq<RolloutItem>, n: nat, p1: int, p2: int)
    requires
        is_user_cut(items, n, p1),
        is_user_cut(items, n, p2),
    ensures
        p1 == p2,
{
    if p1 < p2 {
        assert(items.take(p1 + 1).drop_last() =~= items.take(p1));
        assert(items.take(p1 + 1).last() == items[p1]);
        lemma_user_count_monotone(items, p1 + 1, p2);
    }
    if p2 < p1 {
        assert(items.take(p2 + 1).drop_last() =~= items.take(p2));
        assert(items.take(p2 + 1).last() == items[p2]);
        lemma_user_count_monotone(items, p2 + 1, p1);
    }
}

fn starts_with_text(s: &str, p: &str) -> (r: bool)
    ensures
        r == is_prefix_of(p@, s@),
{
    let pn = p.unicode_len();
    let sn = s.unicode_len();
    if pn > sn {
        return false;
    }
    let mut i: usize = 0;
    while i < pn
        invariant
            0 <= i <= pn,
            pn == p@.len(),
            pn <= sn == s@.len(),
            forall|j: int| 0 <= j < i ==> s@[j] == p@[j],
        decreases pn - i,
    {
        if s.get_char(i) != p.get_char(i) {
            proof {
                assert(s@.take(pn as int)[i as int] != p@[i as int]);
            }
            return false;
        }
        i += 1;
    }
    proof {
        assert(s@.take(pn as int) =~= p@);
    }
    true
}

fn is_counted_user_message_exec(item: &RolloutItem) -> (r: bool)
    ensures
        r == counted_user_message(*item),
{
    match item {
        RolloutItem::ResponseItem(ri) => match ri {
            ResponseItem::Message { role, content, .. } => {
                if !(*role == String::from_str("user")) {
                    return false;
                }
                let mut text = String::new();
                let mut i: usize = 0;
                while i < content.len()
                    invariant
                        0 <= i <= content@.len(),
                        text@ == message_text(content@.take(i as int)),
                    decreases content@.len() - i,
                {
                    match &content[i] {
                        ContentItem::OutputText { text: chunk } => {
                            text.append(chunk.as_str());
                        },
                        ContentItem::Other => {},
                    }
                    proof {
                        assert(content@.take(i + 1).drop_last() =~= content@.take(i as int));
                        assert(content@.take(i + 1).last() == content@[i as int]);
                    }
                    i += 1;
                }
                proof {
                    assert(content@.take(content@.len() as int) =~= content@);
                }
                let instructions = starts_with_text(text.as_str(), "<user_instructions>");
                let environment = starts_with_text(text.as_str(), "<environment_context>");
                !(instructions || environment)
            },
            _ => false,
        },
        _ => false,
    }
}

/// A prefix of the history obtained by cutting strictly before the `n`th
/// (0-based) counted user message and everything after it. Asking for a cut
/// beyond the user messages present — or one that leaves nothing — yields a
/// new, empty history rather than a truncated non-empty one.
pub fn truncate_before_nth_user_message(history: InitialHistory, n: usize) -> (r: InitialHistory)
    ensures
        (match nth_user_cut(history.items(), n as nat) {
            Some(p) => if p > 0 {
                r matches InitialHistory::Forked(v) && v@ == history.items().take(p)
            } else {
                r is New
            },
            None => r is New,
        }),
{
    let ghost gitems = history.items();
    let mut items = history.get_rollout_items();
    let len = items.len();
    let mut count: usize = 0;
    let mut cut: Option<usize> = None;
    let mut i: usize = 0;
    while i < len && cut.is_none()
        invariant
            0 <= i <= len,
            len == items@.len(),
            items@ == gitems,
            (match cut {
                Some(p) => is_user_cut(gitems, n as nat, p as int),
                None => count == user_count(gitems.take(i as int)) && count <= n && forall|p: int|
                    0 <= p < i ==> !is_user_cut(gitems, n as nat, p),
            }),
        decreases len - i,
    {
        if is_counted_user_message_exec(&items[i]) {
            if count == n {
                cut = Some(i);
            } else {
                count += 1;
            }
        }
        proof {
            assert(gitems.take(i + 1).drop_last() =~= gitems.take(i as int));
            assert(gitems.take(i + 1).last() == gitems[i as int]);
        }
        i += 1;
    }
    match cut {
        Some(p) => {
            proof {
                let q = choose|q: int| is_user_cut(gitems, n as nat, q);
                lemma_user_cut_unique(gitems, n as nat, p as int, q);
            }
            if p == 0 {
                InitialHistory::New
            } else {
                items.truncate(p);
                InitialHistory::Forked(items)
            }
        },
        None => {
            proof {
                assert(gitems.take(len as int) =~= gitems);
                assert(forall|p: int| !is_user_cut(gitems, n as nat, p));
            }
            InitialHistory::New
        },
    }
}

/// Session-scoped mutable state: the recorded conversation, the latest rate
/// limits, and the session's group chat.
pub struct SessionState {
    pub history: Vec<ResponseItem>,
    pub latest_rate_limits: Option<RateLimitSnapshot>,
    pub group_chat: GroupChatState,
}

impl SessionState {
    pub open spec fn history_items(&self) -> Seq<ResponseItem> {
        self.history@
    }

    pub open spec fn rate_limits(&self) -> Option<RateLimitSnapshot> {
        self.latest_rate_limits
    }

    pub open spec fn wf(&self) -> bool {
        self.group_chat.wf()
    }

    /// A fresh session: no history, no rate limits, an empty group chat.
    pub fn new() -> (r: Self)
        ensures
            r.wf(),
            r.history_items() == Seq::<ResponseItem>::empty(),
            r.rate_limits() is None,
            r.group_chat.entries_view() == Seq::<crate::chat::GroupChatMessageEvent>::empty(),
    {
        SessionState {
            history: Vec::new(),
            latest_rate_limits: None,
            group_chat: GroupChatState::new(),
        }
    }

    /// Appends newly recorded items to the conversation history.
    pub fn record_items(&mut self, items: Vec<ResponseItem>)
        ensures
            final(self).history_items() == old(self).history_items() + items@,
            final(self).rate_limits() == old(self).rate_limits(),
            final(self).group_chat == old(self).group_chat,
    {
        let mut items = items;
        self.history.append(&mut items);
    }

    /// Replaces the conversation history outright.
    pub fn replace_history(&mut self, items: Vec<ResponseItem>)
        ensures
            final(self).history_items() == items@,
            final(self).rate_limits() == old(self).rate_limits(),
            final(self).group_chat == old(self).group_chat,
    {
        self.history = items;
    }

    /// Records a rate-limit snapshot, keeping the previous credits and plan
    /// when the new snapshot does not carry them.
    pub fn set_rate_limits(&mut self, snapshot: RateLimitSnapshot)
        ensures
            final(self).rate_limits() matches Some(r) && {
                &&& r.credits == (if snapshot.credits is Some {
                    snapshot.credits
                } else {
                    match old(self).rate_limits() {
                        Some(p) => p.credits,
                        None => None::<String>,
                    }
                })
                &&& r.plan_type == (if snapshot.plan_type is Some {
                    snapshot.plan_type
                } else {
                    match old(self).rate_limits() {
                        Some(p) => p.plan_type,
                        None => None::<PlanType>,
                    }
                })
            },
            final(self).history_items() == old(self).history_items(),
            final(self).group_chat == old(self).group_chat,
    {
        let merged = merge_rate_limit_fields(self.latest_rate_limits.as_ref(), snapshot);
        self.latest_rate_limits = Some(merged);
    }
}

} // verus!
