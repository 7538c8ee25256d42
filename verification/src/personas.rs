//! Assembly of developer instructions for orchestrators and subagents.

use vstd::prelude::*;
use vstd::string::*;

use crate::ids::{id_digits, AgentId};
use crate::text::{non_empty_trimmed, trim, trim_spec};

verus! {

/// Instructions handed to an agent that coordinates subagents.
pub const ORCHESTRATOR_PROMPT: &'static str = "You coordinate a team of subagents. Spawn one for each separable piece of work, send each a focused prompt, and gather their results before you answer.";

/// Instructions handed to a spawned subagent.
pub const SUBAGENT_PROMPT: &'static str = "You are a subagent working for an orchestrator. Do only what you are asked, and report the outcome as one final message.";

pub open spec fn opt_view(o: Option<&str>) -> Option<Seq<char>> {
    match o {
        Some(s) => Some(s@),
        None => None,
    }
}

/// The merged instruction text. The addition is trimmed; when blank, the
/// existing text stays exactly as it was. Otherwise the addition follows the
/// trimmed existing text after a blank line, or stands alone when there is no
/// non-blank existing text.
pub open spec fn merged_spec(existing: Option<Seq<char>>, addition: Seq<char>) -> Option<
    Seq<char>,
> {
    let add = trim_spec(addition);
    if add.len() == 0 {
        existing
    } else {
        match existing {
            Some(e) => if trim_spec(e).len() > 0 {
                Some(trim_spec(e) + "\n\n"@ + add)
            } else {
                Some(add)
            },
            None => Some(add),
        }
    }
}

/// Appends `addition` to `existing` with a blank line between them, ignoring
/// a blank addition and a blank existing text.
pub fn merge_instructions(existing: Option<&str>, addition: &str) -> (r: Option<String>)
    ensures
        (match merged_spec(opt_view(existing), addition@) {
            Some(t) => r matches Some(s) && s@ == t,
            None => r is None,
        }),
{
    let addition = trim(addition);
    if addition.is_empty() {
        return match existing {
            Some(e) => Some(e.to_owned()),
            None => None,
        };
    }
    match existing {
        Some(e) => match non_empty_trimmed(e) {
            Some(et) => {
                let mut s = et.to_owned();
                s.append("\n\n");
                s.append(addition);
                Some(s)
            },
            None => Some(addition.to_owned()),
        },
        None => Some(addition.to_owned()),
    }
}

/// Developer instructions for an orchestrator: the orchestrator prompt,
/// merged after any existing instructions.
pub fn with_orchestrator_instructions(existing: Option<&str>) -> (r: Option<String>)
    ensures
        (match merged_spec(opt_view(existing), ORCHESTRATOR_PROMPT@) {
            Some(t) => r matches Some(s) && s@ == t,
            None => r is None,
        }),
{
    merge_instructions(existing, ORCHESTRATOR_PROMPT)
}

/// The text appended for a subagent: its persona (when non-blank), the
/// subagent prompt, and the orchestrator's thread id.
pub open spec fn subagent_addition(persona: Option<Seq<char>>, orchestrator_id: AgentId) -> Seq<
    char,
> {
    (match persona {
        Some(p) => if trim_spec(p).len() > 0 {
            "Persona:\n"@ + trim_spec(p) + "\n\n"@
        } else {
            Seq::empty()
        },
        None => Seq::empty(),
    }) + trim_spec(SUBAGENT_PROMPT@) + "\n\n"@ + "Orchestrator thread id: "@ + id_digits(
        orchestrator_id.value,
    )
}

/// Developer instructions for a subagent: persona, subagent prompt, and the
/// orchestrator's id, merged after any existing instructions.
pub fn with_subagent_instructions(
    existing: Option<&str>,
    persona: Option<&str>,
    orchestrator_id: AgentId,
) -> (r: Option<String>)
    ensures
        (match merged_spec(opt_view(existing), subagent_addition(opt_view(persona), orchestrator_id)) {
            Some(t) => r matches Some(s) && s@ == t,
            None => r is None,
        }),
{
    let mut addition = String::new();
    match persona {
        Some(p) => match non_empty_trimmed(p) {
            Some(pt) => {
                addition.append("Persona:\n");
                addition.append(pt);
                addition.append("\n\n");
            },
            None => {},
        },
        None => {},
    }
    addition.append(trim(SUBAGENT_PROMPT));
    addition.append("\n\n");
    addition.append("Orchestrator thread id: ");
    addition.append(orchestrator_id.text().as_str());
    proof {
        assert(addition@ =~= subagent_addition(opt_view(persona), orchestrator_id));
    }
    merge_instructions(existing, addition.as_str())
}

} // verus!
