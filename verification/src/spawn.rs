//! Assembly of a spawned agent's configuration from the caller's turn.

use vstd::prelude::*;
use vstd::string::*;

use crate::text::clone_opt_string;

verus! {

/// A set-once policy slot: once fixed — by the base configuration or by a
/// spawn — fixing it again is an error.
#[derive(Debug)]
pub struct PolicySlot {
    locked: bool,
    value: String,
}

impl PolicySlot {
    pub closed spec fn text(&self) -> Seq<char> {
        self.value@
    }

    pub closed spec fn is_locked(&self) -> bool {
        self.locked
    }

    /// An open slot holding a default.
    pub fn open_slot(value: String) -> (r: Self)
        ensures
            !r.is_locked(),
            r.text() == value@,
    {
        PolicySlot { locked: false, value }
    }

    /// A slot already fixed at `value`.
    pub fn locked_slot(value: String) -> (r: Self)
        ensures
            r.is_locked(),
            r.text() == value@,
    {
        PolicySlot { locked: true, value }
    }

    /// Fixes the slot; fails when it is already fixed.
    pub fn set(&mut self, value: String) -> (r: Result<(), ()>)
        ensures
            (r is Ok) == !old(self).is_locked(),
            r is Ok ==> final(self).is_locked() && final(self).text() == value@,
            r is Err ==> *final(self) == *old(self),
    {
        if self.locked {
            Err(())
        } else {
            self.locked = true;
            self.value = value;
            Ok(())
        }
    }
}

impl Clone for PolicySlot {
    fn clone(&self) -> (r: Self)
        ensures
            r == *self,
    {
        PolicySlot { locked: self.locked, value: self.value.clone() }
    }
}

/// The texts of an optional list, or its absence.
pub open spec fn opt_texts(o: Option<Vec<String>>) -> Option<Seq<Seq<char>>> {
    match o {
        Some(v) => Some(v.deep_view()),
        None => None,
    }
}

fn clone_opt_vec_string(o: &Option<Vec<String>>) -> (r: Option<Vec<String>>)
    ensures
        opt_texts(r) == opt_texts(*o),
{
    match o {
        Some(v) => {
            let c = v.clone();
            proof {
                assert(forall|i: int|
                    0 <= i < c@.len() ==> (#[trigger] c@[i])@ == v@[i]@);
                assert(c.deep_view() =~= v.deep_view());
            }
            Some(c)
        },
        None => None,
    }
}

/// Allow and deny lists for tools and shell commands.
#[derive(Debug)]
pub struct ToolPolicy {
    pub tool_allowlist: Option<Vec<String>>,
    pub tool_denylist: Option<Vec<String>>,
    pub shell_command_allowlist: Option<Vec<String>>,
    pub shell_command_denylist: Option<Vec<String>>,
}

/// The list overrides a spawn request carries.
#[derive(Debug)]
pub struct ToolPolicyOverrides {
    pub tool_allowlist: Option<Vec<String>>,
    pub tool_denylist: Option<Vec<String>>,
    pub shell_command_allowlist: Option<Vec<String>>,
    pub shell_command_denylist: Option<Vec<String>>,
}

impl ToolPolicy {
    /// Applies the overrides of a spawn request: a list that is given
    /// replaces the corresponding one; an absent override leaves it alone.
    pub fn apply_overrides(&mut self, overrides: ToolPolicyOverrides)
        ensures
            opt_texts(final(self).tool_allowlist) == (if overrides.tool_allowlist is Some {
                opt_texts(overrides.tool_allowlist)
            } else {
                opt_texts(old(self).tool_allowlist)
            }),
            opt_texts(final(self).tool_denylist) == (if overrides.tool_denylist is Some {
                opt_texts(overrides.tool_denylist)
            } else {
                opt_texts(old(self).tool_denylist)
            }),
            opt_texts(final(self).shell_command_allowlist) == (
            if overrides.shell_command_allowlist is Some {
                opt_texts(overrides.shell_command_allowlist)
            } else {
                opt_texts(old(self).shell_command_allowlist)
            }),
            opt_texts(final(self).shell_command_denylist) == (
            if overrides.shell_command_denylist is Some {
                opt_texts(overrides.shell_command_denylist)
            } else {
                opt_texts(old(self).shell_command_denylist)
            }),
    {
        let ToolPolicyOverrides {
            tool_allowlist,
            tool_denylist,
            shell_command_allowlist,
            shell_command_denylist,
        } = overrides;
        match tool_allowlist {
            Some(v) => {
                self.tool_allowlist = Some(v);
            },
            None => {},
        }
        match tool_denylist {
            Some(v) => {
                self.tool_denylist = Some(v);
            },
            None => {},
        }
        match shell_command_allowlist {
            Some(v) => {
                self.shell_command_allowlist = Some(v);
            },
            None => {},
        }
        match shell_command_denylist {
            Some(v) => {
                self.shell_command_denylist = Some(v);
            },
            None => {},
        }
    }
}

impl Clone for ToolPolicy {
    fn clone(&self) -> (r: Self)
        ensures
            opt_texts(r.tool_allowlist) == opt_texts(self.tool_allowlist),
            opt_texts(r.tool_denylist) == opt_texts(self.tool_denylist),
            opt_texts(r.shell_command_allowlist) == opt_texts(self.shell_command_allowlist),
            opt_texts(r.shell_command_denylist) == opt_texts(self.shell_command_denylist),
    {
        ToolPolicy {
            tool_allowlist: clone_opt_vec_string(&self.tool_allowlist),
            tool_denylist: clone_opt_vec_string(&self.tool_denylist),
            shell_command_allowlist: clone_opt_vec_string(&self.shell_command_allowlist),
            shell_command_denylist: clone_opt_vec_string(&self.shell_command_denylist),
        }
    }
}

/// Configuration a new agent thread is started with. Only what the spawn
/// logic reads is modeled; plain text stands in for richer host settings.
#[derive(Debug)]
pub struct Config {
    pub model: Option<String>,
    pub model_provider: String,
    pub model_reasoning_effort: Option<String>,
    pub model_reasoning_summary: Option<String>,
    pub developer_instructions: Option<String>,
    pub base_instructions: Option<String>,
    pub compact_prompt: Option<String>,
    pub user_instructions: Option<String>,
    pub shell_environment_policy: String,
    pub linux_sandbox_exe: Option<String>,
    pub cwd: String,
    pub approval_policy: PolicySlot,
    pub sandbox_policy: PolicySlot,
    pub tool_policy: ToolPolicy,
}

impl Clone for Config {
    fn clone(&self) -> (r: Self)
        ensures
            r.model == self.model,
            r.model_provider == self.model_provider,
            r.model_reasoning_effort == self.model_reasoning_effort,
            r.model_reasoning_summary == self.model_reasoning_summary,
            r.developer_instructions == self.developer_instructions,
            r.base_instructions == self.base_instructions,
            r.compact_prompt == self.compact_prompt,
            r.user_instructions == self.user_instructions,
            r.shell_environment_policy == self.shell_environment_policy,
            r.linux_sandbox_exe == self.linux_sandbox_exe,
            r.cwd == self.cwd,
            r.approval_policy == self.approval_policy,
            r.sandbox_policy == self.sandbox_policy,
            opt_texts(r.tool_policy.tool_allowlist) == opt_texts(self.tool_policy.tool_allowlist),
            opt_texts(r.tool_policy.tool_denylist) == opt_texts(self.tool_policy.tool_denylist),
            opt_texts(r.tool_policy.shell_command_allowlist) == opt_texts(
                self.tool_policy.shell_command_allowlist,
            ),
            opt_texts(r.tool_policy.shell_command_denylist) == opt_texts(
                self.tool_policy.shell_command_denylist,
            ),
    {
        Config {
            model: clone_opt_string(&self.model),
            model_provider: self.model_provider.clone(),
            model_reasoning_effort: clone_opt_string(&self.model_reasoning_effort),
            model_reasoning_summary: clone_opt_string(&self.model_reasoning_summary),
            developer_instructions: clone_opt_string(&self.developer_instructions),
            base_instructions: clone_opt_string(&self.base_instructions),
            compact_prompt: clone_opt_string(&self.compact_prompt),
            user_instructions: clone_opt_string(&self.user_instructions),
            shell_environment_policy: self.shell_environment_policy.clone(),
            linux_sandbox_exe: clone_opt_string(&self.linux_sandbox_exe),
            cwd: self.cwd.clone(),
            approval_policy: self.approval_policy.clone(),
            sandbox_policy: self.sandbox_policy.clone(),
            tool_policy: self.tool_policy.clone(),
        }
    }
}

/// What a running turn exposes to the spawn logic: the base configuration and
/// the selections of the current turn that override it.
#[derive(Debug)]
pub struct TurnContext {
    pub base_config: Config,
    pub model: String,
    pub model_provider: String,
    pub model_reasoning_effort: Option<String>,
    pub model_reasoning_summary: Option<String>,
    pub developer_instructions: Option<String>,
    pub base_instructions: Option<String>,
    pub compact_prompt: Option<String>,
    pub user_instructions: Option<String>,
    pub shell_environment_policy: String,
    pub linux_sandbox_exe: Option<String>,
    pub cwd: String,
    pub approval_policy: String,
    pub sandbox_policy: String,
}

/// The configuration for an agent spawned from `turn`: the turn's base
/// configuration with the turn's own model, instruction, and environment
/// selections written over it, and the turn's approval and sandbox policies
/// fixed. Fails when either policy slot of the base configuration is already
/// fixed.
pub fn build_agent_spawn_config(turn: &TurnContext) -> (r: Result<Config, String>)
    ensures
        (r is Err) == (turn.base_config.approval_policy.is_locked()
            || turn.base_config.sandbox_policy.is_locked()),
        r matches Err(m) ==> m@ == (if turn.base_config.approval_policy.is_locked() {
            "approval_policy is invalid: already set"@
        } else {
            "sandbox_policy is invalid: already set"@
        }),
        r matches Ok(c) ==> {
            &&& c.model == Some(turn.model)
            &&& c.model_provider == turn.model_provider
            &&& c.model_reasoning_effort == turn.model_reasoning_effort
            &&& c.model_reasoning_summary == turn.model_reasoning_summary
            &&& c.developer_instructions == turn.developer_instructions
            &&& c.base_instructions == turn.base_instructions
            &&& c.compact_prompt == turn.compact_prompt
            &&& c.user_instructions == turn.user_instructions
            &&& c.shell_environment_policy == turn.shell_environment_policy
            &&& c.linux_sandbox_exe == turn.linux_sandbox_exe
            &&& c.cwd == turn.cwd
            &&& c.approval_policy.is_locked() && c.approval_policy.text() == turn.approval_policy@
            &&& c.sandbox_policy.is_locked() && c.sandbox_policy.text() == turn.sandbox_policy@
            &&& opt_texts(c.tool_policy.tool_allowlist) == opt_texts(
                turn.base_config.tool_policy.tool_allowlist,
            )
            &&& opt_texts(c.tool_policy.tool_denylist) == opt_texts(
                turn.base_config.tool_policy.tool_denylist,
            )
            &&& opt_texts(c.tool_policy.shell_command_allowlist) == opt_texts(
                turn.base_config.tool_policy.shell_command_allowlist,
            )
            &&& opt_texts(c.tool_policy.shell_command_denylist) == opt_texts(
                turn.base_config.tool_policy.shell_command_denylist,
            )
        },
{
    let mut config = turn.base_config.clone();
    config.model = Some(turn.model.clone());
    config.model_provider = turn.model_provider.clone();
    config.model_reasoning_effort = clone_opt_string(&turn.model_reasoning_effort);
    config.model_reasoning_summary = clone_opt_string(&turn.model_reasoning_summary);
    config.developer_instructions = clone_opt_string(&turn.developer_instructions);
    config.base_instructions = clone_opt_string(&turn.base_instructions);
    config.compact_prompt = clone_opt_string(&turn.compact_prompt);
    config.user_instructions = clone_opt_string(&turn.user_instructions);
    config.shell_environment_policy = turn.shell_environment_policy.clone();
    config.linux_sandbox_exe = clone_opt_string(&turn.linux_sandbox_exe);
    config.cwd = turn.cwd.clone();
    match config.approval_policy.set(turn.approval_policy.clone()) {
        Ok(_) => {},
        Err(_) => {
            return Err(String::from_str("approval_policy is invalid: already set"));
        },
    }
    match config.sandbox_policy.set(turn.sandbox_policy.clone()) {
        Ok(_) => {},
        Err(_) => {
            return Err(String::from_str("sandbox_policy is invalid: already set"));
        },
    }
    Ok(config)
}

} // verus!
