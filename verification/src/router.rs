//! The command router: the global options, the closed set of subcommands,
//! and the policy for the cross-cutting update-check side effect. The check
//! runs for every subcommand except self-update (which would recurse) and
//! only while update warnings are enabled, and at most once per invocation.

use vstd::prelude::*;

use crate::binary::BinaryName;

verus! {

/// The closed set of subcommands, one tag per handler.
#[derive(Clone, Debug, PartialEq, Eq, Structural)]
pub enum Commands {
    Default,
    Install,
    Remove,
    List,
    Self_,
    Show,
    Switch,
    Update,
    Which,
    Cleanup,
}

/// The component-level subcommands, each with its full argument surface.
#[derive(Clone, Debug, PartialEq, Eq)]
pub enum ComponentCommands {
    List,
    Add { component: String, debug: bool, nightly: Option<String>, yes: bool },
    Remove { binary: BinaryName },
    Cleanup { all: bool, days: u32, dry_run: bool },
}

/// One invocation of the tool: the selected subcommand and the process-wide
/// options, read once at startup and immutable thereafter.
#[derive(Clone, Debug)]
pub struct Command {
    pub command: Commands,
    /// GitHub API token for authenticated requests (helps avoid rate limits).
    pub github_token: Option<String>,
    /// Disable update warnings for suiup itself.
    pub disable_update_warnings: bool,
}

impl Commands {
    /// Whether this subcommand updates the tool itself. It is the one
    /// subcommand excluded from the update check, to avoid recursion.
    pub open spec fn spec_is_self_update(&self) -> bool {
        self is Self_
    }

    pub fn is_self_update(&self) -> (r: bool)
        ensures
            r == self.spec_is_self_update(),
    {
        matches!(self, Commands::Self_)
    }

    /// Whether the handler of this subcommand performs network requests and
    /// is therefore handed the global GitHub token.
    pub open spec fn spec_takes_github_token(&self) -> bool {
        self is Install || self is Remove || self is List || self is Update || self is Cleanup
    }

    pub fn takes_github_token(&self) -> (r: bool)
        ensures
            r == self.spec_takes_github_token(),
    {
        matches!(
            self,
            Commands::Install | Commands::Remove | Commands::List | Commands::Update
                | Commands::Cleanup
        )
    }
}

impl Command {
    /// Whether this invocation owes the update-check side effect: every
    /// subcommand but self-update, and only while warnings are enabled.
    pub open spec fn spec_update_check_due(&self) -> bool {
        !self.command.spec_is_self_update() && !self.disable_update_warnings
    }

    pub fn update_check_due(&self) -> (r: bool)
        ensures
            r == self.spec_update_check_due(),
    {
        !self.command.is_self_update() && !self.disable_update_warnings
    }
}

/// Tracks whether the update check has already run in this process, so a
/// repeated request within one invocation is an idempotent no-op.
pub struct UpdateCheckState {
    pub fired: bool,
}

/// Whether a request against state `fired` actually runs the check.
pub open spec fn spec_check_fires(fired: bool, c: &Command) -> bool {
    !fired && c.spec_update_check_due()
}

/// The state after a request: set as soon as the check has run once.
pub open spec fn spec_state_after(fired: bool, c: &Command) -> bool {
    fired || spec_check_fires(fired, c)
}

impl UpdateCheckState {
    /// A fresh invocation: the check has not run yet.
    pub fn new() -> (r: Self)
        ensures
            !r.fired,
    {
        UpdateCheckState { fired: false }
    }

    /// Decides whether the caller should run the update check now, and
    /// records that decision: after a `true`, every later request is `false`.
    pub fn request(&mut self, c: &Command) -> (r: bool)
        ensures
            r == spec_check_fires(old(self).fired, c),
            final(self).fired == spec_state_after(old(self).fired, c),
    {
        let fire = !self.fired && c.update_check_due();
        if fire {
            self.fired = true;
        }
        fire
    }
}

/// Law: over a whole invocation, the update check runs exactly once when the
/// subcommand is not self-update and update warnings are enabled, and never
/// otherwise. From the fresh state the first request fires precisely under
/// that condition, and no request after it can fire again.
pub proof fn lemma_update_check_policy(c: &Command)
    ensures
        spec_check_fires(false, c) == (!(c.command is Self_) && !c.disable_update_warnings),
        !spec_check_fires(spec_state_after(false, c), c),
        c.command is Self_ ==> !spec_check_fires(false, c),
        c.disable_update_warnings ==> !spec_check_fires(false, c),
{
}

} // verus!
