//! The command verbs the operator can ask for, and their arguments, as
//! plain data. Mapping real command-line text onto these lives outside
//! the library, beside the rest of the process plumbing.

use vstd::prelude::*;

verus! {

/// The amount argument of an addition or forwarded addition.
#[derive(Clone, Copy, PartialEq, Eq, Structural, Debug)]
pub struct AddArgs {
    /// The value to add.
    pub value: u32,
}

/// The argument of an upgrade.
#[derive(Clone, Copy, PartialEq, Eq, Structural, Debug)]
pub struct UpgradeArgs {
    /// The value the upgraded contract starts from.
    pub value: u32,
}

/// The argument of a batched deploy.
#[derive(Clone, Copy, PartialEq, Eq, Structural, Debug)]
pub struct MultiDeployArgs {
    /// The number of contracts to deploy.
    pub count: u8,
}

/// One command verb with its arguments.
#[derive(Clone, Copy, PartialEq, Eq, Structural, Debug)]
pub enum InteractCliCommand {
    /// Add a value to the counter.
    Add(AddArgs),
    /// Deploy the counter contract.
    Deploy,
    /// Feed the counter contract native currency.
    Feed,
    /// Deploy several counter contracts in one batch.
    MultiDeploy(MultiDeployArgs),
    /// Print the counter's sum.
    Sum,
    /// Upgrade the counter contract.
    Upgrade(UpgradeArgs),
    /// Deploy the caller contract.
    DeployCaller,
    /// Ask the caller contract to add a value.
    CallCaller(AddArgs),
}

/// One invocation: at most one command verb.
#[derive(Clone, Copy, PartialEq, Eq, Structural, Debug)]
pub struct InteractCli {
    /// The command asked for, if any.
    pub command: Option<InteractCliCommand>,
}

impl Default for InteractCli {
    /// No command at all.
    fn default() -> (r: InteractCli)
        ensures
            r.command is None,
    {
        InteractCli { command: None }
    }
}

impl Default for AddArgs {
    /// A zero amount.
    fn default() -> (r: AddArgs)
        ensures
            r.value == 0,
    {
        AddArgs { value: 0 }
    }
}

impl Default for UpgradeArgs {
    /// A zero amount.
    fn default() -> (r: UpgradeArgs)
        ensures
            r.value == 0,
    {
        UpgradeArgs { value: 0 }
    }
}

impl Default for MultiDeployArgs {
    /// A batch of none.
    fn default() -> (r: MultiDeployArgs)
        ensures
            r.count == 0,
    {
        MultiDeployArgs { count: 0 }
    }
}

} // verus!
