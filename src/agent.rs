//! The decisions of the mail agent: which fetches a command starts, and what
//! the outside observer is told of each account's attempt.
use vstd::prelude::*;

use crate::config::{Account, Config};
use crate::session::FetchError;

verus! {

/// Commands that the agent receives.
pub enum Command {
    /// Stop for a clean exit.
    Shutdown,
    /// Take the configuration snapshot in force anew.
    ReloadConfig,
    /// Fetch the inbox of every account.
    FetchImap,
}

/// One fetch to run: an account and the mailbox to fetch from it.
pub struct FetchRequest {
    pub account: Account,
    pub mailbox: String,
}

/// What the agent does for a command.
pub enum AgentAction {
    Stop,
    Reload,
    /// Run these fetches, each in its own worker.
    Fetch(Vec<FetchRequest>),
}

/// `plan` holds one request for each account of `accounts`, in order, each for `mailbox`.
pub open spec fn plans_each(plan: Seq<FetchRequest>, accounts: Seq<Account>, mailbox: Seq<char>) -> bool {
    &&& plan.len() == accounts.len()
    &&& forall|i: int|
        0 <= i < plan.len() ==> (#[trigger] plan[i]).account == accounts[i] && plan[i].mailbox@
            == mailbox
}

/// One fetch of `mailbox` for each account of `config`, in order.
pub fn plan_fetches(config: &Config, mailbox: &str) -> (r: Vec<FetchRequest>)
    ensures
        plans_each(r@, config.spec_accounts(), mailbox@),
{
    let accounts = config.get_accounts();
    let mut plan: Vec<FetchRequest> = Vec::new();
    let mut i: usize = 0;
    while i < accounts.len()
        invariant
            i <= accounts.len(),
            accounts@ == config.spec_accounts(),
            plans_each(plan@, accounts@.take(i as int), mailbox@),
        decreases accounts.len() - i,
    {
        plan.push(FetchRequest { account: accounts[i].duplicate(), mailbox: mailbox.to_owned() });
        i = i + 1;
    }
    assert(accounts@.take(accounts.len() as int) =~= accounts@);
    plan
}

/// The name of the mailbox that a fetch command reads.
pub open spec fn inbox() -> Seq<char> {
    seq!['I', 'N', 'B', 'O', 'X']
}

/// What the agent does for `command` under `config`: stop, reload, or fetch
/// the inbox of every account.
pub fn on_command(config: &Config, command: Command) -> (r: AgentAction)
    ensures
        command is Shutdown ==> r is Stop,
        command is ReloadConfig ==> r is Reload,
        command is FetchImap ==> (r matches AgentAction::Fetch(plan) && plans_each(
            plan@,
            config.spec_accounts(),
            inbox(),
        )),
{
    match command {
        Command::Shutdown => AgentAction::Stop,
        Command::ReloadConfig => AgentAction::Reload,
        Command::FetchImap => {
            let name = "INBOX";
            proof {
                reveal_strlit("INBOX");
            }
            assert(name@ =~= inbox());
            AgentAction::Fetch(plan_fetches(config, name))
        },
    }
}

/// What the outside observer is told.
pub enum Notice {
    /// An account's fetch attempt failed.
    AccountFetchFailed { address: String, error: FetchError },
}

/// The notice owed for the outcome of one account's attempt: none where it
/// succeeded, its address and error where it failed.
pub fn report(account: &Account, outcome: Result<usize, FetchError>) -> (r: Option<Notice>)
    ensures
        outcome is Ok ==> r is None,
        outcome matches Err(e) ==> r == Some(
            Notice::AccountFetchFailed { address: account.address, error: e },
        ),
{
    match outcome {
        Ok(_) => None,
        Err(e) => Some(Notice::AccountFetchFailed { address: account.address.clone(), error: e }),
    }
}

} // verus!
