//! Accounts and the configuration snapshot that workers read.
use vstd::prelude::*;

verus! {

/// One mail account: its address, its servers and its credentials.
pub struct Account {
    /// Email address; also the identity presented to the mailbox server.
    pub address: String,
    /// Host name of the outgoing server.
    pub smtp_address: String,
    /// Password for the outgoing server.
    pub smtp_password: String,
    /// Port of the outgoing server.
    pub smtp_port: u16,
    /// Host name of the mailbox server.
    pub imap_address: String,
    /// Password for the mailbox server.
    pub imap_password: String,
    /// Port of the mailbox server.
    pub imap_port: u16,
}

impl Account {
    /// A copy of this account.
    pub fn duplicate(&self) -> (r: Account)
        ensures
            r == *self,
    {
        Account {
            address: self.address.clone(),
            smtp_address: self.smtp_address.clone(),
            smtp_password: self.smtp_password.clone(),
            smtp_port: self.smtp_port,
            imap_address: self.imap_address.clone(),
            imap_password: self.imap_password.clone(),
            imap_port: self.imap_port,
        }
    }
}

/// The accounts to manage, in order.
pub struct Config {
    accounts: Vec<Account>,
}

impl Config {
    /// The accounts of this configuration.
    pub closed spec fn spec_accounts(&self) -> Seq<Account> {
        self.accounts@
    }

    /// A configuration of the given accounts.
    pub fn new(accounts: Vec<Account>) -> (r: Config)
        ensures
            r.spec_accounts() == accounts@,
    {
        Config { accounts }
    }

    /// The accounts of this configuration.
    pub fn get_accounts(&self) -> (r: &Vec<Account>)
        ensures
            r@ == self.spec_accounts(),
    {
        &self.accounts
    }

    /// A copy of this configuration.
    pub fn duplicate(&self) -> (r: Config)
        ensures
            r.spec_accounts() == self.spec_accounts(),
    {
        let mut accounts: Vec<Account> = Vec::new();
        let mut i: usize = 0;
        while i < self.accounts.len()
            invariant
                i <= self.accounts.len(),
                accounts@ == self.accounts@.take(i as int),
            decreases self.accounts.len() - i,
        {
            accounts.push(self.accounts[i].duplicate());
            assert(accounts@ =~= self.accounts@.take(i + 1));
            i = i + 1;
        }
        assert(self.accounts@.take(self.accounts.len() as int) =~= self.accounts@);
        Config { accounts }
    }
}

/// The configuration in force. A reload publishes a new snapshot; a snapshot
/// already handed out never changes.
pub struct AccountStore {
    current: Config,
}

impl AccountStore {
    /// The accounts of the snapshot in force.
    pub closed spec fn spec_accounts(&self) -> Seq<Account> {
        self.current.spec_accounts()
    }

    /// A store whose snapshot is `config`.
    pub fn new(config: Config) -> (r: AccountStore)
        ensures
            r.spec_accounts() == config.spec_accounts(),
    {
        AccountStore { current: config }
    }

    /// Replaces the snapshot in force by `config`.
    pub fn publish(&mut self, config: Config)
        ensures
            final(self).spec_accounts() == config.spec_accounts(),
    {
        self.current = config;
    }
}

/// A copy of the snapshot in force, for a worker to own.
pub fn load_config(store: &AccountStore) -> (r: Config)
    ensures
        r.spec_accounts() == store.spec_accounts(),
{
    store.current.duplicate()
}

} // verus!
