//! What a session starts from.
use vstd::prelude::*;

verus! {

/// An account that exists from the start.
#[derive(Clone, Debug)]
pub struct Account {
    pub address: String,
    pub balance: u64,
    pub name: String,
}

/// A contract that is deployed at the start.
#[derive(Clone, Debug)]
pub struct InitialContract {
    pub code: String,
    pub name: Option<String>,
}

/// The settings of a session.
#[derive(Clone, Debug)]
pub struct SessionSettings {
    /// The account that deploys the initial contracts.
    pub initial_deployer: Option<Account>,
    pub initial_accounts: Vec<Account>,
    pub initial_contracts: Vec<InitialContract>,
}

/// How accounts and contracts are listed.
#[derive(Clone, Copy, Debug, PartialEq, Eq, Structural)]
pub enum Listing {
    /// As tables, for a terminal.
    Table,
    /// One to a line.
    Plain,
}

} // verus!
