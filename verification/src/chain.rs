//! What a session and the chain that it works on say to each other. The session
//! asks, the host of the session performs the request on the chain, and the
//! session goes on with the reply.
use crate::diagnostic::Diagnostic;
use serde_json::Value;
use vstd::prelude::*;

verus! {

/// A principal that is no contract.
#[derive(Clone, Debug)]
pub struct StandardPrincipal {
    /// Its address.
    pub address: String,
    /// How it is shown.
    pub text: String,
}

/// An account and its balances, one for each token of the ledger.
#[derive(Clone, Debug)]
pub struct AccountRow {
    pub address: String,
    pub balances: Vec<u128>,
}

/// Who owns how much of what.
#[derive(Clone, Debug)]
pub struct Ledger {
    pub tokens: Vec<String>,
    pub accounts: Vec<AccountRow>,
}

impl Ledger {
    /// Whether every account has a balance for each token.
    pub open spec fn complete(self) -> bool {
        forall|i: int|
            0 <= i < self.accounts@.len() ==> (#[trigger] self.accounts@[i]).balances@.len()
                == self.tokens@.len()
    }

    /// Tells whether every account has a balance for each token.
    pub fn is_complete(&self) -> (result: bool)
        ensures
            result == self.complete(),
    {
        let mut i: usize = 0;
        while i < self.accounts.len()
            invariant
                i <= self.accounts@.len(),
                forall|j: int|
                    0 <= j < i ==> (#[trigger] self.accounts@[j]).balances@.len()
                        == self.tokens@.len(),
            decreases self.accounts@.len() - i,
        {
            if self.accounts[i].balances.len() != self.tokens.len() {
                return false;
            }
            i += 1;
        }
        true
    }
}

/// What came of a snippet that ran.
#[derive(Clone, Debug)]
pub struct RunReport {
    /// Whether the snippet was stored as a contract.
    pub contract_saved: bool,
    pub result: String,
    pub events: Vec<Value>,
}

/// What came of a snippet: a report, or a message with the place of the error.
pub type RunOutcome = Result<RunReport, (String, Option<Diagnostic>)>;

/// What a session can ask for.
#[derive(Clone, Debug)]
pub enum Request {
    /// Does this address stand for a principal?
    ParsePrincipal(String),
    /// Which standard principal does this address stand for?
    ParseStandardPrincipal(String),
    /// Credit the principal with this address.
    CreditStx(String, u64),
    /// Which contract identifier does this text stand for?
    ParseContractId(String),
    /// Run a snippet for a sender, under a contract identifier.
    Run { tx_sender: String, contract_id: String, snippet: String },
    /// Mine this many blocks.
    AdvanceChainTip(u32),
    /// How high is the chain?
    BlockHeight,
    /// Who owns how much of what?
    ReadLedger,
}

/// A request as a value of the model.
pub enum RequestView {
    ParsePrincipal(Seq<char>),
    ParseStandardPrincipal(Seq<char>),
    CreditStx(Seq<char>, u64),
    ParseContractId(Seq<char>),
    Run { tx_sender: Seq<char>, contract_id: Seq<char>, snippet: Seq<char> },
    AdvanceChainTip(u32),
    BlockHeight,
    ReadLedger,
}

impl View for Request {
    type V = RequestView;

    open spec fn view(&self) -> RequestView {
        match *self {
            Request::ParsePrincipal(address) => RequestView::ParsePrincipal(address@),
            Request::ParseStandardPrincipal(address) => RequestView::ParseStandardPrincipal(
                address@,
            ),
            Request::CreditStx(address, amount) => RequestView::CreditStx(address@, amount),
            Request::ParseContractId(text) => RequestView::ParseContractId(text@),
            Request::Run { tx_sender, contract_id, snippet } => RequestView::Run {
                tx_sender: tx_sender@,
                contract_id: contract_id@,
                snippet: snippet@,
            },
            Request::AdvanceChainTip(count) => RequestView::AdvanceChainTip(count),
            Request::BlockHeight => RequestView::BlockHeight,
            Request::ReadLedger => RequestView::ReadLedger,
        }
    }
}

/// What the host replies.
#[derive(Debug)]
pub enum Reply {
    /// To `ParsePrincipal`: whether it does.
    Principal(bool),
    /// To `ParseStandardPrincipal`: the principal, if it stands for one.
    StandardPrincipal(Option<StandardPrincipal>),
    /// To `CreditStx`: a message on the new balance, or why it was refused.
    Credited(Result<String, String>),
    /// To `ParseContractId`: the identifier as it is written, if it is one.
    ContractId(Option<String>),
    /// To `Run`.
    Ran(RunOutcome),
    /// To `AdvanceChainTip` and to `BlockHeight`: the height of the chain.
    Height(u32),
    /// To `ReadLedger`.
    Ledger(Ledger),
}

/// A request has a reply of the same kind.
pub open spec fn answers(request: RequestView, reply: Reply) -> bool {
    match request {
        RequestView::ParsePrincipal(_) => reply is Principal,
        RequestView::ParseStandardPrincipal(_) => reply is StandardPrincipal,
        RequestView::CreditStx(_, _) => reply is Credited,
        RequestView::ParseContractId(_) => reply is ContractId,
        RequestView::Run { .. } => reply is Ran,
        RequestView::AdvanceChainTip(_) => reply is Height,
        RequestView::BlockHeight => reply is Height,
        RequestView::ReadLedger => reply is Ledger,
    }
}

/// Whether `reply` is what a chain that counts its blocks says to `request` when it
/// is `height` high: mining raises it by as many blocks as were asked for, and
/// asking for the height tells it.
pub open spec fn counts_blocks(height: u32, request: RequestView, reply: Reply) -> bool {
    match (request, reply) {
        (RequestView::AdvanceChainTip(count), Reply::Height(reached)) => reached == height + count,
        (RequestView::BlockHeight, Reply::Height(told)) => told == height,
        _ => false,
    }
}

/// Where a piece of work stands: it is done, or it waits for a reply and has put
/// down what it needs to go on.
#[derive(Clone, Debug)]
pub enum Step<T, K> {
    Done(T),
    Ask(Request, K),
}

/// A step as a value of the model.
pub enum StepView<T, K> {
    Done(T),
    Ask(RequestView, K),
}

impl<T: DeepView, K: View> View for Step<T, K> {
    type V = StepView<T::V, K::V>;

    open spec fn view(&self) -> StepView<T::V, K::V> {
        match *self {
            Step::Done(value) => StepView::Done(value.deep_view()),
            Step::Ask(request, task) => StepView::Ask(request@, task@),
        }
    }
}

/// A request is seen in the model as what it is, with all that it holds.
pub proof fn requests_keep_what_they_hold(
    a: String,
    b: String,
    c: String,
    amount: u64,
    count: u32,
)
    ensures
        Request::ParsePrincipal(a)@ == RequestView::ParsePrincipal(a@),
        Request::ParseStandardPrincipal(a)@ == RequestView::ParseStandardPrincipal(a@),
        Request::CreditStx(a, amount)@ == RequestView::CreditStx(a@, amount),
        Request::ParseContractId(a)@ == RequestView::ParseContractId(a@),
        (Request::Run { tx_sender: a, contract_id: b, snippet: c })@ == (RequestView::Run {
            tx_sender: a@,
            contract_id: b@,
            snippet: c@,
        }),
        Request::AdvanceChainTip(count)@ == RequestView::AdvanceChainTip(count),
        Request::BlockHeight@ == RequestView::BlockHeight,
        Request::ReadLedger@ == RequestView::ReadLedger,
{
}

/// A step is seen in the model as what it is, with all that it holds.
pub proof fn steps_keep_what_they_hold<T: DeepView, K: View>(value: T, request: Request, task: K)
    ensures
        Step::<T, K>::Done(value)@ == StepView::<T::V, K::V>::Done(value.deep_view()),
        Step::<T, K>::Ask(request, task)@ == StepView::<T::V, K::V>::Ask(request@, task@),
{
}

} // verus!
