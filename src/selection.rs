//! Declarative selections of what a request wants, and the client inputs
//! they are built from.
use vstd::prelude::*;

verus! {

/// Events with a given name, and the payload fields to project.
#[derive(Clone)]
pub struct EventSelection {
    pub name: String,
    pub fields: Vec<String>,
}

/// Calls with a given name, and the payload fields to project.
#[derive(Clone)]
pub struct CallSelection {
    pub name: String,
    pub fields: Vec<String>,
}

/// EVM logs of a contract, optionally narrowed by topics.
#[derive(Clone)]
pub struct EvmLogSelection {
    pub contract: String,
    pub topics: Vec<String>,
    pub fields: Vec<String>,
}

/// Ethereum transactions to a contract, optionally narrowed by method hash.
#[derive(Clone)]
pub struct EthTransactSelection {
    pub contract: String,
    pub sighash: Option<String>,
    pub fields: Vec<String>,
}

/// Events emitted by a smart contract.
#[derive(Clone)]
pub struct ContractsEventSelection {
    pub contract: String,
    pub fields: Vec<String>,
}

/// Client input for an [`EventSelection`].
#[derive(Clone)]
pub struct EventSelectionInput {
    pub name: String,
    pub fields: Vec<String>,
}

/// Client input for a [`CallSelection`].
#[derive(Clone)]
pub struct CallSelectionInput {
    pub name: String,
    pub fields: Vec<String>,
}

/// Client input for an [`EvmLogSelection`].
#[derive(Clone)]
pub struct EvmLogSelectionInput {
    pub contract: String,
    pub topics: Vec<String>,
    pub fields: Vec<String>,
}

/// Client input for an [`EthTransactSelection`].
#[derive(Clone)]
pub struct EthTransactSelectionInput {
    pub contract: String,
    pub sighash: Option<String>,
    pub fields: Vec<String>,
}

/// Client input for a [`ContractsEventSelection`].
#[derive(Clone)]
pub struct ContractsEventSelectionInput {
    pub contract: String,
    pub fields: Vec<String>,
}

impl From<EventSelectionInput> for EventSelection {
    fn from(i: EventSelectionInput) -> (r: EventSelection) {
        EventSelection { name: i.name, fields: i.fields }
    }
}

impl vstd::std_specs::convert::FromSpecImpl<EventSelectionInput> for EventSelection {
    open spec fn obeys_from_spec() -> bool {
        true
    }

    open spec fn from_spec(i: EventSelectionInput) -> EventSelection {
        EventSelection { name: i.name, fields: i.fields }
    }
}

impl From<CallSelectionInput> for CallSelection {
    fn from(i: CallSelectionInput) -> (r: CallSelection) {
        CallSelection { name: i.name, fields: i.fields }
    }
}

impl vstd::std_specs::convert::FromSpecImpl<CallSelectionInput> for CallSelection {
    open spec fn obeys_from_spec() -> bool {
        true
    }

    open spec fn from_spec(i: CallSelectionInput) -> CallSelection {
        CallSelection { name: i.name, fields: i.fields }
    }
}

impl From<EvmLogSelectionInput> for EvmLogSelection {
    fn from(i: EvmLogSelectionInput) -> (r: EvmLogSelection) {
        EvmLogSelection { contract: i.contract, topics: i.topics, fields: i.fields }
    }
}

impl vstd::std_specs::convert::FromSpecImpl<EvmLogSelectionInput> for EvmLogSelection {
    open spec fn obeys_from_spec() -> bool {
        true
    }

    open spec fn from_spec(i: EvmLogSelectionInput) -> EvmLogSelection {
        EvmLogSelection { contract: i.contract, topics: i.topics, fields: i.fields }
    }
}

impl From<EthTransactSelectionInput> for EthTransactSelection {
    fn from(i: EthTransactSelectionInput) -> (r: EthTransactSelection) {
        EthTransactSelection { contract: i.contract, sighash: i.sighash, fields: i.fields }
    }
}

impl vstd::std_specs::convert::FromSpecImpl<EthTransactSelectionInput> for EthTransactSelection {
    open spec fn obeys_from_spec() -> bool {
        true
    }

    open spec fn from_spec(i: EthTransactSelectionInput) -> EthTransactSelection {
        EthTransactSelection { contract: i.contract, sighash: i.sighash, fields: i.fields }
    }
}

impl From<ContractsEventSelectionInput> for ContractsEventSelection {
    fn from(i: ContractsEventSelectionInput) -> (r: ContractsEventSelection) {
        ContractsEventSelection { contract: i.contract, fields: i.fields }
    }
}

impl vstd::std_specs::convert::FromSpecImpl<ContractsEventSelectionInput> for ContractsEventSelection {
    open spec fn obeys_from_spec() -> bool {
        true
    }

    open spec fn from_spec(i: ContractsEventSelectionInput) -> ContractsEventSelection {
        ContractsEventSelection { contract: i.contract, fields: i.fields }
    }
}

/// A call named `name` matches the list when it matches any one selection.
pub open spec fn call_selected(selections: Seq<CallSelection>, name: Seq<char>) -> bool {
    exists|i: int| 0 <= i < selections.len() && (#[trigger] selections[i]).name@ == name
}

/// An event named `name` matches the list when it matches any one selection.
pub open spec fn event_selected(selections: Seq<EventSelection>, name: Seq<char>) -> bool {
    exists|i: int| 0 <= i < selections.len() && (#[trigger] selections[i]).name@ == name
}

/// Whether an event named `name` matches any of `selections`.
pub fn event_matches(selections: &Vec<EventSelection>, name: &String) -> (r: bool)
    ensures
        r == event_selected(selections@, name@),
{
    let mut i: usize = 0;
    while i < selections.len()
        invariant
            i <= selections.len(),
            forall|j: int| 0 <= j < i ==> (#[trigger] selections@[j]).name@ != name@,
        decreases selections.len() - i,
    {
        if selections[i].name == *name {
            return true;
        }
        i = i + 1;
    }
    false
}

/// Whether a call named `name` matches any of `selections`.
pub fn call_matches(selections: &Vec<CallSelection>, name: &String) -> (r: bool)
    ensures
        r == call_selected(selections@, name@),
{
    let mut i: usize = 0;
    while i < selections.len()
        invariant
            i <= selections.len(),
            forall|j: int| 0 <= j < i ==> (#[trigger] selections@[j]).name@ != name@,
        decreases selections.len() - i,
    {
        if selections[i].name == *name {
            return true;
        }
        i = i + 1;
    }
    false
}

} // verus!
