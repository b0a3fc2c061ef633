//! The top-level `batch` query: checks and normalizes the client's
//! selections into a storage request, and normalizes what storage returns.
use crate::assembly::{batch_to_camel_case, batches_camel, Batch};
use crate::error::{InputError, StorageError};
use crate::selection::{
    CallSelection, CallSelectionInput, ContractsEventSelection, ContractsEventSelectionInput,
    EthTransactSelection, EthTransactSelectionInput, EventSelection, EventSelectionInput,
    EvmLogSelection, EvmLogSelectionInput,
};
use vstd::prelude::*;
use vstd::std_specs::convert::FromSpec;

verus! {

/// Whether the deployment accepts EVM-log and Ethereum-transaction selections.
pub struct EvmSupport(pub bool);

/// Whether the deployment accepts contract-event selections.
pub struct ContractsSupport(pub bool);

/// The query entry point of one deployment.
pub struct QueryRoot {
    pub evm_support: EvmSupport,
    pub contracts_support: ContractsSupport,
}

/// The client's `batch` arguments, as given.
pub struct BatchArgs {
    pub limit: i32,
    pub from_block: Option<i32>,
    pub to_block: Option<i32>,
    pub evm_logs: Option<Vec<EvmLogSelectionInput>>,
    pub ethereum_transactions: Option<Vec<EthTransactSelectionInput>>,
    pub contracts_events: Option<Vec<ContractsEventSelectionInput>>,
    pub events: Option<Vec<EventSelectionInput>>,
    pub calls: Option<Vec<CallSelectionInput>>,
    pub include_all_blocks: Option<bool>,
}

/// What the storage collaborator is asked for one `batch` query.
pub struct BatchRequest {
    pub limit: i32,
    pub from_block: i32,
    pub to_block: Option<i32>,
    pub evm_logs: Vec<EvmLogSelection>,
    pub ethereum_transactions: Vec<EthTransactSelection>,
    pub contracts_events: Vec<ContractsEventSelection>,
    pub events: Vec<EventSelection>,
    pub calls: Vec<CallSelection>,
    pub include_all_blocks: bool,
}

/// The selections that `selections` normalizes to: none when absent.
pub open spec fn unwrapped<T, U: From<T>>(selections: Option<Vec<T>>) -> Seq<U> {
    match selections {
        Some(v) => v@.map_values(|t: T| U::from_spec(t)),
        None => Seq::empty(),
    }
}

/// The error that the deployment's flags give for these arguments, if any.
pub open spec fn input_error(evm: bool, contracts: bool, args: BatchArgs) -> Option<InputError> {
    if !evm && (args.evm_logs is Some || args.ethereum_transactions is Some) {
        Some(InputError::EvmNotSupported)
    } else if !contracts && args.contracts_events is Some {
        Some(InputError::ContractsNotSupported)
    } else {
        None
    }
}

impl QueryRoot {
    pub fn new(evm_support: bool, contracts_support: bool) -> (r: Self)
        ensures
            r.evm_support.0 == evm_support,
            r.contracts_support.0 == contracts_support,
    {
        QueryRoot {
            evm_support: EvmSupport(evm_support),
            contracts_support: ContractsSupport(contracts_support),
        }
    }

    /// Normalizes a list of client inputs into selections; an absent list
    /// selects nothing.
    pub fn unwrap_selections<T, U: From<T>>(&self, selections: Option<Vec<T>>) -> (r: Vec<U>)
        requires
            U::obeys_from_spec(),
        ensures
            r@ == unwrapped::<T, U>(selections),
    {
        match selections {
            None => Vec::new(),
            Some(v) => {
                let ghost orig = v@;
                let mut rest = v;
                let mut out: Vec<U> = Vec::new();
                while rest.len() > 0
                    invariant
                        U::obeys_from_spec(),
                        out@.len() + rest@.len() == orig.len(),
                        rest@ == orig.skip(out@.len() as int),
                        out@ == orig.take(out@.len() as int).map_values(|t: T| U::from_spec(t)),
                    decreases rest.len(),
                {
                    let ghost k = out@.len() as int;
                    let t = rest.remove(0);
                    assert(rest@ =~= orig.skip(k + 1));
                    assert(t == orig[k]);
                    out.push(U::from(t));
                    assert(out@ =~= orig.take(k + 1).map_values(|t: T| U::from_spec(t)));
                }
                assert(orig.take(orig.len() as int) =~= orig);
                out
            },
        }
    }

    /// Checks the `batch` arguments against the deployment's flags and
    /// turns them into the storage request: EVM selections need EVM
    /// support, contract-event selections need contracts support; the start
    /// block defaults to 0 and `include_all_blocks` to false.
    pub fn batch_request(&self, args: BatchArgs) -> (r: Result<BatchRequest, InputError>)
        ensures
            match input_error(self.evm_support.0, self.contracts_support.0, args) {
                Some(e) => r == Err::<BatchRequest, InputError>(e),
                None => r matches Ok(q) && {
                    &&& q.limit == args.limit
                    &&& q.from_block == match args.from_block {
                        Some(f) => f,
                        None => 0,
                    }
                    &&& q.to_block == args.to_block
                    &&& q.evm_logs@ == unwrapped::<EvmLogSelectionInput, EvmLogSelection>(
                        args.evm_logs,
                    )
                    &&& q.ethereum_transactions@ == unwrapped::<
                        EthTransactSelectionInput,
                        EthTransactSelection,
                    >(args.ethereum_transactions)
                    &&& q.contracts_events@ == unwrapped::<
                        ContractsEventSelectionInput,
                        ContractsEventSelection,
                    >(args.contracts_events)
                    &&& q.events@ == unwrapped::<EventSelectionInput, EventSelection>(args.events)
                    &&& q.calls@ == unwrapped::<CallSelectionInput, CallSelection>(args.calls)
                    &&& q.include_all_blocks == match args.include_all_blocks {
                        Some(b) => b,
                        None => false,
                    }
                },
            },
    {
        if !self.evm_support.0 && (args.evm_logs.is_some() || args.ethereum_transactions.is_some()) {
            return Err(InputError::EvmNotSupported);
        }
        if !self.contracts_support.0 && args.contracts_events.is_some() {
            return Err(InputError::ContractsNotSupported);
        }
        let BatchArgs {
            limit,
            from_block,
            to_block,
            evm_logs,
            ethereum_transactions,
            contracts_events,
            events,
            calls,
            include_all_blocks,
        } = args;
        let events = self.unwrap_selections::<EventSelectionInput, EventSelection>(events);
        let calls = self.unwrap_selections::<CallSelectionInput, CallSelection>(calls);
        let evm_logs = self.unwrap_selections::<EvmLogSelectionInput, EvmLogSelection>(evm_logs);
        let ethereum_transactions = self.unwrap_selections::<
            EthTransactSelectionInput,
            EthTransactSelection,
        >(ethereum_transactions);
        let contracts_events = self.unwrap_selections::<
            ContractsEventSelectionInput,
            ContractsEventSelection,
        >(contracts_events);
        let from_block = match from_block {
            Some(f) => f,
            None => 0,
        };
        let include_all_blocks = match include_all_blocks {
            Some(b) => b,
            None => false,
        };
        Ok(
            BatchRequest {
                limit,
                from_block,
                to_block,
                evm_logs,
                ethereum_transactions,
                contracts_events,
                events,
                calls,
                include_all_blocks,
            },
        )
    }

    /// The response to a `batch` query once storage has answered: its
    /// batches with camel-case payload keys, or its error.
    pub fn batch_response(&self, fetched: Result<Vec<Batch>, StorageError>) -> (r: Result<
        Vec<Batch>,
        StorageError,
    >)
        ensures
            match fetched {
                Ok(b) => r matches Ok(n) && batches_camel(b@, n@),
                Err(e) => r == Err::<Vec<Batch>, StorageError>(e),
            },
    {
        match fetched {
            Ok(b) => {
                let mut b = b;
                batch_to_camel_case(&mut b);
                Ok(b)
            },
            Err(e) => Err(e),
        }
    }
}

} // verus!
