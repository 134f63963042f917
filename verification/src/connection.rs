//! The capability interfaces generated code is written against.
//!
//! A backend (a live chain client, a local execution sandbox) implements
//! these; generated code only builds request values and hands them over.
//! `TxInfo` is the backend's transaction handle, `E` its uniform error
//! channel: dispatch failures, reverts, decode failures and poisoned
//! shared state all surface there, never as backend-internal types.

use vstd::prelude::*;

use crate::calls::AccountId;
use crate::calls::ExecCall;
use crate::calls::InstantiateCall;
use crate::calls::ReadCall;
use crate::calls::UploadCall;
use crate::events::ContractEvents;

verus! {

/// A read-only connection: non-mutating calls and event retrieval.
pub trait Connection<TxInfo, E> {
    /// Performs the read and returns the raw encoded result; decoding it
    /// into the call's result type is the caller's step.
    fn read<T>(&self, call: ReadCall<T>) -> Result<Vec<u8>, E>;

    /// All events contracts emitted in the given transaction.
    fn get_contract_events(&self, tx_info: TxInfo) -> Result<ContractEvents, E>;
}

/// A connection able to mutate state: instantiation and mutating calls.
pub trait SignedConnection<TxInfo, E> {
    /// Deploys a contract instance, returning its account identifier and
    /// the transaction handle.
    fn instantiate_tx<T>(&self, call: InstantiateCall<T>) -> Result<(AccountId, TxInfo), E>;

    /// Deploys a contract instance, discarding the transaction handle: the
    /// result is exactly an `instantiate_tx` outcome on the same call, with
    /// the handle dropped on success and the error handed on unchanged.
    fn instantiate<T>(&self, call: InstantiateCall<T>) -> (r: Result<AccountId, E>)
        ensures
            r is Err ==> call_ensures(
                Self::instantiate_tx::<T>,
                (self, call),
                Err::<(AccountId, TxInfo), E>(r->Err_0),
            ),
            r is Ok ==> exists|tx: TxInfo| #[trigger]
                call_ensures(
                    Self::instantiate_tx::<T>,
                    (self, call),
                    Ok::<(AccountId, TxInfo), E>((r->Ok_0, tx)),
                ),
    {
        match self.instantiate_tx(call) {
            Ok((account, tx)) => {
                let res: Result<AccountId, E> = Ok(account);
                proof {
                    assert(call_ensures(
                        Self::instantiate_tx::<T>,
                        (self, call),
                        Ok::<(AccountId, TxInfo), E>((res->Ok_0, tx)),
                    ));
                    assert(exists|tx2: TxInfo| #[trigger]
                        call_ensures(
                            Self::instantiate_tx::<T>,
                            (self, call),
                            Ok::<(AccountId, TxInfo), E>((res->Ok_0, tx2)),
                        ));
                }
                res
            },
            Err(e) => Err(e),
        }
    }

    /// Performs the mutating call, waiting for the finality it asks for.
    fn exec<T>(&self, call: ExecCall<T>) -> Result<TxInfo, E>;
}

/// An optional capability: uploads contract code.  An implementor must
/// fail an upload whose resulting code hash differs from the call's
/// expected one.
pub trait UploadConnection<TxInfo, E> {
    fn upload(&self, call: UploadCall) -> Result<TxInfo, E>;
}

} // verus!
