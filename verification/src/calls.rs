//! The call-request values that generated code hands to a connection.
//!
//! Each value carries everything a backend needs to perform the call: the
//! target (a code hash or an account identifier), the encoded call data,
//! an optional transferred value, and the finality to wait for.  A payable
//! entry point first yields a value-deficient request that must be given
//! its transferred value explicitly.

use vstd::prelude::*;
use core::marker::PhantomData;

verus! {

/// A 32-byte account identifier of a contract instance.
#[derive(Debug, Clone, Copy)]
pub struct AccountId {
    pub bytes: [u8; 32],
}

impl View for AccountId {
    type V = Seq<u8>;

    open spec fn view(&self) -> Seq<u8> {
        self.bytes@
    }
}

impl AccountId {
    /// Wraps a raw 32-byte identifier.
    pub fn new(bytes: [u8; 32]) -> (r: AccountId)
        ensures
            r@ == bytes@,
    {
        AccountId { bytes }
    }

    /// The raw 32-byte identifier.
    pub fn to_bytes(&self) -> (r: [u8; 32])
        ensures
            r@ == self@,
    {
        self.bytes
    }
}

impl PartialEq for AccountId {
    fn eq(&self, other: &AccountId) -> (r: bool) {
        let mut i: usize = 0;
        while i < 32
            invariant
                i <= 32,
                self.bytes@.len() == 32,
                other.bytes@.len() == 32,
                forall|j: int| 0 <= j < i ==> self.bytes@[j] == other.bytes@[j],
            decreases 32 - i,
        {
            if self.bytes[i] != other.bytes[i] {
                return false;
            }
            i = i + 1;
        }
        proof {
            assert(self.bytes@ =~= other.bytes@);
        }
        true
    }
}

impl vstd::std_specs::cmp::PartialEqSpecImpl for AccountId {
    open spec fn obeys_eq_spec() -> bool {
        true
    }

    open spec fn eq_spec(&self, other: &AccountId) -> bool {
        self.bytes@ == other.bytes@
    }
}

/// The finality a mutating call waits for before returning.
#[derive(Debug, Clone, Copy, PartialEq, Eq, Structural)]
pub enum TxStatus {
    Finalized,
    InBlock,
    Submitted,
}

/// A call to a contract constructor: deploys a new instance of the code
/// identified by `code_hash`.
#[derive(Debug)]
pub struct InstantiateCall<T> {
    /// The code hash of the contract to instantiate.
    pub code_hash: [u8; 32],
    /// The encoded data of the call: selector plus arguments.
    pub data: Vec<u8>,
    /// Uniqueness bytes for address derivation.
    pub salt: Vec<u8>,
    /// The value to be sent with the call.
    pub value: u128,
    /// The finality to wait on.
    pub tx_status: TxStatus,
    /// Marks the handle type the instantiation produces.
    pub contract: PhantomData<T>,
}

impl<T> InstantiateCall<T> {
    /// A fresh instantiate call: empty salt, no transferred value, waiting
    /// for finalization.
    pub fn new(code_hash: [u8; 32], data: Vec<u8>) -> (r: Self)
        ensures
            r.code_hash@ == code_hash@,
            r.data@ == data@,
            r.salt@ == Seq::<u8>::empty(),
            r.value == 0,
            r.tx_status == TxStatus::Finalized,
    {
        InstantiateCall {
            code_hash,
            data,
            salt: Vec::new(),
            value: 0,
            tx_status: TxStatus::Finalized,
            contract: PhantomData,
        }
    }

    /// The same call with the given salt.
    pub fn with_salt(self, salt: Vec<u8>) -> (r: Self)
        ensures
            r.code_hash@ == self.code_hash@,
            r.data@ == self.data@,
            r.salt@ == salt@,
            r.value == self.value,
            r.tx_status == self.tx_status,
    {
        InstantiateCall { salt, ..self }
    }

    /// The same call waiting on the given finality.
    pub fn with_tx_status(self, tx_status: TxStatus) -> (r: Self)
        ensures
            r.code_hash@ == self.code_hash@,
            r.data@ == self.data@,
            r.salt@ == self.salt@,
            r.value == self.value,
            r.tx_status == tx_status,
    {
        InstantiateCall { tx_status, ..self }
    }
}

/// A call to a payable constructor that still needs its transferred value.
#[derive(Debug)]
pub struct InstantiateCallNeedsValue<T> {
    pub code_hash: [u8; 32],
    pub data: Vec<u8>,
    pub contract: PhantomData<T>,
}

impl<T> InstantiateCallNeedsValue<T> {
    pub fn new(code_hash: [u8; 32], data: Vec<u8>) -> (r: Self)
        ensures
            r.code_hash@ == code_hash@,
            r.data@ == data@,
    {
        InstantiateCallNeedsValue { code_hash, data, contract: PhantomData }
    }

    /// Supplies the transferred value, yielding a submittable call.
    pub fn with_value(self, value: u128) -> (r: InstantiateCall<T>)
        ensures
            r.code_hash@ == self.code_hash@,
            r.data@ == self.data@,
            r.salt@ == Seq::<u8>::empty(),
            r.value == value,
            r.tx_status == TxStatus::Finalized,
    {
        let call = InstantiateCall::new(self.code_hash, self.data);
        InstantiateCall { value, ..call }
    }
}

/// A state-mutating call to a deployed contract.
#[derive(Debug)]
pub struct ExecCall<T> {
    /// The account id of the contract to call.
    pub account_id: AccountId,
    /// The encoded data of the call: selector plus arguments.
    pub data: Vec<u8>,
    /// The value to be sent with the call.
    pub value: u128,
    /// The finality to wait on.
    pub tx_status: TxStatus,
    /// Marks the type the result decodes into.
    pub return_type: PhantomData<T>,
}

impl<T> ExecCall<T> {
    pub fn new(account_id: AccountId, data: Vec<u8>) -> (r: Self)
        ensures
            r.account_id@ == account_id@,
            r.data@ == data@,
            r.value == 0,
            r.tx_status == TxStatus::Finalized,
    {
        ExecCall {
            account_id,
            data,
            value: 0,
            tx_status: TxStatus::Finalized,
            return_type: PhantomData,
        }
    }

    pub fn with_tx_status(self, tx_status: TxStatus) -> (r: Self)
        ensures
            r.account_id@ == self.account_id@,
            r.data@ == self.data@,
            r.value == self.value,
            r.tx_status == tx_status,
    {
        ExecCall { tx_status, ..self }
    }
}

/// A call to a payable mutating message that still needs its value.
#[derive(Debug)]
pub struct ExecCallNeedsValue<T> {
    pub account_id: AccountId,
    pub data: Vec<u8>,
    pub return_type: PhantomData<T>,
}

impl<T> ExecCallNeedsValue<T> {
    pub fn new(account_id: AccountId, data: Vec<u8>) -> (r: Self)
        ensures
            r.account_id@ == account_id@,
            r.data@ == data@,
    {
        ExecCallNeedsValue { account_id, data, return_type: PhantomData }
    }

    /// Supplies the transferred value, yielding a submittable call.
    pub fn with_value(self, value: u128) -> (r: ExecCall<T>)
        ensures
            r.account_id@ == self.account_id@,
            r.data@ == self.data@,
            r.value == value,
            r.tx_status == TxStatus::Finalized,
    {
        let call = ExecCall::new(self.account_id, self.data);
        ExecCall { value, ..call }
    }
}

/// A read-only call to a deployed contract.
#[derive(Debug)]
pub struct ReadCall<T> {
    /// The account id of the contract to call.
    pub account_id: AccountId,
    /// The encoded data of the call: selector plus arguments.
    pub data: Vec<u8>,
    /// The value to be sent with the call.
    pub value: u128,
    /// Marks the type the result decodes into.
    pub return_type: PhantomData<T>,
}

impl<T> ReadCall<T> {
    pub fn new(account_id: AccountId, data: Vec<u8>) -> (r: Self)
        ensures
            r.account_id@ == account_id@,
            r.data@ == data@,
            r.value == 0,
    {
        ReadCall { account_id, data, value: 0, return_type: PhantomData }
    }

    /// The same call sending the given value.
    pub fn with_value(self, value: u128) -> (r: Self)
        ensures
            r.account_id@ == self.account_id@,
            r.data@ == self.data@,
            r.value == value,
    {
        ReadCall { value, ..self }
    }
}

/// A call to a payable read-only message that still needs its value.
pub struct ReadCallNeedsValue<T> {
    pub account_id: AccountId,
    pub data: Vec<u8>,
    pub return_type: PhantomData<T>,
}

impl<T> ReadCallNeedsValue<T> {
    pub fn new(account_id: AccountId, data: Vec<u8>) -> (r: Self)
        ensures
            r.account_id@ == account_id@,
            r.data@ == data@,
    {
        ReadCallNeedsValue { account_id, data, return_type: PhantomData }
    }
}

/// The plain arguments a backend needs to perform a read: shared by read
/// and exec requests.
#[derive(Debug)]
pub struct ReadCallArgs<T> {
    pub account_id: AccountId,
    pub data: Vec<u8>,
    pub value: u128,
    pub return_type: PhantomData<T>,
}

impl<T> ReadCallArgs<T> {
    /// The read arguments of a read-only call.
    pub fn from_read(call: ReadCall<T>) -> (r: ReadCallArgs<T>)
        ensures
            r.account_id@ == call.account_id@,
            r.data@ == call.data@,
            r.value == call.value,
    {
        ReadCallArgs {
            account_id: call.account_id,
            data: call.data,
            value: call.value,
            return_type: PhantomData,
        }
    }

    /// The read arguments of a mutating call, for a dry run.
    pub fn from_exec(call: ExecCall<T>) -> (r: ReadCallArgs<T>)
        ensures
            r.account_id@ == call.account_id@,
            r.data@ == call.data@,
            r.value == call.value,
    {
        ReadCallArgs {
            account_id: call.account_id,
            data: call.data,
            value: call.value,
            return_type: PhantomData,
        }
    }
}

/// A request to upload contract code.
pub struct UploadCall {
    /// The code to upload.
    pub wasm: Vec<u8>,
    /// The expected code hash of the uploaded code; an upload whose
    /// resulting hash differs must fail.
    pub expected_code_hash: [u8; 32],
    /// The finality to wait on.
    pub tx_status: TxStatus,
}

impl UploadCall {
    /// A fresh upload call, waiting for finalization.
    pub fn new(wasm: Vec<u8>, expected_code_hash: [u8; 32]) -> (r: Self)
        ensures
            r.wasm@ == wasm@,
            r.expected_code_hash@ == expected_code_hash@,
            r.tx_status == TxStatus::Finalized,
    {
        UploadCall { wasm, expected_code_hash, tx_status: TxStatus::Finalized }
    }

    /// The same call waiting on the given finality.
    pub fn with_tx_status(self, tx_status: TxStatus) -> (r: Self)
        ensures
            r.wasm@ == self.wasm@,
            r.expected_code_hash@ == self.expected_code_hash@,
            r.tx_status == tx_status,
    {
        UploadCall { tx_status, ..self }
    }
}

/// The platform's language-level call failure.
#[derive(Debug, Clone, Copy, PartialEq, Eq, Structural)]
pub enum LangError {
    CouldNotReadInput,
}

/// A wrapper around the platform's language-level call error, so that it
/// can take part in ordinary error reporting.
#[derive(Debug, Clone, Copy, PartialEq, Eq, Structural)]
pub struct InkLangError {
    pub cause: LangError,
}

impl InkLangError {
    pub fn new(cause: LangError) -> (r: InkLangError)
        ensures
            r.cause == cause,
    {
        InkLangError { cause }
    }

    /// A readable rendering of the error.
    pub fn message(&self) -> (r: String)
        ensures
            r@ == "InkLangError(CouldNotReadInput)"@,
    {
        String::from_str("InkLangError(CouldNotReadInput)")
    }
}

} // verus!
