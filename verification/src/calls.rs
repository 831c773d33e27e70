//! Cross-contract calls: building the request a proxy hands to the host's
//! call primitive, and interpreting what comes back.
//!
//! The host performs the actual sub-invocation; this layer builds the
//! request — the callee address, the transferred value, and the data,
//! `[selector][encoded arguments]` — and decodes the response, keeping the
//! two failure kinds apart: a remote invocation failure and a local decode
//! failure.

use crate::address::Address;
use crate::codec::{
    encode_fields, spec_decode_value, spec_encode_fields, views, FieldType, FieldValue,
};
use crate::generate::ProxyMethod;
use vstd::prelude::*;

verus! {

/// Why a cross-contract call failed: the remote invocation itself, or
/// decoding its response locally.
#[derive(Clone, Copy, Debug, PartialEq, Eq, Structural)]
pub enum ContractCallError {
    /// The remote invocation failed (reverted or was rejected).
    CallFailed,
    /// The response bytes did not decode as the declared return type.
    DecodeFailed,
}

/// One request to the host's call primitive: target, transferred value,
/// and the call data.
pub struct CallRequest {
    pub target: Address,
    pub value: u128,
    pub data: Vec<u8>,
}

/// Build call data from a selector and already-encoded arguments:
/// `[selector][args]`.
pub fn encode_call_data(selector: [u8; 4], args: &[u8]) -> (data: Vec<u8>)
    ensures
        data@ == selector@ + args@,
{
    let mut data: Vec<u8> = Vec::new();
    data.push(selector[0]);
    data.push(selector[1]);
    data.push(selector[2]);
    data.push(selector[3]);
    let mut i: usize = 0;
    while i < args.len()
        invariant
            i <= args@.len(),
            data@.len() == 4 + i,
            data@ =~= selector@ + args@.take(i as int),
        decreases args@.len() - i,
    {
        data.push(args[i]);
        proof {
            assert(data@ =~= selector@ + args@.take(i as int + 1));
        }
        i = i + 1;
    }
    proof {
        assert(data@ =~= selector@ + args@);
    }
    data
}

/// The request for a call with no value transfer.
pub fn call(address: &Address, selector: [u8; 4], args: &[u8]) -> (r: CallRequest)
    ensures
        r.target.0@ == address.0@,
        r.value == 0,
        r.data@ == selector@ + args@,
{
    CallRequest { target: *address, value: 0, data: encode_call_data(selector, args) }
}

/// The request for a call transferring `value` of the native token.
pub fn call_with_value(address: &Address, value: u128, selector: [u8; 4], args: &[u8]) -> (r:
    CallRequest)
    ensures
        r.target.0@ == address.0@,
        r.value == value,
        r.data@ == selector@ + args@,
{
    CallRequest { target: *address, value, data: encode_call_data(selector, args) }
}

/// Interpret the host's answer to a call that returns nothing: only the
/// invocation itself can fail.
pub fn complete_call(invoked: bool) -> (r: Result<(), ContractCallError>)
    ensures
        invoked <==> r is Ok,
        !invoked ==> r == Result::<(), ContractCallError>::Err(ContractCallError::CallFailed),
{
    if invoked {
        Ok(())
    } else {
        Err(ContractCallError::CallFailed)
    }
}

/// Decode the response of a call that returns a value.  `None` stands for
/// a failed invocation and surfaces as `CallFailed`; response bytes that
/// do not decode as the declared type surface as `DecodeFailed`.
pub fn decode_call_response(response: &Option<Vec<u8>>, ty: FieldType) -> (r: Result<
    FieldValue,
    ContractCallError,
>)
    ensures
        match response {
            Option::None => r == Result::<FieldValue, ContractCallError>::Err(
                ContractCallError::CallFailed,
            ),
            Option::Some(bytes) => match spec_decode_value(ty, bytes@) {
                Option::Some(v) => r matches Result::Ok(got) && got@ == v,
                Option::None => r == Result::<FieldValue, ContractCallError>::Err(
                    ContractCallError::DecodeFailed,
                ),
            },
        },
{
    match response {
        Option::None => Err(ContractCallError::CallFailed),
        Option::Some(bytes) => match crate::codec::decode_value(ty, bytes.as_slice()) {
            Option::Some(v) => Ok(v),
            Option::None => Err(ContractCallError::DecodeFailed),
        },
    }
}

/// A generated proxy: one held 20-byte target address, and a request
/// builder per remote method.
#[derive(Clone, Copy)]
pub struct ContractRef {
    pub address: Address,
}

impl ContractRef {
    /// A proxy for the contract deployed at `address`.
    pub fn new(address: Address) -> (r: ContractRef)
        ensures
            r.address.0@ == address.0@,
    {
        ContractRef { address }
    }

    /// The held target address.
    pub fn target(&self) -> (a: Address)
        ensures
            a.0@ == self.address.0@,
    {
        self.address
    }

    /// Build the request for one remote method: encode the arguments in
    /// declared order (none, one directly, or several as an ordered
    /// tuple — all concatenation), prefix the method's selector, and
    /// transfer zero value.
    pub fn request(&self, method: &ProxyMethod, args: &Vec<FieldValue>) -> (r: CallRequest)
        requires
            views(args@).map_values(|v: crate::codec::Value| crate::codec::type_of(v))
                == method.args@,
        ensures
            r.target.0@ == self.address.0@,
            r.value == 0,
            r.data@ == method.selector@ + spec_encode_fields(views(args@)),
    {
        let encoded = encode_fields(args);
        call(&self.address, method.selector, encoded.as_slice())
    }
}

} // verus!
