//! The call entry point's state machine: read the input, take the first
//! four bytes as the selector, match it against the dispatch table, and
//! either hand control to the matched wrapper or revert.
//!
//! One invocation runs straight to a terminal return or revert.  Fewer
//! than four input bytes are a hard reject before any selector
//! comparison; a selector matching no entry reverts with a fixed
//! diagnostic; a match delegates to the entry's wrapper, which persists
//! and encodes by its shape.

use crate::arena::{reset, PvmAllocator};
use crate::backend::MemoryBackend;
use crate::codec::{spec_encode_fields, spec_encode_value, views, FieldType, FieldValue};
use crate::generate::{DispatchEntry, DispatchTable, StoragePlan, WrapperShape};
use crate::module::StateRef;
use crate::storage::{load_storage, save_storage, spec_load};
use vstd::prelude::*;

verus! {

/// The terminal state of one invocation: data returned to the caller, or
/// a revert carrying a diagnostic.
#[derive(Debug, PartialEq, Eq)]
pub enum Outcome {
    Return(Vec<u8>),
    Revert(Vec<u8>),
}

/// What the entry point decides for one input.
#[derive(Clone, Copy, Debug, PartialEq, Eq, Structural)]
pub enum DispatchDecision {
    /// Fewer than four input bytes: reject before selector comparison.
    ShortInput,
    /// Four bytes read, but no table entry matches.
    UnknownSelector,
    /// The selector matches the table entry at this index.
    Invoke(usize),
}

/// The fixed diagnostic of a short-input revert.
pub open spec fn spec_short_input_diag() -> Seq<u8> {
    // "no selector"
    seq![110u8, 111u8, 32u8, 115u8, 101u8, 108u8, 101u8, 99u8, 116u8, 111u8, 114u8]
}

/// The fixed diagnostic of an unknown-selector revert.
pub open spec fn spec_unknown_selector_diag() -> Seq<u8> {
    // "unknown selector"
    seq![
        117u8,
        110u8,
        107u8,
        110u8,
        111u8,
        119u8,
        110u8,
        32u8,
        115u8,
        101u8,
        108u8,
        101u8,
        99u8,
        116u8,
        111u8,
        114u8,
    ]
}

/// The diagnostic bytes of a short-input revert: "no selector".
pub fn short_input_diag() -> (r: Vec<u8>)
    ensures
        r@ == spec_short_input_diag(),
{
    let r = vec![110u8, 111u8, 32u8, 115u8, 101u8, 108u8, 101u8, 99u8, 116u8, 111u8, 114u8];
    proof {
        assert(r@ =~= spec_short_input_diag());
    }
    r
}

/// The diagnostic bytes of an unknown-selector revert: "unknown selector".
pub fn unknown_selector_diag() -> (r: Vec<u8>)
    ensures
        r@ == spec_unknown_selector_diag(),
{
    let r = vec![
        117u8,
        110u8,
        107u8,
        110u8,
        111u8,
        119u8,
        110u8,
        32u8,
        115u8,
        101u8,
        108u8,
        101u8,
        99u8,
        116u8,
        111u8,
        114u8,
    ];
    proof {
        assert(r@ =~= spec_unknown_selector_diag());
    }
    r
}

/// Read the selector from the call input: its first four bytes, or
/// nothing when the input is shorter than a selector.
pub fn read_selector(input: &[u8]) -> (r: Option<[u8; 4]>)
    ensures
        match r {
            Option::Some(s) => input@.len() >= 4 && s@ == input@.take(4),
            Option::None => input@.len() < 4,
        },
{
    if input.len() < 4 {
        return None;
    }
    let s = [input[0], input[1], input[2], input[3]];
    proof {
        assert(s@ =~= input@.take(4));
    }
    Some(s)
}

/// The first table index whose selector is `sel`, searching from `k` on.
pub open spec fn find_from(entries: Seq<DispatchEntry>, sel: Seq<u8>, k: int) -> Option<int>
    decreases entries.len() - k,
{
    if k < 0 || k >= entries.len() {
        None
    } else if entries[k].selector@ == sel {
        Some(k)
    } else {
        find_from(entries, sel, k + 1)
    }
}

/// The first table index whose selector is `sel`, if any.
pub open spec fn spec_find(entries: Seq<DispatchEntry>, sel: Seq<u8>) -> Option<int> {
    find_from(entries, sel, 0)
}

/// Branch-match a selector against every table entry, in order.
pub fn find_selector(t: &DispatchTable, sel: &[u8; 4]) -> (r: Option<usize>)
    ensures
        match r {
            Option::Some(i) => spec_find(t.entries@, sel@) == Some(i as int),
            Option::None => spec_find(t.entries@, sel@) is None,
        },
{
    let mut i: usize = 0;
    while i < t.entries.len()
        invariant
            i <= t.entries@.len(),
            spec_find(t.entries@, sel@) == find_from(t.entries@, sel@, i as int),
        decreases t.entries@.len() - i,
    {
        if crate::generate::selector_eq(&t.entries[i].selector, sel) {
            return Some(i);
        }
        i = i + 1;
    }
    None
}

/// What the entry point decides for `input` under dispatch table `t`.
pub open spec fn spec_dispatch(entries: Seq<DispatchEntry>, input: Seq<u8>) -> DispatchDecision {
    if input.len() < 4 {
        DispatchDecision::ShortInput
    } else {
        match spec_find(entries, input.take(4)) {
            Option::Some(i) => DispatchDecision::Invoke(i as usize),
            Option::None => DispatchDecision::UnknownSelector,
        }
    }
}

/// Decide one call input: reject short input before any selector
/// comparison, then match the first four bytes against every entry, and
/// either name the matched entry or reject the selector as unknown.
pub fn dispatch_input(t: &DispatchTable, input: &[u8]) -> (d: DispatchDecision)
    ensures
        d == spec_dispatch(t.entries@, input@),
        input@.len() < 4 <==> d == DispatchDecision::ShortInput,
        d matches DispatchDecision::Invoke(i) ==> i < t.entries@.len() && t.entries@[
            i as int
        ].selector@ == input@.take(4),
{
    let sel = match read_selector(input) {
        Option::Some(s) => s,
        Option::None => {
            return DispatchDecision::ShortInput;
        },
    };
    match find_selector(t, &sel) {
        Option::Some(i) => {
            proof {
                lemma_find_from_in_range(t.entries@, sel@, 0, i as int);
            }
            DispatchDecision::Invoke(i)
        },
        Option::None => DispatchDecision::UnknownSelector,
    }
}

/// A found index is in range and its entry's selector is the sought one.
proof fn lemma_find_from_in_range(entries: Seq<DispatchEntry>, sel: Seq<u8>, k: int, found: int)
    requires
        find_from(entries, sel, k) == Some(found),
        0 <= k,
    ensures
        k <= found < entries.len(),
        entries[found].selector@ == sel,
    decreases entries.len() - k,
{
    if k < entries.len() && entries[k].selector@ != sel {
        lemma_find_from_in_range(entries, sel, k + 1, found);
    }
}

/// Begin one matched call before its handler runs: load the storage value
/// exactly when the wrapper shape refers to it, shared or exclusive.
/// Nothing is written.
pub fn wrapper_prologue(
    backend: &MemoryBackend,
    key: &[u8; 32],
    schema: &Vec<FieldType>,
    shape: WrapperShape,
) -> (state: Option<Vec<FieldValue>>)
    ensures
        match state {
            Option::Some(vs) => shape.state != StateRef::Stateless && views(vs@) == spec_load(
                backend@,
                key@,
                schema@,
            ),
            Option::None => shape.state == StateRef::Stateless,
        },
{
    match shape.state {
        StateRef::Stateless => None,
        _ => Some(load_storage(backend, key, schema)),
    }
}

/// The deploy entry point around a generated storage plan: reset the
/// arena, persist the constructor's returned value when the module has a
/// constructor — the caller hands it in, already marshaled — and leave
/// storage untouched otherwise, so it stays at the field-wise default.
/// Deploy output is always empty.
pub fn run_deploy(
    backend: &mut MemoryBackend,
    arena: &mut PvmAllocator,
    plan: &StoragePlan,
    init_value: &Option<Vec<FieldValue>>,
) -> (out: Outcome)
    ensures
        final(arena).offset == 0,
        final(arena).capacity == old(arena).capacity,
        match init_value {
            Option::Some(vs) => final(backend)@ == old(backend)@.insert(
                plan.key@,
                spec_encode_fields(views(vs@)),
            ),
            Option::None => final(backend)@ == old(backend)@,
        },
        out matches Outcome::Return(d) && d@.len() == 0,
{
    reset(arena);
    match init_value {
        Option::Some(vs) => {
            save_storage(backend, &plan.key, vs);
        },
        Option::None => (),
    }
    Outcome::Return(Vec::new())
}

/// Finish one matched call after its handler ran: persist the state
/// exactly when the wrapper shape holds it exclusively, then encode the
/// result — the returned value, or empty when the method returns nothing.
pub fn wrapper_epilogue(
    backend: &mut MemoryBackend,
    key: &[u8; 32],
    shape: WrapperShape,
    state: &Vec<FieldValue>,
    result: &Option<FieldValue>,
) -> (out: Vec<u8>)
    requires
        shape.has_return <==> result is Some,
    ensures
        shape.state == StateRef::Exclusive ==> final(backend)@ == old(backend)@.insert(
            key@,
            spec_encode_fields(views(state@)),
        ),
        shape.state != StateRef::Exclusive ==> final(backend)@ == old(backend)@,
        match result {
            Option::Some(v) => out@ == spec_encode_value(v@),
            Option::None => out@ == Seq::<u8>::empty(),
        },
{
    match shape.state {
        StateRef::Exclusive => {
            save_storage(backend, key, state);
        },
        _ => (),
    }
    match result {
        Option::Some(v) => crate::codec::encode_value(v),
        Option::None => Vec::new(),
    }
}

} // verus!
