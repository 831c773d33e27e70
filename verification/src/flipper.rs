//! A complete worked contract: the flipper, a single stored boolean with
//! two callable methods, written against the toolkit exactly as the
//! generated artifacts run it.
//!
//! `flip` takes the state exclusively, toggles it and persists; `get`
//! reads it and returns the boolean as its single encoded byte.  The
//! entry points own the arena reset, the input validation and the final
//! return or revert.

use crate::arena::{reset, PvmAllocator};
use crate::backend::MemoryBackend;
use crate::codec::{
    matches_schema, spec_encode_fields, spec_encode_value, type_of, views, FieldType, FieldValue,
    Value,
};
use crate::entry::{
    read_selector, short_input_diag, spec_short_input_diag, spec_unknown_selector_diag,
    unknown_selector_diag, wrapper_epilogue, Outcome,
};
use crate::events::Event;
use crate::generate::{event_topic, selector_eq, WrapperShape};
use crate::keys::{compute_selector, compute_storage_key, spec_selector, spec_storage_key};
use crate::module::{
    CallDecl, EventDecl, FieldDecl, InitDecl, Item, ModuleDecl, StateRef, StorageDecl,
};
use crate::storage::{load_storage, spec_load, lemma_load_matches_schema};
use vstd::prelude::*;

verus! {

/// The flipper's storage: one boolean.
pub struct Flipper {
    pub value: bool,
}

/// The storage type's name, "Flipper".
pub open spec fn flipper_ty_name() -> Seq<u8> {
    seq![70u8, 108u8, 105u8, 112u8, 112u8, 101u8, 114u8]
}

/// The constructor's name, "new".
pub open spec fn init_name() -> Seq<u8> {
    seq![110u8, 101u8, 119u8]
}

/// The toggling method's name, "flip".
pub open spec fn flip_name() -> Seq<u8> {
    seq![102u8, 108u8, 105u8, 112u8]
}

/// The reading method's name, "get".
pub open spec fn get_name() -> Seq<u8> {
    seq![103u8, 101u8, 116u8]
}

/// The event type's name, "Flipped".
pub open spec fn flipped_name() -> Seq<u8> {
    seq![70u8, 108u8, 105u8, 112u8, 112u8, 101u8, 100u8]
}

/// The module's name, "flipper".
pub open spec fn flipper_mod_name() -> Seq<u8> {
    seq![102u8, 108u8, 105u8, 112u8, 112u8, 101u8, 114u8]
}

/// The storage type's name as bytes.
pub fn flipper_ty_name_bytes() -> (r: Vec<u8>)
    ensures
        r@ == flipper_ty_name(),
{
    let r = vec![70u8, 108u8, 105u8, 112u8, 112u8, 101u8, 114u8];
    proof {
        assert(r@ =~= flipper_ty_name());
    }
    r
}

/// The toggling method's name as bytes.
pub fn flip_name_bytes() -> (r: Vec<u8>)
    ensures
        r@ == flip_name(),
{
    let r = vec![102u8, 108u8, 105u8, 112u8];
    proof {
        assert(r@ =~= flip_name());
    }
    r
}

/// The reading method's name as bytes.
pub fn get_name_bytes() -> (r: Vec<u8>)
    ensures
        r@ == get_name(),
{
    let r = vec![103u8, 101u8, 116u8];
    proof {
        assert(r@ =~= get_name());
    }
    r
}

/// The event type's name as bytes.
pub fn flipped_name_bytes() -> (r: Vec<u8>)
    ensures
        r@ == flipped_name(),
{
    let r = vec![70u8, 108u8, 105u8, 112u8, 112u8, 101u8, 100u8];
    proof {
        assert(r@ =~= flipped_name());
    }
    r
}

/// The flipper's storage schema: one boolean field.
pub open spec fn flipper_schema() -> Seq<FieldType> {
    seq![FieldType::Bool]
}

/// Where the flipper's state lives: the key its type name derives.
pub open spec fn flipper_key() -> Seq<u8> {
    spec_storage_key(flipper_ty_name())
}

/// Derive the flipper's storage key.
pub fn flipper_storage_key() -> (k: [u8; 32])
    ensures
        k@ == flipper_key(),
{
    let name = flipper_ty_name_bytes();
    compute_storage_key(name.as_slice())
}

/// The constructor: the initial state stores `false`.
pub fn new() -> (f: Flipper)
    ensures
        f.value == false,
{
    Flipper { value: false }
}

/// Toggle the stored boolean.
pub fn flip(state: &mut Flipper)
    ensures
        final(state).value == !old(state).value,
{
    state.value = !state.value;
}

/// Read the stored boolean.
pub fn get(state: &Flipper) -> (b: bool)
    ensures
        b == state.value,
{
    state.value
}

/// The field values a flipper state marshals to.
pub open spec fn fields_of(f: Flipper) -> Seq<Value> {
    seq![Value::Bool(f.value)]
}

/// Marshal the state into its storage fields.
fn to_fields(f: &Flipper) -> (vs: Vec<FieldValue>)
    ensures
        views(vs@) == fields_of(*f),
{
    let vs = vec![FieldValue::Bool(f.value)];
    proof {
        assert(views(vs@) =~= fields_of(*f));
    }
    vs
}

/// Unmarshal the state from loaded storage fields.
fn from_fields(vs: &Vec<FieldValue>) -> (f: Flipper)
    requires
        matches_schema(views(vs@), flipper_schema()),
    ensures
        fields_of(f) == views(vs@),
{
    proof {
        assert(type_of(views(vs@)[0]) == FieldType::Bool);
        assert(views(vs@)[0] == vs@[0]@);
    }
    let f = match &vs[0] {
        FieldValue::Bool(b) => Flipper { value: *b },
        _ => Flipper { value: false },
    };
    proof {
        assert(fields_of(f) =~= views(vs@));
    }
    f
}

/// The boolean the contract currently stores in backend state `m`: the
/// decoded value, or `false` before any save or after a decode failure.
pub open spec fn spec_stored_flag(m: Map<Seq<u8>, Seq<u8>>) -> bool {
    spec_load(m, flipper_key(), flipper_schema())[0]->Bool_0
}

/// The flipper as a declarative module: its storage, constructor, two
/// callable methods and one event, in declaration order.
pub fn flipper_module() -> (m: ModuleDecl)
    ensures
        m.name@ == flipper_mod_name(),
        crate::module::classifiable(m.items@),
        crate::module::spec_storage(m.items@) matches Some(s) && s.name@ == flipper_ty_name()
            && crate::generate::field_types(s.fields@) == flipper_schema(),
        crate::module::spec_init(m.items@) matches Some(i) && i.name@ == init_name(),
        ({
            let calls = crate::module::spec_calls(m.items@);
            &&& calls.len() == 2
            &&& calls[0].name@ == flip_name()
            &&& calls[0].state == StateRef::Exclusive
            &&& calls[0].params@.len() == 0
            &&& calls[0].ret is None
            &&& calls[1].name@ == get_name()
            &&& calls[1].state == StateRef::Shared
            &&& calls[1].params@.len() == 0
            &&& calls[1].ret == Some(FieldType::Bool)
        }),
        ({
            let events = crate::module::spec_events(m.items@);
            &&& events.len() == 1
            &&& events[0].name@ == flipped_name()
        }),
{
    let value_name = vec![118u8, 97u8, 108u8, 117u8, 101u8];  // "value"
    let new_value_name = vec![110u8, 101u8, 119u8, 95u8, 118u8, 97u8, 108u8, 117u8, 101u8];
    let storage = StorageDecl {
        name: flipper_ty_name_bytes(),
        fields: vec![FieldDecl { name: value_name, ty: FieldType::Bool }],
    };
    let init = InitDecl { name: vec![110u8, 101u8, 119u8] };
    let flip_call = CallDecl {
        name: flip_name_bytes(),
        state: StateRef::Exclusive,
        params: Vec::new(),
        ret: None,
    };
    let get_call = CallDecl {
        name: get_name_bytes(),
        state: StateRef::Shared,
        params: Vec::new(),
        ret: Some(FieldType::Bool),
    };
    let event = EventDecl {
        name: flipped_name_bytes(),
        fields: vec![FieldDecl { name: new_value_name, ty: FieldType::Bool }],
    };
    let mut items: Vec<Item> = Vec::new();
    items.push(Item::Storage(storage));
    items.push(Item::Init(init));
    items.push(Item::Call(flip_call));
    items.push(Item::Call(get_call));
    items.push(Item::Event(event));
    let mod_name = vec![102u8, 108u8, 105u8, 112u8, 112u8, 101u8, 114u8];
    proof {
        assert(mod_name@ =~= flipper_mod_name());
    }
    let m = ModuleDecl { name: mod_name, items };
    proof {
        reveal_with_fuel(crate::module::spec_calls, 6);
        reveal_with_fuel(crate::module::spec_storage, 6);
        reveal_with_fuel(crate::module::spec_init, 6);
        reveal_with_fuel(crate::module::spec_events, 6);
        reveal_with_fuel(crate::module::storage_count, 6);
        reveal_with_fuel(crate::module::init_count, 6);
        let s = m.items@;
        assert(s.len() == 5);
        assert(s.take(4).drop_last() =~= s.take(3));
        assert(s.take(3).drop_last() =~= s.take(2));
        assert(s.take(2).drop_last() =~= s.take(1));
        assert(s.take(1).drop_last() =~= s.take(0));
        assert(s.drop_last() =~= s.take(4));
        assert(s.take(0) =~= Seq::<Item>::empty());
        assert(crate::module::spec_calls(s) =~= seq![s[2]->Call_0, s[3]->Call_0]);
        assert(crate::generate::field_types(s[0]->Storage_0.fields@) =~= flipper_schema());
    }
    m
}

/// The event the flipper declares: the value was toggled.
pub struct Flipped {
    pub new_value: bool,
}

impl Event for Flipped {
    open spec fn spec_name(&self) -> Seq<u8> {
        flipped_name()
    }

    open spec fn spec_payload(&self) -> Seq<u8> {
        spec_encode_value(Value::Bool(self.new_value))
    }

    fn topics(&self) -> (t: Vec<[u8; 32]>) {
        let name = flipped_name_bytes();
        let topic = event_topic(name.as_slice());
        vec![topic]
    }

    fn encode_data(&self) -> (d: Vec<u8>) {
        crate::codec::encode_value(&FieldValue::Bool(self.new_value))
    }
}

/// The deploy entry point: reset the arena, run the constructor once,
/// persist the storage value it returns, and return empty.
pub fn flipper_deploy(backend: &mut MemoryBackend, arena: &mut PvmAllocator) -> (out: Outcome)
    ensures
        final(arena).offset == 0,
        final(arena).capacity == old(arena).capacity,
        final(backend)@ == old(backend)@.insert(
            flipper_key(),
            spec_encode_fields(seq![Value::Bool(false)]),
        ),
        out matches Outcome::Return(d) && d@.len() == 0,
{
    reset(arena);
    let state = new();
    let fields = to_fields(&state);
    let key = flipper_storage_key();
    crate::storage::save_storage(backend, &key, &fields);
    Outcome::Return(Vec::new())
}

/// The call entry point: reset the arena, reject input shorter than a
/// selector, then branch-match the selector.  `flip` loads the state,
/// toggles it, persists and returns empty; `get` loads the state and
/// returns the boolean as its single encoded byte; anything else reverts
/// with the fixed diagnostic and no storage mutation.
pub fn flipper_call(backend: &mut MemoryBackend, arena: &mut PvmAllocator, input: &[u8]) -> (out:
    Outcome)
    ensures
        final(arena).offset == 0,
        final(arena).capacity == old(arena).capacity,
        input@.len() < 4 ==> ({
            &&& final(backend)@ == old(backend)@
            &&& out matches Outcome::Revert(d) && d@ == spec_short_input_diag()
        }),
        input@.len() >= 4 && input@.take(4) == spec_selector(flip_name()) ==> ({
            &&& final(backend)@ == old(backend)@.insert(
                flipper_key(),
                spec_encode_fields(seq![Value::Bool(!spec_stored_flag(old(backend)@))]),
            )
            &&& out matches Outcome::Return(d) && d@.len() == 0
        }),
        input@.len() >= 4 && input@.take(4) != spec_selector(flip_name()) && input@.take(4)
            == spec_selector(get_name()) ==> ({
            &&& final(backend)@ == old(backend)@
            &&& out matches Outcome::Return(d) && d@ == spec_encode_value(
                Value::Bool(spec_stored_flag(old(backend)@)),
            )
        }),
        input@.len() >= 4 && input@.take(4) != spec_selector(flip_name()) && input@.take(4)
            != spec_selector(get_name()) ==> ({
            &&& final(backend)@ == old(backend)@
            &&& out matches Outcome::Revert(d) && d@ == spec_unknown_selector_diag()
        }),
{
    reset(arena);
    let sel = match read_selector(input) {
        Option::Some(s) => s,
        Option::None => {
            return Outcome::Revert(short_input_diag());
        },
    };
    let flip_namev = flip_name_bytes();
    let flip_sel = compute_selector(flip_namev.as_slice());
    let key = flipper_storage_key();
    let schema = vec![FieldType::Bool];
    proof {
        assert(schema@ =~= flipper_schema());
    }
    if selector_eq(&sel, &flip_sel) {
        let loaded = load_storage(backend, &key, &schema);
        proof {
            lemma_load_matches_schema(backend@, flipper_key(), flipper_schema());
        }
        let mut state = from_fields(&loaded);
        proof {
            assert(state.value == spec_stored_flag(backend@));
        }
        flip(&mut state);
        let fields = to_fields(&state);
        let none_result: Option<FieldValue> = None;
        let out_bytes = wrapper_epilogue(
            backend,
            &key,
            WrapperShape { state: StateRef::Exclusive, has_return: false },
            &fields,
            &none_result,
        );
        return Outcome::Return(out_bytes);
    }
    let get_namev = get_name_bytes();
    let get_sel = compute_selector(get_namev.as_slice());
    if selector_eq(&sel, &get_sel) {
        let loaded = load_storage(backend, &key, &schema);
        proof {
            lemma_load_matches_schema(backend@, flipper_key(), flipper_schema());
        }
        let state = from_fields(&loaded);
        proof {
            assert(state.value == spec_stored_flag(backend@));
        }
        let b = get(&state);
        let fields = to_fields(&state);
        let result: Option<FieldValue> = Some(FieldValue::Bool(b));
        let out_bytes = wrapper_epilogue(
            backend,
            &key,
            WrapperShape { state: StateRef::Shared, has_return: true },
            &fields,
            &result,
        );
        return Outcome::Return(out_bytes);
    }
    Outcome::Revert(unknown_selector_diag())
}

} // verus!
