//! The generation pipeline: from a classified module to its binary-exact
//! artifacts.
//!
//! For a module the pipeline produces a storage plan (key and schema), a
//! constructor plan, a dispatch table with one entry per callable method —
//! its selector, its wrapper shape — a typed proxy plan for calling the
//! contract from outside, and a topic per event record.  The dispatch
//! table and the proxy derive their selectors from one deriver, so a
//! proxy's selector for a method always equals the dispatch table's.

use crate::codec::FieldType;
use crate::keys::{compute_selector, compute_storage_key, spec_selector, spec_storage_key};
use crate::module::{
    classifiable, classify, init_count, spec_calls, spec_events, spec_init, spec_storage,
    storage_count, CallDecl, EventDecl, FieldDecl, GenerationError, ModuleDecl, StateRef,
    StorageDecl,
};
use vstd::prelude::*;

verus! {

/// The shape of the wrapper generated around one callable method: how it
/// treats the storage value and whether a result is encoded back.
#[derive(Clone, Copy, Debug, PartialEq, Eq, Structural)]
pub struct WrapperShape {
    pub state: StateRef,
    pub has_return: bool,
}

/// The wrapper shape a call declaration requires.
pub open spec fn spec_shape(c: CallDecl) -> WrapperShape {
    WrapperShape { state: c.state, has_return: c.ret is Some }
}

/// Classify a call's leading parameter and return type into its wrapper
/// shape: one of the six load/invoke/persist/encode combinations.
pub fn classify_wrapper(c: &CallDecl) -> (s: WrapperShape)
    ensures
        s == spec_shape(*c),
{
    WrapperShape { state: c.state, has_return: c.ret.is_some() }
}

/// One dispatch table entry: a selector, the method it routes to, and the
/// wrapper shape the method runs under.
#[derive(Debug)]
pub struct DispatchEntry {
    pub selector: [u8; 4],
    pub name: Vec<u8>,
    pub shape: WrapperShape,
}

/// The dispatch table: one entry per callable method, in declaration
/// order, with pairwise-distinct selectors.
#[derive(Debug)]
pub struct DispatchTable {
    pub entries: Vec<DispatchEntry>,
}

/// The calls' derived selectors are pairwise distinct.
pub open spec fn selectors_distinct(calls: Seq<CallDecl>) -> bool {
    forall|i: int, j: int|
        #![trigger calls[i], calls[j]]
        0 <= i < j < calls.len() ==> spec_selector(calls[i].name@) != spec_selector(calls[j].name@)
}

/// The table is the dispatch table of `calls`: one entry per call, in
/// order, each carrying the call's derived selector, name and shape.
pub open spec fn table_for(t: DispatchTable, calls: Seq<CallDecl>) -> bool {
    &&& t.entries@.len() == calls.len()
    &&& forall|i: int|
        0 <= i < calls.len() ==> (#[trigger] t.entries@[i]).selector@ == spec_selector(
            calls[i].name@,
        )
    &&& forall|i: int| 0 <= i < calls.len() ==> (#[trigger] t.entries@[i]).name@ == calls[i].name@
    &&& forall|i: int| 0 <= i < calls.len() ==> (#[trigger] t.entries@[i]).shape == spec_shape(calls[i])
}

/// Compare two selectors.
pub fn selector_eq(a: &[u8; 4], b: &[u8; 4]) -> (r: bool)
    ensures
        r <==> a@ == b@,
{
    let r = a[0] == b[0] && a[1] == b[1] && a[2] == b[2] && a[3] == b[3];
    proof {
        if r {
            assert(a@ =~= b@);
        }
    }
    r
}

/// Build the dispatch table of a module's calls.  Uniqueness is the
/// table's invariant: two calls whose names derive the same selector are
/// a hard generation failure, never a silently shadowed entry.
pub fn build_dispatch_table(calls: &Vec<CallDecl>) -> (r: Result<DispatchTable, GenerationError>)
    ensures
        r is Ok <==> selectors_distinct(calls@),
        match r {
            Result::Ok(t) => {
                &&& table_for(t, calls@)
                &&& forall|i: int, j: int|
                    0 <= i < j < t.entries@.len() ==> (#[trigger] t.entries@[i]).selector@ != (
                    #[trigger] t.entries@[j]).selector@
            },
            Result::Err(e) => e == GenerationError::SelectorCollision,
        },
{
    let mut entries: Vec<DispatchEntry> = Vec::new();
    let mut i: usize = 0;
    while i < calls.len()
        invariant
            i <= calls@.len(),
            entries@.len() == i,
            forall|k: int|
                0 <= k < i ==> (#[trigger] entries@[k]).selector@ == spec_selector(
                    calls@[k].name@,
                ),
            forall|k: int| 0 <= k < i ==> (#[trigger] entries@[k]).name@ == calls@[k].name@,
            forall|k: int| 0 <= k < i ==> (#[trigger] entries@[k]).shape == spec_shape(calls@[k]),
            forall|k: int, l: int|
                0 <= k < l < i ==> (#[trigger] entries@[k]).selector@ != (
                #[trigger] entries@[l]).selector@,
        decreases calls@.len() - i,
    {
        let call = &calls[i];
        let selector = compute_selector(call.name.as_slice());
        let mut j: usize = 0;
        while j < entries.len()
            invariant
                j <= entries@.len(),
                entries@.len() == i < calls@.len(),
                selector@ == spec_selector(calls@[i as int].name@),
                forall|k: int|
                    0 <= k < i ==> (#[trigger] entries@[k]).selector@ == spec_selector(
                        calls@[k].name@,
                    ),
                forall|k: int| 0 <= k < j ==> (#[trigger] entries@[k]).selector@ != selector@,
            decreases entries@.len() - j,
        {
            if selector_eq(&entries[j].selector, &selector) {
                proof {
                    assert(spec_selector(calls@[j as int].name@) == spec_selector(
                        calls@[i as int].name@,
                    ));
                    assert(!selectors_distinct(calls@));
                }
                return Err(GenerationError::SelectorCollision);
            }
            j = j + 1;
        }
        let mut name: Vec<u8> = Vec::new();
        let mut b: usize = 0;
        while b < call.name.len()
            invariant
                b <= call.name@.len(),
                name@ =~= call.name@.take(b as int),
            decreases call.name@.len() - b,
        {
            name.push(call.name[b]);
            b = b + 1;
        }
        proof {
            assert(name@ =~= call.name@);
        }
        entries.push(DispatchEntry { selector, name, shape: classify_wrapper(call) });
        i = i + 1;
    }
    proof {
        assert forall|a: int, b: int|
            #![trigger calls@[a], calls@[b]]
            0 <= a < b < calls@.len() implies spec_selector(calls@[a].name@) != spec_selector(
            calls@[b].name@,
        ) by {
            assert((entries@[a]).selector@ == spec_selector(calls@[a].name@));
            assert((entries@[b]).selector@ == spec_selector(calls@[b].name@));
            assert((entries@[a]).selector@ != (entries@[b]).selector@);
        }
    }
    let t = DispatchTable { entries };
    Ok(t)
}

/// How a proxy method encodes its arguments: none at all, one encoded
/// directly, or several concatenated as an ordered tuple.
#[derive(Clone, Copy, Debug, PartialEq, Eq, Structural)]
pub enum ArgShape {
    Empty,
    Single,
    Tuple,
}

/// The argument shape of a method with `n` declared arguments.
pub open spec fn spec_arg_shape(n: nat) -> ArgShape {
    if n == 0 {
        ArgShape::Empty
    } else if n == 1 {
        ArgShape::Single
    } else {
        ArgShape::Tuple
    }
}

/// One method of a generated proxy: the remote method's name and selector,
/// its argument types in declared order (any leading state reference is
/// excluded), and whether a response is decoded — which decides if a local
/// decode failure can surface beside a remote invocation failure.
#[derive(Debug)]
pub struct ProxyMethod {
    pub name: Vec<u8>,
    pub selector: [u8; 4],
    pub args: Vec<FieldType>,
    pub arg_shape: ArgShape,
    pub has_return: bool,
}

/// The proxy plan for one contract: a remote-invocation method per
/// callable method, around one held target address.
#[derive(Debug)]
pub struct ProxyPlan {
    pub methods: Vec<ProxyMethod>,
}

/// The declared argument types of a call, in order.
pub open spec fn param_types(c: CallDecl) -> Seq<FieldType> {
    c.params@.map_values(|p: crate::module::ParamDecl| p.ty)
}

/// The plan is the proxy of `calls`: one method per call, in order, each
/// carrying the call's derived selector, argument types and return flag.
pub open spec fn proxy_for(p: ProxyPlan, calls: Seq<CallDecl>) -> bool {
    &&& p.methods@.len() == calls.len()
    &&& forall|i: int|
        0 <= i < calls.len() ==> (#[trigger] p.methods@[i]).selector@ == spec_selector(
            calls[i].name@,
        )
    &&& forall|i: int| 0 <= i < calls.len() ==> (#[trigger] p.methods@[i]).name@ == calls[i].name@
    &&& forall|i: int|
        0 <= i < calls.len() ==> (#[trigger] p.methods@[i]).args@ == param_types(calls[i])
    &&& forall|i: int|
        0 <= i < calls.len() ==> (#[trigger] p.methods@[i]).arg_shape == spec_arg_shape(
            calls[i].params@.len(),
        )
    &&& forall|i: int|
        0 <= i < calls.len() ==> (#[trigger] p.methods@[i]).has_return == (calls[i].ret is Some)
}

/// Build the proxy plan of a module's calls.
pub fn build_proxy(calls: &Vec<CallDecl>) -> (p: ProxyPlan)
    ensures
        proxy_for(p, calls@),
{
    let mut methods: Vec<ProxyMethod> = Vec::new();
    let mut i: usize = 0;
    while i < calls.len()
        invariant
            i <= calls@.len(),
            methods@.len() == i,
            forall|k: int|
                0 <= k < i ==> (#[trigger] methods@[k]).selector@ == spec_selector(
                    calls@[k].name@,
                ),
            forall|k: int| 0 <= k < i ==> (#[trigger] methods@[k]).name@ == calls@[k].name@,
            forall|k: int| 0 <= k < i ==> (#[trigger] methods@[k]).args@ == param_types(calls@[k]),
            forall|k: int|
                0 <= k < i ==> (#[trigger] methods@[k]).arg_shape == spec_arg_shape(
                    calls@[k].params@.len(),
                ),
            forall|k: int|
                0 <= k < i ==> (#[trigger] methods@[k]).has_return == (calls@[k].ret is Some),
        decreases calls@.len() - i,
    {
        let call = &calls[i];
        let selector = compute_selector(call.name.as_slice());
        let mut name: Vec<u8> = Vec::new();
        let mut b: usize = 0;
        while b < call.name.len()
            invariant
                b <= call.name@.len(),
                name@ =~= call.name@.take(b as int),
            decreases call.name@.len() - b,
        {
            name.push(call.name[b]);
            b = b + 1;
        }
        proof {
            assert(name@ =~= call.name@);
        }
        let mut args: Vec<FieldType> = Vec::new();
        let mut a: usize = 0;
        while a < call.params.len()
            invariant
                a <= call.params@.len(),
                args@ =~= param_types(*call).take(a as int),
            decreases call.params@.len() - a,
        {
            args.push(call.params[a].ty);
            proof {
                assert(args@ =~= param_types(*call).take(a as int + 1));
            }
            a = a + 1;
        }
        proof {
            assert(args@ =~= param_types(*call));
        }
        let n_args = call.params.len();
        let arg_shape = if n_args == 0 {
            ArgShape::Empty
        } else if n_args == 1 {
            ArgShape::Single
        } else {
            ArgShape::Tuple
        };
        methods.push(
            ProxyMethod { name, selector, args, arg_shape, has_return: call.ret.is_some() },
        );
        i = i + 1;
    }
    ProxyPlan { methods }
}

/// Proxy fidelity: a proxy and a dispatch table built over the same calls
/// give every method the same selector — structurally, because both draw
/// from one selector deriver.
pub proof fn lemma_proxy_fidelity(t: DispatchTable, p: ProxyPlan, calls: Seq<CallDecl>)
    requires
        table_for(t, calls),
        proxy_for(p, calls),
    ensures
        p.methods@.len() == t.entries@.len(),
        forall|i: int|
            0 <= i < calls.len() ==> (#[trigger] p.methods@[i]).selector@ == (
            #[trigger] t.entries@[i]).selector@,
{
}

/// The storage plan: where the storage value lives and what fields it has.
#[derive(Debug)]
pub struct StoragePlan {
    pub ty_name: Vec<u8>,
    pub key: [u8; 32],
    pub schema: Vec<FieldType>,
}

/// The constructor plan: the function `deploy()` invokes once, whose
/// returned storage value it persists.
#[derive(Debug)]
pub struct InitPlan {
    pub fn_name: Vec<u8>,
}

/// One event record's plan: its derived 32-byte topic.
#[derive(Debug)]
pub struct EventPlan {
    pub ty_name: Vec<u8>,
    pub topic: [u8; 32],
}

/// An event type's single topic: its derived selector in the first four
/// bytes of a 32-byte slot, zero elsewhere.
pub open spec fn spec_event_topic(name: Seq<u8>) -> Seq<u8> {
    spec_selector(name) + Seq::new(28, |i: int| 0u8)
}

/// Derive an event type's topic from its name.
pub fn event_topic(name: &[u8]) -> (t: [u8; 32])
    ensures
        t@ == spec_event_topic(name@),
{
    let selector = compute_selector(name);
    let mut t = [0u8; 32];
    t[0] = selector[0];
    t[1] = selector[1];
    t[2] = selector[2];
    t[3] = selector[3];
    proof {
        assert(spec_selector(name@).len() == 4);
        assert(t@ =~= spec_event_topic(name@));
    }
    t
}

/// The field types of a declaration's fields, in order.
pub open spec fn field_types(fields: Seq<FieldDecl>) -> Seq<FieldType> {
    fields.map_values(|f: FieldDecl| f.ty)
}

/// Everything generated for one contract module.
#[derive(Debug)]
pub struct ContractPlan {
    pub module_name: Vec<u8>,
    pub storage: Option<StoragePlan>,
    pub init: Option<InitPlan>,
    pub dispatch: DispatchTable,
    pub proxy: Option<ProxyPlan>,
    pub events: Vec<EventPlan>,
}

/// The storage plan derived from a storage declaration: the key is the
/// deriver of the type name, the schema its field types in order.
pub open spec fn storage_plan_for(p: StoragePlan, s: StorageDecl) -> bool {
    &&& p.ty_name@ == s.name@
    &&& p.key@ == spec_storage_key(s.name@)
    &&& p.schema@ == field_types(s.fields@)
}

/// The whole plan is the generation of the module.
pub open spec fn plan_for(p: ContractPlan, m: ModuleDecl) -> bool {
    &&& p.module_name@ == m.name@
    &&& match (p.storage, spec_storage(m.items@)) {
        (Option::Some(sp), Option::Some(sd)) => storage_plan_for(sp, sd),
        (Option::None, Option::None) => true,
        _ => false,
    }
    &&& match (p.init, spec_init(m.items@)) {
        (Option::Some(ip), Option::Some(id)) => ip.fn_name@ == id.name@,
        (Option::None, Option::None) => true,
        _ => false,
    }
    &&& table_for(p.dispatch, spec_calls(m.items@))
    &&& match (p.proxy, spec_storage(m.items@)) {
        (Option::Some(pp), Option::Some(_)) => proxy_for(pp, spec_calls(m.items@)),
        (Option::None, Option::None) => true,
        _ => false,
    }
    &&& p.events@.len() == spec_events(m.items@).len()
    &&& forall|i: int|
        0 <= i < p.events@.len() ==> (#[trigger] p.events@[i]).ty_name@ == spec_events(
            m.items@,
        )[i].name@
    &&& forall|i: int|
        0 <= i < p.events@.len() ==> (#[trigger] p.events@[i]).topic@ == spec_event_topic(
            spec_events(m.items@)[i].name@,
        )
}

/// Run the whole generation pipeline over a module: classify its items,
/// derive the storage plan, the constructor plan, the dispatch table, the
/// proxy and the event topics.  Fatal on a malformed module shape or a
/// selector collision, with no partial output.
pub fn generate(module: ModuleDecl) -> (r: Result<ContractPlan, GenerationError>)
    ensures
        r is Ok <==> (classifiable(module.items@) && selectors_distinct(spec_calls(module.items@))),
        match r {
            Result::Ok(p) => plan_for(p, module),
            Result::Err(e) => {
                &&& (e == GenerationError::EmptyModule <==> module.items@.len() == 0)
                &&& (e == GenerationError::DuplicateStorage <==> module.items@.len() > 0
                    && storage_count(module.items@) >= 2)
                &&& (e == GenerationError::DuplicateInit <==> module.items@.len() > 0
                    && storage_count(module.items@) <= 1 && init_count(module.items@) >= 2)
                &&& (e == GenerationError::SelectorCollision <==> classifiable(module.items@)
                    && !selectors_distinct(spec_calls(module.items@)))
            },
        },
{
    let ghost m = module;
    let classified = match classify(module) {
        Result::Ok(c) => c,
        Result::Err(e) => {
            return Err(e);
        },
    };
    let dispatch = match build_dispatch_table(&classified.calls) {
        Result::Ok(t) => t,
        Result::Err(e) => {
            return Err(e);
        },
    };
    let storage = match classified.storage {
        Option::Some(decl) => {
            let key = compute_storage_key(decl.name.as_slice());
            let mut schema: Vec<FieldType> = Vec::new();
            let mut i: usize = 0;
            while i < decl.fields.len()
                invariant
                    i <= decl.fields@.len(),
                    schema@ =~= field_types(decl.fields@).take(i as int),
                decreases decl.fields@.len() - i,
            {
                schema.push(decl.fields[i].ty);
                proof {
                    assert(schema@ =~= field_types(decl.fields@).take(i as int + 1));
                }
                i = i + 1;
            }
            proof {
                assert(schema@ =~= field_types(decl.fields@));
            }
            Some(StoragePlan { ty_name: decl.name, key, schema })
        },
        Option::None => None,
    };
    let proxy = if storage.is_some() {
        Some(build_proxy(&classified.calls))
    } else {
        None
    };
    let init = match classified.init {
        Option::Some(decl) => Some(InitPlan { fn_name: decl.name }),
        Option::None => None,
    };
    let mut events: Vec<EventPlan> = Vec::new();
    let ghost event_decls = spec_events(m.items@);
    let mut rest_events = classified.events;
    let ghost mut k: int = 0;
    while rest_events.len() > 0
        invariant
            0 <= k <= event_decls.len(),
            rest_events@ == event_decls.skip(k),
            events@.len() == k,
            forall|i: int|
                0 <= i < k ==> (#[trigger] events@[i]).ty_name@ == event_decls[i].name@,
            forall|i: int|
                0 <= i < k ==> (#[trigger] events@[i]).topic@ == spec_event_topic(
                    event_decls[i].name@,
                ),
        decreases rest_events@.len(),
    {
        let decl = rest_events.remove(0);
        proof {
            assert(decl == event_decls[k]);
            assert(rest_events@ =~= event_decls.skip(k + 1));
        }
        let topic = event_topic(decl.name.as_slice());
        events.push(EventPlan { ty_name: decl.name, topic });
        proof {
            k = k + 1;
        }
    }
    Ok(
        ContractPlan {
            module_name: classified.name,
            storage,
            init,
            dispatch,
            proxy,
            events,
        },
    )
}

} // verus!
