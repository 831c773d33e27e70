//! The declarative contract module and its item classifier.
//!
//! A module is an ordered list of declarations, each carrying at most one
//! role: the storage type, the constructor, a callable method, an event
//! record, or anything else, which passes through untouched.  The
//! classifier buckets the items by role in two passes — count, then move —
//! so a malformed module (empty, or declaring storage or constructor
//! twice) is rejected whole, with no partial output.

use crate::codec::FieldType;
use vstd::prelude::*;

verus! {

/// One named, typed field of a storage or event declaration.
#[derive(Debug)]
pub struct FieldDecl {
    pub name: Vec<u8>,
    pub ty: FieldType,
}

/// The module's persistent state type: ordered named fields.
#[derive(Debug)]
pub struct StorageDecl {
    pub name: Vec<u8>,
    pub fields: Vec<FieldDecl>,
}

/// The constructor: runs once at deployment and returns the storage value.
#[derive(Debug)]
pub struct InitDecl {
    pub name: Vec<u8>,
}

/// How a callable method's leading parameter refers to the storage value.
#[derive(Clone, Copy, Debug, PartialEq, Eq, Structural)]
pub enum StateRef {
    /// No leading state parameter.
    Stateless,
    /// A shared reference: the method reads state, nothing is persisted.
    Shared,
    /// An exclusive reference: the method mutates state, which is persisted.
    Exclusive,
}

/// One declared (non-state) parameter of a callable method.
#[derive(Debug)]
pub struct ParamDecl {
    pub name: Vec<u8>,
    pub ty: FieldType,
}

/// A callable method: name, leading state reference, remaining parameters
/// in declared order, and an optional return type.
#[derive(Debug)]
pub struct CallDecl {
    pub name: Vec<u8>,
    pub state: StateRef,
    pub params: Vec<ParamDecl>,
    pub ret: Option<FieldType>,
}

/// An event record: a name and plain fields.
#[derive(Debug)]
pub struct EventDecl {
    pub name: Vec<u8>,
    pub fields: Vec<FieldDecl>,
}

/// One declaration of a contract module, tagged with its role.
#[derive(Debug)]
pub enum Item {
    Storage(StorageDecl),
    Init(InitDecl),
    Call(CallDecl),
    Event(EventDecl),
    /// Any other declaration, preserved verbatim.
    Other(Vec<u8>),
}

/// A contract module: a name and its ordered declarations.
#[derive(Debug)]
pub struct ModuleDecl {
    pub name: Vec<u8>,
    pub items: Vec<Item>,
}

/// A malformed or ambiguous module shape: fatal at generation time.
#[derive(Clone, Copy, Debug, PartialEq, Eq, Structural)]
pub enum GenerationError {
    /// The module declares no items at all.
    EmptyModule,
    /// More than one storage declaration.
    DuplicateStorage,
    /// More than one constructor.
    DuplicateInit,
    /// Two callable methods derive the same selector.
    SelectorCollision,
}

/// A module's declarations bucketed by role, order preserved per bucket.
#[derive(Debug)]
pub struct ClassifiedModule {
    pub name: Vec<u8>,
    pub storage: Option<StorageDecl>,
    pub init: Option<InitDecl>,
    pub calls: Vec<CallDecl>,
    pub events: Vec<EventDecl>,
    pub others: Vec<Vec<u8>>,
}

/// How many storage declarations the items hold.
pub open spec fn storage_count(items: Seq<Item>) -> nat
    decreases items.len(),
{
    if items.len() == 0 {
        0
    } else {
        storage_count(items.drop_last()) + if items.last() is Storage {
            1nat
        } else {
            0nat
        }
    }
}

/// How many constructors the items hold.
pub open spec fn init_count(items: Seq<Item>) -> nat
    decreases items.len(),
{
    if items.len() == 0 {
        0
    } else {
        init_count(items.drop_last()) + if items.last() is Init {
            1nat
        } else {
            0nat
        }
    }
}

/// The first storage declaration, if any.
pub open spec fn spec_storage(items: Seq<Item>) -> Option<StorageDecl>
    decreases items.len(),
{
    if items.len() == 0 {
        None
    } else if spec_storage(items.drop_last()) is Some {
        spec_storage(items.drop_last())
    } else {
        match items.last() {
            Item::Storage(s) => Some(s),
            _ => None,
        }
    }
}

/// The first constructor, if any.
pub open spec fn spec_init(items: Seq<Item>) -> Option<InitDecl>
    decreases items.len(),
{
    if items.len() == 0 {
        None
    } else if spec_init(items.drop_last()) is Some {
        spec_init(items.drop_last())
    } else {
        match items.last() {
            Item::Init(f) => Some(f),
            _ => None,
        }
    }
}

/// The callable methods, in declaration order.
pub open spec fn spec_calls(items: Seq<Item>) -> Seq<CallDecl>
    decreases items.len(),
{
    if items.len() == 0 {
        Seq::empty()
    } else {
        spec_calls(items.drop_last()) + match items.last() {
            Item::Call(c) => seq![c],
            _ => Seq::empty(),
        }
    }
}

/// The event records, in declaration order.
pub open spec fn spec_events(items: Seq<Item>) -> Seq<EventDecl>
    decreases items.len(),
{
    if items.len() == 0 {
        Seq::empty()
    } else {
        spec_events(items.drop_last()) + match items.last() {
            Item::Event(e) => seq![e],
            _ => Seq::empty(),
        }
    }
}

/// The pass-through declarations, verbatim, in declaration order.
pub open spec fn spec_others(items: Seq<Item>) -> Seq<Vec<u8>>
    decreases items.len(),
{
    if items.len() == 0 {
        Seq::empty()
    } else {
        spec_others(items.drop_last()) + match items.last() {
            Item::Other(o) => seq![o],
            _ => Seq::empty(),
        }
    }
}

/// A module's shape is acceptable: non-empty, with at most one storage
/// declaration and at most one constructor.
pub open spec fn classifiable(items: Seq<Item>) -> bool {
    &&& items.len() > 0
    &&& storage_count(items) <= 1
    &&& init_count(items) <= 1
}

/// Bucket a module's declarations by role.  Fails, with no partial output,
/// on an empty module, a second storage declaration, or a second
/// constructor.
pub fn classify(module: ModuleDecl) -> (r: Result<ClassifiedModule, GenerationError>)
    ensures
        r is Ok <==> classifiable(module.items@),
        match r {
            Result::Ok(c) => {
                &&& c.name@ == module.name@
                &&& c.storage == spec_storage(module.items@)
                &&& c.init == spec_init(module.items@)
                &&& c.calls@ == spec_calls(module.items@)
                &&& c.events@ == spec_events(module.items@)
                &&& c.others@ == spec_others(module.items@)
            },
            Result::Err(e) => {
                &&& (e == GenerationError::EmptyModule <==> module.items@.len() == 0)
                &&& (e == GenerationError::DuplicateStorage <==> module.items@.len() > 0
                    && storage_count(module.items@) >= 2)
                &&& (e == GenerationError::DuplicateInit <==> module.items@.len() > 0
                    && storage_count(module.items@) <= 1 && init_count(module.items@) >= 2)
            },
        },
{
    let ghost items0 = module.items@;
    if module.items.len() == 0 {
        return Err(GenerationError::EmptyModule);
    }
    let mut n_storage: usize = 0;
    let mut n_init: usize = 0;
    let mut i: usize = 0;
    while i < module.items.len()
        invariant
            i <= items0.len(),
            module.items@ == items0,
            n_storage == storage_count(items0.take(i as int)),
            n_init == init_count(items0.take(i as int)),
            n_storage <= i,
            n_init <= i,
        decreases items0.len() - i,
    {
        proof {
            assert(items0.take(i as int + 1).drop_last() =~= items0.take(i as int));
            assert(items0.take(i as int + 1).last() == items0[i as int]);
        }
        match &module.items[i] {
            Item::Storage(_) => {
                n_storage = n_storage + 1;
            },
            Item::Init(_) => {
                n_init = n_init + 1;
            },
            _ => (),
        }
        i = i + 1;
    }
    proof {
        assert(items0.take(items0.len() as int) =~= items0);
    }
    if n_storage >= 2 {
        return Err(GenerationError::DuplicateStorage);
    }
    if n_init >= 2 {
        return Err(GenerationError::DuplicateInit);
    }
    let mut rest = module.items;
    let mut c = ClassifiedModule {
        name: module.name,
        storage: None,
        init: None,
        calls: Vec::new(),
        events: Vec::new(),
        others: Vec::new(),
    };
    let ghost mut k: int = 0;
    while rest.len() > 0
        invariant
            0 <= k <= items0.len(),
            c.name@ == module.name@,
            rest@ == items0.skip(k),
            storage_count(items0) <= 1,
            init_count(items0) <= 1,
            c.storage == spec_storage(items0.take(k)),
            c.init == spec_init(items0.take(k)),
            c.calls@ == spec_calls(items0.take(k)),
            c.events@ == spec_events(items0.take(k)),
            c.others@ == spec_others(items0.take(k)),
        decreases rest@.len(),
    {
        let it = rest.remove(0);
        proof {
            assert(it == items0[k]);
            assert(rest@ =~= items0.skip(k + 1));
            assert(items0.take(k + 1).drop_last() =~= items0.take(k));
            assert(items0.take(k + 1).last() == items0[k]);
        }
        match it {
            Item::Storage(s) => {
                proof {
                    lemma_storage_count_mono(items0, k + 1);
                    lemma_storage_some_count(items0.take(k));
                }
                c.storage = Some(s);
            },
            Item::Init(f) => {
                proof {
                    lemma_init_count_mono(items0, k + 1);
                    lemma_init_some_count(items0.take(k));
                }
                c.init = Some(f);
            },
            Item::Call(call) => {
                c.calls.push(call);
                proof {
                    assert(c.calls@ =~= spec_calls(items0.take(k + 1)));
                }
            },
            Item::Event(e) => {
                c.events.push(e);
                proof {
                    assert(c.events@ =~= spec_events(items0.take(k + 1)));
                }
            },
            Item::Other(o) => {
                c.others.push(o);
                proof {
                    assert(c.others@ =~= spec_others(items0.take(k + 1)));
                }
            },
        }
        proof {
            k = k + 1;
        }
    }
    proof {
        assert(items0.take(k) =~= items0);
    }
    Ok(c)
}

/// Counting storage declarations grows along prefixes.
proof fn lemma_storage_count_mono(items: Seq<Item>, k: int)
    requires
        0 <= k <= items.len(),
    ensures
        storage_count(items.take(k)) <= storage_count(items),
    decreases items.len() - k,
{
    if k < items.len() {
        lemma_storage_count_mono(items, k + 1);
        assert(items.take(k + 1).drop_last() =~= items.take(k));
    } else {
        assert(items.take(k) =~= items);
    }
}

/// A found storage declaration means the count is at least one.
proof fn lemma_storage_some_count(items: Seq<Item>)
    ensures
        spec_storage(items) is Some ==> storage_count(items) >= 1,
    decreases items.len(),
{
    if items.len() > 0 {
        lemma_storage_some_count(items.drop_last());
    }
}

/// Counting constructors grows along prefixes.
proof fn lemma_init_count_mono(items: Seq<Item>, k: int)
    requires
        0 <= k <= items.len(),
    ensures
        init_count(items.take(k)) <= init_count(items),
    decreases items.len() - k,
{
    if k < items.len() {
        lemma_init_count_mono(items, k + 1);
        assert(items.take(k + 1).drop_last() =~= items.take(k));
    } else {
        assert(items.take(k) =~= items);
    }
}

/// A found constructor means the count is at least one.
proof fn lemma_init_some_count(items: Seq<Item>)
    ensures
        spec_init(items) is Some ==> init_count(items) >= 1,
    decreases items.len(),
{
    if items.len() > 0 {
        lemma_init_some_count(items.drop_last());
    }
}

} // verus!
