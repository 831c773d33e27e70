//! The classifier and the generation pipeline.

use pvm_contracts::codec::FieldType;
use pvm_contracts::flipper::flipper_module;
use pvm_contracts::generate::{build_dispatch_table, build_proxy, generate, ArgShape};
use pvm_contracts::keys::{compute_selector, compute_storage_key};
use pvm_contracts::module::{
    classify, CallDecl, GenerationError, InitDecl, Item, ModuleDecl, ParamDecl, StateRef,
    StorageDecl,
};

fn storage_item(name: &[u8]) -> Item {
    Item::Storage(StorageDecl { name: name.to_vec(), fields: Vec::new() })
}

fn init_item(name: &[u8]) -> Item {
    Item::Init(InitDecl { name: name.to_vec() })
}

fn call_item(name: &[u8]) -> Item {
    Item::Call(CallDecl {
        name: name.to_vec(),
        state: StateRef::Stateless,
        params: Vec::new(),
        ret: None,
    })
}

#[test]
fn classify_buckets_by_role_preserving_order() {
    let module = ModuleDecl {
        name: b"demo".to_vec(),
        items: vec![
            storage_item(b"State"),
            init_item(b"new"),
            call_item(b"first"),
            Item::Other(b"helper".to_vec()),
            call_item(b"second"),
        ],
    };
    let c = classify(module).expect("classifies");
    assert_eq!(c.storage.unwrap().name, b"State".to_vec());
    assert_eq!(c.init.unwrap().name, b"new".to_vec());
    assert_eq!(c.calls.len(), 2);
    assert_eq!(c.calls[0].name, b"first".to_vec());
    assert_eq!(c.calls[1].name, b"second".to_vec());
    assert_eq!(c.others, vec![b"helper".to_vec()]);
}

#[test]
fn classify_rejects_empty_module() {
    let module = ModuleDecl { name: b"demo".to_vec(), items: Vec::new() };
    assert_eq!(classify(module).unwrap_err(), GenerationError::EmptyModule);
}

#[test]
fn classify_rejects_second_storage() {
    let module = ModuleDecl {
        name: b"demo".to_vec(),
        items: vec![storage_item(b"A"), storage_item(b"B")],
    };
    assert_eq!(classify(module).unwrap_err(), GenerationError::DuplicateStorage);
}

#[test]
fn classify_rejects_second_init() {
    let module = ModuleDecl {
        name: b"demo".to_vec(),
        items: vec![storage_item(b"A"), init_item(b"new"), init_item(b"again")],
    };
    assert_eq!(classify(module).unwrap_err(), GenerationError::DuplicateInit);
}

#[test]
fn dispatch_table_rejects_colliding_selectors() {
    // Two calls with one name derive one selector: a hard failure.
    let calls = vec![
        CallDecl {
            name: b"dup".to_vec(),
            state: StateRef::Stateless,
            params: Vec::new(),
            ret: None,
        },
        CallDecl {
            name: b"dup".to_vec(),
            state: StateRef::Shared,
            params: Vec::new(),
            ret: Some(FieldType::Bool),
        },
    ];
    assert_eq!(
        build_dispatch_table(&calls).unwrap_err(),
        GenerationError::SelectorCollision
    );
}

#[test]
fn dispatch_table_selectors_are_pairwise_distinct() {
    let names: [&[u8]; 4] = [b"one", b"two", b"three", b"four"];
    let calls: Vec<CallDecl> = names
        .iter()
        .map(|n| CallDecl {
            name: n.to_vec(),
            state: StateRef::Stateless,
            params: Vec::new(),
            ret: None,
        })
        .collect();
    let table = build_dispatch_table(&calls).expect("builds");
    assert_eq!(table.entries.len(), 4);
    for i in 0..4 {
        assert_eq!(table.entries[i].selector, compute_selector(names[i]));
        for j in 0..i {
            assert_ne!(table.entries[i].selector, table.entries[j].selector);
        }
    }
}

#[test]
fn generate_flipper_plan() {
    let plan = generate(flipper_module()).expect("generates");
    let storage = plan.storage.expect("storage plan");
    assert_eq!(storage.ty_name, b"Flipper".to_vec());
    assert_eq!(storage.key, compute_storage_key(b"Flipper"));
    assert_eq!(storage.schema, vec![FieldType::Bool]);
    assert_eq!(plan.init.expect("init plan").fn_name, b"new".to_vec());
    assert_eq!(plan.dispatch.entries.len(), 2);
    assert_eq!(plan.dispatch.entries[0].selector, compute_selector(b"flip"));
    assert_eq!(plan.dispatch.entries[0].shape.state, StateRef::Exclusive);
    assert!(!plan.dispatch.entries[0].shape.has_return);
    assert_eq!(plan.dispatch.entries[1].selector, compute_selector(b"get"));
    assert_eq!(plan.dispatch.entries[1].shape.state, StateRef::Shared);
    assert!(plan.dispatch.entries[1].shape.has_return);
    assert_eq!(plan.events.len(), 1);
    assert_eq!(plan.events[0].ty_name, b"Flipped".to_vec());
    assert_eq!(&plan.events[0].topic[0..4], &compute_selector(b"Flipped")[..]);
}

#[test]
fn proxy_selectors_match_dispatch_table() {
    let plan = generate(flipper_module()).expect("generates");
    let proxy = plan.proxy.expect("proxy plan");
    assert_eq!(proxy.methods.len(), plan.dispatch.entries.len());
    for (m, e) in proxy.methods.iter().zip(plan.dispatch.entries.iter()) {
        assert_eq!(m.selector, e.selector);
        assert_eq!(m.name, e.name);
    }
}

#[test]
fn proxy_arg_shapes_follow_arity() {
    let calls = vec![
        CallDecl {
            name: b"none".to_vec(),
            state: StateRef::Stateless,
            params: Vec::new(),
            ret: None,
        },
        CallDecl {
            name: b"single".to_vec(),
            state: StateRef::Shared,
            params: vec![ParamDecl { name: b"x".to_vec(), ty: FieldType::U64 }],
            ret: None,
        },
        CallDecl {
            name: b"pair".to_vec(),
            state: StateRef::Exclusive,
            params: vec![
                ParamDecl { name: b"x".to_vec(), ty: FieldType::U64 },
                ParamDecl { name: b"y".to_vec(), ty: FieldType::Bool },
            ],
            ret: Some(FieldType::U32),
        },
    ];
    let proxy = build_proxy(&calls);
    assert_eq!(proxy.methods[0].arg_shape, ArgShape::Empty);
    assert_eq!(proxy.methods[1].arg_shape, ArgShape::Single);
    assert_eq!(proxy.methods[2].arg_shape, ArgShape::Tuple);
    assert_eq!(proxy.methods[2].args, vec![FieldType::U64, FieldType::Bool]);
    assert!(proxy.methods[2].has_return);
    assert!(!proxy.methods[1].has_return);
}

#[test]
fn generate_without_storage_has_no_proxy() {
    let module = ModuleDecl {
        name: b"bare".to_vec(),
        items: vec![call_item(b"ping")],
    };
    let plan = generate(module).expect("generates");
    assert!(plan.storage.is_none());
    assert!(plan.proxy.is_none());
    assert!(plan.init.is_none());
    assert_eq!(plan.dispatch.entries.len(), 1);
}
