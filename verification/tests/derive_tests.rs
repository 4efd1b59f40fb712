//! The derivation: classification, companion shapes and constructor
//! plans, for records and tagged unions.

use sycamore::reactive::{create_rc_signal, create_scope, create_signal, RcSignal, Scope, Signal};
use sycamore_state::{RcCollectionSignal, RefCollectionSignal};
use sycamore_state::derive::{derive_enum, derive_stateful, derive_struct, DataShape};
use sycamore_state::models::{
    CtorExprShape, DeriveError, FieldShape, GenericArgShape, GenericParamShape, GenericsShape,
    MetaShape, PathArgsShape, PathSegment, TypeShape, VariantShape,
};

fn seg(name: &str) -> PathSegment {
    PathSegment { ident: name.to_string(), arguments: PathArgsShape::Empty }
}

fn plain_path(names: &[&str]) -> TypeShape {
    TypeShape::Path(names.iter().map(|n| seg(n)).collect())
}

fn generic_path(name: &str, arg: TypeShape) -> TypeShape {
    TypeShape::Path(vec![PathSegment {
        ident: name.to_string(),
        arguments: PathArgsShape::AngleBracketed(vec![GenericArgShape::TypeArg(arg)]),
    }])
}

fn marker(name: &str) -> MetaShape {
    MetaShape::Path(vec![name.to_string()])
}

fn bare_field(name: &str, ty: TypeShape) -> FieldShape {
    FieldShape { ident: name.to_string(), ty, attrs: vec![] }
}

fn no_generics() -> GenericsShape {
    GenericsShape { params: vec![] }
}

fn rc_signal_of(inner: TypeShape) -> TypeShape {
    TypeShape::Path(vec![
        seg("sycamore"),
        seg("prelude"),
        PathSegment {
            ident: "RcSignal".to_string(),
            arguments: PathArgsShape::AngleBracketed(vec![GenericArgShape::TypeArg(inner)]),
        },
    ])
}

fn rc_collection_of(elem: TypeShape) -> TypeShape {
    TypeShape::Path(vec![
        seg("sycamore_state"),
        PathSegment {
            ident: "RcCollectionSignal".to_string(),
            arguments: PathArgsShape::AngleBracketed(vec![GenericArgShape::TypeArg(elem)]),
        },
    ])
}

fn ref_signal_of(inner: TypeShape) -> TypeShape {
    TypeShape::Reference {
        lifetime: Some("stateful".to_string()),
        elem: Box::new(TypeShape::Path(vec![
            seg("sycamore"),
            seg("prelude"),
            PathSegment {
                ident: "Signal".to_string(),
                arguments: PathArgsShape::AngleBracketed(vec![GenericArgShape::TypeArg(inner)]),
            },
        ])),
    }
}

#[test]
fn bare_record_derivation() {
    // the record { a: String, b: u32 }, both fields bare
    let fields = vec![
        bare_field("a", plain_path(&["String"])),
        bare_field("b", plain_path(&["u32"])),
    ];
    let out = derive_struct(fields, "Rec".to_string(), no_generics(), vec![]).expect("derives");
    assert_eq!(out.rc_decl.ident, "RcRec");
    assert!(!out.rc_decl.is_enum);
    assert_eq!(out.rc_decl.fields.len(), 2);
    assert_eq!(out.rc_decl.fields[0].ident, "a");
    assert_eq!(out.rc_decl.fields[0].ty, rc_signal_of(plain_path(&["String"])));
    assert_eq!(out.rc_decl.fields[1].ident, "b");
    assert_eq!(out.rc_decl.fields[1].ty, rc_signal_of(plain_path(&["u32"])));
    assert_eq!(out.ref_decl.ident, "RefRec");
    assert_eq!(out.ref_decl.fields[0].ty, ref_signal_of(plain_path(&["String"])));
    assert_eq!(
        out.ref_decl.generics.params,
        vec![GenericParamShape::Lifetime("stateful".to_string())]
    );
    assert_eq!(out.rc_ctor.companion, "RcRec");
    assert_eq!(out.rc_ctor.source, "Rec");
    assert_eq!(out.rc_ctor.fields[0].expr, CtorExprShape::Bare);
    assert_eq!(out.ref_ctor.ctor_lifetime, Some("ctor_ref".to_string()));
    assert_eq!(out.ref_ctor.bounds, vec!["stateful".to_string()]);

    // the constructed companion holds the source values, and a written
    // cell reads back what was written
    let a = create_rc_signal("x".to_string());
    let b = create_rc_signal(5u32);
    assert_eq!(a.get().as_str(), "x");
    assert_eq!(*b.get(), 5);
    b.set(6);
    assert_eq!(*b.get(), 6);
}

#[test]
fn four_classifications_share_field_names() {
    // one field of each classification
    let inner = plain_path(&["Inner"]);
    let fields = vec![
        bare_field("plain", plain_path(&["u32"])),
        FieldShape {
            ident: "nested".to_string(),
            ty: inner.duplicate(),
            attrs: vec![marker("state")],
        },
        FieldShape {
            ident: "items".to_string(),
            ty: generic_path("Vec", plain_path(&["u32"])),
            attrs: vec![marker("collection")],
        },
        FieldShape {
            ident: "nested_items".to_string(),
            ty: generic_path("Vec", plain_path(&["Inner"])),
            attrs: vec![marker("state"), marker("collection")],
        },
    ];
    let out = derive_struct(fields, "Model".to_string(), no_generics(), vec![]).expect("derives");
    let names: Vec<&str> = out.rc_decl.fields.iter().map(|f| f.ident.as_str()).collect();
    assert_eq!(names, vec!["plain", "nested", "items", "nested_items"]);
    let ref_names: Vec<&str> = out.ref_decl.fields.iter().map(|f| f.ident.as_str()).collect();
    assert_eq!(names, ref_names);
    // the table, column by column
    assert_eq!(out.rc_decl.fields[0].ty, rc_signal_of(plain_path(&["u32"])));
    assert_eq!(out.rc_decl.fields[1].ty, rc_signal_of(plain_path(&["RcInner"])));
    assert_eq!(out.rc_decl.fields[2].ty, rc_collection_of(plain_path(&["u32"])));
    assert_eq!(out.rc_decl.fields[3].ty, rc_collection_of(plain_path(&["RcInner"])));
    assert_eq!(out.rc_ctor.fields[0].expr, CtorExprShape::Bare);
    assert_eq!(out.rc_ctor.fields[1].expr, CtorExprShape::Stateful("RcInner".to_string()));
    assert_eq!(out.rc_ctor.fields[2].expr, CtorExprShape::Collection);
    assert_eq!(
        out.rc_ctor.fields[3].expr,
        CtorExprShape::StatefulCollection("RcInner".to_string())
    );
    assert_eq!(out.ref_ctor.fields[1].expr, CtorExprShape::Stateful("RefInner".to_string()));
    assert_eq!(
        out.ref_ctor.fields[3].expr,
        CtorExprShape::StatefulCollection("RefInner".to_string())
    );
    // the borrowed-scoped nested companion threads the bounding lifetime
    let expected_nested = TypeShape::Reference {
        lifetime: Some("stateful".to_string()),
        elem: Box::new(TypeShape::Path(vec![
            seg("sycamore"),
            seg("prelude"),
            PathSegment {
                ident: "Signal".to_string(),
                arguments: PathArgsShape::AngleBracketed(vec![GenericArgShape::TypeArg(
                    TypeShape::Path(vec![PathSegment {
                        ident: "RefInner".to_string(),
                        arguments: PathArgsShape::AngleBracketed(vec![
                            GenericArgShape::Lifetime("stateful".to_string()),
                        ]),
                    }]),
                )]),
            },
        ])),
    };
    assert_eq!(out.ref_decl.fields[1].ty, expected_nested);
}

#[test]
fn union_companion_keeps_the_case() {
    // a union with two variants, derived and then constructed from the
    // second variant's case
    let variants = vec![
        VariantShape {
            ident: "First".to_string(),
            payload: vec![plain_path(&["String"])],
            attrs: vec![],
        },
        VariantShape {
            ident: "Second".to_string(),
            payload: vec![plain_path(&["i32"])],
            attrs: vec![],
        },
    ];
    let out = derive_enum(variants, "Two".to_string(), no_generics(), vec![]).expect("derives");
    assert!(out.rc_decl.is_enum);
    assert_eq!(out.rc_ctor.fields.len(), 2);
    assert_eq!(out.rc_ctor.fields[0].ident, "First");
    assert_eq!(out.rc_ctor.fields[1].ident, "Second");

    // the constructor plan is a case-by-case match keeping the tag: build
    // the companion from the second case and observe the same tag
    enum Two {
        First(String),
        Second(i32),
    }
    enum RcTwo {
        First(sycamore::reactive::RcSignal<String>),
        Second(sycamore::reactive::RcSignal<i32>),
    }
    let source = Two::Second(5);
    let companion = match source {
        Two::First(data) => RcTwo::First(create_rc_signal(data)),
        Two::Second(data) => RcTwo::Second(create_rc_signal(data)),
    };
    match companion {
        RcTwo::First(_) => panic!("the first case must not appear"),
        RcTwo::Second(data) => assert_eq!(*data.get(), 5),
    }
}

#[test]
fn derivation_errors() {
    // a field marked as a collection whose type has no extractable element
    let fields = vec![FieldShape {
        ident: "c".to_string(),
        ty: plain_path(&["Thing"]),
        attrs: vec![marker("collection")],
    }];
    assert_eq!(
        derive_struct(fields, "M".to_string(), no_generics(), vec![]),
        Err(DeriveError::NotACollection)
    );

    // a stateful field whose type is not a plain path
    let fields = vec![FieldShape {
        ident: "s".to_string(),
        ty: TypeShape::Reference {
            lifetime: None,
            elem: Box::new(plain_path(&["Inner"])),
        },
        attrs: vec![marker("state")],
    }];
    assert_eq!(
        derive_struct(fields, "M".to_string(), no_generics(), vec![]),
        Err(DeriveError::MalformedType)
    );

    // a union variant with more than one payload
    let variants = vec![VariantShape {
        ident: "V".to_string(),
        payload: vec![plain_path(&["u32"]), plain_path(&["u32"])],
        attrs: vec![],
    }];
    assert_eq!(
        derive_enum(variants, "M".to_string(), no_generics(), vec![]),
        Err(DeriveError::VariantArity)
    );

    // a fieldless unit variant
    let variants = vec![VariantShape { ident: "V".to_string(), payload: vec![], attrs: vec![] }];
    assert_eq!(
        derive_enum(variants, "M".to_string(), no_generics(), vec![]),
        Err(DeriveError::VariantArity)
    );

    // a union body is not supported at all
    assert_eq!(
        derive_stateful("M".to_string(), no_generics(), vec![], DataShape::Union),
        Err(DeriveError::UnsupportedDeclaration)
    );
}

#[test]
fn features_flow_into_both_derive_lists() {
    let attrs = vec![MetaShape::List {
        path: vec!["state".to_string()],
        idents: vec!["clone".to_string(), "eq".to_string()],
    }];
    let fields = vec![bare_field("a", plain_path(&["u32"]))];
    let out = derive_struct(fields, "M".to_string(), no_generics(), attrs).expect("derives");
    assert_eq!(out.rc_decl.derives, vec!["Clone", "PartialEq", "Eq"]);
    // the borrowed-scoped companion is always copyable and never
    // re-derives a deep clone beyond the cheap one
    assert_eq!(out.ref_decl.derives, vec!["Copy", "Clone", "PartialEq", "Eq"]);
}

#[test]
fn array_collections_extract_their_element() {
    let fields = vec![FieldShape {
        ident: "arr".to_string(),
        ty: TypeShape::Array {
            elem: Box::new(plain_path(&["u8"])),
            len: "4".to_string(),
        },
        attrs: vec![marker("collection")],
    }];
    let out = derive_struct(fields, "M".to_string(), no_generics(), vec![]).expect("derives");
    assert_eq!(out.rc_decl.fields[0].ty, rc_collection_of(plain_path(&["u8"])));
    assert_eq!(out.rc_ctor.fields[0].expr, CtorExprShape::Collection);
}

// A source model with one field of each classification, and its two
// observable companions written out as the derivation plans them.
#[derive(Clone)]
pub struct SmallInner {
    pub x: i64,
}

#[derive(Clone)]
pub struct SmallModel {
    pub plain: u32,
    pub nested: SmallInner,
    pub items: Vec<u32>,
    pub nested_items: Vec<SmallInner>,
}

pub struct RcSmallInner {
    pub x: RcSignal<i64>,
}

impl RcSmallInner {
    pub fn new(data: SmallInner) -> RcSmallInner {
        RcSmallInner { x: create_rc_signal(data.x) }
    }
}

pub struct RcSmallModel {
    pub plain: RcSignal<u32>,
    pub nested: RcSignal<RcSmallInner>,
    pub items: RcCollectionSignal<u32>,
    pub nested_items: RcCollectionSignal<RcSmallInner>,
}

impl RcSmallModel {
    pub fn new(data: SmallModel) -> RcSmallModel {
        RcSmallModel {
            plain: create_rc_signal(data.plain),
            nested: create_rc_signal(RcSmallInner::new(data.nested)),
            items: RcCollectionSignal::new(data.items.into_iter().collect::<Vec<_>>()),
            nested_items: RcCollectionSignal::new(
                data.nested_items.into_iter().map(RcSmallInner::new).collect::<Vec<_>>(),
            ),
        }
    }
}

pub struct RefSmallInner<'stateful> {
    pub x: &'stateful Signal<i64>,
}

impl<'stateful> RefSmallInner<'stateful> {
    pub fn new(cx: Scope<'stateful>, data: SmallInner) -> RefSmallInner<'stateful> {
        RefSmallInner { x: create_signal(cx, data.x) }
    }
}

pub struct RefSmallModel<'stateful> {
    pub plain: &'stateful Signal<u32>,
    pub nested: &'stateful Signal<RefSmallInner<'stateful>>,
    pub items: RefCollectionSignal<'stateful, u32>,
    pub nested_items: RefCollectionSignal<'stateful, RefSmallInner<'stateful>>,
}

impl<'stateful> RefSmallModel<'stateful> {
    pub fn new(cx: Scope<'stateful>, data: SmallModel) -> RefSmallModel<'stateful> {
        RefSmallModel {
            plain: create_signal(cx, data.plain),
            nested: create_signal(cx, RefSmallInner::new(cx, data.nested)),
            items: RefCollectionSignal::new(cx, data.items.into_iter().collect::<Vec<_>>()),
            nested_items: RefCollectionSignal::new(
                cx,
                data.nested_items
                    .into_iter()
                    .map(|a| RefSmallInner::new(cx, a))
                    .collect::<Vec<_>>(),
            ),
        }
    }
}

fn small_source() -> SmallModel {
    SmallModel {
        plain: 1,
        nested: SmallInner { x: 7 },
        items: vec![4, 5],
        nested_items: vec![SmallInner { x: 8 }, SmallInner { x: 9 }],
    }
}

#[test]
fn dual_companions_hold_the_source_values() {
    let rc = RcSmallModel::new(small_source());
    assert_eq!(*rc.plain.get(), 1);
    assert_eq!(*rc.nested.get().x.get(), 7);
    assert_eq!(rc.items.len(), 2);
    assert_eq!(rc.items.position(|a| *a == 4), Some(0));
    assert_eq!(rc.items.position(|a| *a == 5), Some(1));
    assert_eq!(rc.nested_items.len(), 2);
    assert_eq!(rc.nested_items.position(|a| *a.x.get() == 8), Some(0));
    assert_eq!(rc.nested_items.position(|a| *a.x.get() == 9), Some(1));

    let _ = create_scope(|cx| {
        let rf = RefSmallModel::new(cx, small_source());
        assert_eq!(*rf.plain.get(), 1);
        assert_eq!(*rf.nested.get().x.get(), 7);
        assert_eq!(rf.items.len(), 2);
        assert_eq!(rf.items.position(|a| *a == 4), Some(0));
        assert_eq!(rf.items.position(|a| *a == 5), Some(1));
        assert_eq!(rf.nested_items.len(), 2);
        assert_eq!(rf.nested_items.position(|a| *a.x.get() == 8), Some(0));
        assert_eq!(rf.nested_items.position(|a| *a.x.get() == 9), Some(1));
    });
}
