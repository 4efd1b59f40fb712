//! Tagged-union companions: the same observable behaviour the derivation
//! plans, written out for two small unions.

use sycamore::reactive::{create_effect, create_rc_signal, create_scope, create_signal};
use sycamore::reactive::{RcSignal, Scope, Signal};

#[derive(Clone)]
pub enum SimpleEnum {
    Variant1(String),
    Variant2(i32),
}

// The companions below are exactly what the derivation's declaration and
// constructor plans prescribe for `SimpleEnum` (see derive_tests).
#[derive(Clone)]
pub enum RcSimpleEnum {
    Variant1(RcSignal<String>),
    Variant2(RcSignal<i32>),
}

impl RcSimpleEnum {
    pub fn new(data: SimpleEnum) -> RcSimpleEnum {
        match data {
            SimpleEnum::Variant1(data) => RcSimpleEnum::Variant1(create_rc_signal(data)),
            SimpleEnum::Variant2(data) => RcSimpleEnum::Variant2(create_rc_signal(data)),
        }
    }
}

#[derive(Clone, Copy)]
pub enum RefSimpleEnum<'stateful> {
    Variant1(&'stateful Signal<String>),
    Variant2(&'stateful Signal<i32>),
}

impl<'stateful> RefSimpleEnum<'stateful> {
    pub fn new(cx: Scope<'stateful>, data: SimpleEnum) -> RefSimpleEnum<'stateful> {
        match data {
            SimpleEnum::Variant1(data) => RefSimpleEnum::Variant1(create_signal(cx, data)),
            SimpleEnum::Variant2(data) => RefSimpleEnum::Variant2(create_signal(cx, data)),
        }
    }
}

#[derive(Clone)]
pub struct InnerState {
    pub field1: String,
    pub field2: i32,
}

#[derive(Clone)]
pub struct RcInnerState {
    pub field1: RcSignal<String>,
    pub field2: RcSignal<i32>,
}

impl RcInnerState {
    pub fn new(data: InnerState) -> RcInnerState {
        RcInnerState {
            field1: create_rc_signal(data.field1),
            field2: create_rc_signal(data.field2),
        }
    }
}

#[derive(Clone, Copy)]
pub struct RefInnerState<'stateful> {
    pub field1: &'stateful Signal<String>,
    pub field2: &'stateful Signal<i32>,
}

impl<'stateful> RefInnerState<'stateful> {
    pub fn new(cx: Scope<'stateful>, data: InnerState) -> RefInnerState<'stateful> {
        RefInnerState {
            field1: create_signal(cx, data.field1),
            field2: create_signal(cx, data.field2),
        }
    }
}

#[derive(Clone)]
pub enum StatefulEnum {
    Variant1(InnerState),
}

#[derive(Clone)]
pub enum RcStatefulEnum {
    Variant1(RcSignal<RcInnerState>),
}

impl RcStatefulEnum {
    pub fn new(data: StatefulEnum) -> RcStatefulEnum {
        match data {
            StatefulEnum::Variant1(data) => {
                RcStatefulEnum::Variant1(create_rc_signal(RcInnerState::new(data)))
            }
        }
    }
}

#[derive(Clone, Copy)]
pub enum RefStatefulEnum<'stateful> {
    Variant1(&'stateful Signal<RefInnerState<'stateful>>),
}

impl<'stateful> RefStatefulEnum<'stateful> {
    pub fn new(cx: Scope<'stateful>, data: StatefulEnum) -> RefStatefulEnum<'stateful> {
        match data {
            StatefulEnum::Variant1(data) => {
                RefStatefulEnum::Variant1(create_signal(cx, RefInnerState::new(cx, data)))
            }
        }
    }
}

#[test]
fn simple_enum_test() {
    _ = create_scope(|cx| {
        let ref_simple_enum = RefSimpleEnum::new(cx, SimpleEnum::Variant1("test".into()));
        let rc_simple_enum = RcSimpleEnum::new(SimpleEnum::Variant2(15));
        let changes_counter = create_signal(cx, 0);
        let ref_clone = ref_simple_enum.clone();
        let rc_clone = rc_simple_enum.clone();
        create_effect(cx, move || {
            match &ref_clone {
                RefSimpleEnum::Variant1(data) => {
                    _ = data.get();
                }
                RefSimpleEnum::Variant2(data) => {
                    _ = data.get();
                }
            };
            match &rc_clone {
                RcSimpleEnum::Variant1(data) => {
                    _ = data.get();
                }
                RcSimpleEnum::Variant2(data) => {
                    _ = data.get();
                }
            };
            *changes_counter.modify() += 1;
        });

        let inner_ref = match &ref_simple_enum {
            RefSimpleEnum::Variant1(data) => data.get(),
            _ => unreachable!(),
        };

        assert_eq!(inner_ref.as_str(), "test");

        let inner_rc = match &rc_simple_enum {
            RcSimpleEnum::Variant1(_) => unreachable!(),
            RcSimpleEnum::Variant2(data) => data.get(),
        };

        assert_eq!(*inner_rc, 15);

        match &ref_simple_enum {
            RefSimpleEnum::Variant1(data) => data.set("test2".into()),
            RefSimpleEnum::Variant2(_) => unreachable!(),
        }

        let inner_ref = match &ref_simple_enum {
            RefSimpleEnum::Variant1(data) => data.get(),
            _ => unreachable!(),
        };

        assert_eq!(inner_ref.as_str(), "test2");

        match &rc_simple_enum {
            RcSimpleEnum::Variant1(_) => unreachable!(),
            RcSimpleEnum::Variant2(data) => data.set(20),
        }

        let inner_rc = match &rc_simple_enum {
            RcSimpleEnum::Variant1(_) => unreachable!(),
            RcSimpleEnum::Variant2(data) => data.get(),
        };

        assert_eq!(*inner_rc, 20);
        let changes = changes_counter.get();

        assert_eq!(*changes, 3)
    });
}

#[test]
fn stateful_enum_test() {
    _ = create_scope(|cx| {
        let ref_simple_enum = RefStatefulEnum::new(
            cx,
            StatefulEnum::Variant1(InnerState {
                field1: "test".into(),
                field2: 15,
            }),
        );
        let rc_simple_enum = RcStatefulEnum::new(StatefulEnum::Variant1(InnerState {
            field1: "test".into(),
            field2: 15,
        }));
        let changes_counter = create_signal(cx, 0);
        let ref_clone = ref_simple_enum.clone();
        let rc_clone = rc_simple_enum.clone();
        create_effect(cx, move || {
            match &ref_clone {
                RefStatefulEnum::Variant1(data) => {
                    let inner = data.get();
                    _ = inner.field1.get();
                    _ = inner.field2.get();
                }
            };
            match &rc_clone {
                RcStatefulEnum::Variant1(data) => {
                    let inner = data.get();
                    _ = inner.field1.get();
                    _ = inner.field2.get();
                }
            };
            *changes_counter.modify() += 1;
        });

        let inner_ref = match &ref_simple_enum {
            RefStatefulEnum::Variant1(data) => data.get(),
        };

        assert_eq!(inner_ref.field1.get().as_str(), "test");

        let inner_rc = match &rc_simple_enum {
            RcStatefulEnum::Variant1(data) => data,
        };

        assert_eq!(*inner_rc.get().field2.get(), 15);

        match &ref_simple_enum {
            RefStatefulEnum::Variant1(data) => data.get().field1.set("test2".into()),
        }

        let inner_ref = match &ref_simple_enum {
            RefStatefulEnum::Variant1(data) => data.get(),
        };

        assert_eq!(inner_ref.field1.get().as_str(), "test2");

        match &rc_simple_enum {
            RcStatefulEnum::Variant1(data) => data.get().field2.set(20),
        }

        let inner_rc = match &rc_simple_enum {
            RcStatefulEnum::Variant1(data) => data.get(),
        };

        assert_eq!(*inner_rc.field2.get(), 20);
        let changes = changes_counter.get();

        assert_eq!(*changes, 3)
    });
}
