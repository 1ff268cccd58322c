use rmcmc::{Dependent, Independent, Lens, Parameter};

#[test]
fn simple() {
    struct Foo {
        pub bar: i32,
    }

    let len: Lens<i32, Foo, _, _> = Lens::new(
        |x: &Foo| (*x).bar,
        |x: &Foo, y: i32| Foo { bar: y, ..*x },
    );

    let a = Foo { bar: 1 };
    assert_eq!(len.get(&a), 1i32);

    let b = len.set(&a, 2);
    assert_eq!(b.bar, 2i32);
}

#[test]
fn simple_macro() {
    struct Foo {
        pub bar: i32,
    }

    let len = Lens::new(|s: &Foo| s.bar, |s: &Foo, x: i32| Foo { bar: x, ..*s });
    let a = Foo { bar: 1 };

    assert_eq!(len.get(&a).clone(), 1);

    let b = len.set(&a, 2_i32);
    assert_eq!(b.bar, 2);
}

#[derive(Clone, Debug, PartialEq)]
struct Pair {
    x: i64,
    y: i64,
}

#[test]
fn lens_round_trip_keeps_other_fields() {
    let lens = Lens::new(|p: &Pair| p.x, |p: &Pair, v: i64| Pair { x: v, ..p.clone() });
    let a = Pair { x: 3, y: -7 };
    for v in [-5i64, 0, 3, 42, i64::MAX] {
        let b = lens.set(&a, v);
        assert_eq!(lens.get(&b), v);
        assert_eq!(b.y, -7);
    }
    // the input is left as it was
    assert_eq!(a, Pair { x: 3, y: -7 });
}

#[test]
fn lens_set_in_place() {
    let lens = Lens::new(|p: &Pair| p.y, |p: &Pair, v: i64| Pair { y: v, ..p.clone() });
    let mut a = Pair { x: 1, y: 2 };
    lens.set_in_place(&mut a, 9);
    assert_eq!(a, Pair { x: 1, y: 9 });
    assert_eq!(lens.get(&a), 9);
}

#[test]
fn parameter_priors_and_values() {
    let lens = Lens::new(|p: &Pair| p.x, |p: &Pair, v: i64| Pair { x: v, ..p.clone() });
    let fixed = Parameter::new("x".to_string(), Independent(10u32), lens);
    let a = Pair { x: 1, y: 2 };
    assert_eq!(fixed.name, "x");
    assert_eq!(fixed.prior(&a), 10);
    assert_eq!(fixed.with_value(&a, 5), Pair { x: 5, y: 2 });

    let lens_y = Lens::new(|p: &Pair| p.y, |p: &Pair, v: i64| Pair { y: v, ..p.clone() });
    let hierarchical = Parameter::new("y".to_string(), Dependent(|p: &Pair| p.x * 3), lens_y);
    assert_eq!(hierarchical.prior(&a), 3);
    assert_eq!(hierarchical.prior(&Pair { x: 4, y: 0 }), 12);
}

#[test]
fn lens_clone_behaves_alike() {
    let lens = Lens::new(|p: &Pair| p.x, |p: &Pair, v: i64| Pair { x: v, ..p.clone() });
    let copy = lens.clone();
    let a = Pair { x: 1, y: 2 };
    assert_eq!(copy.set(&a, 7), lens.set(&a, 7));
    assert_eq!(copy.get(&a), 1);
}
