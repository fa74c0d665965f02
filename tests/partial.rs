use std::cell::Cell;

use partial_application::apply::fill_arguments;
use partial_application::partial::Partial;
use partial_application::slot::{placeholder_count, Slot};

#[test]
fn argument_order() {
    // non-commutative arguments: a wrong forwarding order gives another result
    fn foo(a: u32, b: u32) -> u32 {
        100 + a - b
    }

    for i in 0..10 {
        for j in 0..10 {
            let p = Partial::new(
                |v: Vec<u32>| foo(v[0], v[1]),
                vec![Slot::Fixed(i), Slot::Placeholder],
            );
            assert_eq!(foo(i, j), p.call(vec![j]));
        }
    }
}

fn bits(a: bool, b: bool, c: bool, d: bool, e: bool, f: bool) -> u8 {
    fn shift(b: bool, n: usize) -> u8 {
        (b as u8) << n
    }
    // in reverse so that a is the most significant bit: the result reads abcdef
    [f, e, d, c, b, a]
        .iter()
        .cloned()
        .enumerate()
        .fold(0, |acc, (n, arg)| acc | shift(arg, n))
}

#[test]
fn interspersed_expr_and_forwarders() {
    let reduced_foo = Partial::new(
        |v: Vec<bool>| bits(v[0], v[1], v[2], v[3], v[4], v[5]),
        vec![
            Slot::Fixed(true),
            Slot::Placeholder,
            Slot::Placeholder,
            Slot::Fixed(true),
            Slot::Fixed(true),
            Slot::Placeholder,
        ],
    );
    assert_eq!(reduced_foo.call(vec![false, false, false]), 0b100110);
}

#[test]
fn second_argument_fixed() {
    fn foo(a: u32, b: u32) -> u32 {
        100 + a - b
    }
    for i in 0..10 {
        for j in 0..10 {
            let p = Partial::new(
                |v: Vec<u32>| foo(v[0], v[1]),
                vec![Slot::Placeholder, Slot::Fixed(j)],
            );
            assert_eq!(foo(i, j), p.call(vec![i]));
        }
    }
}

#[test]
fn fixed_slot_reevaluated_each_call() {
    let n = Cell::new(0u32);
    let eval = |_: ()| {
        n.set(n.get() + 1);
        n.get()
    };
    let identity = Partial::new(|v: Vec<u32>| v[0], vec![Slot::Fixed(())]);
    assert_eq!(identity.call_evaluating(&eval, vec![]), 1);
    assert_eq!(identity.call_evaluating(&eval, vec![]), 2);
}

#[test]
fn evaluated_slots_keep_positions() {
    let eval = |k: u32| k * 10;
    let p = Partial::new(
        |v: Vec<u32>| v,
        vec![Slot::Fixed(1), Slot::Placeholder, Slot::Fixed(3), Slot::Placeholder],
    );
    assert_eq!(p.call_evaluating(&eval, vec![7, 8]), vec![10, 7, 30, 8]);
}

#[test]
fn zero_placeholder_closure_is_a_thunk() {
    let calls = Cell::new(0u32);
    let target = |v: Vec<u32>| {
        calls.set(calls.get() + 1);
        v[0] + v[1]
    };
    let thunk = Partial::new(target, vec![Slot::Fixed(2), Slot::Fixed(3)]);
    assert_eq!(thunk.arity(), 0);
    for k in 1..=3 {
        assert_eq!(thunk.call(vec![]), 5);
        assert_eq!(calls.get(), k);
    }
}

#[test]
fn all_placeholders_preserve_arity() {
    fn foo(a: i32, b: i32, c: i32) -> i32 {
        a * 100 + b * 10 - c
    }
    let p = Partial::new(
        |v: Vec<i32>| foo(v[0], v[1], v[2]),
        vec![Slot::Placeholder, Slot::Placeholder, Slot::Placeholder],
    );
    assert_eq!(p.arity(), 3);
    for a in -2..3 {
        for b in -2..3 {
            for c in -2..3 {
                assert_eq!(p.call(vec![a, b, c]), foo(a, b, c));
            }
        }
    }
}

#[test]
fn owning_call_moves_its_capture() {
    let owned = String::from("abc");
    let p = Partial::new(
        move |v: Vec<usize>| {
            let mut s = owned;
            s.truncate(v[0]);
            s
        },
        vec![Slot::Placeholder],
    );
    assert_eq!(p.call_once(vec![2]), "ab");
}

#[test]
fn maximum_arity() {
    let mut slots: Vec<Slot<()>> = vec![Slot::Fixed(()); 61];
    slots.push(Slot::Placeholder);
    assert_eq!(slots.len(), 62);
    assert_eq!(placeholder_count(&slots), 1);
    let p = Partial::new(|v: Vec<()>| v.len(), slots.clone());
    assert_eq!(p.call(vec![()]), 62);

    let all_fixed: Vec<Slot<()>> = vec![Slot::Fixed(()); 62];
    let q = Partial::new(|v: Vec<()>| v.len(), all_fixed);
    assert_eq!(q.arity(), 0);
    assert_eq!(q.call(vec![]), 62);

    let mixed: Vec<Slot<u32>> = (0..62)
        .map(|k| if k % 2 == 0 { Slot::Placeholder } else { Slot::Fixed(k) })
        .collect();
    let xs: Vec<u32> = (0..31).map(|k| 1000 + k).collect();
    let full = fill_arguments(&mixed, &xs);
    assert_eq!(full.len(), 62);
    for k in 0..62u32 {
        let expected = if k % 2 == 0 { 1000 + k / 2 } else { k };
        assert_eq!(full[k as usize], expected);
    }
}

#[test]
fn fill_places_values_and_arguments() {
    let slots = vec![
        Slot::Placeholder,
        Slot::Fixed(5),
        Slot::Placeholder,
        Slot::Placeholder,
        Slot::Fixed(9),
    ];
    assert_eq!(placeholder_count(&slots), 3);
    assert_eq!(fill_arguments(&slots, &vec![1, 2, 3]), vec![1, 5, 2, 3, 9]);
    assert_eq!(fill_arguments(&Vec::<Slot<u8>>::new(), &vec![]), Vec::<u8>::new());
}

#[test]
fn slot_is_placeholder() {
    assert!(Slot::<u8>::Placeholder.is_placeholder());
    assert!(!Slot::Fixed(1u8).is_placeholder());
}
