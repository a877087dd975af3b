use console_toolkit::bindings::{
    immutable_trace, mutable_trace, shadow, shadowing_trace, Shadowed, REPLACEMENT, SEED,
};
use console_toolkit::countdown::{countdown, START};
use console_toolkit::greeting::greeting;

#[test]
fn countdown_from_three() {
    assert_eq!(START, 3);
    assert_eq!(countdown(3), vec!["3!", "2!", "1!", "LIFTOFF!!!"]);
}

#[test]
fn countdown_from_zero_only_lifts_off() {
    assert_eq!(countdown(0), vec!["LIFTOFF!!!"]);
}

#[test]
fn countdown_descends_to_one() {
    let lines = countdown(120);
    assert_eq!(lines.len(), 121);
    for k in 0..120 {
        assert_eq!(lines[k], format!("{}!", 120 - k));
    }
    assert_eq!(lines[120], "LIFTOFF!!!");
    assert_eq!(lines.iter().filter(|line| *line == "LIFTOFF!!!").count(), 1);
}

#[test]
fn greeting_is_one_fixed_line() {
    let first = greeting();
    assert_eq!(first, "Hello World!");
    assert_eq!(first.lines().count(), 1);
    assert_eq!(greeting(), first);
}

#[test]
fn shadowing_from_five() {
    assert_eq!(SEED, 5);
    assert_eq!(
        shadow(5),
        Shadowed {
            outer: 6,
            inner: 12,
            outer_after: 6
        }
    );
    assert_eq!(
        shadowing_trace(5),
        vec![
            "The value of x in the inner scope is: 12",
            "The value of x is: 6",
        ]
    );
}

#[test]
fn inner_scope_leaves_the_outer_binding() {
    for seed in [i32::MIN, -2, -1, 0, 1, 5, 1000, i32::MAX] {
        let values = shadow(seed);
        assert_eq!(values.outer, seed as i64 + 1);
        assert_eq!(values.inner, 2 * (seed as i64 + 1));
        assert_eq!(values.outer_after, values.outer);
    }
}

#[test]
fn shadowing_with_negative_values() {
    assert_eq!(
        shadowing_trace(-4),
        vec![
            "The value of x in the inner scope is: -6",
            "The value of x is: -3",
        ]
    );
    assert_eq!(
        shadowing_trace(i32::MAX),
        vec![
            "The value of x in the inner scope is: 4294967296",
            "The value of x is: 2147483648",
        ]
    );
}

#[test]
fn mutable_binding_shows_both_values() {
    assert_eq!(REPLACEMENT, 6);
    assert_eq!(
        mutable_trace(5, 6),
        vec!["The value of x is: 5", "The value of x is: 6"]
    );
    assert_eq!(
        mutable_trace(-1, i32::MIN),
        vec!["The value of x is: -1", "The value of x is: -2147483648"]
    );
}

#[test]
fn immutable_binding_shows_the_same_value_twice() {
    assert_eq!(
        immutable_trace(5),
        vec!["The value of x is: 5", "The value of x is: 5"]
    );
}
