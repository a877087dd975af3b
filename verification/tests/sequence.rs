use console_toolkit::input::ParseFailure;
use console_toolkit::sequence::{
    evaluate, index_of, prompt, report, run, value_for_index, Source, MAX_INDEX,
};

/// The pair (0, 1) advanced `steps` times, second value.
fn second_after(steps: u32) -> u64 {
    let (mut a, mut b) = (0u64, 1u64);
    for _ in 0..steps {
        let c = a + b;
        a = b;
        b = c;
    }
    b
}

#[test]
fn first_index_reports_one() {
    assert_eq!(value_for_index(1), 1);
    assert_eq!(evaluate(1), Some(1));
    assert_eq!(report(1), "1st Fibonacci number: 1");
}

#[test]
fn second_index_needs_no_advance() {
    assert_eq!(value_for_index(2), 1);
    assert_eq!(report(2), "2th Fibonacci number: 1");
}

#[test]
fn index_five_advances_three_times() {
    assert_eq!(value_for_index(5), 3);
    assert_eq!(report(5), "5th Fibonacci number: 3");
}

#[test]
fn index_ten_advances_eight_times() {
    assert_eq!(value_for_index(10), 34);
    assert_eq!(report(10), "10th Fibonacci number: 34");
}

#[test]
fn small_indices_in_order() {
    let shown: Vec<u64> = (1..=12).map(value_for_index).collect();
    assert_eq!(shown, vec![1, 1, 1, 2, 3, 5, 8, 13, 21, 34, 55, 89]);
}

#[test]
fn every_index_matches_the_advanced_pair() {
    for n in 2..=MAX_INDEX {
        assert_eq!(value_for_index(n), second_after(n - 2), "index {}", n);
    }
}

#[test]
fn reported_values_obey_the_recurrence_from_the_fourth() {
    for n in 4..=MAX_INDEX {
        assert_eq!(
            value_for_index(n),
            value_for_index(n - 1) + value_for_index(n - 2)
        );
    }
}

#[test]
fn third_index_breaks_the_recurrence() {
    assert_eq!(value_for_index(3), 1);
    assert_ne!(value_for_index(3), value_for_index(2) + value_for_index(1));
}

#[test]
fn largest_index_is_the_last_that_fits() {
    assert_eq!(MAX_INDEX, 94);
    assert_eq!(value_for_index(MAX_INDEX), 12200160415121876738);
    let before = value_for_index(MAX_INDEX - 1);
    assert!(before.checked_add(value_for_index(MAX_INDEX)).is_none());
    assert_eq!(
        report(94),
        "94th Fibonacci number: 12200160415121876738"
    );
}

#[test]
fn zero_is_invalid() {
    assert_eq!(evaluate(0), None);
    assert_eq!(report(0), "Invalid input!");
}

#[test]
fn negative_indices_are_invalid() {
    for n in [-1i64, -2, -94, -95, i64::MIN] {
        assert_eq!(evaluate(n), None);
        assert_eq!(report(n), "Invalid input!");
    }
}

#[test]
fn invalid_message_holds_no_digit() {
    assert!(!report(-7).chars().any(|c| c.is_ascii_digit()));
}

#[test]
fn prompt_text() {
    assert_eq!(prompt(), "Please input n for printing nth Fibonacci number");
}

#[test]
fn constant_source_runs() {
    let source = Source::Constant(7);
    assert_eq!(index_of(&source), Ok(7));
    assert_eq!(run(&source), Ok(String::from("7th Fibonacci number: 8")));
    assert_eq!(
        run(&Source::Constant(-3)),
        Ok(String::from("Invalid input!"))
    );
}

#[test]
fn line_source_runs() {
    let source = Source::Line(String::from("  10\n"));
    assert_eq!(index_of(&source), Ok(10));
    assert_eq!(run(&source), Ok(String::from("10th Fibonacci number: 34")));
    assert_eq!(
        run(&Source::Line(String::from("0\n"))),
        Ok(String::from("Invalid input!"))
    );
}

#[test]
fn line_source_fails_as_the_line_does() {
    assert_eq!(
        run(&Source::Line(String::from("\n"))),
        Err(ParseFailure::Empty)
    );
    assert_eq!(
        run(&Source::Line(String::from("ten\n"))),
        Err(ParseFailure::InvalidDigit)
    );
    assert_eq!(
        run(&Source::Line(String::from("-1\n"))),
        Err(ParseFailure::InvalidDigit)
    );
    assert_eq!(
        run(&Source::Line(String::from("4294967296\n"))),
        Err(ParseFailure::Overflow)
    );
    assert_eq!(
        index_of(&Source::Line(String::from("4294967295"))),
        Ok(4294967295)
    );
}
