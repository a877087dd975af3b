use console_toolkit::carol::{carol, day_name, gift, verse, DAYS};

/// The carol as two nested loops write it.
fn expected_carol() -> Vec<String> {
    let days = [
        "first", "second", "third", "fourth", "fifth", "sixth", "seventh", "eighth", "ninth",
        "tenth", "eleventh", "twelfth",
    ];
    let gifts = [
        "a Partridge in a Pear Tree",
        "Two Turtle Doves",
        "Three French Hens",
        "Four Calling Birds",
        "Five Golden Rings",
        "Six Geese a Laying",
        "Seven Swans a Swimming",
        "Eight Maids a Milking",
        "Nine Ladies Dancing",
        "Ten Lords a Leaping",
        "Eleven Pipers Piping",
        "Twelve Drummers Drumming",
    ];
    let mut lines = Vec::new();
    for i in 0..12 {
        lines.push(format!(
            "On the {} day of Christmas my true love sent to me",
            days[i]
        ));
        for j in (0..i + 1).rev() {
            let mut line = String::new();
            if j == 0 && i > 0 {
                line.push_str("and ");
            }
            line.push_str(gifts[j]);
            lines.push(line);
        }
        lines.push(String::new());
    }
    lines
}

#[test]
fn first_verse_has_one_gift_and_no_conjunction() {
    assert_eq!(
        verse(0),
        vec![
            "On the first day of Christmas my true love sent to me",
            "a Partridge in a Pear Tree",
            "",
        ]
    );
}

#[test]
fn second_verse_has_two_gifts_in_order() {
    assert_eq!(
        verse(1),
        vec![
            "On the second day of Christmas my true love sent to me",
            "Two Turtle Doves",
            "and a Partridge in a Pear Tree",
            "",
        ]
    );
}

#[test]
fn last_verse_lists_every_gift() {
    assert_eq!(
        verse(11),
        vec![
            "On the twelfth day of Christmas my true love sent to me",
            "Twelve Drummers Drumming",
            "Eleven Pipers Piping",
            "Ten Lords a Leaping",
            "Nine Ladies Dancing",
            "Eight Maids a Milking",
            "Seven Swans a Swimming",
            "Six Geese a Laying",
            "Five Golden Rings",
            "Four Calling Birds",
            "Three French Hens",
            "Two Turtle Doves",
            "and a Partridge in a Pear Tree",
            "",
        ]
    );
}

#[test]
fn twelve_verses_each_followed_by_one_blank_line() {
    let lines = carol();
    assert_eq!(lines.len(), 102);
    assert_eq!(lines.iter().filter(|line| line.is_empty()).count(), 12);
    assert_eq!(
        lines
            .iter()
            .filter(|line| line.starts_with("On the "))
            .count(),
        12
    );
    let mut at = 0;
    for i in 0..DAYS {
        let this = verse(i);
        assert_eq!(this.len(), i + 3);
        assert_eq!(at, i * (i + 5) / 2);
        assert_eq!(&lines[at..at + this.len()], &this[..]);
        assert_eq!(this[this.len() - 1], "");
        assert!(this[..this.len() - 1].iter().all(|line| !line.is_empty()));
        at += this.len();
    }
    assert_eq!(at, lines.len());
}

#[test]
fn conjunction_comes_once_in_each_later_verse() {
    for i in 0..DAYS {
        let this = verse(i);
        let with: Vec<usize> = (0..this.len())
            .filter(|&k| this[k].starts_with("and "))
            .collect();
        if i == 0 {
            assert!(with.is_empty());
        } else {
            assert_eq!(with, vec![i + 1]);
            assert_eq!(this[i + 1], "and a Partridge in a Pear Tree");
        }
    }
}

#[test]
fn whole_carol() {
    assert_eq!(carol(), expected_carol());
}

#[test]
fn names_of_days_and_gifts() {
    assert_eq!(day_name(0), "first");
    assert_eq!(day_name(4), "fifth");
    assert_eq!(day_name(11), "twelfth");
    assert_eq!(gift(0), "a Partridge in a Pear Tree");
    assert_eq!(gift(4), "Five Golden Rings");
    assert_eq!(gift(11), "Twelve Drummers Drumming");
}
