use reminder::number::{checked_sanitise_to_u32, sanitise_to_u32, ParseError};
use reminder::reminder::Reminder;
use reminder::schedule::{parse_line, parse_schedule, ScheduleError};
use reminder::text::{chars_of, split_lines, split_ranges};

fn entry(string: &str, repeating: bool, every: u32) -> Reminder {
    Reminder {
        string: string.to_string(),
        repeating,
        triggered: false,
        every,
        duration_until: u64::from(every),
    }
}

#[test]
fn sanitise_keeps_only_digits() {
    assert_eq!(sanitise_to_u32("30"), 30);
    assert_eq!(sanitise_to_u32("10N"), 10);
    assert_eq!(sanitise_to_u32(" 1a2b3 "), 123);
    assert_eq!(sanitise_to_u32("007"), 7);
    assert_eq!(sanitise_to_u32("0"), 0);
}

#[test]
fn sanitise_reaches_the_largest_number() {
    assert_eq!(sanitise_to_u32("4294967295"), u32::MAX);
    assert_eq!(sanitise_to_u32("0000000000004294967295"), u32::MAX);
    assert_eq!(checked_sanitise_to_u32("4294967295"), Ok(u32::MAX));
}

#[test]
fn sanitise_agrees_with_the_standard_parser() {
    for s in ["5", "12x", "x9y8", "65536", "١٢3"] {
        let digits: String = s.chars().filter(|c| c.is_digit(10)).collect();
        assert_eq!(sanitise_to_u32(s), digits.parse::<u32>().unwrap());
    }
}

#[test]
fn checked_sanitise_reports_missing_digits() {
    assert_eq!(checked_sanitise_to_u32(""), Err(ParseError::NoDigits));
    assert_eq!(checked_sanitise_to_u32("abc"), Err(ParseError::NoDigits));
    assert_eq!(checked_sanitise_to_u32("N"), Err(ParseError::NoDigits));
}

#[test]
fn checked_sanitise_reports_overflow() {
    assert_eq!(checked_sanitise_to_u32("4294967296"), Err(ParseError::NumberTooLarge));
    assert_eq!(checked_sanitise_to_u32("99999999999"), Err(ParseError::NumberTooLarge));
    assert_eq!(checked_sanitise_to_u32("4294967295 0"), Err(ParseError::NumberTooLarge));
}

#[test]
fn chars_of_lists_every_character() {
    assert_eq!(chars_of(""), Vec::<char>::new());
    assert_eq!(chars_of("añ:z"), vec!['a', 'ñ', ':', 'z']);
}

#[test]
fn split_ranges_marks_each_piece() {
    let chars = chars_of("ab::c");
    assert_eq!(split_ranges(&chars, ':'), vec![(0, 2), (3, 3), (4, 5)]);
    assert_eq!(split_ranges(&chars_of(""), ':'), vec![(0, 0)]);
    assert_eq!(split_ranges(&chars_of(":"), ':'), vec![(0, 0), (1, 1)]);
}

#[test]
fn split_ranges_agrees_with_std_split() {
    for s in ["", "a", "a:b", ":a:", "::", "tea:0:5:0N", "é:ü"] {
        let chars = chars_of(s);
        let pieces: Vec<String> = split_ranges(&chars, ':')
            .into_iter()
            .map(|(from, to)| chars[from..to].iter().collect())
            .collect();
        let expected: Vec<String> = s.split(':').map(|p| p.to_string()).collect();
        assert_eq!(pieces, expected);
    }
}

#[test]
fn split_lines_agrees_with_std_lines() {
    for s in [
        "",
        "\n",
        "a",
        "a\n",
        "a\nb",
        "a\r\nb\r\n",
        "a\n\nb",
        "\r\n",
        "a\r\r\n",
        "x\ry\n",
        "a\r",
        "a\nb\r",
        "é\nü\n",
    ] {
        let expected: Vec<&str> = s.lines().collect();
        assert_eq!(split_lines(s), expected);
    }
}

#[test]
fn split_lines_keeps_an_unterminated_last_line() {
    assert_eq!(split_lines("one\ntwo"), vec!["one", "two"]);
    assert_eq!(split_lines("one\ntwo\n"), vec!["one", "two"]);
    assert_eq!(split_lines("one\n\n"), vec!["one", ""]);
}

#[test]
fn line_in_seconds() {
    assert_eq!(parse_line("Drink water:30"), Ok(Some(entry("Drink water", true, 30))));
}

#[test]
fn line_in_minutes_and_seconds() {
    assert_eq!(parse_line("Stretch:2:30"), Ok(Some(entry("Stretch", true, 150))));
}

#[test]
fn line_in_hours_minutes_and_seconds() {
    assert_eq!(parse_line("Lunch:1:2:3"), Ok(Some(entry("Lunch", true, 3723))));
}

#[test]
fn line_that_does_not_repeat() {
    assert_eq!(parse_line("Call home:0:10:0N"), Ok(Some(entry("Call home", false, 600))));
    assert_eq!(parse_line("Once:5N"), Ok(Some(entry("Once", false, 5))));
}

#[test]
fn line_with_empty_text() {
    assert_eq!(parse_line(":5"), Ok(Some(entry("", true, 5))));
}

#[test]
fn skipped_lines() {
    assert_eq!(parse_line(""), Ok(None));
    assert_eq!(parse_line("/ a comment: 5"), Ok(None));
    assert_eq!(parse_line("no duration"), Ok(None));
    assert_eq!(parse_line("N"), Ok(None));
}

#[test]
fn zero_interval_is_not_registered() {
    assert_eq!(parse_line("Never:0"), Ok(None));
    assert_eq!(parse_line("Never:0:0:0"), Ok(None));
}

#[test]
fn more_than_three_duration_fields_give_nothing() {
    assert_eq!(parse_line("Odd:1:2:3:4"), Ok(None));
    assert_eq!(parse_line("Odd:a:b:c:d"), Ok(None));
}

#[test]
fn line_without_digits_is_an_error() {
    assert_eq!(parse_line("Text:"), Err(ParseError::NoDigits));
    assert_eq!(parse_line("Text:abc"), Err(ParseError::NoDigits));
    assert_eq!(parse_line("Text:1::3"), Err(ParseError::NoDigits));
    assert_eq!(parse_line("Text:N"), Err(ParseError::NoDigits));
}

#[test]
fn line_with_too_large_a_number_is_an_error() {
    assert_eq!(parse_line("Text:4294967296"), Err(ParseError::NumberTooLarge));
    assert_eq!(parse_line("Text:1:99999999999"), Err(ParseError::NumberTooLarge));
}

#[test]
fn first_bad_field_decides_the_error() {
    assert_eq!(parse_line("Text:x:4294967296"), Err(ParseError::NoDigits));
    assert_eq!(parse_line("Text:4294967296:x"), Err(ParseError::NumberTooLarge));
}

#[test]
fn line_with_too_large_an_interval_is_an_error() {
    assert_eq!(parse_line("Text:1:4294967295"), Err(ParseError::IntervalTooLarge));
    assert_eq!(parse_line("Text:71582789:0"), Err(ParseError::IntervalTooLarge));
    assert_eq!(parse_line("Text:1193047:0:0"), Err(ParseError::IntervalTooLarge));
}

#[test]
fn largest_interval_is_accepted() {
    assert_eq!(parse_line("Text:4294967295"), Ok(Some(entry("Text", true, u32::MAX))));
    assert_eq!(parse_line("Text:71582788:15"), Ok(Some(entry("Text", true, u32::MAX))));
}

#[test]
fn schedule_with_comments_and_blank_lines() {
    let text = "/ my schedule\n\nDrink water:30\r\nStretch:1:0:0N\nnothing here\nNever:0\n";
    assert_eq!(
        parse_schedule(text),
        Ok(vec![entry("Drink water", true, 30), entry("Stretch", false, 3600)])
    );
}

#[test]
fn empty_schedule() {
    assert_eq!(parse_schedule(""), Ok(vec![]));
    assert_eq!(parse_schedule("\n\n"), Ok(vec![]));
}

#[test]
fn schedule_reports_the_first_bad_line() {
    let text = "Fine:5\n/ comment\nBad:\nWorse:99999999999\n";
    assert_eq!(parse_schedule(text), Err(ScheduleError { line: 2, kind: ParseError::NoDigits }));
}

#[test]
fn schedule_reports_interval_overflow() {
    let text = "Long:4294967295:0:0";
    assert_eq!(
        parse_schedule(text),
        Err(ScheduleError { line: 0, kind: ParseError::IntervalTooLarge })
    );
}

#[test]
fn text_before_the_first_colon_is_the_message() {
    assert_eq!(parse_line("a b c:1:0"), Ok(Some(entry("a b c", true, 60))));
    assert_eq!(parse_line("N:5"), Ok(Some(entry("N", true, 5))));
    assert_eq!(parse_line("Grüße:1"), Ok(Some(entry("Grüße", true, 1))));
}

#[test]
fn digits_are_read_through_other_characters() {
    assert_eq!(parse_line("Tea: 1 h : 30 min : 0 s"), Ok(Some(entry("Tea", true, 5400))));
    assert_eq!(parse_line("Tea:1.5"), Ok(Some(entry("Tea", true, 15))));
}

#[test]
fn parsed_reminders_are_registered() {
    let reminders = parse_schedule("a:1\nb:2:0\nc:1:0:0N").unwrap();
    assert_eq!(reminders.len(), 3);
    for r in &reminders {
        assert!(r.every > 0);
        assert!(!r.triggered);
        assert_eq!(r.duration_until, u64::from(r.every));
    }
}
