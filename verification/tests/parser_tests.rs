use leakbuster::expressions::parser::parse_condition;
use leakbuster::expressions::parser::parse_duration;
use leakbuster::expressions::parser::parse_integer;
use leakbuster::expressions::parser::Condition;
use leakbuster::expressions::parser::ConditionAnd;
use leakbuster::expressions::parser::ConditionAtMostInSliding;
use leakbuster::expressions::parser::ConditionAtMostInThis;
use leakbuster::expressions::parser::ConditionNot;
use leakbuster::expressions::parser::ConditionOr;
use leakbuster::expressions::parser::ConditionWeekday;
use leakbuster::expressions::parser::Duration;
use leakbuster::expressions::parser::TimeUnit;

fn weekday(d: ConditionWeekday) -> Condition {
    Condition::Weekday(d)
}

#[test]
fn parser_weekday() {
    let test_cases = vec![
        ("Mon", ConditionWeekday::Mon),
        ("Tue", ConditionWeekday::Tue),
        ("Wed", ConditionWeekday::Wed),
        ("Thu", ConditionWeekday::Thu),
        ("Fri", ConditionWeekday::Fri),
        ("Sat", ConditionWeekday::Sat),
        ("Sun", ConditionWeekday::Sun),
    ];
    for (expr, cnd) in test_cases {
        assert_eq!(Ok(Condition::Weekday(cnd)), parse_condition(expr));
    }
}

#[test]
fn parser_whitespace_around_expression_doesnt_matter() {
    let examples = vec![" Mon", "Mon ", " Mon ", "\n\nMon", "\tMon\n\n"];
    for e in examples {
        assert_eq!(Ok(Condition::Weekday(ConditionWeekday::Mon)), parse_condition(e));
    }
}

#[test]
fn parser_not() {
    assert_eq!(
        Ok(Condition::Not(ConditionNot {
            c: Box::new(Condition::Weekday(ConditionWeekday::Mon)),
        })),
        parse_condition("not Mon")
    );
}

#[test]
fn superfluous_brackets_dont_matter() {
    let examples = vec![
        "Mon and Mon",
        "(Mon and Mon)",
        "( Mon and Mon )",
        "(Mon) and Mon",
        "Mon and (Mon)",
        "(Mon) and (Mon)",
        "( (Mon) and (Mon) )",
        "( Mon
                and
                        Mon  \t\t)",
    ];
    for e in examples {
        assert_eq!(
            Ok(Condition::And(ConditionAnd {
                c1: Box::new(Condition::Weekday(ConditionWeekday::Mon)),
                c2: Box::new(Condition::Weekday(ConditionWeekday::Mon)),
            })),
            parse_condition(e),
            "Trying to parse '{}'",
            e
        );
    }
}

#[test]
fn parser_and_or() {
    // the balanced text parses with `or` grouped inside `and`
    assert_eq!(
        Ok(Condition::And(ConditionAnd {
            c1: Box::new(Condition::Or(ConditionOr {
                c1: Box::new(Condition::Weekday(ConditionWeekday::Mon)),
                c2: Box::new(Condition::Weekday(ConditionWeekday::Mon)),
            })),
            c2: Box::new(Condition::Weekday(ConditionWeekday::Mon)),
        })),
        parse_condition("(Mon or Mon) and Mon")
    );
    // with an unbalanced closing parenthesis left over, the parse fails
    assert!(parse_condition("(Mon or Mon) and Mon)").is_err());
}

#[test]
fn at_most_in_sliding() {
    let exprs = vec![
        "atmost 15 s in sliding 10 m",
        " atmost    15  s     in  sliding     10  m ",
        "atmost\n\n15\ns\nin\nsliding\n10\nm",
        "\tatmost\t15\ts\tin\tsliding\t10\tm\t",
    ];
    for e in exprs {
        assert_eq!(
            Ok(Condition::AtMostInSliding(ConditionAtMostInSliding {
                limit: Duration { seconds: 15 },
                window_size: Duration { seconds: 600 },
            })),
            parse_condition(e)
        );
    }
}

#[test]
fn at_most_in_this() {
    let exprs = vec![
        "atmost 15 s in this week",
        " atmost    15  s     in  this     week",
        "atmost\n\n15\ns\nin\nthis\nweek\n",
        "\tatmost\t15\ts\tin\tthis\tweek\t",
    ];
    for e in exprs {
        assert_eq!(
            Ok(Condition::AtMostInThis(ConditionAtMostInThis {
                limit: Duration { seconds: 15 },
                time_unit: TimeUnit::Week,
            })),
            parse_condition(e)
        );
    }
}

#[test]
fn integers() {
    let test_cases = vec![0, 1, 10, 12343, 0007, 18446744073709551615u64];
    for t in test_cases {
        match parse_integer(&u64::to_string(&t)) {
            Some(x) => assert_eq!(t, x),
            _ => panic!("Parsing int resulted in error"),
        }
    }
}

#[test]
fn integer_overflow_is_rejected() {
    assert_eq!(None, parse_integer("18446744073709551616"));
    assert_eq!(None, parse_integer(""));
    assert_eq!(None, parse_integer("12x"));
    assert!(parse_condition("atmost 99999999999999999999 s in this day").is_err());
}

#[test]
fn duration_round_trip() {
    assert_eq!(600, parse_duration("10 m").unwrap().seconds);
    assert_eq!(604800, parse_duration("1 W").unwrap().seconds);
    assert_eq!(15, parse_duration("15 s").unwrap().seconds);
    assert_eq!(7200, parse_duration("2 h").unwrap().seconds);
    assert_eq!(259200, parse_duration("3 D").unwrap().seconds);
    assert_eq!(18446744073709551615, parse_duration("18446744073709551615 s").unwrap().seconds);
}

#[test]
fn duration_overflow_is_rejected() {
    assert!(parse_duration("18446744073709551615 m").is_err());
    assert!(parse_duration("400000000000000000 W").is_err());
}

#[test]
fn malformed_inputs_give_errors_not_panics() {
    // an unknown weekday token
    assert!(parse_condition("Xyz").is_err());
    assert!(parse_condition("monday").is_err());
    // unbalanced parentheses
    assert!(parse_condition("(Mon and Tue").is_err());
    assert!(parse_condition("Mon)").is_err());
    // non-numeric duration literals
    assert!(parse_duration("abc").is_err());
    assert!(parse_duration("10 x").is_err());
    assert!(parse_duration("ten m").is_err());
    assert!(parse_condition("atmost q m in this week").is_err());
    // a duration needs whitespace before its unit
    assert!(parse_duration("10m").is_err());
    // the empty string is no condition
    assert!(parse_condition("").is_err());
    assert!(parse_condition("   ").is_err());
}

#[test]
fn error_messages_name_the_position() {
    let msg = parse_condition("Mon and ???").unwrap_err();
    assert!(msg.contains("reached character 8"));
    assert!(msg.contains("a term"));
    let _ = weekday(ConditionWeekday::Mon);
}

#[test]
fn error_messages_name_the_deepest_rule() {
    // a bad unit letter deep inside a threshold form
    let msg = parse_condition("atmost 5 q in this day").unwrap_err();
    assert!(msg.contains("reached character 9"));
    assert!(msg.contains("a duration unit letter"));
    // a missing closing parenthesis
    let msg = parse_condition("(Mon and Tue").unwrap_err();
    assert!(msg.contains("a closing parenthesis"));
    // a bad calendar unit
    let msg = parse_condition("atmost 5 m in this fortnight").unwrap_err();
    assert!(msg.contains("a calendar unit"));
    let msg = parse_duration("10 q").unwrap_err();
    assert!(msg.contains("a duration unit letter"));
}

#[test]
fn and_is_right_associative() {
    let mon = || Box::new(Condition::Weekday(ConditionWeekday::Mon));
    let tue = || Box::new(Condition::Weekday(ConditionWeekday::Tue));
    let wed = || Box::new(Condition::Weekday(ConditionWeekday::Wed));
    assert_eq!(
        Ok(Condition::And(ConditionAnd {
            c1: mon(),
            c2: Box::new(Condition::And(ConditionAnd { c1: tue(), c2: wed() })),
        })),
        parse_condition("Mon and Tue and Wed")
    );
}

#[test]
fn parens_around_operands_are_transparent() {
    assert_eq!(parse_condition("(Mon) and (Tue)"), parse_condition("Mon and Tue"));
    assert_eq!(
        parse_condition("(atmost 5 m in sliding 1 h) and (Tue)"),
        parse_condition("atmost 5 m in sliding 1 h and Tue")
    );
    // wrapping a whole condition, and surrounding it with whitespace,
    // changes nothing
    assert_eq!(
        parse_condition("(not (Mon or atmost 1 h in this day))"),
        parse_condition("not (Mon or atmost 1 h in this day)")
    );
    assert_eq!(
        parse_condition("  \t( Mon and not Tue )\n"),
        parse_condition("Mon and not Tue")
    );
}
