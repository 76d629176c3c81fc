use todo_list::datetime::{now, parse_datetime, DateTime};
use todo_list::predicate::Predicate;
use todo_list::task::{Category, TaskStatus};

#[test]
fn test_predicate_parsing() {
    assert_eq!(
        "category = TestCategory".parse::<Predicate>().unwrap(),
        Predicate::Category("TestCategory".to_string())
    );
    assert_eq!(
        "status = on".parse::<Predicate>().unwrap(),
        Predicate::Status(TaskStatus::Active)
    );
    assert!("date < 2023-05-20 10:00".parse::<Predicate>().is_ok());
    assert_eq!(
        "description like \"test\"".parse::<Predicate>().unwrap(),
        Predicate::DescriptionContains("test".to_string())
    );
}

#[test]
fn test_category_fromstr() {
    let category: Category = "TestCategory".parse().unwrap();
    assert_eq!(category.0, "TestCategory");
}

#[test]
fn test_taskstatus_fromstr() {
    assert_eq!("on".parse::<TaskStatus>().unwrap(), TaskStatus::Active);
    assert_eq!("done".parse::<TaskStatus>().unwrap(), TaskStatus::Done);
    assert!("invalid".parse::<TaskStatus>().is_err());
}

#[test]
fn status_words_ignore_ascii_case() {
    assert_eq!("ON".parse::<TaskStatus>().unwrap(), TaskStatus::Active);
    assert_eq!("Active".parse::<TaskStatus>().unwrap(), TaskStatus::Active);
    assert_eq!("a".parse::<TaskStatus>().unwrap(), TaskStatus::Active);
    assert_eq!("D".parse::<TaskStatus>().unwrap(), TaskStatus::Done);
    assert!("".parse::<TaskStatus>().is_err());
}

#[test]
fn status_words_render_back() {
    assert_eq!(TaskStatus::Active.to_text(), "on");
    assert_eq!(TaskStatus::Done.to_text(), "done");
}

#[test]
fn datetime_parses_the_fixed_format() {
    let d = parse_datetime("2023-05-20 10:00").unwrap();
    assert_eq!(
        d,
        DateTime { year: 2023, month: 5, day: 20, hour: 10, minute: 0 }
    );
    let leap = parse_datetime("2024-02-29 23:59").unwrap();
    assert_eq!(leap.day, 29);
    let century = parse_datetime("2000-02-29 00:00").unwrap();
    assert_eq!(century.year, 2000);
}

#[test]
fn datetime_rejects_bad_shapes_and_values() {
    assert!(parse_datetime("2023-05-20").is_err());
    assert!(parse_datetime("2023/05/20 10:00").is_err());
    assert!(parse_datetime("2023-13-01 10:00").is_err());
    assert!(parse_datetime("2023-02-29 10:00").is_err());
    assert!(parse_datetime("1900-02-29 10:00").is_err());
    assert!(parse_datetime("2023-05-20 24:00").is_err());
    assert!(parse_datetime("2023-05-20 10:60").is_err());
    assert!(parse_datetime("2023-05-20 10:00 ").is_err());
}

#[test]
fn datetime_orders_lexicographically() {
    let a = DateTime { year: 2023, month: 5, day: 20, hour: 10, minute: 0 };
    let b = DateTime { year: 2023, month: 5, day: 20, hour: 10, minute: 1 };
    let c = DateTime { year: 2024, month: 1, day: 1, hour: 0, minute: 0 };
    assert!(a.is_before(&b));
    assert!(b.is_after(&a));
    assert!(b.is_before(&c));
    assert!(!a.is_before(&a));
}

#[test]
fn the_clock_yields_a_well_formed_date() {
    let d = now();
    assert!(1 <= d.month && d.month <= 12);
    assert!(1 <= d.day && d.day <= 31);
    assert!(d.hour < 24);
    assert!(d.minute < 60);
}

#[test]
fn lone_clause_needs_three_parts() {
    assert!("category".parse::<Predicate>().is_err());
    assert!("category =".parse::<Predicate>().is_err());
    assert!("colour = red".parse::<Predicate>().is_err());
    assert!("description is x".parse::<Predicate>().is_err());
    assert!("date = 2023-05-20 10:00".parse::<Predicate>().is_err());
}

#[test]
fn scanner_splits_a_run_ending_in_like() {
    let preds = todo_list::predicate::parse_predicates("descriptionlike\"needle\"").unwrap();
    assert_eq!(preds.len(), 1);
    assert_eq!(
        preds[0],
        Predicate::DescriptionContains("needle".to_string())
    );
}

#[test]
fn scanner_finds_clauses_between_junk() {
    let preds =
        todo_list::predicate::parse_predicates("?? category = \"A\" and status = \"on\" !!")
            .unwrap();
    assert_eq!(preds.len(), 2);
    assert_eq!(preds[0], Predicate::Category("A".to_string()));
    assert_eq!(preds[1], Predicate::Status(TaskStatus::Active));
}

#[test]
fn lone_description_clause_sheds_quotes() {
    assert_eq!(
        "description like value with spaces".parse::<Predicate>().unwrap(),
        Predicate::DescriptionContains("value with spaces".to_string())
    );
    assert_eq!(
        "description like \"\"quoted\"\"".parse::<Predicate>().unwrap(),
        Predicate::DescriptionContains("quoted".to_string())
    );
}
