use line_echo::echo::{decimal_string, respond, signed_decimal_string};
use line_echo::{Echo, EchoStats};

#[test]
fn decimal_string_writes_digits() {
    assert_eq!(decimal_string(0), "0");
    assert_eq!(decimal_string(7), "7");
    assert_eq!(decimal_string(10), "10");
    assert_eq!(decimal_string(1234567890), "1234567890");
    assert_eq!(decimal_string(u32::MAX), "4294967295");
}

#[test]
fn signed_decimal_string_writes_the_sign() {
    assert_eq!(signed_decimal_string(0), "0");
    assert_eq!(signed_decimal_string(42), "42");
    assert_eq!(signed_decimal_string(-1), "-1");
    assert_eq!(signed_decimal_string(i32::MAX), "2147483647");
    assert_eq!(signed_decimal_string(i32::MIN), "-2147483648");
}

#[test]
fn signed_decimal_string_agrees_with_std() {
    for n in [-100000, -999, -10, -9, 0, 9, 10, 99, 100, 101, 65536, 1000000007] {
        assert_eq!(signed_decimal_string(n), format!("{}", n));
    }
}

#[test]
fn respond_joins_request_and_count() {
    assert_eq!(respond("hello", 1), "hello - 1");
    assert_eq!(respond("", 12), " - 12");
    assert_eq!(respond("a - 1", 305), "a - 1 - 305");
    assert_eq!(respond("line\r", 2), "line\r - 2");
}

#[test]
fn a_new_counter_has_served_nothing() {
    let stats = EchoStats::new();
    assert_eq!(stats.count(), 0);
    assert!(!stats.is_exhausted());
}

#[test]
fn record_counts_up_by_one() {
    let mut stats = EchoStats::new();
    for expected in 1..=1000 {
        assert_eq!(stats.record(), expected);
        assert_eq!(stats.count(), expected);
    }
}

#[test]
fn serve_counts_and_answers() {
    let mut stats = EchoStats::new();
    assert_eq!(stats.serve("ping"), Some("ping - 1".to_string()));
    assert_eq!(stats.serve("ping"), Some("ping - 2".to_string()));
    assert_eq!(stats.serve(""), Some(" - 3".to_string()));
    assert_eq!(stats.count(), 3);
}

#[test]
fn call_numbers_requests_from_one() {
    let echo = Echo::new();
    assert_eq!(echo.call("hello".to_string()), Some("hello - 1".to_string()));
    assert_eq!(echo.call("world".to_string()), Some("world - 2".to_string()));
}

#[test]
fn clones_share_the_counter() {
    let first = Echo::new();
    let second = first.clone();
    let third = second.clone();
    let mut seen = Vec::new();
    for round in 0..5 {
        for (name, echo) in [("a", &first), ("b", &second), ("c", &third)] {
            let line = echo.call(name.to_string()).unwrap();
            let count: i32 = line[name.len() + 3..].parse().unwrap();
            assert!(line.starts_with(name));
            assert_eq!(&line[name.len()..name.len() + 3], " - ");
            seen.push(count);
            assert_eq!(count, seen.len() as i32);
        }
        assert_eq!(seen.len(), 3 * (round + 1));
    }
    assert_eq!(seen, (1..=15).collect::<Vec<i32>>());
}

#[test]
fn separate_services_count_separately() {
    let first = Echo::new();
    let second = Echo::new();
    assert_eq!(first.call("x".to_string()), Some("x - 1".to_string()));
    assert_eq!(second.call("y".to_string()), Some("y - 1".to_string()));
    assert_eq!(first.call("x".to_string()), Some("x - 2".to_string()));
}

#[test]
fn starting_at_takes_up_a_count() {
    assert!(EchoStats::starting_at(-1).is_none());
    assert!(EchoStats::starting_at(i32::MIN).is_none());
    let mut stats = EchoStats::starting_at(41).unwrap();
    assert_eq!(stats.count(), 41);
    assert_eq!(stats.serve("answer"), Some("answer - 42".to_string()));
    assert_eq!(EchoStats::starting_at(0).unwrap().count(), 0);
}

#[test]
fn the_last_count_is_the_largest_i32() {
    let mut stats = EchoStats::starting_at(i32::MAX - 1).unwrap();
    assert!(!stats.is_exhausted());
    assert_eq!(stats.serve("last"), Some("last - 2147483647".to_string()));
    assert!(stats.is_exhausted());
    assert_eq!(stats.serve("late"), None);
    assert_eq!(stats.count(), i32::MAX);
}

#[test]
fn an_exhausted_service_answers_nothing() {
    let echo = Echo::with_stats(EchoStats::starting_at(i32::MAX - 1).unwrap());
    assert_eq!(echo.call("last".to_string()), Some("last - 2147483647".to_string()));
    assert_eq!(echo.call("late".to_string()), None);
    assert_eq!(echo.clone().call("later".to_string()), None);
}

#[test]
fn with_stats_goes_on_counting() {
    let echo = Echo::with_stats(EchoStats::starting_at(9).unwrap());
    assert_eq!(echo.call("ten".to_string()), Some("ten - 10".to_string()));
    assert_eq!(echo.call("eleven".to_string()), Some("eleven - 11".to_string()));
}
