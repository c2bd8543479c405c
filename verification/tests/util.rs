use up_firefly::config::{account_map_from_matches, default_time_between_imports, Config};
use up_firefly::errors::ConfigurationError;
use up_firefly::operation::{check_continuous_args, resolve_date_window, Args, Date};
use up_firefly::text::{i64_to_dec, replace_char_exec, str_eq, strip_char, u64_to_dec};

fn config(up: &str, ff: &str, url: &str) -> Config {
    Config {
        up_pan_token: up.to_string(),
        fire_fly_pan_token: ff.to_string(),
        fire_fly_base_url: url.to_string(),
        time_between_imports: default_time_between_imports(),
    }
}

#[test]
fn decimal_rendering_matches_the_usual_notation() {
    assert_eq!(u64_to_dec(0), "0");
    assert_eq!(u64_to_dec(7), "7");
    assert_eq!(u64_to_dec(105), "105");
    assert_eq!(u64_to_dec(u64::MAX), "18446744073709551615");
    assert_eq!(i64_to_dec(0), "0");
    assert_eq!(i64_to_dec(-1), "-1");
    assert_eq!(i64_to_dec(5000), "5000");
    assert_eq!(i64_to_dec(i64::MIN), "-9223372036854775808");
}

#[test]
fn strip_and_replace_walk_every_character() {
    assert_eq!(strip_char("-50.00", '-'), "50.00");
    assert_eq!(strip_char("--", '-'), "");
    assert_eq!(strip_char("5-0-", '-'), "50");
    assert_eq!(strip_char("plain", '-'), "plain");
    assert_eq!(replace_char_exec("a-b-c", '-', '_'), "a_b_c");
    assert_eq!(replace_char_exec("", '-', '_'), "");
    assert_eq!(replace_char_exec("no dash", '-', '_'), "no dash");
}

#[test]
fn str_eq_compares_contents() {
    assert!(str_eq("same", "same"));
    assert!(!str_eq("same", "sam"));
    assert!(!str_eq("same", "samE"));
    assert!(str_eq("", ""));
}

#[test]
fn credentials_are_checked_before_any_work() {
    assert!(config("u", "f", "http://ff").validate().is_ok());
    assert_eq!(
        config("", "f", "http://ff").validate().err(),
        Some(ConfigurationError::MissingUpBankToken)
    );
    assert_eq!(
        config("u", "", "http://ff").validate().err(),
        Some(ConfigurationError::MissingFireFlyToken)
    );
    assert_eq!(
        config("u", "f", "").validate().err(),
        Some(ConfigurationError::MissingFireFlyUrl)
    );
}

#[test]
fn discovered_accounts_pair_up_only_when_matched() {
    let pairs = vec![
        ("up-a".to_string(), Some("ff-a".to_string())),
        ("up-b".to_string(), None),
        ("up-c".to_string(), Some("ff-c".to_string())),
    ];
    let map = account_map_from_matches(pairs);
    assert_eq!(map.len(), 2);
    assert_eq!(map[0].up_account_id, "up-a");
    assert_eq!(map[0].fire_fly_account_id, "ff-a");
    assert_eq!(map[1].up_account_id, "up-c");
    assert_eq!(map[1].fire_fly_account_id, "ff-c");
}

#[test]
fn a_day_range_counts_back_from_the_end_date() {
    let end = Date { year: 2015, month: 9, day: 5 };
    let today = Date { year: 2024, month: 1, day: 1 };
    let (start, end_out) =
        resolve_date_window(None, Some(end), Some(40), today).unwrap();
    assert_eq!(start, Some(Date { year: 2015, month: 7, day: 27 }));
    assert_eq!(end_out, Some(end));
}

#[test]
fn a_day_range_counts_back_from_today_without_an_end_date() {
    let today = Date { year: 2024, month: 3, day: 1 };
    let (start, end_out) = resolve_date_window(None, None, Some(1), today).unwrap();
    assert_eq!(end_out, Some(today));
    assert_eq!(start, Some(Date { year: 2024, month: 2, day: 29 }));
}

#[test]
fn an_explicit_start_date_wins_over_the_range() {
    let start = Date { year: 2023, month: 1, day: 1 };
    let end = Date { year: 2023, month: 2, day: 1 };
    let today = Date { year: 2024, month: 1, day: 1 };
    let window = resolve_date_window(Some(start), Some(end), Some(1000), today).unwrap();
    assert_eq!(window, (Some(start), Some(end)));
}

#[test]
fn no_range_keeps_the_window_as_given() {
    let today = Date { year: 2024, month: 1, day: 1 };
    assert_eq!(resolve_date_window(None, None, None, today).unwrap(), (None, None));
    let start = Date { year: 2023, month: 5, day: 5 };
    assert_eq!(
        resolve_date_window(Some(start), None, None, today).unwrap(),
        (Some(start), None)
    );
}

#[test]
fn an_impossible_range_is_refused() {
    let today = Date { year: 2024, month: 1, day: 1 };
    assert_eq!(
        resolve_date_window(None, None, Some(i64::MAX), today).err(),
        Some(ConfigurationError::InvalidDateRange)
    );
}

#[test]
fn continuous_mode_refuses_a_fixed_window() {
    let fixed = Args {
        start_date: Some("01-01-2023".to_string()),
        end_date: None,
        date_range: None,
    };
    assert_eq!(
        check_continuous_args(&fixed).err(),
        Some(ConfigurationError::WindowInContinuousMode)
    );
    let open_ended = Args { start_date: None, end_date: None, date_range: None };
    assert_eq!(check_continuous_args(&open_ended).unwrap(), 30);
    let ranged = Args { start_date: None, end_date: None, date_range: Some(7) };
    assert_eq!(check_continuous_args(&ranged).unwrap(), 7);
}
