//! Tests of the text helpers: decimal parsing and rendering, trimming,
//! splitting, and the parsers for the kernel's stat and meminfo lines.

use rstatusbar::components::cpu::calculate_cpu_usage;
use rstatusbar::components::cpu::parse_cpu_times;
use rstatusbar::components::memory::parse_meminfo_line;
use rstatusbar::section::get_final_string;
use rstatusbar::section::Component;
use rstatusbar::text::i64_string;
use rstatusbar::text::lines_of;
use rstatusbar::text::parse_i64;
use rstatusbar::text::parse_u64;
use rstatusbar::text::parse_u8;
use rstatusbar::text::split_whitespace;
use rstatusbar::text::starts_with;
use rstatusbar::text::trim;
use rstatusbar::text::u64_string;

#[test]
fn parse_u64_accepts_digits_and_plus() {
    assert_eq!(parse_u64("90"), Some(90));
    assert_eq!(parse_u64("+7"), Some(7));
    assert_eq!(parse_u64("0"), Some(0));
    assert_eq!(parse_u64("18446744073709551615"), Some(u64::MAX));
}

#[test]
fn parse_u64_rejects_bad_text() {
    assert_eq!(parse_u64(""), None);
    assert_eq!(parse_u64("+"), None);
    assert_eq!(parse_u64("abc"), None);
    assert_eq!(parse_u64("9 0"), None);
    assert_eq!(parse_u64("-4"), None);
    assert_eq!(parse_u64("18446744073709551616"), None);
}

#[test]
fn parse_u8_bounds() {
    assert_eq!(parse_u8("255"), Some(255));
    assert_eq!(parse_u8("256"), None);
    assert_eq!(parse_u8("90"), Some(90));
}

#[test]
fn parse_i64_handles_signs_and_bounds() {
    assert_eq!(parse_i64("-55"), Some(-55));
    assert_eq!(parse_i64("+55"), Some(55));
    assert_eq!(parse_i64("9223372036854775807"), Some(i64::MAX));
    assert_eq!(parse_i64("-9223372036854775808"), Some(i64::MIN));
    assert_eq!(parse_i64("9223372036854775808"), None);
    assert_eq!(parse_i64("-9223372036854775809"), None);
    assert_eq!(parse_i64("-"), None);
    assert_eq!(parse_i64(""), None);
}

#[test]
fn decimal_rendering() {
    assert_eq!(u64_string(0), "0");
    assert_eq!(u64_string(90), "90");
    assert_eq!(u64_string(18446744073709551615), "18446744073709551615");
    assert_eq!(i64_string(-5), "-5");
    assert_eq!(i64_string(42), "42");
    assert_eq!(i64_string(i64::MIN), "-9223372036854775808");
}

#[test]
fn trim_removes_surrounding_whitespace() {
    assert_eq!(trim(" \t90\n "), "90");
    assert_eq!(trim("90"), "90");
    assert_eq!(trim(" \n\t "), "");
    assert_eq!(trim("a b"), "a b");
}

#[test]
fn split_whitespace_keeps_tokens_in_order() {
    assert_eq!(split_whitespace("cpu  100 200"), vec!["cpu", "100", "200"]);
    assert_eq!(split_whitespace("  lone  "), vec!["lone"]);
    assert!(split_whitespace(" \t ").is_empty());
}

#[test]
fn lines_of_splits_at_line_feeds() {
    assert_eq!(lines_of("a\r\nb\nc"), vec!["a", "b", "c"]);
    assert_eq!(lines_of("x\n"), vec!["x"]);
    assert!(lines_of("").is_empty());
}

#[test]
fn starts_with_checks_prefixes() {
    assert!(starts_with("MemTotal: 5", "MemTotal:"));
    assert!(!starts_with("MemFree: 5", "MemTotal:"));
    assert!(!starts_with("Mem", "MemTotal:"));
}

#[test]
fn final_string_pads_non_empty_pieces() {
    assert_eq!(get_final_string(""), "");
    assert_eq!(get_final_string("x"), "x ");
}

#[test]
fn component_text_layout() {
    let with_value = Component {
        icon: "I",
        name: "N",
        value: String::from("42%"),
    };
    assert_eq!(with_value.to_text(), " I N 42% ");

    let without_value = Component {
        icon: "I",
        name: "N",
        value: String::new(),
    };
    assert_eq!(without_value.to_text(), " I N ");

    let bare = Component {
        icon: "",
        name: "",
        value: String::from("v"),
    };
    assert_eq!(bare.to_text(), " v ");
}

#[test]
fn meminfo_line_value_is_second_token() {
    assert_eq!(parse_meminfo_line("MemTotal:       123 kB").unwrap(), 123);
    assert!(parse_meminfo_line("MemTotal:").is_err());
    assert!(parse_meminfo_line("MemTotal: lots kB").is_err());
}

#[test]
fn stat_line_gives_idle_and_total() {
    assert_eq!(parse_cpu_times("cpu  100 0 100 300 0 0 0 0 0 0"), Some((300, 500)));
    assert_eq!(parse_cpu_times("cpu  1 2 3"), None);
    assert_eq!(parse_cpu_times("cpu0 1 2 3 4"), None);
    assert_eq!(parse_cpu_times("intr 5 6 7 8"), None);
}

#[test]
fn usage_between_two_readings() {
    // idle advanced by 50 of 200 total: 150 active, 75 percent
    assert_eq!(calculate_cpu_usage((0, 0), (50, 200)), Some(75));
    // no advance of total time: no usage to report
    assert_eq!(calculate_cpu_usage((100, 1000), (100, 1000)), None);
    // readings that went backwards count as no advance
    assert_eq!(calculate_cpu_usage((100, 1000), (0, 0)), None);
}
