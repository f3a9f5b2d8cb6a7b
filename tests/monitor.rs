use nz_rust::monitor::{
    apply_gold_results, apply_wave_results, current_gold, current_wave, is_running, keep_polling,
    parse_gold, parse_wave_number, reset_monitors, start_monitors, stop_monitors, MonitorConfig,
    MonitorState,
};
use nz_rust::ocr::OcrResultItem;

fn item(text: &str) -> OcrResultItem {
    OcrResultItem {
        text: text.to_string(),
        box_points: [[0, 0], [10, 0], [10, 10], [0, 10]],
        score_permille: 900,
    }
}

#[test]
fn test_parse_wave_number() {
    assert_eq!(parse_wave_number("02"), Some(2));
    assert_eq!(parse_wave_number("10"), Some(10));
    assert_eq!(parse_wave_number("1"), Some(1));
    assert_eq!(parse_wave_number("波次3"), Some(3));
    assert_eq!(parse_wave_number("没有数字"), None);
}

#[test]
fn test_parse_gold() {
    assert_eq!(parse_gold("$3,999,600"), Some(3999600));
    assert_eq!(parse_gold("3.979,600"), Some(3979600));
    assert_eq!(parse_gold("4000000"), Some(4000000));
    assert_eq!(parse_gold("没有数字"), None);
}

#[test]
fn parse_empty_text_reads_nothing() {
    assert_eq!(parse_gold(""), None);
    assert_eq!(parse_wave_number(""), None);
}

#[test]
fn parse_rejects_numbers_too_large() {
    assert_eq!(parse_wave_number("4294967295"), Some(u32::MAX));
    assert_eq!(parse_wave_number("4294967296"), None);
    assert_eq!(parse_gold("9,223,372,036,854,775,807"), Some(i64::MAX));
    assert_eq!(parse_gold("9223372036854775808"), None);
}

#[test]
fn parse_concatenates_digits_across_separators() {
    assert_eq!(parse_gold("1a2b3"), Some(123));
    assert_eq!(parse_wave_number(" 0 7 "), Some(7));
}

#[test]
fn wave_zero_is_never_published() {
    let mut state = MonitorState::new();
    apply_wave_results(&mut state, &vec![item("00"), item("波次")]);
    assert_eq!(current_wave(&state), 0);
    apply_wave_results(&mut state, &vec![item("波次4"), item("0")]);
    assert_eq!(current_wave(&state), 4);
}

#[test]
fn gold_takes_last_reading() {
    let mut state = MonitorState::new();
    apply_gold_results(&mut state, &vec![item("$1,000"), item("none"), item("2,500")]);
    assert_eq!(current_gold(&state), 2500);
    assert_eq!(current_wave(&state), 0);
}

#[test]
fn monitor_lifecycle() {
    let mut state = MonitorState::new();
    assert!(!is_running(&state));
    assert!(start_monitors(&mut state));
    assert!(!start_monitors(&mut state));
    assert!(is_running(&state));
    assert!(keep_polling(&state, false));
    assert!(!keep_polling(&state, true));
    apply_gold_results(&mut state, &vec![item("77")]);
    stop_monitors(&mut state);
    assert!(!keep_polling(&state, false));
    reset_monitors(&mut state);
    assert_eq!(current_gold(&state), 0);
    assert_eq!(current_wave(&state), 0);
}

#[test]
fn standard_config_values() {
    let c = MonitorConfig::standard();
    assert_eq!(c.wave_region, (1841, 733, 172, 52));
    assert_eq!(c.gold_interval_ms, 300);
    assert_eq!(c.gold_text_color, (0xd9, 0xe1, 0xe3));
    assert_eq!(c.gold_color_tolerance, 35);
}
