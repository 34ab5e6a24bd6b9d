use murmur::progress::{
    extract_percentage_from_progress_line, extract_progress_from_whisper_output, parse_timestamp,
    ProgressSample, FULL,
};

fn seconds(ms: u64) -> f64 {
    ms as f64 / 1000.0
}

#[test]
fn timestamp_of_the_documented_example() {
    let ms = parse_timestamp("00:01:35.320").unwrap();
    assert_eq!(ms, 95_320);
    assert_eq!(seconds(ms), 95.32);
}

#[test]
fn timestamp_is_hours_minutes_seconds() {
    assert_eq!(parse_timestamp("1:02:03.004"), Some(3_600_000 + 120_000 + 3_004));
    assert_eq!(parse_timestamp("0:00:00.000"), Some(0));
    assert_eq!(parse_timestamp("10:00:00"), Some(36_000_000));
    assert_eq!(parse_timestamp("1:2:3"), Some(3_723_000));
    assert_eq!(parse_timestamp("0:0:7.5"), Some(7_500));
    assert_eq!(parse_timestamp("1.5:0:0"), Some(5_400_000));
    assert_eq!(parse_timestamp("0:0:.25"), Some(250));
    assert_eq!(parse_timestamp("0:0:3."), Some(3_000));
}

#[test]
fn timestamp_drops_places_beyond_the_third() {
    assert_eq!(parse_timestamp("0:0:1.2349"), Some(1_234));
    assert_eq!(parse_timestamp("0:0:0.0009"), Some(0));
}

#[test]
fn timestamp_with_wrong_number_of_parts_is_none() {
    assert_eq!(parse_timestamp(""), None);
    assert_eq!(parse_timestamp("95.32"), None);
    assert_eq!(parse_timestamp("01:35.320"), None);
    assert_eq!(parse_timestamp("0:00:01:35.320"), None);
    assert_eq!(parse_timestamp("::"), None);
}

#[test]
fn timestamp_with_a_part_that_is_no_number_is_none() {
    assert_eq!(parse_timestamp("aa:01:35.320"), None);
    assert_eq!(parse_timestamp("00:xx:35.320"), None);
    assert_eq!(parse_timestamp("00:01:35,320"), None);
    assert_eq!(parse_timestamp("00:01:"), None);
    assert_eq!(parse_timestamp("00:01:."), None);
    assert_eq!(parse_timestamp("00:01:1.2.3"), None);
    assert_eq!(parse_timestamp("-1:00:00"), None);
    assert_eq!(parse_timestamp("00: 01:35"), None);
}

#[test]
fn timestamp_beyond_the_range_is_none() {
    assert_eq!(parse_timestamp("99999999999999999999:0:0"), None);
    assert_eq!(parse_timestamp("5124095576030431:0:0"), None);
    assert_eq!(parse_timestamp("5124095576030:0:0"), Some(5_124_095_576_030u64 * 3_600_000));
}

#[test]
fn segment_line_gives_its_start_time() {
    let line = "[00:01:35.320 --> 00:01:36.860]  some words";
    assert_eq!(extract_progress_from_whisper_output(line), Some(95_320));
    assert_eq!(
        extract_progress_from_whisper_output(" [ 00:00:02.000  --> 00:00:04.000] x"),
        Some(2_000)
    );
}

#[test]
fn line_without_a_segment_gives_no_time() {
    assert_eq!(extract_progress_from_whisper_output("some words"), None);
    assert_eq!(extract_progress_from_whisper_output("[00:01:35.320] words"), None);
    assert_eq!(extract_progress_from_whisper_output("00:01:35.320 --> 00:01:36.860"), None);
    assert_eq!(extract_progress_from_whisper_output("a --> b [00:00:01.000"), None);
    assert_eq!(extract_progress_from_whisper_output("[ --> 00:00:01.000]"), None);
    assert_eq!(extract_progress_from_whisper_output("[abc --> 00:00:01.000]"), None);
}

#[test]
fn percentage_line_with_marker() {
    let line = "whisper_print_progress_callback: progress =  75%";
    let p = extract_percentage_from_progress_line(line).unwrap();
    assert_eq!(p, 75_000);
    assert_eq!(p as f64 / 1000.0, 75.0);
}

#[test]
fn percentage_line_without_marker_is_none() {
    assert_eq!(extract_percentage_from_progress_line("progress =  75%"), None);
    assert_eq!(extract_percentage_from_progress_line("75%"), None);
}

#[test]
fn percentage_needs_a_sign_and_a_digit() {
    let marker = "whisper_print_progress_callback: ";
    assert_eq!(extract_percentage_from_progress_line(&format!("{}progress = 75", marker)), None);
    assert_eq!(extract_percentage_from_progress_line(&format!("{}progress = %", marker)), None);
    assert_eq!(extract_percentage_from_progress_line(&format!("{}progress = .%", marker)), None);
    assert_eq!(extract_percentage_from_progress_line(&format!("{}progress = x%", marker)), None);
}

#[test]
fn percentage_is_the_numeral_before_the_last_sign() {
    let marker = "whisper_print_progress_callback: ";
    let read = |tail: &str| extract_percentage_from_progress_line(&format!("{}{}", marker, tail));
    assert_eq!(read("10% then 20%"), Some(20_000));
    assert_eq!(read("99.5 \t%"), Some(99_500));
    assert_eq!(read("abc12.345%"), Some(12_345));
    assert_eq!(read("7.%"), Some(7_000));
    assert_eq!(read(".5%"), Some(500));
    assert_eq!(read("1.2.3%"), Some(2_300));
    assert_eq!(read("250%"), Some(250_000));
    assert_eq!(read("0%"), Some(0));
}

#[test]
fn timestamp_sample_against_known_total() {
    let s = ProgressSample::from_timestamp(50_000, Some(200_000));
    assert_eq!(s.percentage, Some(25_000));
    assert_eq!(s.percentage.unwrap() as f64 / 1000.0, 25.0);
    assert_eq!(s.current_ms, Some(50_000));
    assert_eq!(s.total_ms, Some(200_000));
}

#[test]
fn timestamp_sample_past_the_total_is_full() {
    let s = ProgressSample::from_timestamp(250_000, Some(200_000));
    assert_eq!(s.percentage, Some(FULL));
    assert_eq!(s.percentage.unwrap() as f64 / 1000.0, 100.0);
    assert_eq!(s.current_ms, Some(250_000));
}

#[test]
fn timestamp_sample_without_total_states_the_position_only() {
    let s = ProgressSample::from_timestamp(1_500, None);
    assert_eq!(
        s,
        ProgressSample { current_ms: Some(1_500), total_ms: None, percentage: None }
    );
}

#[test]
fn timestamp_sample_against_a_total_of_zero_is_full() {
    assert_eq!(ProgressSample::from_timestamp(0, Some(0)).percentage, Some(FULL));
    assert_eq!(ProgressSample::from_timestamp(9, Some(0)).percentage, Some(FULL));
}

#[test]
fn timestamp_sample_rounds_down_to_a_thousandth() {
    assert_eq!(ProgressSample::from_timestamp(1, Some(3)).percentage, Some(33_333));
    assert_eq!(ProgressSample::from_timestamp(2, Some(3)).percentage, Some(66_666));
    assert_eq!(
        ProgressSample::from_timestamp(u64::MAX - 1, Some(u64::MAX)).percentage,
        Some(99_999)
    );
    assert_eq!(ProgressSample::from_timestamp(u64::MAX, Some(u64::MAX)).percentage, Some(FULL));
}

#[test]
fn percentage_sample_against_known_total() {
    let s = ProgressSample::from_percentage(75_000, Some(200_000));
    assert_eq!(s.percentage, Some(75_000));
    assert_eq!(s.current_ms, Some(150_000));
    assert_eq!(s.total_ms, Some(200_000));
}

#[test]
fn percentage_sample_is_clamped() {
    let s = ProgressSample::from_percentage(250_000, Some(200_000));
    assert_eq!(s.percentage, Some(FULL));
    assert_eq!(s.total_ms, Some(200_000));
}

#[test]
fn position_follows_the_percentage_as_reported() {
    let s = ProgressSample::from_percentage(150_000, Some(200_000));
    assert_eq!(s.percentage, Some(FULL));
    assert_eq!(s.current_ms, Some(300_000));
    assert_eq!(s.current_ms.unwrap() as f64 / 1000.0, 150.0 * 200.0 / 100.0);
    let s = ProgressSample::from_percentage(250_000, Some(200_000));
    assert_eq!(s.current_ms, Some(500_000));
    let s = ProgressSample::from_percentage(100_000, Some(200_000));
    assert_eq!(s.current_ms, Some(200_000));
    let s = ProgressSample::from_percentage(100_001, Some(200_000));
    assert_eq!(s.current_ms, Some(200_002));
    let s = ProgressSample::from_percentage(33_333, Some(1_000));
    assert_eq!(s.current_ms, Some(333));
}

#[test]
fn position_beyond_the_range_is_the_greatest_in_range() {
    let s = ProgressSample::from_percentage(u64::MAX, Some(u64::MAX));
    assert_eq!(s.percentage, Some(FULL));
    assert_eq!(s.current_ms, Some(u64::MAX));
    let s = ProgressSample::from_percentage(100_001, Some(u64::MAX));
    assert_eq!(s.current_ms, Some(u64::MAX));
    let s = ProgressSample::from_percentage(200_000, Some(u64::MAX / 2));
    assert_eq!(s.current_ms, Some(u64::MAX - 1));
    let s = ProgressSample::from_percentage(u64::MAX, Some(0));
    assert_eq!(s.current_ms, Some(0));
}

#[test]
fn percentage_sample_without_total_states_the_percentage_only() {
    let s = ProgressSample::from_percentage(42_000, None);
    assert_eq!(
        s,
        ProgressSample { current_ms: None, total_ms: None, percentage: Some(42_000) }
    );
}
