//! The progress protocol parser.

use forgecut::progress::{extract_value, parse_progress, parse_progress_chunk, parse_time_str};

#[test]
fn parse_progress_extracts_time_and_calculates_percent() {
    let line =
        "frame=  150 fps= 30 q=28.0 size=    1024kB time=00:00:05.00 bitrate= 200.0kbits/s speed=1.50x";
    let total_us: i64 = 10_000_000;
    let progress = parse_progress(line, total_us).unwrap();
    assert_eq!(progress.frame, 150);
    assert_eq!(progress.fps_milli, 30_000);
    assert_eq!(progress.percent_milli, 50_000);
    assert_eq!(progress.speed, "1.50x");
    // ETA: (10s - 5s) / 1.5 = 3.333333s
    assert_eq!(progress.eta_us, Some(3_333_333));
}

#[test]
fn parse_progress_returns_none_for_non_progress_lines() {
    assert!(parse_progress("Input #0, mov,mp4...", 10_000_000).is_none());
    assert!(parse_progress("Stream #0:0: Video: h264", 10_000_000).is_none());
    assert!(parse_progress("", 10_000_000).is_none());
}

#[test]
fn parse_progress_handles_zero_total_duration() {
    let line = "frame=  10 fps= 30 time=00:00:01.00 speed=1.00x";
    let progress = parse_progress(line, 0).unwrap();
    assert_eq!(progress.percent_milli, 0);
}

#[test]
fn parse_time_str_valid() {
    assert_eq!(parse_time_str("00:01:02.05"), Some(62_050_000));
    assert_eq!(parse_time_str("01:00:00.00"), Some(3_600_000_000));
    assert_eq!(parse_time_str("00:00:00.00"), Some(0));
}

#[test]
fn parse_time_str_invalid() {
    assert!(parse_time_str("invalid").is_none());
    assert!(parse_time_str("00:00").is_none());
}

#[test]
fn extract_value_works() {
    let line = "frame=  150 fps= 30.0 time=00:00:05.00 speed=1.50x";
    assert_eq!(extract_value(line, "frame=").unwrap(), "150");
    assert_eq!(extract_value(line, "fps=").unwrap(), "30.0");
    assert_eq!(extract_value(line, "time=").unwrap(), "00:00:05.00");
    assert_eq!(extract_value(line, "speed=").unwrap(), "1.50x");
    assert!(extract_value(line, "missing=").is_none());
}

#[test]
fn parse_cr_delimited_progress_yields_multiple_updates() {
    let raw = "frame=  10 fps= 30 time=00:00:00.33 speed=1.00x\rframe=  20 fps= 30 time=00:00:00.66 speed=1.00x\rframe=  30 fps= 30 time=00:00:01.00 speed=1.00x\r";
    let results = parse_progress_chunk(raw, 10_000_000);
    assert_eq!(results.len(), 3);
    assert_eq!(results[0].frame, 10);
    assert_eq!(results[1].frame, 20);
    assert_eq!(results[2].frame, 30);
    assert_eq!(results[2].percent_milli, 10_000);
}

#[test]
fn parse_mixed_cr_and_lf_delimiters() {
    let raw = "frame=  10 fps= 30 time=00:00:01.00 speed=1.00x\rframe=  20 fps= 30 time=00:00:02.00 speed=1.50x\nframe=  30 fps= 30 time=00:00:03.00 speed=2.00x\n";
    let results = parse_progress_chunk(raw, 10_000_000);
    assert_eq!(results.len(), 3);
    assert_eq!(results[0].percent_milli, 10_000);
    assert_eq!(results[1].percent_milli, 20_000);
    assert_eq!(results[2].percent_milli, 30_000);
}

#[test]
fn parse_cr_chunk_filters_non_progress_lines() {
    let raw = "Input #0, mov,mp4...\rStream #0:0: Video: h264\rframe=  50 fps= 25 time=00:00:02.00 speed=1.00x\r";
    let results = parse_progress_chunk(raw, 10_000_000);
    assert_eq!(results.len(), 1);
    assert_eq!(results[0].frame, 50);
}

#[test]
fn parse_many_rapid_cr_updates() {
    let mut raw = String::new();
    for i in 1..=100 {
        let time_s = i as f64 * 0.1;
        let h = (time_s / 3600.0) as u32;
        let m = ((time_s % 3600.0) / 60.0) as u32;
        let s = time_s % 60.0;
        raw.push_str(&format!(
            "frame={:4} fps= 60 time={:02}:{:02}:{:05.2} speed=2.00x\r",
            i * 6,
            h,
            m,
            s
        ));
    }
    let results = parse_progress_chunk(&raw, 30_000_000);
    assert_eq!(results.len(), 100);
    assert_eq!(results[0].frame, 6);
    assert_eq!(results[99].frame, 600);
    // Last update: 10.0s out of 30.0s is a third.
    assert_eq!(results[99].percent_milli, 33_333);
}

#[test]
fn parse_cr_chunk_with_trailing_whitespace() {
    let raw = "  frame=  10 fps= 30 time=00:00:01.00 speed=1.00x  \r  \r  frame=  20 fps= 30 time=00:00:02.00 speed=1.50x  \r";
    let results = parse_progress_chunk(raw, 10_000_000);
    assert_eq!(results.len(), 2);
    assert_eq!(results[0].frame, 10);
    assert_eq!(results[1].frame, 20);
}

#[test]
fn parse_progress_without_speed_has_no_eta() {
    let line = "frame=  10 fps= 30 time=00:00:01.00";
    let progress = parse_progress(line, 10_000_000).unwrap();
    assert_eq!(progress.speed, "");
    assert_eq!(progress.eta_us, None);
}
