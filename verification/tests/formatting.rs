use gosh_fetch::text::{parse_u64, split_string, trim_str, u64_to_string};
use gosh_fetch::tracker::{parse_tracker_list, update_due, TrackerUpdater};
use gosh_fetch::types::get_user_agent_presets;
use gosh_fetch::utils::{format_bytes, format_eta, format_speed, progress_permyriad};

#[test]
fn bytes_formatting() {
    assert_eq!(format_bytes(0), "0 B");
    assert_eq!(format_bytes(1023), "1023 B");
    assert_eq!(format_bytes(1024), "1.00 KB");
    assert_eq!(format_bytes(1536), "1.50 KB");
    assert_eq!(format_bytes(1024 * 1024), "1.00 MB");
    assert_eq!(format_bytes(5 * 1024 * 1024 * 1024 / 2), "2.50 GB");
    assert_eq!(format_bytes(1024u64.pow(4)), "1.00 TB");
}

#[test]
fn speed_formatting() {
    assert_eq!(format_speed(0), "0 B/s");
    assert_eq!(format_speed(512), "512 B/s");
    assert_eq!(format_speed(2048), "2.00 KB/s");
}

#[test]
fn eta_formatting() {
    assert_eq!(format_eta(0, 100), "--");
    assert_eq!(format_eta(100, 0), "--");
    assert_eq!(format_eta(90, 10), "9s");
    assert_eq!(format_eta(600, 10), "1m 0s");
    assert_eq!(format_eta(3660, 1), "1h 1m");
    assert_eq!(format_eta(90000, 1), "1d 1h");
}

#[test]
fn progress_fraction() {
    assert_eq!(progress_permyriad(0, 0), 0);
    assert_eq!(progress_permyriad(50, 200), 2500);
    assert_eq!(progress_permyriad(200, 200), 10000);
    assert_eq!(progress_permyriad(300, 200), 10000);
}

#[test]
fn decimal_text_round_trip() {
    assert_eq!(u64_to_string(0), "0");
    assert_eq!(u64_to_string(90210), "90210");
    assert_eq!(u64_to_string(u64::MAX), "18446744073709551615");
    assert_eq!(parse_u64("90210"), Some(90210));
    assert_eq!(parse_u64("018"), Some(18));
    assert_eq!(parse_u64("18446744073709551616"), None);
    assert_eq!(parse_u64("-3"), None);
    assert_eq!(parse_u64(""), None);
}

#[test]
fn splitting_and_trimming() {
    assert_eq!(trim_str("  a b \t"), "a b");
    assert_eq!(trim_str(""), "");
    assert_eq!(split_string("a;;b", ';'), vec!["a", "", "b"]);
    assert_eq!(split_string("", ';'), vec![""]);
}

#[test]
fn tracker_list_parsing() {
    let text = "udp://one/announce\r\n\r\n  udp://two/announce  \nhttp://three\n";
    assert_eq!(
        parse_tracker_list(text),
        vec!["udp://one/announce", "udp://two/announce", "http://three"]
    );
    assert_eq!(parse_tracker_list(""), Vec::<String>::new());
}

#[test]
fn tracker_freshness_window() {
    let mut updater = TrackerUpdater::new();
    assert!(updater.needs_update(0));
    updater.set_trackers(vec!["udp://one".to_string()], 1_000_000);
    assert!(!updater.needs_update(1_000_000));
    assert!(!updater.needs_update(1_000_000 + 86399));
    assert!(updater.needs_update(1_000_000 + 86400));
    assert_eq!(updater.get_trackers(), &vec!["udp://one".to_string()]);
}

#[test]
fn user_agent_presets_table() {
    let presets = get_user_agent_presets();
    assert_eq!(presets.len(), 7);
    assert_eq!(presets[0], ("gosh-dl/0.1.0", "gosh-dl/0.1.0"));
    assert_eq!(presets[1].0, "Chrome (Windows)");
    assert_eq!(presets[2].0, "Chrome (macOS)");
    assert_eq!(presets[3].0, "Firefox (Windows)");
    assert_eq!(
        presets[4],
        (
            "Firefox (Linux)",
            "Mozilla/5.0 (X11; Linux x86_64; rv:121.0) Gecko/20100101 Firefox/121.0",
        )
    );
    assert_eq!(presets[5], ("Wget", "Wget/1.21"));
    assert_eq!(presets[6], ("Curl", "curl/8.4.0"));
    // the table is a constant: a second call gives the same value
    assert_eq!(presets, get_user_agent_presets());
}

#[test]
fn tracker_update_due() {
    assert!(update_due(0, None));
    assert!(!update_due(1_000_000, Some(1_000_000)));
    assert!(!update_due(1_000_000 + 86399, Some(1_000_000)));
    assert!(update_due(1_000_000 + 86400, Some(1_000_000)));
}
