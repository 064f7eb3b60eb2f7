use chrono::{Datelike, Duration, Local};
use gateway_support::date::CalendarDate;
use gateway_support::logs::{log_selector, no_logs_message, render_log_tail, show_log, LogSelector};

fn todays_log_selector(base_dir: String) -> LogSelector {
    let now = Local::now();
    let today = CalendarDate::new(now.year(), now.month(), now.day()).unwrap();
    log_selector(base_dir, today)
}

#[test]
fn selector_names_base_directory_and_file() {
    let date = CalendarDate::new(2024, 3, 7).unwrap();
    let selector = log_selector(String::from("/opt/gateway"), date);
    assert_eq!(selector.base_dir, "/opt/gateway");
    assert_eq!(selector.dir_name, "logs");
    assert_eq!(selector.file_name, "logs_gateway_app.log.2024-03-07");
    assert_eq!(selector.date, date);
}

#[test]
fn selector_keeps_base_directory_verbatim() {
    let date = CalendarDate::new(1987, 11, 30).unwrap();
    let selector = log_selector(String::from(""), date);
    assert_eq!(selector.base_dir, "");
    assert_eq!(selector.file_name, "logs_gateway_app.log.1987-11-30");
    let selector = log_selector(String::from("C:\\gw dir\\"), date);
    assert_eq!(selector.base_dir, "C:\\gw dir\\");
}

#[test]
fn selector_of_the_clocks_day_agrees_with_chrono() {
    let before = Local::now().format("%Y-%m-%d").to_string();
    let selector = todays_log_selector(String::from("base"));
    let after = Local::now().format("%Y-%m-%d").to_string();
    let name = selector.file_name.clone();
    assert!(
        name == format!("logs_gateway_app.log.{}", before)
            || name == format!("logs_gateway_app.log.{}", after)
    );
    assert_eq!(selector.base_dir, "base");
    assert_eq!(selector.dir_name, "logs");
    assert_eq!(name, format!("logs_gateway_app.log.{}", selector.date.to_text()));
    assert!(selector.date.year >= 2024);
}

#[test]
fn yesterdays_file_is_not_todays() {
    let today = todays_log_selector(String::from("base"));
    let day_before = Local::now() - Duration::days(1);
    let yesterday = CalendarDate::new(day_before.year(), day_before.month(), day_before.day()).unwrap();
    let old = log_selector(String::from("base"), yesterday);
    assert_ne!(old.file_name, today.file_name);
    let present = vec![old.file_name.clone()];
    let found = present.contains(&today.file_name);
    assert!(!found);
    let shown = if found { show_log(Some(b"stale line\n"), 10) } else { show_log(None, 10) };
    assert_eq!(shown, "No logs found for today.");
}

#[test]
fn absent_log_gives_the_notice() {
    assert_eq!(no_logs_message(), "No logs found for today.");
    assert_eq!(render_log_tail(None, 10), "No logs found for today.");
    assert_eq!(render_log_tail(None, 0), "No logs found for today.");
    assert_eq!(show_log(None, 25), "No logs found for today.");
}

#[test]
fn present_log_gives_its_tail() {
    let lines = vec![String::from("a"), String::from("b"), String::from("c")];
    assert_eq!(render_log_tail(Some(&lines), 2), "b\nc");
    assert_eq!(render_log_tail(Some(&lines), 0), "");
    let empty: Vec<String> = Vec::new();
    assert_eq!(render_log_tail(Some(&empty), 5), "");
}

#[test]
fn log_file_of_fifty_lines() {
    let mut contents = String::new();
    let mut i: u32 = 1;
    while i <= 50 {
        contents.push_str(&format!("L{}\n", i));
        i += 1;
    }
    let bytes = contents.as_bytes();
    assert_eq!(show_log(Some(bytes), 10), "L41\nL42\nL43\nL44\nL45\nL46\nL47\nL48\nL49\nL50");
    assert_eq!(show_log(Some(bytes), 100), contents.trim_end());
    assert_eq!(show_log(Some(bytes), 0), "");
}

#[test]
fn log_with_undecodable_lines_shows_the_rest() {
    assert_eq!(show_log(Some(b"a\n\xff\nb\r\nc"), 2), "b\nc");
    assert_eq!(show_log(Some(b"a\n\xff\nb\r\nc"), 3), "a\nb\nc");
    assert_eq!(show_log(Some(b""), 3), "");
}
