use chrono::NaiveDate;
use gateway_support::date::CalendarDate;

fn text_of(year: i32, month: u32, day: u32) -> String {
    CalendarDate::new(year, month, day).unwrap().to_text()
}

fn chrono_text_of(year: i32, month: u32, day: u32) -> String {
    NaiveDate::from_ymd_opt(year, month, day).unwrap().format("%Y-%m-%d").to_string()
}

#[test]
fn date_text_pads_month_and_day() {
    assert_eq!(text_of(2024, 3, 7), "2024-03-07");
    assert_eq!(text_of(2025, 12, 31), "2025-12-31");
    assert_eq!(text_of(1999, 10, 1), "1999-10-01");
}

#[test]
fn date_text_pads_small_years() {
    assert_eq!(text_of(5, 1, 1), "0005-01-01");
    assert_eq!(text_of(0, 6, 15), "0000-06-15");
    assert_eq!(text_of(987, 6, 15), "0987-06-15");
    assert_eq!(text_of(9999, 12, 31), "9999-12-31");
}

#[test]
fn date_text_signs_years_outside_four_digits() {
    assert_eq!(text_of(10000, 1, 1), "+10000-01-01");
    assert_eq!(text_of(262142, 12, 31), "+262142-12-31");
    assert_eq!(text_of(-1, 1, 1), "-0001-01-01");
    assert_eq!(text_of(-12345, 2, 3), "-12345-02-03");
    assert_eq!(text_of(i32::MIN, 1, 1), "-2147483648-01-01");
    assert_eq!(text_of(i32::MAX, 1, 1), "+2147483647-01-01");
}

#[test]
fn date_text_agrees_with_chrono() {
    let years: [i32; 12] = [-262142, -10000, -9999, -45, -1, 0, 1, 999, 1000, 2026, 10000, 262141];
    for year in years {
        let mut month: u32 = 1;
        while month <= 12 {
            for day in [1u32, 9u32, 10u32, 28u32] {
                assert_eq!(text_of(year, month, day), chrono_text_of(year, month, day));
            }
            month += 1;
        }
    }
}

#[test]
fn new_rejects_numbers_out_of_range() {
    assert_eq!(CalendarDate::new(2024, 0, 1), None);
    assert_eq!(CalendarDate::new(2024, 13, 1), None);
    assert_eq!(CalendarDate::new(2024, 1, 0), None);
    assert_eq!(CalendarDate::new(2024, 1, 32), None);
    assert_eq!(CalendarDate::new(2024, 12, 31), Some(CalendarDate { year: 2024, month: 12, day: 31 }));
    assert_eq!(CalendarDate::new(2024, 1, 1), Some(CalendarDate { year: 2024, month: 1, day: 1 }));
}

#[test]
fn different_days_read_differently() {
    let days = [
        (2024, 3, 7),
        (2024, 3, 8),
        (2024, 4, 7),
        (2023, 3, 7),
        (-2024, 3, 7),
        (12024, 3, 7),
        (2024, 1, 11),
        (2024, 11, 1),
    ];
    for (i, a) in days.iter().enumerate() {
        for (j, b) in days.iter().enumerate() {
            if i != j {
                assert_ne!(text_of(a.0, a.1, a.2), text_of(b.0, b.1, b.2));
            }
        }
    }
}
