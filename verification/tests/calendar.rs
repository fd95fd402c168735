use venya::calendar::{
    int_string, parse_i32, zero_padded_string, CalendarProps, CalendarState, Date, ViewType,
    days_in_month, find_month, read_shown_month, current_date,
};
use venya::strings::split_whitespace;

fn today() -> Date {
    Date { year: 2024, month: 3, day: 15 }
}

fn props_with(default_date: Option<&str>, prevent: bool, minimum: Option<&str>) -> CalendarProps {
    let mut p = CalendarProps::new();
    p.default_date = default_date.map(|s| s.to_string());
    p.prevent_back_date = prevent;
    p.minimum_date = minimum.map(|s| s.to_string());
    p
}

#[test]
fn opens_on_the_default_date() {
    let s = CalendarState::initialize(&props_with(Some("2024-02-10"), false, None), today());
    assert_eq!(s.current_month, "February 2024");
    assert_eq!(s.current_selected_day, Some(Date { year: 2024, month: 2, day: 10 }));
    assert_eq!(s.month_days_count, 29);
    assert_eq!(s.current_selected_month, "2024-02-01");
    assert_eq!(s.first_day_position, 3);
    assert_eq!(s.today_date, 0);
    assert_eq!(s.view_type, ViewType::Month);
    assert_eq!(s.years_12, (2024..2036).collect::<Vec<i32>>());
}

#[test]
fn opens_on_today_without_a_readable_default() {
    let s = CalendarState::initialize(&props_with(Some("garbage"), false, None), today());
    assert_eq!(s.current_month, "March 2024");
    assert_eq!(s.current_selected_day, Some(today()));
    assert_eq!(s.today_date, 15);
    assert_eq!(s.first_day_position, 4);
    let s = CalendarState::initialize(&props_with(None, false, None), today());
    assert_eq!(s.current_month, "March 2024");
}

#[test]
fn opens_on_the_clock_date() {
    let s = CalendarState::new(&CalendarProps::new());
    let now = current_date();
    assert_eq!(s.current_selected_day.map(|d| d.year), Some(now.year));
    assert_eq!(s.view_type, ViewType::Month);
}

#[test]
fn month_pages_forward_and_back() {
    let mut s = CalendarState::initialize(&props_with(Some("2024-02-10"), false, None), today());
    s.go_to_page("next", today());
    assert_eq!(s.current_month, "March 2024");
    assert_eq!(s.month_days_count, 31);
    assert_eq!(s.first_day_position, 4);
    assert_eq!(s.today_date, 15);
    assert_eq!(s.current_selected_day, Some(Date { year: 2024, month: 2, day: 10 }));
    s.go_to_page("prev", today());
    assert_eq!(s.current_month, "February 2024");
    assert_eq!(s.month_days_count, 29);
    assert_eq!(s.today_date, 0);
    s.go_to_page("sideways", today());
    assert_eq!(s.current_month, "February 2024");
}

#[test]
fn month_pages_cross_the_year() {
    let mut s = CalendarState::initialize(&props_with(Some("2024-12-05"), false, None), today());
    s.go_to_page("next", today());
    assert_eq!(s.current_month, "January 2025");
    assert_eq!(s.first_day_position, 2);
    assert_eq!(s.current_selected_month, "2025-01-01");
    s.go_to_page("prev", today());
    s.go_to_page("prev", today());
    assert_eq!(s.current_month, "November 2024");
    assert_eq!(s.month_days_count, 30);
    assert_eq!(s.first_day_position, 4);
}

#[test]
fn year_run_pages() {
    let mut s = CalendarState::initialize(&props_with(Some("2024-02-10"), false, None), today());
    s.select_view();
    assert_eq!(s.view_type, ViewType::Years12);
    assert_eq!(s.current_month, "2024 - 2035");
    s.go_to_page("next", today());
    assert_eq!(s.current_month, "2036 - 2047");
    assert_eq!(s.years_12, (2036..2048).collect::<Vec<i32>>());
    s.go_to_page("prev", today());
    assert_eq!(s.current_month, "2024 - 2035");
    s.go_to_page("prev", today());
    assert_eq!(s.current_month, "2012 - 2023");
    s.select_view();
    assert_eq!(s.current_month, "2012 - 2023");
}

#[test]
fn choosing_a_year_then_a_month() {
    let mut s = CalendarState::initialize(&props_with(Some("2024-02-10"), false, None), today());
    s.select_view();
    s.select_year(2030);
    assert_eq!(s.view_type, ViewType::Year);
    assert_eq!(s.current_month, "2030");
    s.go_to_page("next", today());
    assert_eq!(s.current_month, "2031");
    assert_eq!(s.current_selected_month, "2031-01-01");
    s.select_year_month(5, today());
    assert_eq!(s.view_type, ViewType::Month);
    assert_eq!(s.current_selected_day, Some(Date { year: 2031, month: 5, day: 1 }));
    assert_eq!(s.current_selected_month, "2031-05-01");
    assert_eq!(s.month_days_count, 31);
    assert!(!s.date_is_selected(1));
    s.select_year_month(13, today());
    assert_eq!(s.current_selected_day, Some(Date { year: 2031, month: 5, day: 1 }));
}

#[test]
fn choosing_a_month_without_a_year_uses_this_year() {
    let mut s = CalendarState::initialize(&props_with(Some("2024-02-10"), false, None), today());
    s.current_month = String::new();
    s.view_type = ViewType::Year;
    s.select_year_month(7, Date { year: 2019, month: 1, day: 1 });
    assert_eq!(s.current_selected_day, Some(Date { year: 2019, month: 7, day: 1 }));
    assert_eq!(s.current_month, "2019");
}

#[test]
fn choosing_days() {
    let mut s =
        CalendarState::initialize(&props_with(Some("2024-02-10"), true, Some("2024-02-15")), today());
    assert!(s.date_is_selected(10));
    assert!(!s.date_is_selected(11));
    assert!(s.day_is_disabled(10, today()));
    assert!(!s.day_is_disabled(20, today()));
    assert_eq!(s.select_date(10, today()), None);
    assert_eq!(s.select_date(30, today()), None);
    assert_eq!(s.select_date(20, today()), Some("2024-02-20".to_string()));
    assert_eq!(s.current_selected_day, Some(Date { year: 2024, month: 2, day: 20 }));
    assert!(s.date_is_selected(20));
}

#[test]
fn back_dates_before_today_without_a_minimum() {
    let mut s = CalendarState::initialize(&props_with(Some("2024-03-01"), true, None), today());
    assert!(s.day_is_disabled(14, today()));
    assert!(!s.day_is_disabled(15, today()));
    assert_eq!(s.select_date(14, today()), None);
    assert_eq!(s.select_date(16, today()), Some("2024-03-16".to_string()));
    let unlocked = CalendarState::initialize(&props_with(Some("2024-03-01"), false, None), today());
    assert!(!unlocked.day_is_disabled(1, today()));
    assert!(!unlocked.disable_date(Date { year: 1999, month: 1, day: 1 }, today()));
    assert_eq!(s.get_minimum_date(today()), today());
}

#[test]
fn far_years_are_written_with_a_sign() {
    let mut s = CalendarState::initialize(&props_with(Some("2024-01-01"), false, None), today());
    s.current_month = "January -5".to_string();
    assert_eq!(s.select_date(10, today()), Some("-0005-01-10".to_string()));
    s.current_month = "March 12345".to_string();
    assert_eq!(s.select_date(2, today()), Some("+12345-03-02".to_string()));
    s.current_month = "June 7".to_string();
    assert_eq!(s.select_date(9, today()), Some("0007-06-09".to_string()));
}

#[test]
fn weekdays_of_first_days() {
    let s = CalendarState::initialize(&props_with(Some("2023-10-20"), false, None), today());
    assert_eq!(s.first_day_position, 6);
    let s = CalendarState::initialize(&props_with(Some("2000-02-29"), false, None), today());
    assert_eq!(s.first_day_position, 1);
    assert_eq!(s.month_days_count, 29);
    let s = CalendarState::initialize(&props_with(Some("1900-02-03"), false, None), today());
    assert_eq!(s.month_days_count, 28);
    assert_eq!(s.first_day_position, 3);
    let s = CalendarState::initialize(&props_with(Some("0000-01-15"), false, None), today());
    assert_eq!(s.current_month, "January 0");
    assert_eq!(s.first_day_position, 5);
    assert_eq!(s.current_selected_month, "0000-01-01");
    let mut s = s;
    s.go_to_page("prev", today());
    assert_eq!(s.current_month, "December -1");
    assert_eq!(s.current_selected_month, "-001-12-01");
    assert_eq!(s.first_day_position, 2);
}

#[test]
fn month_lengths() {
    assert_eq!(days_in_month(2023, 2), 28);
    assert_eq!(days_in_month(2024, 2), 29);
    assert_eq!(days_in_month(1900, 2), 28);
    assert_eq!(days_in_month(2000, 2), 29);
    assert_eq!(days_in_month(2024, 4), 30);
    assert_eq!(days_in_month(2024, 7), 31);
}

#[test]
fn numbers_as_text() {
    assert_eq!(int_string(0), "0");
    assert_eq!(int_string(-42), "-42");
    assert_eq!(int_string(i32::MIN), "-2147483648");
    assert_eq!(zero_padded_string(7, 4), "0007");
    assert_eq!(zero_padded_string(-5, 4), "-005");
    assert_eq!(zero_padded_string(12345, 4), "12345");
    assert_eq!(zero_padded_string(3, 2), "03");
    assert_eq!(parse_i32("+12"), Some(12));
    assert_eq!(parse_i32("-2147483648"), Some(i32::MIN));
    assert_eq!(parse_i32("2147483647"), Some(i32::MAX));
    assert_eq!(parse_i32("2147483648"), None);
    assert_eq!(parse_i32("99999999999"), None);
    assert_eq!(parse_i32(""), None);
    assert_eq!(parse_i32("-"), None);
    assert_eq!(parse_i32("12a"), None);
    assert_eq!(parse_i32(" 12"), None);
}

#[test]
fn headers_are_read_back() {
    assert_eq!(find_month("March"), Some(2));
    assert_eq!(find_month("march"), None);
    assert_eq!(read_shown_month("December 1999"), Some((11, 1999)));
    assert_eq!(read_shown_month("  May \t 7  "), Some((4, 7)));
    assert_eq!(read_shown_month("2024 - 2035"), None);
    assert_eq!(read_shown_month("May"), None);
    assert_eq!(
        split_whitespace("  a  bc\td \u{3000}e"),
        vec!["a".to_string(), "bc".to_string(), "d".to_string(), "e".to_string()]
    );
}
