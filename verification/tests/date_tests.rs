use money_monitor::date::Date;
use money_monitor::date::DateError;
use money_monitor::date::Month;
use money_monitor::date::MonthError;

#[test]
fn month_from_number_accepts_one_through_twelve() {
    assert_eq!(Ok(Month::January), Month::from_number(1));
    assert_eq!(Ok(Month::February), Month::from_number(2));
    assert_eq!(Ok(Month::March), Month::from_number(3));
    assert_eq!(Ok(Month::April), Month::from_number(4));
    assert_eq!(Ok(Month::May), Month::from_number(5));
    assert_eq!(Ok(Month::June), Month::from_number(6));
    assert_eq!(Ok(Month::July), Month::from_number(7));
    assert_eq!(Ok(Month::August), Month::from_number(8));
    assert_eq!(Ok(Month::September), Month::from_number(9));
    assert_eq!(Ok(Month::October), Month::from_number(10));
    assert_eq!(Ok(Month::November), Month::from_number(11));
    assert_eq!(Ok(Month::December), Month::from_number(12));
}

#[test]
fn month_from_number_rejects_everything_else() {
    assert_eq!(Err(MonthError::InvalidMonth(0)), Month::from_number(0));
    assert_eq!(Err(MonthError::InvalidMonth(13)), Month::from_number(13));
    assert_eq!(Err(MonthError::InvalidMonth(-1)), Month::from_number(-1));
    assert_eq!(Err(MonthError::InvalidMonth(42)), Month::from_number(42));
}

#[test]
fn leap_years_follow_the_gregorian_table() {
    let in_1900 = Date::new(15, Month::May, 1900).unwrap();
    let in_2000 = Date::new(15, Month::May, 2000).unwrap();
    let in_2024 = Date::new(15, Month::May, 2024).unwrap();
    let in_2025 = Date::new(15, Month::May, 2025).unwrap();
    assert!(!in_1900.is_leap_year());
    assert!(in_2000.is_leap_year());
    assert!(in_2024.is_leap_year());
    assert!(!in_2025.is_leap_year());
}

#[test]
fn february_length_depends_on_the_year() {
    let in_2025 = Date::new(15, Month::September, 2025).unwrap();
    let in_2024 = Date::new(15, Month::September, 2024).unwrap();
    assert_eq!(28, in_2025.nb_days_in_month(Month::February));
    assert_eq!(29, in_2024.nb_days_in_month(Month::February));
    assert_eq!(31, in_2025.nb_days_in_month(Month::January));
    assert_eq!(30, in_2025.nb_days_in_month(Month::April));
}

#[test]
fn new_rejects_days_outside_the_month() {
    assert!(Date::new(15, Month::September, 2025).is_ok());
    assert_eq!(
        Err(DateError::DayTooHigh { day: 42, max: 31 }),
        Date::new(42, Month::May, 2042)
    );
    assert_eq!(
        Err(DateError::DayTooHigh { day: 29, max: 28 }),
        Date::new(29, Month::February, 2025)
    );
    assert!(Date::new(29, Month::February, 2024).is_ok());
    assert_eq!(Err(DateError::DayTooLow { day: 0 }), Date::new(0, Month::May, 2025));
}

#[test]
fn from_yyyy_mm_dd_is_strict_about_widths() {
    let parsed = Date::from_yyyy_mm_dd("2025-09-15", '-').unwrap();
    assert_eq!(Date::new(15, Month::September, 2025).unwrap(), parsed);
    assert!(Date::from_yyyy_mm_dd("25-9-15", '-').is_none());
    assert!(Date::from_yyyy_mm_dd("2025-09-42", '-').is_none());
    assert!(Date::from_yyyy_mm_dd("", '-').is_none());
    assert!(Date::from_yyyy_mm_dd("2025/09/15", '-').is_none());
    assert!(Date::from_yyyy_mm_dd("2025/09/15", '/').is_some());
}

#[test]
fn display_uses_french_month_names() {
    let date = Date::new(15, Month::September, 2025).unwrap();
    assert_eq!("15 septembre 2025", date.to_display_string());
    let date = Date::new(1, Month::August, 1999).unwrap();
    assert_eq!("1 août 1999", date.to_display_string());
}

#[test]
fn writing_and_reparsing_a_date_round_trips() {
    let date = Date::new(29, Month::February, 2024).unwrap();
    assert_eq!(29, date.day());
    assert_eq!(Month::February, date.month());
    assert_eq!(2024, date.year());
    let written = date.to_yyyy_mm_dd('-');
    assert_eq!("2024-02-29", written);
    assert_eq!(date, Date::from_yyyy_mm_dd(&written, '-').unwrap());

    let date = Date::new(3, Month::January, 25).unwrap();
    let written = date.to_yyyy_mm_dd('.');
    assert_eq!("0025.01.03", written);
    assert_eq!(date, Date::from_yyyy_mm_dd(&written, '.').unwrap());
}
