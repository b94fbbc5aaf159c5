use baglama2::year_month::{DateError, YearMonth};

#[test]
fn test_first_last_day() {
    let ym = YearMonth::new(2020, 2).unwrap();
    assert_eq!(ym.first_day().unwrap().as_str(), "20200201");
    assert_eq!(ym.last_day().unwrap().as_str(), "20200229");
}

#[test]
fn test_display() {
    let ym = YearMonth::new(2020, 2).unwrap();
    assert_eq!(ym.to_string().as_str(), "2020-02");
}

#[test]
fn test_new() {
    let ym = YearMonth::new(2020, 2).unwrap();
    assert_eq!(ym.year(), 2020);
    assert_eq!(ym.month(), 2);
}

#[test]
fn test_new_rejects_bad_month() {
    assert_eq!(YearMonth::new(2020, 0).unwrap_err(), DateError::BadMonth);
    assert_eq!(YearMonth::new(2020, 13).unwrap_err(), DateError::BadMonth);
}

#[test]
fn test_new_rejects_bad_year() {
    assert_eq!(YearMonth::new(1999, 1).unwrap_err(), DateError::BadYear);
    assert_eq!(YearMonth::new(2031, 1).unwrap_err(), DateError::BadYear);
}

#[test]
fn test_new_accepts_window_edges() {
    assert!(YearMonth::new(2000, 1).is_ok());
    assert!(YearMonth::new(2030, 12).is_ok());
}

#[test]
fn test_common_year_february() {
    let ym = YearMonth::new(2021, 2).unwrap();
    assert_eq!(ym.first_day().unwrap().as_str(), "20210201");
    assert_eq!(ym.last_day().unwrap().as_str(), "20210228");
}

#[test]
fn test_century_leap_rule() {
    // 2000 is divisible by 400 and leaps; a plain multiple of four leaps too.
    assert_eq!(
        YearMonth::new(2000, 2).unwrap().last_day().unwrap().as_str(),
        "20000229"
    );
    assert_eq!(
        YearMonth::new(2024, 2).unwrap().last_day().unwrap().as_str(),
        "20240229"
    );
}

#[test]
fn test_month_lengths() {
    let ym = YearMonth::new(2022, 10).unwrap();
    assert_eq!(ym.first_day().unwrap().as_str(), "20221001");
    assert_eq!(ym.last_day().unwrap().as_str(), "20221031");
    let ym = YearMonth::new(2022, 4).unwrap();
    assert_eq!(ym.last_day().unwrap().as_str(), "20220430");
}

#[test]
fn test_month_subdir() {
    let ym = YearMonth::new(2022, 10).unwrap();
    assert_eq!(ym.month_subdir().as_str(), "202210");
    let ym = YearMonth::new(2020, 2).unwrap();
    assert_eq!(ym.month_subdir().as_str(), "202002");
}
