use pdforum::calendar::{narrow, today, utc_offset};

#[test]
fn offset_in_hours_becomes_seconds() {
    assert_eq!(utc_offset(Some(0), 7200), Some(0));
    assert_eq!(utc_offset(Some(1), 0), Some(3600));
    assert_eq!(utc_offset(Some(-5), 0), Some(-18000));
    assert_eq!(utc_offset(Some(23), 0), Some(82800));
    assert_eq!(utc_offset(Some(-23), 0), Some(-82800));
}

#[test]
fn offset_of_a_day_or_more_is_no_zone() {
    assert_eq!(utc_offset(Some(24), 0), None);
    assert_eq!(utc_offset(Some(-24), 0), None);
    assert_eq!(utc_offset(Some(600_000), 0), None);
    assert_eq!(utc_offset(Some(i64::MAX), 0), None);
    assert_eq!(utc_offset(Some(i64::MIN), 0), None);
    assert_eq!(utc_offset(Some(2_147_483_648), 0), None);
}

#[test]
fn without_an_offset_the_local_zone_counts() {
    assert_eq!(utc_offset(None, 3600), Some(3600));
    assert_eq!(utc_offset(None, -86399), Some(-86399));
    assert_eq!(utc_offset(None, 86400), None);
    assert_eq!(utc_offset(None, -86400), None);
}

#[test]
fn narrow_keeps_dates_that_fit() {
    assert_eq!(narrow(Some((2024, 2, 29))), Some((2024, 2, 29)));
    assert_eq!(narrow(Some((-5, 255, 255))), Some((-5, 255, 255)));
    assert_eq!(narrow(Some((2024, 256, 1))), None);
    assert_eq!(narrow(Some((2024, 1, 256))), None);
    assert_eq!(narrow(None), None);
}

#[test]
fn today_at_the_epoch() {
    assert_eq!(today(0, Some(0), 0), Some((1970, 1, 1)));
    assert_eq!(today(0, Some(-1), 0), Some((1969, 12, 31)));
    assert_eq!(today(86399, Some(0), 0), Some((1970, 1, 1)));
    assert_eq!(today(86400, Some(0), 0), Some((1970, 1, 2)));
}

#[test]
fn today_moves_with_the_zone() {
    let late = 1_709_247_600;
    assert_eq!(today(late, Some(0), 0), Some((2024, 2, 29)));
    assert_eq!(today(late, Some(1), 0), Some((2024, 3, 1)));
    assert_eq!(today(late, None, 3600), Some((2024, 3, 1)));
    assert_eq!(today(late, None, 0), Some((2024, 2, 29)));
}

#[test]
fn today_without_a_zone_or_a_date_is_none() {
    assert_eq!(today(0, Some(24), 0), None);
    assert_eq!(today(0, None, 86400), None);
    assert_eq!(today(i64::MAX, Some(0), 0), None);
    assert_eq!(today(i64::MIN, Some(0), 0), None);
}
