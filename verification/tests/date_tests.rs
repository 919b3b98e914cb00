use listup_law::date::Date;
use listup_law::era::Era;
use std::cmp::Ordering;

fn date(ad_year: u64, month: Option<u64>, day: Option<u64>) -> Date {
    Date { ad_year, era: Era::Heisei, year: 1, month, day }
}

#[test]
fn different_years_compare_by_year() {
    let a = date(1999, None, None);
    let b = date(2000, Some(1), Some(1));
    assert_eq!(a.partial_cmp(&b), Some(Ordering::Less));
    assert_eq!(b.partial_cmp(&a), Some(Ordering::Greater));
}

#[test]
fn same_year_compares_by_month_then_day() {
    let a = date(2000, Some(3), Some(5));
    let b = date(2000, Some(3), Some(9));
    let c = date(2000, Some(4), Some(1));
    assert_eq!(a.partial_cmp(&b), Some(Ordering::Less));
    assert_eq!(a.partial_cmp(&c), Some(Ordering::Less));
    assert_eq!(a.partial_cmp(&a), Some(Ordering::Equal));
}

#[test]
fn missing_components_make_dates_incomparable() {
    let no_month = date(2000, None, None);
    let full = date(2000, Some(1), Some(1));
    let no_day = date(2000, Some(1), None);
    assert_eq!(no_month.partial_cmp(&full), None);
    assert_eq!(full.partial_cmp(&no_month), None);
    assert_eq!(no_day.partial_cmp(&full), None);
    // the total comparison counts incomparable pairs as equal
    assert_eq!(no_month.cmp(&full), Ordering::Equal);
}

#[test]
fn dates_with_equal_fields_are_equal() {
    let a = date(2000, Some(1), None);
    let b = date(2000, Some(1), None);
    assert_eq!(a, b);
    assert!(a != date(2000, Some(2), None));
}
