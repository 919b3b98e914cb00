use listup_law::LawDataError;
use listup_law::era::Era;
use listup_law::filename::file_path_to_data;

#[test]
fn parses_a_version_file_name() {
    let (id, info) = file_path_to_data("123AC0000000001", "123AC0000000001_20190501_000000000000000.xml")
        .unwrap();
    assert_eq!(id, "123AC0000000001");
    assert_eq!(info.id, "123AC0000000001");
    assert_eq!(info.dir_name, "123AC0000000001");
    assert_eq!(info.file_name, "123AC0000000001_20190501_000000000000000.xml");
    assert_eq!(info.patch_id, "000000000000000");
    assert_eq!(info.patch_date.ad_year, 2019);
    assert_eq!(info.patch_date.era, Era::Reiwa);
    assert_eq!(info.patch_date.year, 1);
    assert_eq!(info.patch_date.month, Some(5));
    assert_eq!(info.patch_date.day, Some(1));
}

#[test]
fn missing_patch_segment_fails() {
    let r = file_path_to_data("d", "123AC0000000001_20190501.xml");
    match r {
        Err(LawDataError::FilenamePatternMismatch { name }) => {
            assert_eq!(name, "123AC0000000001_20190501.xml");
        }
        _ => panic!("expected a pattern mismatch"),
    }
}

#[test]
fn short_date_fails() {
    assert!(matches!(
        file_path_to_data("d", "abc_201905_p.xml"),
        Err(LawDataError::FilenamePatternMismatch { .. })
    ));
}

#[test]
fn wrong_suffix_fails() {
    assert!(matches!(
        file_path_to_data("d", "abc_20190501_p.txt"),
        Err(LawDataError::FilenamePatternMismatch { .. })
    ));
}

#[test]
fn empty_id_fails() {
    assert!(matches!(
        file_path_to_data("d", "_20190501_p.xml"),
        Err(LawDataError::FilenamePatternMismatch { .. })
    ));
}

#[test]
fn date_before_the_era_table_fails() {
    assert!(matches!(
        file_path_to_data("d", "abc_18000101_p.xml"),
        Err(LawDataError::DateOutOfRange)
    ));
}

#[test]
fn heisei_file_date() {
    let (_, info) = file_path_to_data("dir", "321M50000400034_19990104_000000000000000.xml").unwrap();
    assert_eq!(info.patch_date.era, Era::Heisei);
    assert_eq!(info.patch_date.year, 11);
    assert_eq!(info.patch_date.ad_year, 1999);
}
