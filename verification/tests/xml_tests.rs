use listup_law::LawDataError;
use listup_law::date::Date;
use listup_law::era::Era;
use listup_law::law::LawPatchInfo;
use listup_law::xml::make_law_data;

fn patch_info(dir: &str, file: &str, id: &str, patch_id: &str) -> LawPatchInfo {
    LawPatchInfo {
        dir_name: dir.to_string(),
        file_name: file.to_string(),
        id: id.to_string(),
        patch_date: Date {
            ad_year: 2019,
            era: Era::Reiwa,
            year: 1,
            month: Some(5),
            day: Some(1),
        },
        patch_id: patch_id.to_string(),
    }
}

#[test]
fn extracts_date_without_month_and_day() {
    let xml = br#"<Law Era="Meiji" Year="5"><LawBody/></Law>"#;
    let info = patch_info("d", "f.xml", "id1", "p1");
    let d = make_law_data(xml, &info, &Vec::new()).unwrap().unwrap();
    assert_eq!(d.date.era, Era::Meiji);
    assert_eq!(d.date.year, 5);
    assert_eq!(d.date.ad_year, 1872);
    assert_eq!(d.date.month, None);
    assert_eq!(d.date.day, None);
}

#[test]
fn extracts_full_date_number_and_title() {
    let xml = br#"<Law Era="Heisei" Year="11" Month="1" Day="4">
        <LawNum>num-1</LawNum>
        <LawBody><LawTitle>title-1</LawTitle></LawBody>
    </Law>"#;
    let info = patch_info("dir", "file.xml", "id1", "p1");
    let d = make_law_data(xml, &info, &Vec::new()).unwrap().unwrap();
    assert_eq!(d.date.era, Era::Heisei);
    assert_eq!(d.date.year, 11);
    assert_eq!(d.date.ad_year, 1999);
    assert_eq!(d.date.month, Some(1));
    assert_eq!(d.date.day, Some(4));
    assert_eq!(d.num, "num-1");
    assert_eq!(d.name, "title-1");
    assert_eq!(d.file, "dir/file.xml");
    assert_eq!(d.id, "id1");
}

#[test]
fn ruby_text_is_excluded_from_the_title() {
    // The Ruby annotation's pronunciation text never reaches the title,
    // and of the remaining segments the last one wins.
    let xml = br#"<Law Era="Showa" Year="10" Month="2" Day="3">
        <LawBody><LawTitle>first<Ruby>yomi</Ruby>last</LawTitle></LawBody>
    </Law>"#;
    let info = patch_info("d", "f.xml", "id1", "p1");
    let d = make_law_data(xml, &info, &Vec::new()).unwrap().unwrap();
    assert_eq!(d.name, "last");
}

#[test]
fn ruby_only_title_keeps_text_before_it() {
    let xml = br#"<Law Era="Showa" Year="10">
        <LawBody><LawTitle>kept<Ruby>yomi</Ruby></LawTitle></LawBody>
    </Law>"#;
    let info = patch_info("d", "f.xml", "id1", "p1");
    let d = make_law_data(xml, &info, &Vec::new()).unwrap().unwrap();
    assert_eq!(d.name, "kept");
}

#[test]
fn promulgate_month_and_day_are_synonyms() {
    let xml = br#"<Law Era="Reiwa" Year="2" PromulgateMonth="6" PromulgateDay="7"></Law>"#;
    let info = patch_info("d", "f.xml", "id1", "p1");
    let d = make_law_data(xml, &info, &Vec::new()).unwrap().unwrap();
    assert_eq!(d.date.month, Some(6));
    assert_eq!(d.date.day, Some(7));
}

#[test]
fn no_law_element_yields_none() {
    let xml = br#"<Other><LawNum>n</LawNum></Other>"#;
    let info = patch_info("d", "f.xml", "id1", "p1");
    assert!(make_law_data(xml, &info, &Vec::new()).unwrap().is_none());
}

#[test]
fn missing_year_yields_none() {
    let xml = br#"<Law Era="Heisei"><LawNum>n</LawNum></Law>"#;
    let info = patch_info("d", "f.xml", "id1", "p1");
    assert!(make_law_data(xml, &info, &Vec::new()).unwrap().is_none());
}

#[test]
fn unrecognized_era_is_a_per_file_error() {
    let xml = br#"<Law Era="Ansei" Year="3"></Law>"#;
    let info = patch_info("d", "f.xml", "id1", "p1");
    match make_law_data(xml, &info, &Vec::new()) {
        Err(LawDataError::UnrecognizedEra { name }) => assert_eq!(name, "Ansei"),
        _ => panic!("expected an unrecognized era error"),
    }
}

#[test]
fn malformed_xml_is_a_per_file_error() {
    let xml = br#"<Law Era="Heisei" Year="1"><LawNum>n</Law"#;
    let info = patch_info("d", "f.xml", "id1", "p1");
    assert!(matches!(
        make_law_data(xml, &info, &Vec::new()),
        Err(LawDataError::XmlParseError)
    ));
}

#[test]
fn undecodable_bytes_are_a_per_file_encoding_error() {
    let mut xml: Vec<u8> = Vec::new();
    xml.extend_from_slice(br#"<Law Era="Heisei" Year="1"><LawNum>"#);
    // not valid UTF-8
    xml.extend_from_slice(&[0xFF, 0xFE]);
    xml.extend_from_slice(br#"</LawNum></Law>"#);
    let info = patch_info("d", "f.xml", "id1", "p1");
    assert!(matches!(
        make_law_data(&xml, &info, &Vec::new()),
        Err(LawDataError::EncodingError)
    ));
}

#[test]
fn version_list_is_attached() {
    let xml = br#"<Law Era="Heisei" Year="1" Month="2" Day="3"></Law>"#;
    let info = patch_info("d", "f.xml", "id1", "p1");
    let versions = vec![
        patch_info("d", "a.xml", "id1", "p1"),
        patch_info("d", "b.xml", "id1", "p2"),
    ];
    let d = make_law_data(xml, &info, &versions).unwrap().unwrap();
    assert_eq!(d.patch.len(), 2);
    assert_eq!(d.patch[0].file_name, "a.xml");
    assert_eq!(d.patch[1].file_name, "b.xml");
}

#[test]
fn law_num_last_write_wins() {
    let xml = br#"<Law Era="Heisei" Year="1">
        <LawNum>old</LawNum>
        <LawNum>new</LawNum>
    </Law>"#;
    let info = patch_info("d", "f.xml", "id1", "p1");
    let d = make_law_data(xml, &info, &Vec::new()).unwrap().unwrap();
    assert_eq!(d.num, "new");
}

#[test]
fn japanese_law_number_survives_extraction() {
    let num = "\u{660E}\u{6CBB}\u{4E94}\u{5E74}\u{592A}\u{653F}\u{5B98}\u{7B2C}358\u{53F7}";
    let xml = format!(
        r#"<Law Era="Meiji" Year="5"><LawNum>{}</LawNum></Law>"#,
        num
    );
    let info = patch_info("d", "f.xml", "id1", "p1");
    let d = make_law_data(xml.as_bytes(), &info, &Vec::new()).unwrap().unwrap();
    assert_eq!(d.num, num);
}
