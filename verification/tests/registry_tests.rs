use listup_law::LawDataError;
use listup_law::era::Era;
use listup_law::law::LawId;
use listup_law::registry::{Registry, make_law_data, make_law_id_data};

const MEIJI_NUM: &str = "\u{660E}\u{6CBB}\u{4E94}\u{5E74}\u{592A}\u{653F}\u{5B98}\u{7B2C}358\u{53F7}";

#[test]
fn a_registered_law_number_resolves_to_its_id_and_name() {
    let mut reg = Registry::new();
    reg.insert(
        MEIJI_NUM.to_string(),
        LawId { id: "123AC0000000001".to_string(), name: "n1".to_string() },
    );
    let entry = reg.get(MEIJI_NUM).unwrap();
    assert_eq!(entry.id, "123AC0000000001");
    assert_eq!(entry.name, "n1");
    assert!(reg.get("other").is_none());
}

#[test]
fn a_later_row_shadows_an_earlier_one() {
    let mut reg = Registry::new();
    reg.insert("n".to_string(), LawId { id: "old".to_string(), name: "o".to_string() });
    reg.insert("n".to_string(), LawId { id: "new".to_string(), name: "w".to_string() });
    assert_eq!(reg.get("n").unwrap().id, "new");
}

#[test]
fn registry_rows_come_from_the_csv_columns() {
    let mut bytes: Vec<u8> = Vec::new();
    bytes.extend_from_slice(b"h0,h1,h2,h3,h4,h5,h6,h7,h8,h9,h10,h11\n");
    bytes.extend_from_slice(b"t,NUM1,");
    // the law name, in the registry file's legacy double-byte encoding
    bytes.extend_from_slice(&[0x82, 0xA0]);
    bytes.extend_from_slice(b",r,o,w,f,i,l,l,e,ID1\n");
    bytes.extend_from_slice(b"t,NUM2,name2,r,o,w,f,i,l,l,e,ID2\n");
    let reg = make_law_id_data(&bytes).unwrap();
    let first = reg.get("NUM1").unwrap();
    assert_eq!(first.id, "ID1");
    assert_eq!(first.name, "\u{3042}");
    let second = reg.get("NUM2").unwrap();
    assert_eq!(second.id, "ID2");
    assert_eq!(second.name, "name2");
    assert!(reg.get("h1").is_none());
}

#[test]
fn a_row_without_the_id_column_is_an_error() {
    let bytes = b"h0,h1,h2\nt,NUM1,name1\n";
    assert!(matches!(
        make_law_id_data(bytes),
        Err(LawDataError::RegistryColumnMissing)
    ));
}

#[test]
fn an_unreadable_row_is_an_error() {
    let bytes = b"h0,h1\n\"t,NUM1\nx,y\n";
    assert!(matches!(
        make_law_id_data(bytes),
        Err(LawDataError::CsvError)
    ));
}

#[test]
fn an_extracted_law_number_resolves_through_the_registry() {
    let mut reg = Registry::new();
    reg.insert(
        MEIJI_NUM.to_string(),
        LawId { id: "123AC0000000001".to_string(), name: "resolved-name".to_string() },
    );
    let xml = format!(
        r#"<Law Era="Meiji" Year="5"><LawNum>{}</LawNum></Law>"#,
        MEIJI_NUM
    );
    let d = make_law_data(xml.as_bytes(), "path/f.xml", &reg).unwrap().unwrap();
    assert_eq!(d.id, "123AC0000000001");
    assert_eq!(d.name, "resolved-name");
    assert_eq!(d.num, MEIJI_NUM);
    assert_eq!(d.file, "path/f.xml");
    assert_eq!(d.date.era, Era::Meiji);
    assert_eq!(d.date.year, 5);
    assert!(d.patch.is_empty());
}

#[test]
fn an_unmatched_law_number_is_dropped_not_an_error() {
    let reg = Registry::new();
    let xml = br#"<Law Era="Meiji" Year="5"><LawNum>unknown</LawNum></Law>"#;
    let r = make_law_data(xml, "f.xml", &reg);
    assert!(r.unwrap().is_none());
}
