use listup_law::chain::{LawTable, chain_max, patch_le_exec, sort_patches};
use listup_law::date::Date;
use listup_law::era::Era;
use listup_law::law::{LawData, LawPatchInfo};

fn version(file: &str, ad_year: u64, month: u64, day: u64, patch_id: &str) -> LawPatchInfo {
    LawPatchInfo {
        dir_name: "dir".to_string(),
        file_name: file.to_string(),
        id: "id1".to_string(),
        patch_date: Date {
            ad_year,
            era: Era::Heisei,
            year: 12,
            month: Some(month),
            day: Some(day),
        },
        patch_id: patch_id.to_string(),
    }
}

fn law(id: &str, patch: Vec<LawPatchInfo>) -> LawData {
    LawData {
        date: Date {
            ad_year: 2000,
            era: Era::Heisei,
            year: 12,
            month: Some(1),
            day: Some(1),
        },
        file: "dir/f.xml".to_string(),
        name: "name".to_string(),
        num: "num".to_string(),
        id: id.to_string(),
        patch,
    }
}

#[test]
fn two_versions_sort_ascending_and_latest_is_authoritative() {
    let older = version("a.xml", 2000, 1, 1, "p1");
    let newer = version("b.xml", 2010, 1, 1, "p2");
    let mut chain = vec![newer.clone(), older.clone()];
    sort_patches(&mut chain);
    assert_eq!(chain.len(), 2);
    assert_eq!(chain[0], older);
    assert_eq!(chain[1], newer);
    let top = chain_max(&chain).unwrap();
    assert_eq!(top, newer);
}

#[test]
fn discovery_order_does_not_matter() {
    let a = version("a.xml", 1999, 7, 2, "p1");
    let b = version("b.xml", 1999, 7, 2, "p2");
    let c = version("c.xml", 1999, 6, 30, "p3");
    let mut one = vec![b.clone(), a.clone(), c.clone()];
    let mut other = vec![c.clone(), b.clone(), a.clone()];
    sort_patches(&mut one);
    sort_patches(&mut other);
    assert_eq!(one, other);
    assert_eq!(one[0], c);
}

#[test]
fn equal_dates_tie_break_by_patch_id() {
    let x = version("x.xml", 2005, 3, 3, "zzz");
    let y = version("y.xml", 2005, 3, 3, "aaa");
    let mut chain = vec![x.clone(), y.clone()];
    sort_patches(&mut chain);
    assert_eq!(chain[0], y);
    assert_eq!(chain[1], x);
}

#[test]
fn missing_components_sort_first() {
    let mut no_month = version("m.xml", 2005, 1, 1, "p");
    no_month.patch_date.month = None;
    no_month.patch_date.day = None;
    let with_month = version("n.xml", 2005, 1, 1, "p");
    assert!(patch_le_exec(&no_month, &with_month));
    assert!(!patch_le_exec(&with_month, &no_month));
}

#[test]
fn table_accumulates_versions_per_law() {
    let mut table = LawTable::new();
    assert!(table.find("id1").is_none());
    table.insert_new(law("id1", vec![version("b.xml", 2010, 1, 1, "p2")]));
    let k = table.find("id1").unwrap();
    table.add_patch(k, version("a.xml", 2000, 1, 1, "p1"));
    assert!(table.find("other").is_none());

    let chain = table.ordered_chain("id1").unwrap();
    assert_eq!(chain.len(), 2);
    assert_eq!(chain[0].file_name, "a.xml");
    assert_eq!(chain[1].file_name, "b.xml");

    let top = table.authoritative_version("id1").unwrap();
    assert_eq!(top.file_name, "b.xml");
    assert!(table.authoritative_version("other").is_none());
}

#[test]
fn sort_all_orders_every_chain() {
    let mut table = LawTable::new();
    table.insert_new(law(
        "id1",
        vec![
            version("b.xml", 2010, 1, 1, "p2"),
            version("a.xml", 2000, 1, 1, "p1"),
        ],
    ));
    table.insert_new(law(
        "id2",
        vec![
            version("d.xml", 2020, 5, 5, "q2"),
            version("c.xml", 2015, 5, 5, "q1"),
        ],
    ));
    table.sort_all();
    assert_eq!(table.laws[0].patch[0].file_name, "a.xml");
    assert_eq!(table.laws[0].patch[1].file_name, "b.xml");
    assert_eq!(table.laws[1].patch[0].file_name, "c.xml");
    assert_eq!(table.laws[1].patch[1].file_name, "d.xml");
}
