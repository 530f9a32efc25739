use plutonian_shores::queries::QueryResults;
use plutonian_shores::records::PackageSelection;
use plutonian_shores::records::QueryResult;
use plutonian_shores::selection::read_single_index;
use plutonian_shores::selection::selection_from_input;
use plutonian_shores::selection::selection_from_line;
use plutonian_shores::selection::selection_from_token;
use plutonian_shores::selector::PackageSelector;

fn rec(name: &str) -> QueryResult {
    QueryResult {
        is_installed: false,
        pkg_name: String::from(name),
        pkg_version: String::from("-1_1"),
        pkg_description: String::from("d"),
        score: 50,
    }
}

fn five() -> QueryResults {
    QueryResults {
        records: vec![rec("one"), rec("two"), rec("three"), rec("four"), rec("five")],
        longest_name: 5,
    }
}

#[test]
fn single_index_selects_third() {
    let q = five();
    match selection_from_token("3", &q) {
        Some(PackageSelection::Package(p)) => assert_eq!(p, "three"),
        other => panic!("unexpected selection: {:?}", other.is_some()),
    }
}

#[test]
fn single_index_zero_cancels() {
    let q = five();
    assert!(matches!(selection_from_token("0", &q), Some(PackageSelection::Removed)));
}

#[test]
fn single_index_past_end_is_other_option() {
    let q = five();
    match selection_from_token("6", &q) {
        Some(PackageSelection::OtherOpt(k)) => assert_eq!(k, 1),
        _ => panic!("expected a trailing option"),
    }
}

#[test]
fn single_index_garbage_rejected() {
    let q = five();
    assert!(selection_from_token("abc", &q).is_none());
    assert!(selection_from_token("", &q).is_none());
    assert!(selection_from_token("2x", &q).is_none());
}

#[test]
fn multi_index_in_order() {
    let q = five();
    match selection_from_line("1 3", &q) {
        Some(PackageSelection::Packages(ps)) => {
            assert_eq!(ps, vec![String::from("one"), String::from("three")]);
        },
        _ => panic!("expected two packages"),
    }
}

#[test]
fn multi_index_zero_rejects_whole_line() {
    let q = five();
    assert!(selection_from_line("0 2", &q).is_none());
}

#[test]
fn multi_index_out_of_range_rejects_whole_line() {
    let q = five();
    assert!(selection_from_line("1 9", &q).is_none());
}

#[test]
fn input_dispatches_on_space() {
    let q = five();
    assert!(matches!(
        selection_from_input("2", &q, true),
        Some(PackageSelection::Package(_))
    ));
    assert!(matches!(
        selection_from_input("2 4", &q, true),
        Some(PackageSelection::Packages(_))
    ));
}

#[test]
fn other_option_needs_trailing_menu() {
    let q = five();
    assert!(selection_from_input("7", &q, false).is_none());
    assert!(matches!(
        selection_from_input("7", &q, true),
        Some(PackageSelection::OtherOpt(2))
    ));
}

#[test]
fn read_single_index_returns_record_and_len() {
    let q = five();
    let (r, len) = read_single_index("3", &q.records).unwrap();
    assert_eq!(r.pkg_name, "three");
    assert_eq!(len, 5);
    assert!(read_single_index("0", &q.records).is_none());
    assert!(read_single_index("6", &q.records).is_none());
}

#[test]
fn selector_builds_menu_and_selects() {
    let sel = PackageSelector::from_results(String::from("blen"), five());
    let msg = sel.build_msg();
    assert!(msg.starts_with("Query results for: blen\n1. one"));
    assert!(msg.ends_with("\n0. Remove pkg\nEnter option: "));
    match sel.select_line("2", false) {
        Some(PackageSelection::Package(p)) => assert_eq!(p, "two"),
        _ => panic!("expected a package"),
    }
}

#[test]
fn selector_smart_query_fills_results() {
    let mut sel = PackageSelector::new(String::from("bledner"));
    let strict: Vec<u8> = Vec::new();
    let catalog = b"- blender-4.0_1 3D creation suite\n".to_vec();
    assert!(sel.smart_query(&strict, &catalog));
    assert_eq!(sel.query_results.unwrap().records[0].pkg_name, "blender");
}
