use plutonian_shores::queries::smart_query;
use plutonian_shores::queries::QueryResults;
use plutonian_shores::query::Query;
use plutonian_shores::records::QueryError;
use plutonian_shores::records::QueryResult;

fn rec(name: &str, score: i32) -> QueryResult {
    QueryResult {
        is_installed: false,
        pkg_name: String::from(name),
        pkg_version: String::from("-1_1"),
        pkg_description: String::from("d"),
        score,
    }
}

#[test]
fn query_results_test_fuzzy_search() {
    let raw = b"- blender-4.0_1 3D creation suite\n- gimp-2.10_1 image editor\n".to_vec();
    let p = QueryResults::parse_results(&raw, "blneder").records;
    assert_ne!(p.len(), 0);
}

#[test]
fn query_results_test_sorting() {
    let raw = b"- bl-1_1 two letters\n- blender-4.0_1 3D creation suite\n".to_vec();
    let mut p = QueryResults::parse_results(&raw, "blen");
    p.sort();
    assert_eq!(p.records[0].pkg_name, "blender");
}

#[test]
fn fuzzy_query_sorted_descending() {
    let raw = b"- bl-1_1 two letters\n- blende-1_1 close\n- blender-4.0_1 suite\n".to_vec();
    let q = QueryResults::fuzzy_query(&raw, "blen").unwrap();
    for w in q.records.windows(2) {
        assert!(w[0].score >= w[1].score);
    }
}

#[test]
fn test_exact_match() {
    let raw = b"- blender-4.0_1 suite\n- blende-1_1 close\n".to_vec();
    let res = QueryResults::fuzzy_query(&raw, "blender").unwrap();
    assert_eq!(res.records[0].pkg_name, "blender");
    assert_eq!(res.records.len(), 1);
}

#[test]
fn fuzzy_query_empty_results() {
    let raw = b"- zzzz-1_1 nothing similar\n".to_vec();
    assert!(QueryResults::fuzzy_query(&raw, "feh").is_none());
}

#[test]
fn smart_query_prefers_strict() {
    let strict = b"- feh-3.10_1 viewer\n".to_vec();
    let broad = b"- fehQlibs-11_1 libs\n- feh-3.10_1 viewer\n".to_vec();
    let q = smart_query(&strict, &broad, "feh").unwrap();
    assert_eq!(q.records.len(), 1);
}

#[test]
fn smart_query_falls_back_to_catalog() {
    let strict: Vec<u8> = Vec::new();
    let broad = b"- feh-3.10_1 viewer\n- fehQlibs-11_1 libs\n".to_vec();
    let q = smart_query(&strict, &broad, "fehQ").unwrap();
    assert!(q.records.len() >= 1);
}

#[test]
fn filters_keep_and_drop_by_term() {
    let raw = b"* feh-3.10_1 Fast image viewer\n- fehQlibs-11_1 Qingy libraries\n".to_vec();
    let mut q = QueryResults::parse_results(&raw, "feh");
    let mut q2 = QueryResults::parse_results(&raw, "feh");
    q.filter_include("Qingy");
    assert_eq!(q.records.len(), 1);
    assert_eq!(q.records[0].pkg_name, "fehQlibs");
    q2.filter_exclude("Qingy");
    assert_eq!(q2.records.len(), 1);
    assert_eq!(q2.records[0].pkg_name, "feh");
}

#[test]
fn to_list_renders_rows() {
    let q = QueryResults { records: vec![rec("feh", 90), rec("ab", 50)], longest_name: 3 };
    assert_eq!(q.to_list(), "[-] feh-1_1   d\n[-] ab-1_1   d");
}

#[test]
fn to_menu_renders_numbered_entries() {
    let q = QueryResults { records: vec![rec("feh", 90), rec("ab", 50)], longest_name: 3 };
    assert_eq!(q.to_menu(), "1. feh\n2. ab\n");
}

#[test]
fn test_xbps_query() {
    let raw = b"- blender-4.0_1 suite\n- zzzz-1_1 nothing\n".to_vec();
    let res = Query::query("blende", &raw, None).unwrap();
    assert_eq!(res.results[0].pkg_name, "blender");
}

#[test]
fn test_charon_query() {
    let index = "charon = { version = \"1.0\", description = \"manifest installer\" }\n";
    let res = plutonian_shores::charon_index::query_charon("charon", index);
    assert_eq!("charon", res.unwrap().pkg_name);
    let res2 = plutonian_shores::charon_index::query_charon("hello", index);
    assert!(matches!(res2, None));
}

#[test]
fn query_falls_back_to_index_entry() {
    let raw = b"- zzzz-1_1 nothing\n".to_vec();
    let fallback = rec("mytool", 100);
    let q = Query::query("mytool", &raw, Some(fallback)).unwrap();
    assert_eq!(q.results.len(), 1);
    assert_eq!(q.results[0].pkg_name, "mytool");
}

#[test]
fn query_not_found_without_fallback() {
    let raw: Vec<u8> = Vec::new();
    let e = Query::query("ghost", &raw, None).unwrap_err();
    assert!(matches!(e, QueryError::NotFound(_)));
}

#[test]
fn query_accessors() {
    let q = Query::from_results(vec![rec("alpha", 40), rec("lengthy", 60)]);
    assert_eq!(q.len(), 2);
    assert_eq!(q.get(1).unwrap().pkg_name, "lengthy");
    assert!(q.get(2).is_none());
    assert_eq!(q.longest_name, 7);
    let names = q.get_pkg_names();
    assert_eq!(names, vec![String::from("alpha"), String::from("lengthy")]);
}

#[test]
fn generate_list_grid() {
    let q = Query {
        pkg_name: String::from("x"),
        results: vec![rec("feh", 90), rec("ab", 50)],
        longest_name: 3,
    };
    let s = q.generate_list(0, None, 1);
    assert_eq!(s, "1. feh \n\r2. ab  \n\r");
    let two_col = q.generate_list(0, None, 2);
    assert_eq!(two_col, "1. feh 2. ab  \n\r");
}
