use plutonian_shores::queries::QueryResults;
use plutonian_shores::records::QueryResult;

fn catalog() -> Vec<u8> {
    b"* feh-3.10_1  Fast image viewer\n- fehQlibs-11_1 Qingy libraries\n- zzzz-1.0 nothing similar\n"
        .to_vec()
}

#[test]
fn query_results_test_parse_results() {
    let raw = catalog();
    let p = QueryResults::parse_results(&raw, "feh").records;

    assert!(p[0].pkg_name.starts_with("feh"));
    assert_eq!(p[0].is_installed, true);

    assert!(p[1].pkg_name.starts_with("fehQlibs"));
    assert_eq!(p[1].is_installed, false);
}

#[test]
fn parse_splits_name_at_last_hyphen() {
    let raw = b"- gtk-layer-shell-0.8.2_1 Library for layer shells\n".to_vec();
    let p = QueryResults::parse_results(&raw, "gtk-layer-shell").records;
    assert_eq!(p.len(), 1);
    assert_eq!(p[0].pkg_name, "gtk-layer-shell");
    assert_eq!(p[0].pkg_version, "-0.8.2_1");
    assert_eq!(p[0].pkg_description, "Library for layer shells");
}

#[test]
fn parse_emits_iff_threshold() {
    // Three lines; the dissimilar one scores under the threshold and is
    // dropped, so exactly the qualifying lines appear, scores in range.
    let raw = catalog();
    let q = QueryResults::parse_results(&raw, "feh");
    assert_eq!(q.records.len(), 2);
    for r in &q.records {
        assert!(r.score >= 30);
        assert!(r.score <= 100);
    }
}

#[test]
fn parse_drops_unterminated_and_malformed_lines() {
    // No newline at the end: the trailing text never becomes a record.
    let raw = b"* feh-1_1 viewer\nnospacehere\n* feh-2_1 tail".to_vec();
    let q = QueryResults::parse_results(&raw, "feh");
    assert_eq!(q.records.len(), 1);
    assert_eq!(q.records[0].pkg_version, "-1_1");
}

#[test]
fn parse_tracks_longest_name() {
    let raw = catalog();
    let q = QueryResults::parse_results(&raw, "feh");
    // "fehQlibs" is the longest qualifying name
    assert_eq!(q.longest_name, 8);
}

#[test]
fn parse_empty_input() {
    let raw: Vec<u8> = Vec::new();
    let q = QueryResults::parse_results(&raw, "feh");
    assert_eq!(q.records.len(), 0);
    assert_eq!(q.longest_name, 0);
}

#[test]
fn parse_exact_name_scores_full() {
    let raw = b"- blender-4.0_1 3D creation suite\n".to_vec();
    let q = QueryResults::parse_results(&raw, "blender");
    assert_eq!(q.records.len(), 1);
    assert_eq!(q.records[0].score, 100);
}

#[test]
fn parse_output_trims_raw_bytes() {
    let out = plutonian_shores::parse_output(b"  hello world \n".to_vec());
    assert_eq!(out, "hello world");
    let empty = plutonian_shores::parse_output(b" \n\t ".to_vec());
    assert_eq!(empty, "");
}

#[test]
fn record_display_format() {
    let r = QueryResult {
        is_installed: true,
        pkg_name: String::from("feh"),
        pkg_version: String::from("3.10"),
        pkg_description: String::from("Fast image viewer"),
        score: 90,
    };
    assert_eq!(r.display(), "feh [*]\nVersion: 3.10\nDescription: Fast image viewer");
}
