//! The backend output parser: raw line-oriented query output becomes
//! structured records. Each line reads `<marker><sp><name>-<version><ws*>
//! <description>`, where the marker section ends at the first space, the
//! name block ends at the next whitespace, and the last hyphen of the name
//! block starts the version. A record is emitted only when the fuzzy score
//! of its name against the search term meets the threshold; lines that do
//! not parse, and text after the last newline, are dropped silently.
use crate::fuzzy::fuzzy_score;
use crate::fuzzy::fuzzy_score_of;
use crate::fuzzy::lemma_score_of_bits_range;
use crate::records::recs_view;
use crate::records::QueryResult;
use crate::records::QueryResultView;
use crate::strutil::byte_is_ws;
use crate::strutil::bytes_as_chars;
use crate::strutil::copy_range;
use crate::strutil::first_where;
use crate::strutil::is_ws_byte;
use crate::strutil::last_where;
use crate::strutil::lemma_first_where;
use crate::strutil::lemma_last_where;
use crate::strutil::string_of_range;
use vstd::prelude::*;

verus! {

/// The least score (0 ..= 100 scale) a candidate needs to be listed.
pub const DEFAULT_SCORE_THRESHOLD: i32 = 30;

pub open spec fn pred_space() -> spec_fn(u8) -> bool {
    |b: u8| b == 32
}

pub open spec fn pred_ws() -> spec_fn(u8) -> bool {
    |b: u8| is_ws_byte(b)
}

pub open spec fn pred_non_ws() -> spec_fn(u8) -> bool {
    |b: u8| !is_ws_byte(b)
}

pub open spec fn pred_hyphen() -> spec_fn(u8) -> bool {
    |b: u8| b == 45
}

pub open spec fn pred_marker() -> spec_fn(u8) -> bool {
    |b: u8| b == 42 || b == 45
}

/// The pieces of one well-formed line, still as raw bytes.
pub ghost struct LineParts {
    pub installed: bool,
    pub name: Seq<u8>,
    pub version: Seq<u8>,
    pub desc: Seq<u8>,
}

/// A marker section reports an installed package when the last `*` or `-`
/// in it is `*`; a section without either counts as not installed.
pub open spec fn marker_installed(marker: Seq<u8>) -> bool {
    match last_where(marker, pred_marker()) {
        Option::Some(i) => marker[i] == 42,
        Option::None => false,
    }
}

/// Split one line into marker, name, version and description. A line
/// without a space has no marker section and is dropped. The name block
/// runs from after the first space to the next whitespace; its last hyphen
/// starts the version (which keeps the hyphen); the description starts at
/// the first non-whitespace after the name block.
pub open spec fn split_line(line: Seq<u8>) -> Option<LineParts> {
    match first_where(line, pred_space()) {
        Option::None => Option::None,
        Option::Some(sp) => {
            let rest = line.skip(sp + 1);
            let w = match first_where(rest, pred_ws()) {
                Option::Some(w) => w,
                Option::None => rest.len() as int,
            };
            let name_block = rest.take(w);
            let after = rest.skip(w);
            let d = match first_where(after, pred_non_ws()) {
                Option::Some(d) => d,
                Option::None => after.len() as int,
            };
            let h = match last_where(name_block, pred_hyphen()) {
                Option::Some(h) => h,
                Option::None => name_block.len() as int,
            };
            Option::Some(
                LineParts {
                    installed: marker_installed(line.take(sp)),
                    name: name_block.take(h),
                    version: name_block.skip(h),
                    desc: after.skip(d),
                },
            )
        },
    }
}

/// The record one line yields: none unless the line splits and the fuzzy
/// score of its name against `term` is at least `thr`.
pub open spec fn line_record(line: Seq<u8>, term: Seq<char>, thr: int) -> Option<QueryResultView> {
    match split_line(line) {
        Option::None => Option::None,
        Option::Some(p) => {
            let name = bytes_as_chars(p.name);
            let score = fuzzy_score_of(term, name);
            if score >= thr {
                Option::Some(
                    QueryResultView {
                        is_installed: p.installed,
                        pkg_name: name,
                        pkg_version: bytes_as_chars(p.version),
                        pkg_description: bytes_as_chars(p.desc),
                        score: score,
                    },
                )
            } else {
                Option::None
            }
        },
    }
}

/// Scan the raw bytes with `cur` holding the line accumulated so far; each
/// newline closes a line, and bytes after the last newline never form one.
pub open spec fn records_scan(raw: Seq<u8>, cur: Seq<u8>, term: Seq<char>, thr: int) -> Seq<
    QueryResultView,
>
    decreases raw.len(),
{
    if raw.len() == 0 {
        seq![]
    } else if raw.first() == 10 {
        (match line_record(cur, term, thr) {
            Option::Some(r) => seq![r],
            Option::None => seq![],
        }) + records_scan(raw.drop_first(), seq![], term, thr)
    } else {
        records_scan(raw.drop_first(), cur.push(raw.first()), term, thr)
    }
}

/// The records that raw backend output yields for `term` at threshold
/// `thr`, in the order their lines appear.
pub open spec fn records_from(raw: Seq<u8>, term: Seq<char>, thr: int) -> Seq<QueryResultView> {
    records_scan(raw, seq![], term, thr)
}

/// The newline-terminated lines of the raw bytes, `cur` being the part of
/// the current line already seen.
pub open spec fn lines_scan(raw: Seq<u8>, cur: Seq<u8>) -> Seq<Seq<u8>>
    decreases raw.len(),
{
    if raw.len() == 0 {
        seq![]
    } else if raw.first() == 10 {
        seq![cur] + lines_scan(raw.drop_first(), seq![])
    } else {
        lines_scan(raw.drop_first(), cur.push(raw.first()))
    }
}

/// The newline-terminated lines of the raw bytes.
pub open spec fn lines_of(raw: Seq<u8>) -> Seq<Seq<u8>> {
    lines_scan(raw, seq![])
}

/// The records of a sequence of lines, one per line that qualifies.
pub open spec fn records_of_lines(ls: Seq<Seq<u8>>, term: Seq<char>, thr: int) -> Seq<
    QueryResultView,
>
    decreases ls.len(),
{
    if ls.len() == 0 {
        seq![]
    } else {
        (match line_record(ls.first(), term, thr) {
            Option::Some(r) => seq![r],
            Option::None => seq![],
        }) + records_of_lines(ls.drop_first(), term, thr)
    }
}

/// How many lines split and score at least `thr`.
pub open spec fn count_scoring(ls: Seq<Seq<u8>>, term: Seq<char>, thr: int) -> int
    decreases ls.len(),
{
    if ls.len() == 0 {
        0
    } else {
        (if line_record(ls.first(), term, thr) is Some {
            1int
        } else {
            0int
        }) + count_scoring(ls.drop_first(), term, thr)
    }
}

/// The longest package name among the records.
pub open spec fn max_name_len(rs: Seq<QueryResultView>) -> int
    decreases rs.len(),
{
    if rs.len() == 0 {
        0
    } else {
        let rest = max_name_len(rs.drop_first());
        if rs.first().pkg_name.len() > rest {
            rs.first().pkg_name.len() as int
        } else {
            rest
        }
    }
}

pub(crate) proof fn lemma_max_name_push(rs: Seq<QueryResultView>, v: QueryResultView)
    ensures
        max_name_len(rs.push(v)) == if v.pkg_name.len() > max_name_len(rs) {
            v.pkg_name.len() as int
        } else {
            max_name_len(rs)
        },
    decreases rs.len(),
{
    assert(rs.push(v).len() == rs.len() + 1);
    if rs.len() == 0 {
        assert(rs.push(v).first() == v);
        assert(rs.push(v).drop_first() =~= Seq::<QueryResultView>::empty());
        assert(max_name_len(Seq::<QueryResultView>::empty()) == 0);
    } else {
        assert(rs.push(v).first() == rs.first());
        assert(rs.push(v).drop_first() =~= rs.drop_first().push(v));
        lemma_max_name_push(rs.drop_first(), v);
    }
}

/// Every name is at most the longest.
pub proof fn lemma_max_name_bound(rs: Seq<QueryResultView>)
    ensures
        forall|k: int| 0 <= k < rs.len() ==> rs[k].pkg_name.len() <= max_name_len(rs),
        max_name_len(rs) >= 0,
    decreases rs.len(),
{
    if rs.len() > 0 {
        lemma_max_name_bound(rs.drop_first());
        assert forall|k: int| 0 <= k < rs.len() implies rs[k].pkg_name.len() <= max_name_len(
            rs,
        ) by {
            if k > 0 {
                assert(rs.drop_first()[k - 1] == rs[k]);
            }
        }
    }
}

proof fn lemma_records_scan_lines(raw: Seq<u8>, cur: Seq<u8>, term: Seq<char>, thr: int)
    ensures
        records_scan(raw, cur, term, thr) == records_of_lines(lines_scan(raw, cur), term, thr),
    decreases raw.len(),
{
    if raw.len() == 0 {
    } else if raw.first() == 10 {
        lemma_records_scan_lines(raw.drop_first(), seq![], term, thr);
        let ls = lines_scan(raw, cur);
        assert(ls.first() == cur);
        assert(ls.drop_first() =~= lines_scan(raw.drop_first(), seq![]));
    } else {
        lemma_records_scan_lines(raw.drop_first(), cur.push(raw.first()), term, thr);
    }
}

proof fn lemma_records_of_lines_props(ls: Seq<Seq<u8>>, term: Seq<char>, thr: int)
    ensures
        records_of_lines(ls, term, thr).len() == count_scoring(ls, term, thr),
        forall|k: int|
            0 <= k < records_of_lines(ls, term, thr).len() ==> thr <= #[trigger] records_of_lines(
                ls,
                term,
                thr,
            )[k].score <= 100,
    decreases ls.len(),
{
    if ls.len() > 0 {
        lemma_records_of_lines_props(ls.drop_first(), term, thr);
        match line_record(ls.first(), term, thr) {
            Option::Some(r) => {
                lemma_score_of_bits_range(
                    crate::fuzzy::fuzzy_bits_of(
                        term,
                        bytes_as_chars(split_line(ls.first())->Some_0.name),
                    ),
                );
            },
            Option::None => {},
        }
    }
}

/// A record is emitted for a line exactly when the line parses and its
/// name's fuzzy score against the term meets the threshold; the records
/// appear in line order, every emitted score lies within the threshold and
/// 100, and the record count equals the count of qualifying lines.
pub proof fn lemma_parse_emits_iff_threshold(raw: Seq<u8>, term: Seq<char>, thr: int)
    ensures
        records_from(raw, term, thr) == records_of_lines(lines_of(raw), term, thr),
        records_from(raw, term, thr).len() == count_scoring(lines_of(raw), term, thr),
        forall|k: int|
            0 <= k < records_from(raw, term, thr).len() ==> thr <= #[trigger] records_from(
                raw,
                term,
                thr,
            )[k].score <= 100,
{
    lemma_records_scan_lines(raw, seq![], term, thr);
    lemma_records_of_lines_props(lines_of(raw), term, thr);
}

/// Find the least index in `lo .. hi` holding a space.
fn find_space_in(s: &Vec<u8>, lo: usize, hi: usize) -> (r: Option<usize>)
    requires
        lo <= hi <= s@.len(),
    ensures
        match r {
            Option::Some(i) => lo <= i < hi && first_where(
                s@.subrange(lo as int, hi as int),
                pred_space(),
            ) == Option::Some(i - lo),
            Option::None => first_where(s@.subrange(lo as int, hi as int), pred_space())
                is None,
        },
{
    let ghost sub = s@.subrange(lo as int, hi as int);
    proof {
        lemma_first_where(sub, pred_space());
    }
    let mut i: usize = lo;
    while i < hi
        invariant
            lo <= i <= hi <= s@.len(),
            forall|j: int| lo <= j < i ==> !(pred_space())(s@[j]),
            sub == s@.subrange(lo as int, hi as int),
            first_where(sub, pred_space()) == first_where(
                s@.subrange(lo as int, hi as int),
                pred_space(),
            ),
        decreases hi - i,
    {
        if s[i] == 32 {
            proof {
                lemma_first_where(sub, pred_space());
                assert((pred_space())(sub[i - lo]));
            }
            return Option::Some(i);
        }
        i = i + 1;
    }
    proof {
        lemma_first_where(sub, pred_space());
        if first_where(sub, pred_space()) is Some {
            let k = first_where(sub, pred_space())->Some_0;
            assert((pred_space())(sub[k]));
            assert(sub[k] == s@[lo + k]);
        }
    }
    Option::None
}

/// Find the least index in `lo .. hi` holding ASCII whitespace.
fn find_ws_in(s: &Vec<u8>, lo: usize, hi: usize) -> (r: Option<usize>)
    requires
        lo <= hi <= s@.len(),
    ensures
        match r {
            Option::Some(i) => lo <= i < hi && first_where(
                s@.subrange(lo as int, hi as int),
                pred_ws(),
            ) == Option::Some(i - lo),
            Option::None => first_where(s@.subrange(lo as int, hi as int), pred_ws()) is None,
        },
{
    let ghost sub = s@.subrange(lo as int, hi as int);
    let mut i: usize = lo;
    while i < hi
        invariant
            lo <= i <= hi <= s@.len(),
            forall|j: int| lo <= j < i ==> !(pred_ws())(s@[j]),
            sub == s@.subrange(lo as int, hi as int),
        decreases hi - i,
    {
        if byte_is_ws(s[i]) {
            proof {
                lemma_first_where(sub, pred_ws());
                assert((pred_ws())(sub[i - lo]));
            }
            return Option::Some(i);
        }
        i = i + 1;
    }
    proof {
        lemma_first_where(sub, pred_ws());
        if first_where(sub, pred_ws()) is Some {
            let k = first_where(sub, pred_ws())->Some_0;
            assert((pred_ws())(sub[k]));
            assert(sub[k] == s@[lo + k]);
        }
    }
    Option::None
}

/// Find the least index in `lo .. hi` holding anything but whitespace.
fn find_non_ws_in(s: &Vec<u8>, lo: usize, hi: usize) -> (r: Option<usize>)
    requires
        lo <= hi <= s@.len(),
    ensures
        match r {
            Option::Some(i) => lo <= i < hi && first_where(
                s@.subrange(lo as int, hi as int),
                pred_non_ws(),
            ) == Option::Some(i - lo),
            Option::None => first_where(s@.subrange(lo as int, hi as int), pred_non_ws())
                is None,
        },
{
    let ghost sub = s@.subrange(lo as int, hi as int);
    let mut i: usize = lo;
    while i < hi
        invariant
            lo <= i <= hi <= s@.len(),
            forall|j: int| lo <= j < i ==> !(pred_non_ws())(s@[j]),
            sub == s@.subrange(lo as int, hi as int),
        decreases hi - i,
    {
        if !byte_is_ws(s[i]) {
            proof {
                lemma_first_where(sub, pred_non_ws());
                assert((pred_non_ws())(sub[i - lo]));
            }
            return Option::Some(i);
        }
        i = i + 1;
    }
    proof {
        lemma_first_where(sub, pred_non_ws());
        if first_where(sub, pred_non_ws()) is Some {
            let k = first_where(sub, pred_non_ws())->Some_0;
            assert((pred_non_ws())(sub[k]));
            assert(sub[k] == s@[lo + k]);
        }
    }
    Option::None
}

/// Find the greatest index in `lo .. hi` holding a hyphen.
fn rfind_hyphen_in(s: &Vec<u8>, lo: usize, hi: usize) -> (r: Option<usize>)
    requires
        lo <= hi <= s@.len(),
    ensures
        match r {
            Option::Some(i) => lo <= i < hi && last_where(
                s@.subrange(lo as int, hi as int),
                pred_hyphen(),
            ) == Option::Some(i - lo),
            Option::None => last_where(s@.subrange(lo as int, hi as int), pred_hyphen())
                is None,
        },
{
    let ghost sub = s@.subrange(lo as int, hi as int);
    let mut i: usize = hi;
    while i > lo
        invariant
            lo <= i <= hi <= s@.len(),
            forall|j: int| i <= j < hi ==> !(pred_hyphen())(s@[j]),
            sub == s@.subrange(lo as int, hi as int),
        decreases i - lo,
    {
        i = i - 1;
        if s[i] == 45 {
            proof {
                lemma_last_where(sub, pred_hyphen());
                assert((pred_hyphen())(sub[i - lo]));
            }
            return Option::Some(i);
        }
    }
    proof {
        lemma_last_where(sub, pred_hyphen());
        if last_where(sub, pred_hyphen()) is Some {
            let k = last_where(sub, pred_hyphen())->Some_0;
            assert((pred_hyphen())(sub[k]));
            assert(sub[k] == s@[lo + k]);
        }
    }
    Option::None
}

/// Whether the marker section `lo .. hi` reports an installed package.
fn marker_is_star(s: &Vec<u8>, lo: usize, hi: usize) -> (r: bool)
    requires
        lo <= hi <= s@.len(),
    ensures
        r == marker_installed(s@.subrange(lo as int, hi as int)),
{
    let ghost sub = s@.subrange(lo as int, hi as int);
    let mut i: usize = hi;
    while i > lo
        invariant
            lo <= i <= hi <= s@.len(),
            forall|j: int| i <= j < hi ==> !(pred_marker())(s@[j]),
            sub == s@.subrange(lo as int, hi as int),
        decreases i - lo,
    {
        i = i - 1;
        if s[i] == 42 || s[i] == 45 {
            proof {
                lemma_last_where(sub, pred_marker());
                assert((pred_marker())(sub[i - lo]));
            }
            return s[i] == 42;
        }
    }
    proof {
        lemma_last_where(sub, pred_marker());
        if last_where(sub, pred_marker()) is Some {
            let k = last_where(sub, pred_marker())->Some_0;
            assert((pred_marker())(sub[k]));
            assert(sub[k] == s@[lo + k]);
        }
    }
    false
}

/// Parse one line; on success also return the name's character count.
fn parse_line(line: &Vec<u8>, term: &str, thr: i32) -> (r: Option<(QueryResult, usize)>)
    ensures
        match r {
            Option::Some(q) => line_record(line@, term@, thr as int) == Option::Some(q.0@)
                && q.1 == q.0@.pkg_name.len(),
            Option::None => line_record(line@, term@, thr as int) is None,
        },
{
    let n = line.len();
    proof {
        assert(line@.subrange(0, n as int) =~= line@);
    }
    let sp = match find_space_in(line, 0, n) {
        Option::Some(sp) => sp,
        Option::None => {
            return Option::None;
        },
    };
    let ghost rest = line@.skip(sp + 1);
    proof {
        assert(line@.subrange(sp + 1, n as int) =~= rest);
    }
    // End of the name block, as an absolute index.
    let w = match find_ws_in(line, sp + 1, n) {
        Option::Some(w) => w,
        Option::None => n,
    };
    proof {
        let w_spec = match first_where(rest, pred_ws()) {
            Option::Some(x) => x,
            Option::None => rest.len() as int,
        };
        assert(w - (sp + 1) == w_spec);
        assert(line@.subrange(sp + 1, w as int) =~= rest.take(w_spec));
        assert(line@.subrange(w as int, n as int) =~= rest.skip(w_spec));
    }
    let ghost name_block = rest.take(w - (sp + 1));
    let ghost after = rest.skip(w - (sp + 1));
    // Start of the version within the name block, as an absolute index.
    let h = match rfind_hyphen_in(line, sp + 1, w) {
        Option::Some(h) => h,
        Option::None => w,
    };
    proof {
        let h_spec = match last_where(name_block, pred_hyphen()) {
            Option::Some(x) => x,
            Option::None => name_block.len() as int,
        };
        assert(h - (sp + 1) == h_spec);
        assert(line@.subrange(sp + 1, h as int) =~= name_block.take(h_spec));
        assert(line@.subrange(h as int, w as int) =~= name_block.skip(h_spec));
    }
    // Start of the description, as an absolute index.
    let d = match find_non_ws_in(line, w, n) {
        Option::Some(d) => d,
        Option::None => n,
    };
    proof {
        let d_spec = match first_where(after, pred_non_ws()) {
            Option::Some(x) => x,
            Option::None => after.len() as int,
        };
        assert(d - w == d_spec);
        assert(line@.subrange(d as int, n as int) =~= after.skip(d_spec));
    }
    let installed = marker_is_star(line, 0, sp);
    proof {
        assert(line@.subrange(0, sp as int) =~= line@.take(sp as int));
    }
    let name = string_of_range(line, sp + 1, h);
    let score = fuzzy_score(term, name.as_str());
    if score >= thr {
        let version = string_of_range(line, h, w);
        let desc = string_of_range(line, d, n);
        Option::Some(
            (
                QueryResult {
                    is_installed: installed,
                    pkg_name: name,
                    pkg_version: version,
                    pkg_description: desc,
                    score,
                },
                h - (sp + 1),
            ),
        )
    } else {
        Option::None
    }
}

/// Parse raw backend output into records, returning them in line order
/// together with the longest name's character count.
pub fn parse_raw(raw: &Vec<u8>, term: &str, thr: i32) -> (r: (Vec<QueryResult>, usize))
    ensures
        recs_view(r.0@) == records_from(raw@, term@, thr as int),
        r.1 == max_name_len(records_from(raw@, term@, thr as int)),
{
    let ghost target = records_from(raw@, term@, thr as int);
    let mut out: Vec<QueryResult> = Vec::new();
    let mut longest: usize = 0;
    let mut start: usize = 0;
    let mut i: usize = 0;
    proof {
        assert(raw@.skip(0) =~= raw@);
        assert(raw@.subrange(0, 0) =~= Seq::<u8>::empty());
        assert(recs_view(out@) =~= Seq::<QueryResultView>::empty());
    }
    while i < raw.len()
        invariant
            start <= i <= raw@.len(),
            target == records_from(raw@, term@, thr as int),
            target == recs_view(out@) + records_scan(
                raw@.skip(i as int),
                raw@.subrange(start as int, i as int),
                term@,
                thr as int,
            ),
            longest == max_name_len(recs_view(out@)),
        decreases raw@.len() - i,
    {
        let ghost cur = raw@.subrange(start as int, i as int);
        if raw[i] == 10 {
            let line = copy_range(raw, start, i);
            proof {
                assert(raw@.skip(i as int).first() == raw@[i as int]);
                assert(raw@.skip(i as int).drop_first() =~= raw@.skip(i + 1));
            }
            match parse_line(&line, term, thr) {
                Option::Some((q, nl)) => {
                    proof {
                        assert(recs_view(out@.push(q)) =~= recs_view(out@).push(q@));
                        lemma_max_name_push(recs_view(out@), q@);
                        assert(records_scan(raw@.skip(i as int), cur, term@, thr as int) =~= seq![
                            q@,
                        ] + records_scan(raw@.skip(i + 1), seq![], term@, thr as int));
                        assert(recs_view(out@).push(q@) =~= recs_view(out@) + seq![q@]);
                    }
                    if nl > longest {
                        longest = nl;
                    }
                    out.push(q);
                },
                Option::None => {
                    proof {
                        assert(records_scan(raw@.skip(i as int), cur, term@, thr as int)
                            =~= records_scan(raw@.skip(i + 1), seq![], term@, thr as int));
                    }
                },
            }
            start = i + 1;
            proof {
                assert(raw@.subrange(start as int, i + 1) =~= Seq::<u8>::empty());
            }
        } else {
            proof {
                assert(raw@.skip(i as int).first() == raw@[i as int]);
                assert(raw@.skip(i as int).drop_first() =~= raw@.skip(i + 1));
                assert(cur.push(raw@[i as int]) =~= raw@.subrange(start as int, i + 1));
            }
        }
        i = i + 1;
    }
    proof {
        assert(raw@.skip(raw@.len() as int) =~= Seq::<u8>::empty());
        assert(target =~= recs_view(out@));
    }
    (out, longest)
}

} // verus!
