//! Index-based selection over a result list. One line of input addresses
//! the list in two modes: a single token is a 1-based index, where `0`
//! cancels and an index past the end names one of the trailing menu
//! options; several space-separated tokens select several packages at
//! once, and there any `0`, out-of-range index or malformed token rejects
//! the whole line.
use crate::queries::QueryResults;
use crate::records::recs_view;
use crate::records::PackageSelection;
use crate::records::QueryResult;
use crate::records::QueryResultView;
use crate::records::strs_view;
use crate::records::SelectionView;
use crate::strutil::contains_seq;
use crate::strutil::parse_usize;
use crate::strutil::parse_usize_spec;
use crate::strutil::push_char;
use crate::strutil::str_contains;
use vstd::prelude::*;
use vstd::string::StrSliceExecFns;

verus! {

/// Split on single spaces, keeping empty pieces, with `cur` the piece
/// accumulated so far; the piece after the last space is always kept.
pub open spec fn split_scan(s: Seq<char>, cur: Seq<char>) -> Seq<Seq<char>>
    decreases s.len(),
{
    if s.len() == 0 {
        seq![cur]
    } else if s.first() == ' ' {
        seq![cur] + split_scan(s.drop_first(), seq![])
    } else {
        split_scan(s.drop_first(), cur.push(s.first()))
    }
}

/// The space-separated tokens of a line, empty pieces kept.
pub open spec fn split_sp(s: Seq<char>) -> Seq<Seq<char>> {
    split_scan(s, seq![])
}

/// What a single token selects: nothing parseable rejects it; `0` cancels;
/// an index within the list names that record (1-based); a greater index
/// names a trailing menu option, renumbered from 1.
pub open spec fn token_selection(s: Seq<char>, recs: Seq<QueryResultView>) -> Option<
    SelectionView,
> {
    match parse_usize_spec(s) {
        Option::None => Option::None,
        Option::Some(v) => if v == 0 {
            Option::Some(SelectionView::Removed)
        } else if v <= recs.len() {
            Option::Some(SelectionView::Package(recs[v - 1].pkg_name))
        } else {
            Option::Some(SelectionView::OtherOpt(v - recs.len()))
        },
    }
}

/// The names the tokens select, in token order: defined only when every
/// token is an in-range 1-based index.
pub open spec fn selected_names(toks: Seq<Seq<char>>, recs: Seq<QueryResultView>) -> Option<
    Seq<Seq<char>>,
>
    decreases toks.len(),
{
    if toks.len() == 0 {
        Option::Some(seq![])
    } else {
        match parse_usize_spec(toks.first()) {
            Option::Some(v) => if 1 <= v <= recs.len() {
                match selected_names(toks.drop_first(), recs) {
                    Option::Some(rest) => Option::Some(
                        seq![recs[v - 1].pkg_name] + rest,
                    ),
                    Option::None => Option::None,
                }
            } else {
                Option::None
            },
            Option::None => Option::None,
        }
    }
}

/// What a whole line selects in multi-index mode.
pub open spec fn line_selection(s: Seq<char>, recs: Seq<QueryResultView>) -> Option<
    SelectionView,
> {
    match selected_names(split_sp(s), recs) {
        Option::Some(ns) => Option::Some(SelectionView::Packages(ns)),
        Option::None => Option::None,
    }
}

/// What a line of input selects: single-index mode without a space,
/// multi-index mode with one; a trailing-option index is rejected where
/// the menu offers no trailing options.
pub open spec fn input_selection(
    s: Seq<char>,
    recs: Seq<QueryResultView>,
    allow_extra_opts: bool,
) -> Option<SelectionView> {
    if !contains_seq(s, " "@) {
        match token_selection(s, recs) {
            Option::Some(sel) => if (sel matches SelectionView::OtherOpt(_))
                && !allow_extra_opts {
                Option::None
            } else {
                Option::Some(sel)
            },
            Option::None => Option::None,
        }
    } else {
        line_selection(s, recs)
    }
}

/// Split a line on single spaces, keeping empty tokens.
pub fn split_spaces(s: &str) -> (r: Vec<String>)
    ensures
        strs_view(r@) == split_sp(s@),
{
    let n = s.unicode_len();
    let mut out: Vec<String> = Vec::new();
    let mut cur = String::new();
    let mut i: usize = 0;
    proof {
        assert(s@.skip(0) =~= s@);
    }
    while i < n
        invariant
            0 <= i <= n,
            n == s@.len(),
            split_sp(s@) == strs_view(out@) + split_scan(s@.skip(i as int), cur@),
        decreases n - i,
    {
        let c = s.get_char(i);
        let ghost rest = s@.skip(i as int);
        proof {
            assert(rest.first() == s@[i as int]);
            assert(rest.drop_first() =~= s@.skip(i + 1));
        }
        if c == ' ' {
            let ghost out_pre = out@;
            let ghost cur_view = cur@;
            out.push(cur);
            cur = String::new();
            proof {
                assert(strs_view(out@) =~= strs_view(out_pre) + seq![cur_view]);
                assert(strs_view(out_pre) + (seq![cur_view] + split_scan(s@.skip(i + 1), cur@))
                    =~= strs_view(out@) + split_scan(s@.skip(i + 1), cur@));
            }
        } else {
            push_char(&mut cur, c);
        }
        i = i + 1;
    }
    proof {
        assert(s@.skip(n as int) =~= Seq::<char>::empty());
    }
    let ghost out_pre = out@;
    let ghost cur_view = cur@;
    out.push(cur);
    proof {
        assert(strs_view(out@) =~= strs_view(out_pre) + seq![cur_view]);
    }
    out
}

/// Select one record by a 1-based index token: the record and its name's
/// character count, or nothing for `0`, an out-of-range index or a
/// malformed token.
pub fn read_single_index(input: &str, query: &Vec<QueryResult>) -> (r: Option<(QueryResult, usize)>)
    ensures
        match parse_usize_spec(input@) {
            Option::Some(v) => if 1 <= v <= query@.len() {
                r matches Option::Some(p) && p.0@ == query@[v - 1]@ && p.1
                    == query@[v - 1]@.pkg_name.len()
            } else {
                r is None
            },
            Option::None => r is None,
        },
{
    let num_input = match parse_usize(input) {
        Option::Some(0) | Option::None => {
            return Option::None;
        },
        Option::Some(num) => num,
    };
    if num_input > query.len() {
        return Option::None;
    }
    let rec = query[num_input - 1].clone();
    let name_len = rec.pkg_name.as_str().unicode_len();
    Option::Some((rec, name_len))
}

/// What a single token selects against a result set.
pub fn selection_from_token(input: &str, query: &QueryResults) -> (r: Option<PackageSelection>)
    ensures
        match r {
            Option::Some(sel) => token_selection(input@, recs_view(query.records@))
                == Option::Some(sel@),
            Option::None => token_selection(input@, recs_view(query.records@)) is None,
        },
{
    let num_input = match parse_usize(input) {
        Option::Some(num) => num,
        Option::None => {
            return Option::None;
        },
    };
    if num_input == 0 {
        Option::Some(PackageSelection::Removed)
    } else if num_input <= query.records.len() {
        let name = query.records[num_input - 1].pkg_name.clone();
        proof {
            assert(recs_view(query.records@)[num_input - 1] == query.records@[num_input - 1]@);
        }
        Option::Some(PackageSelection::Package(name))
    } else {
        Option::Some(PackageSelection::OtherOpt(num_input - query.records.len()))
    }
}

/// What a whole line selects in multi-index mode: every token must be an
/// in-range index, else the line selects nothing.
pub fn selection_from_line(input: &str, query: &QueryResults) -> (r: Option<PackageSelection>)
    ensures
        match r {
            Option::Some(sel) => line_selection(input@, recs_view(query.records@))
                == Option::Some(sel@),
            Option::None => line_selection(input@, recs_view(query.records@)) is None,
        },
{
    let ghost recs = recs_view(query.records@);
    let toks = split_spaces(input);
    let ghost tok_views = strs_view(toks@);
    let mut names: Vec<String> = Vec::new();
    let mut i: usize = 0;
    proof {
        assert(tok_views.skip(0) =~= tok_views);
        assert(strs_view(names@) =~= Seq::<Seq<char>>::empty());
    }
    while i < toks.len()
        invariant
            0 <= i <= toks@.len(),
            tok_views == strs_view(toks@),
            tok_views == split_sp(input@),
            recs == recs_view(query.records@),
            ({
                let done = strs_view(names@);
                match selected_names(tok_views.skip(i as int), recs) {
                    Option::Some(rest) => selected_names(tok_views, recs) == Option::Some(
                        done + rest,
                    ),
                    Option::None => selected_names(tok_views, recs) is None,
                }
            }),
        decreases toks@.len() - i,
    {
        let ghost rest = tok_views.skip(i as int);
        proof {
            assert(rest.first() == tok_views[i as int]);
            assert(rest.drop_first() =~= tok_views.skip(i + 1));
            assert(tok_views[i as int] == toks@[i as int]@);
        }
        let v = match parse_usize(toks[i].as_str()) {
            Option::Some(v) => v,
            Option::None => {
                proof {
                    assert(parse_usize_spec(rest.first()) is None);
                    assert(selected_names(rest, recs) is None);
                    assert(selected_names(tok_views, recs) is None);
                    assert(split_sp(input@) == tok_views);
                    assert(line_selection(input@, recs) is None);
                }
                return Option::None;
            },
        };
        if v == 0 || v > query.records.len() {
            proof {
                assert(parse_usize_spec(rest.first()) == Option::Some(v as int));
                assert(!(1 <= v as int <= recs.len()));
                assert(selected_names(rest, recs) is None);
                assert(selected_names(tok_views, recs) is None);
                assert(split_sp(input@) == tok_views);
                assert(line_selection(input@, recs) is None);
            }
            return Option::None;
        }
        let ghost names_pre = names@;
        let name = query.records[v - 1].pkg_name.clone();
        names.push(name);
        proof {
            assert(recs[v - 1] == query.records@[v - 1]@);
            assert(strs_view(names@) =~= strs_view(names_pre) + seq![recs[v - 1].pkg_name]);
            if selected_names(tok_views.skip(i + 1), recs) is Some {
                assert(strs_view(names_pre) + (seq![recs[v - 1].pkg_name] + selected_names(
                    tok_views.skip(i + 1),
                    recs,
                )->Some_0) =~= strs_view(names@) + selected_names(
                    tok_views.skip(i + 1),
                    recs,
                )->Some_0);
            }
        }
        i = i + 1;
    }
    proof {
        assert(tok_views.skip(toks@.len() as int) =~= Seq::<Seq<char>>::empty());
        assert(strs_view(names@) + Seq::<Seq<char>>::empty() =~= strs_view(names@));
    }
    Option::Some(PackageSelection::Packages(names))
}

/// What a line of input selects: single-index mode unless the line holds a
/// space; a trailing-option index is accepted only where `allow_extra_opts`
/// says the menu has trailing options.
pub fn selection_from_input(input: &str, query: &QueryResults, allow_extra_opts: bool) -> (r:
    Option<PackageSelection>)
    ensures
        match r {
            Option::Some(sel) => input_selection(
                input@,
                recs_view(query.records@),
                allow_extra_opts,
            ) == Option::Some(sel@),
            Option::None => input_selection(
                input@,
                recs_view(query.records@),
                allow_extra_opts,
            ) is None,
        },
{
    if !str_contains(input, " ") {
        match selection_from_token(input, query) {
            Option::Some(sel) => {
                let reject = match &sel {
                    PackageSelection::OtherOpt(_) => !allow_extra_opts,
                    _ => false,
                };
                if reject {
                    Option::None
                } else {
                    Option::Some(sel)
                }
            },
            Option::None => Option::None,
        }
    } else {
        selection_from_line(input, query)
    }
}

} // verus!
