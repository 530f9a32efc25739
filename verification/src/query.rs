//! The combined package lookup: rank the backend catalog for a term,
//! fall back to an entry of the local install index, and render the
//! results as a numbered grid sized to the terminal.
use crate::parser::max_name_len;
use crate::parser::records_from;
use crate::parser::DEFAULT_SCORE_THRESHOLD;
use crate::queries::query_outcome_ok;
use crate::queries::QueryResults;
use crate::records::recs_view;
use crate::records::strs_view;
use crate::records::QueryError;
use crate::records::QueryResult;
use crate::records::QueryResultView;
use crate::strutil::dec_digits;
use crate::strutil::num_digits;
use crate::strutil::push_right_aligned;
use crate::strutil::push_spaces;
use crate::strutil::right_aligned;
use crate::strutil::spaces;
use vstd::prelude::*;
use vstd::string::StrSliceExecFns;
use vstd::string::StringExecFns;

verus! {

/// The names of the records, in order.
pub open spec fn names_of(rs: Seq<QueryResultView>) -> Seq<Seq<char>> {
    rs.map_values(|v: QueryResultView| v.pkg_name)
}

/// One grid cell: the 1-based index right-aligned to the widest index,
/// a dot, the name padded to the longest, and a separating space.
pub open spec fn render_grid_entry(
    idx1: int,
    v: QueryResultView,
    width: int,
    longest: int,
) -> Seq<char> {
    right_aligned(idx1, width) + ". "@ + v.pkg_name + spaces(longest - v.pkg_name.len()) + " "@
}

/// The grid from entry `i` to `end`, breaking the line after every
/// `columns`-th entry counted from `start`.
pub open spec fn render_grid_from(
    rs: Seq<QueryResultView>,
    start: int,
    i: int,
    end: int,
    width: int,
    longest: int,
    columns: int,
) -> Seq<char>
    decreases end - i,
{
    if i < start || i < 0 || i >= end || i >= rs.len() {
        Seq::empty()
    } else {
        render_grid_entry(i + 1, rs[i], width, longest) + (if columns > 0 && (i - start + 1)
            % columns == 0 {
            "\n\r"@
        } else {
            Seq::empty()
        }) + render_grid_from(rs, start, i + 1, end, width, longest, columns)
    }
}

/// One term's results: the term itself, the ranked records, and the
/// longest name's character count for layout.
#[derive(Debug)]
pub struct Query {
    pub pkg_name: String,
    pub results: Vec<QueryResult>,
    pub longest_name: usize,
}

impl Query {
    /// Every record's name fits the recorded longest length.
    pub open spec fn wf(&self) -> bool {
        forall|k: int|
            0 <= k < self.results@.len() ==> (#[trigger] self.results@[k])@.pkg_name.len()
                <= self.longest_name
    }

    /// Look a term up: rank the backend's catalog against it; with no
    /// catalog hit, fall back to the entry the local install index gave
    /// (already looked up by the caller); with neither, the term is not
    /// found.
    pub fn query(search_term: &str, raw_xbps: &Vec<u8>, fallback: Option<QueryResult>) -> (r:
        Result<Query, QueryError>)
        ensures
            ({
                let base = records_from(raw_xbps@, search_term@, DEFAULT_SCORE_THRESHOLD as int);
                match r {
                    Result::Ok(q) => q.wf() && (if base.len() > 0 {
                        query_outcome_ok(base, recs_view(q.results@)) && q.pkg_name@
                            == search_term@
                    } else {
                        fallback matches Option::Some(f) && recs_view(q.results@) == seq![f@]
                            && q.pkg_name@ == f@.pkg_name
                    }),
                    Result::Err(e) => base.len() == 0 && fallback is None && e
                        matches QueryError::NotFound(_),
                }
            }),
    {
        match QueryResults::fuzzy_query(raw_xbps, search_term) {
            Option::Some(q) => Result::Ok(
                Query {
                    pkg_name: search_term.to_owned(),
                    results: q.records,
                    longest_name: q.longest_name,
                },
            ),
            Option::None => match fallback {
                Option::Some(f) => Result::Ok(Query::from_result(f)),
                Option::None => Result::Err(
                    QueryError::NotFound(
                        String::from_str("Package not found: '").concat(search_term).concat(
                            "'",
                        ),
                    ),
                ),
            },
        }
    }

    /// A query holding exactly one already-known record.
    pub fn from_result(value: QueryResult) -> (r: Query)
        ensures
            recs_view(r.results@) == seq![value@],
            r.pkg_name@ == value@.pkg_name,
            r.longest_name == value@.pkg_name.len(),
            r.wf(),
    {
        let name = value.pkg_name.clone();
        let longest_name = name.as_str().unicode_len();
        let mut results: Vec<QueryResult> = Vec::new();
        results.push(value);
        proof {
            assert(recs_view(results@) =~= seq![results@[0]@]);
        }
        Query { pkg_name: name, results, longest_name }
    }

    /// A query over already-parsed records, with no term of its own.
    pub fn from_results(value: Vec<QueryResult>) -> (r: Query)
        ensures
            recs_view(r.results@) == recs_view(value@),
            r.pkg_name@.len() == 0,
            r.longest_name == max_name_len(recs_view(value@)),
            r.wf(),
    {
        let mut longest_name: usize = 0;
        let mut i: usize = 0;
        proof {
            assert(recs_view(value@).take(0) =~= Seq::<QueryResultView>::empty());
        }
        while i < value.len()
            invariant
                0 <= i <= value@.len(),
                longest_name == max_name_len(recs_view(value@).take(i as int)),
            decreases value@.len() - i,
        {
            let nl = value[i].pkg_name.as_str().unicode_len();
            proof {
                crate::parser::lemma_max_name_push(
                    recs_view(value@).take(i as int),
                    recs_view(value@)[i as int],
                );
                assert(recs_view(value@).take(i + 1) =~= recs_view(value@).take(i as int).push(
                    recs_view(value@)[i as int],
                ));
                assert(recs_view(value@)[i as int] == value@[i as int]@);
            }
            if nl > longest_name {
                longest_name = nl;
            }
            i = i + 1;
        }
        proof {
            assert(recs_view(value@).take(value@.len() as int) =~= recs_view(value@));
            crate::parser::lemma_max_name_bound(recs_view(value@));
            assert(forall|k: int|
                0 <= k < value@.len() ==> (#[trigger] value@[k])@ == recs_view(value@)[k]);
        }
        Query { pkg_name: String::new(), results: value, longest_name }
    }

    /// The names of the results, in order.
    pub fn get_pkg_names(&self) -> (r: Vec<String>)
        ensures
            strs_view(r@) == names_of(recs_view(self.results@)),
    {
        let mut out: Vec<String> = Vec::new();
        let mut i: usize = 0;
        proof {
            assert(strs_view(out@) =~= names_of(recs_view(self.results@)).take(0));
        }
        while i < self.results.len()
            invariant
                0 <= i <= self.results@.len(),
                strs_view(out@) == names_of(recs_view(self.results@)).take(i as int),
            decreases self.results@.len() - i,
        {
            let ghost pre = out@;
            out.push(self.results[i].pkg_name.clone());
            proof {
                assert(strs_view(out@) =~= strs_view(pre).push(self.results@[i as int]@.pkg_name));
                assert(names_of(recs_view(self.results@)).take(i + 1) =~= names_of(
                    recs_view(self.results@),
                ).take(i as int).push(names_of(recs_view(self.results@))[i as int]));
                assert(names_of(recs_view(self.results@))[i as int] == self.results@[i as int]@.pkg_name);
            }
            i = i + 1;
        }
        proof {
            assert(names_of(recs_view(self.results@)).take(self.results@.len() as int)
                =~= names_of(recs_view(self.results@)));
        }
        out
    }

    /// The number of results.
    pub fn len(&self) -> (r: usize)
        ensures
            r == self.results@.len(),
    {
        self.results.len()
    }

    /// The record at a 0-based index, when there is one.
    pub fn get(&self, index: usize) -> (r: Option<&QueryResult>)
        ensures
            match r {
                Option::Some(q) => index < self.results@.len() && q == &self.results@[index as int],
                Option::None => index >= self.results@.len(),
            },
    {
        if index >= self.results.len() {
            return Option::None;
        }
        Option::Some(&self.results[index])
    }

    /// Render a page of results as a numbered grid: `columns` entries per
    /// row, starting at row `skip_row`, up to row `end_row` (or all of
    /// them).
    pub fn generate_list(&self, skip_row: usize, end_row: Option<usize>, columns: usize) -> (r:
        String)
        requires
            self.wf(),
            columns >= 1,
            columns * skip_row <= usize::MAX,
            match end_row {
                Option::Some(e) => columns * e <= usize::MAX,
                Option::None => true,
            },
        ensures
            ({
                let rs = recs_view(self.results@);
                let start = columns * skip_row;
                let end = match end_row {
                    Option::Some(e) => if start <= columns * e <= rs.len() {
                        columns * e
                    } else {
                        rs.len() as int
                    },
                    Option::None => rs.len() as int,
                };
                r@ == render_grid_from(
                    rs,
                    start as int,
                    start as int,
                    end,
                    dec_digits(rs.len() as int).len() as int,
                    self.longest_name as int,
                    columns as int,
                )
            }),
    {
        let ghost rs = recs_view(self.results@);
        let len = self.results.len();
        let width = num_digits(len);
        let start: usize = columns * skip_row;
        let end: usize = match end_row {
            Option::Some(e) => {
                let ei: usize = columns * e;
                if start <= ei && ei <= len {
                    ei
                } else {
                    len
                }
            },
            Option::None => len,
        };
        let mut out = String::new();
        let mut i: usize = start;
        proof {
            assert(Seq::<char>::empty() + render_grid_from(
                rs,
                start as int,
                start as int,
                end as int,
                width as int,
                self.longest_name as int,
                columns as int,
            ) =~= render_grid_from(
                rs,
                start as int,
                start as int,
                end as int,
                width as int,
                self.longest_name as int,
                columns as int,
            ));
        }
        while i < end
            invariant
                start <= i <= (if end >= start {
                    end as int
                } else {
                    start as int
                }),
                end <= len,
                len == self.results@.len(),
                columns >= 1,
                rs == recs_view(self.results@),
                width == dec_digits(rs.len() as int).len(),
                self.wf(),
                out@ + render_grid_from(
                    rs,
                    start as int,
                    i as int,
                    end as int,
                    width as int,
                    self.longest_name as int,
                    columns as int,
                ) == render_grid_from(
                    rs,
                    start as int,
                    start as int,
                    end as int,
                    width as int,
                    self.longest_name as int,
                    columns as int,
                ),
            decreases end - i,
        {
            let ghost pre = out@;
            push_right_aligned(&mut out, i + 1, width);
            out.append(". ");
            out.append(self.results[i].pkg_name.as_str());
            let name_len = self.results[i].pkg_name.as_str().unicode_len();
            proof {
                assert(self.results@[i as int]@.pkg_name.len() <= self.longest_name);
            }
            push_spaces(&mut out, self.longest_name - name_len);
            out.append(" ");
            if (i - start + 1) % columns == 0 {
                out.append("\n\r");
            }
            proof {
                assert(rs[i as int] == self.results@[i as int]@);
                assert(out@ =~= pre + (render_grid_entry(
                    i + 1,
                    rs[i as int],
                    width as int,
                    self.longest_name as int,
                ) + (if columns as int > 0 && (i - start + 1) % (columns as int) == 0 {
                    "\n\r"@
                } else {
                    Seq::<char>::empty()
                })));
                assert(out@ + render_grid_from(
                    rs,
                    start as int,
                    i + 1,
                    end as int,
                    width as int,
                    self.longest_name as int,
                    columns as int,
                ) =~= pre + render_grid_from(
                    rs,
                    start as int,
                    i as int,
                    end as int,
                    width as int,
                    self.longest_name as int,
                    columns as int,
                ));
            }
            i = i + 1;
        }
        proof {
            assert(out@ + Seq::<char>::empty() =~= out@);
        }
        out
    }

    /// Render the whole result list as a grid sized to the terminal: the
    /// column count comes from the terminal's width, so the contract
    /// promises the grid for some column count of at least one.
    pub fn get_short_list(&self) -> (r: String)
        requires
            self.wf(),
            self.longest_name + 22 <= usize::MAX,
        ensures
            exists|cols: int|
                1 <= cols && r@ == render_grid_from(
                    recs_view(self.results@),
                    0,
                    0,
                    recs_view(self.results@).len() as int,
                    dec_digits(recs_view(self.results@).len() as int).len() as int,
                    self.longest_name as int,
                    cols,
                ),
    {
        let term_cols: u16 = match crate::pager::terminal_size() {
            Option::Some((_rows, cols)) => cols,
            Option::None => 0,
        };
        let columns = crate::pager::column_count(term_cols, self.longest_name, self.results.len());
        let r = self.generate_list(0, Option::None, columns as usize);
        proof {
            assert(columns as usize * 0 == 0) by (nonlinear_arith);
        }
        r
    }
}

} // verus!
