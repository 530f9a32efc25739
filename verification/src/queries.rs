//! Query results as a ranked set: parsing raw backend output, sorting by
//! score, the exact-match collapse, and the strict / fuzzy / smart query
//! entry points. The backend process itself runs outside this crate; the
//! query functions here take the raw bytes it produced.
use crate::parser::max_name_len;
use crate::parser::parse_raw;
use crate::parser::records_from;
use crate::parser::DEFAULT_SCORE_THRESHOLD;
use crate::records::recs_view;
use crate::records::sorted_desc;
use crate::records::QueryResult;
use crate::records::QueryResultView;
use crate::strutil::contains_seq;
use crate::strutil::str_contains;
use vstd::prelude::*;
use vstd::multiset::Multiset;
use vstd::seq_lib::group_to_multiset_ensures;

verus! {

/// The ordered results of one backend query, with the longest name's
/// character count kept for column layout.
#[derive(Debug)]
pub struct QueryResults {
    pub records: Vec<QueryResult>,
    pub longest_name: usize,
}

/// What a finished query hands back, relative to the records `base` that
/// the raw output yields: the result is sorted descending by score, and it
/// is either the whole of `base` reordered, or — when some record scores a
/// full 100 — exactly one top-scoring record of `base`.
pub open spec fn query_outcome_ok(base: Seq<QueryResultView>, out: Seq<QueryResultView>) -> bool {
    &&& sorted_desc(out)
    &&& out.len() >= 1
    &&& if exists|k: int| 0 <= k < base.len() && #[trigger] base[k].score >= 100 {
        &&& out.len() == 1
        &&& out[0].score >= 100
        &&& base.to_multiset().count(out[0]) > 0
        &&& forall|k: int| 0 <= k < base.len() ==> #[trigger] base[k].score <= out[0].score
    } else {
        out.to_multiset() == base.to_multiset()
    }
}

/// Records kept by an including filter: the term occurs in the name or in
/// the description.
pub open spec fn include_pred(t: Seq<char>) -> spec_fn(QueryResultView) -> bool {
    |v: QueryResultView| contains_seq(v.pkg_name, t) || contains_seq(v.pkg_description, t)
}

/// Records kept by an excluding filter: the term occurs in neither the
/// name nor the description.
pub open spec fn exclude_pred(t: Seq<char>) -> spec_fn(QueryResultView) -> bool {
    |v: QueryResultView| !contains_seq(v.pkg_name, t) && !contains_seq(v.pkg_description, t)
}

/// Two sequences with equal multisets draw every element from each other.
proof fn lemma_multiset_elem_from(s1: Seq<QueryResultView>, s2: Seq<QueryResultView>, k: int)
    requires
        s1.to_multiset() == s2.to_multiset(),
        0 <= k < s2.len(),
    ensures
        exists|j: int| 0 <= j < s1.len() && s1[j] == s2[k],
{
    broadcast use group_to_multiset_ensures;

    assert(s2.to_multiset().count(s2[k]) > 0) by {
        assert(s2.contains(s2[k]));
    }
    assert(s1.contains(s2[k]));
}

impl QueryResults {
    /// Every record's name fits the recorded longest length.
    pub open spec fn wf(&self) -> bool {
        forall|k: int|
            0 <= k < self.records@.len() ==> (#[trigger] self.records@[k])@.pkg_name.len()
                <= self.longest_name
    }

    /// The number of records.
    pub fn len(&self) -> (r: usize)
        ensures
            r == self.records@.len(),
    {
        self.records.len()
    }

    /// Parse raw backend output against `search_term` at the given score
    /// threshold.
    pub fn parse_results_at(raw_results: &Vec<u8>, search_term: &str, threshold: i32) -> (r:
        QueryResults)
        ensures
            recs_view(r.records@) == records_from(raw_results@, search_term@, threshold as int),
            r.longest_name == max_name_len(recs_view(r.records@)),
            r.wf(),
    {
        let (records, longest_name) = parse_raw(raw_results, search_term, threshold);
        proof {
            crate::parser::lemma_max_name_bound(recs_view(records@));
            assert(forall|k: int|
                0 <= k < records@.len() ==> (#[trigger] records@[k])@ == recs_view(records@)[k]);
        }
        QueryResults { records, longest_name }
    }

    /// Parse raw backend output against `search_term` at the default
    /// threshold.
    pub fn parse_results(raw_results: &Vec<u8>, search_term: &str) -> (r: QueryResults)
        ensures
            recs_view(r.records@) == records_from(
                raw_results@,
                search_term@,
                DEFAULT_SCORE_THRESHOLD as int,
            ),
            r.longest_name == max_name_len(recs_view(r.records@)),
            r.wf(),
    {
        Self::parse_results_at(raw_results, search_term, DEFAULT_SCORE_THRESHOLD)
    }

    /// Sort the records in descending order of score. The records are
    /// reordered, never altered, added or dropped.
    pub fn sort(&mut self)
        ensures
            recs_view(final(self).records@).to_multiset() == recs_view(
                old(self).records@,
            ).to_multiset(),
            sorted_desc(recs_view(final(self).records@)),
            final(self).longest_name == old(self).longest_name,
            old(self).wf() ==> final(self).wf(),
    {
        broadcast use group_to_multiset_ensures;

        let ghost orig = recs_view(self.records@);
        let mut out: Vec<QueryResult> = Vec::new();
        proof {
            assert(recs_view(out@) =~= Seq::<QueryResultView>::empty());
            assert(recs_view(out@).to_multiset().add(recs_view(self.records@).to_multiset())
                =~= orig.to_multiset());
        }
        while self.records.len() > 0
            invariant
            // nothing is lost or invented

                recs_view(out@).to_multiset().add(recs_view(self.records@).to_multiset())
                    == orig.to_multiset(),
                // what is already out is sorted and dominates the rest
                sorted_desc(recs_view(out@)),
                forall|a: int, b: int|
                    0 <= a < out@.len() && 0 <= b < self.records@.len() ==> (
                    #[trigger] out@[a])@.score >= (#[trigger] self.records@[b])@.score,
                // names stay bounded
                old(self).wf() ==> forall|k: int|
                    0 <= k < out@.len() ==> (#[trigger] out@[k])@.pkg_name.len() <= old(
                        self,
                    ).longest_name,
                old(self).wf() ==> forall|k: int|
                    0 <= k < self.records@.len() ==> (#[trigger] self.records@[k])@.pkg_name.len()
                        <= old(self).longest_name,
                self.longest_name == old(self).longest_name,
            decreases self.records@.len(),
        {
            // index of the first highest-scoring record
            let mut mx: usize = 0;
            let mut j: usize = 1;
            while j < self.records.len()
                invariant
                    0 <= mx < j <= self.records@.len(),
                    forall|k: int|
                        0 <= k < j ==> (#[trigger] self.records@[k])@.score
                            <= self.records@[mx as int]@.score,
                decreases self.records@.len() - j,
            {
                if self.records[j].score > self.records[mx].score {
                    mx = j;
                }
                j = j + 1;
            }
            let ghost pre = self.records@;
            let r = self.records.remove(mx);
            let ghost out_pre = out@;
            out.push(r);
            proof {
                assert(recs_view(pre.remove(mx as int)) =~= recs_view(pre).remove(mx as int));
                assert(recs_view(out_pre.push(r)) =~= recs_view(out_pre).push(r@));
                assert(recs_view(pre)[mx as int] == r@);
                recs_view(pre).to_multiset_ensures();
                recs_view(out_pre).to_multiset_ensures();
                assert(recs_view(pre).remove(mx as int).to_multiset() =~= recs_view(
                    pre,
                ).to_multiset().remove(r@));
                assert(recs_view(out_pre).push(r@).to_multiset() =~= recs_view(
                    out_pre,
                ).to_multiset().insert(r@));
                assert(recs_view(out@).to_multiset().add(recs_view(self.records@).to_multiset())
                    =~= orig.to_multiset()) by {
                    assert(recs_view(pre).to_multiset().count(r@) > 0) by {
                        assert(recs_view(pre).contains(r@));
                    }
                }
                assert(sorted_desc(recs_view(out@))) by {
                    assert(forall|a: int|
                        0 <= a < out_pre.len() ==> (#[trigger] recs_view(out@)[a])
                            == recs_view(out_pre)[a]);
                }
                assert(forall|b: int|
                    0 <= b < self.records@.len() ==> (#[trigger] self.records@[b])@.score
                        <= r@.score) by {
                    assert(forall|b: int|
                        0 <= b < pre.remove(mx as int).len() ==> pre.remove(mx as int)[b] == (if b
                            < mx as int {
                            pre[b]
                        } else {
                            pre[b + 1]
                        }));
                }
            }
        }
        proof {
            assert(recs_view(self.records@).to_multiset() =~= Multiset::<
                QueryResultView,
            >::empty());
            assert(recs_view(out@).to_multiset().add(Multiset::empty()) =~= recs_view(
                out@,
            ).to_multiset());
        }
        self.records = out;
    }

    /// Keep only the single top record when it is a full-score match.
    fn collapse_exact(&mut self)
        ensures
            final(self).longest_name == old(self).longest_name,
            ({
                let pre = old(self).records@;
                let post = final(self).records@;
                if pre.len() > 0 && pre[0]@.score >= 100 {
                    post == seq![pre[0]]
                } else {
                    post == pre
                }
            }),
    {
        if self.records.len() > 0 && self.records[0].score >= 100 {
            self.records.truncate(1);
            proof {
                assert(self.records@ =~= seq![old(self).records@[0]]);
            }
        }
    }

    /// Rank the whole catalog (queried with an empty search argument)
    /// against `search_term`: parse, sort descending by score, and
    /// collapse to the exact hit when one scores a full 100. No record at
    /// all means no result.
    pub fn fuzzy_query(raw_catalog: &Vec<u8>, search_term: &str) -> (r: Option<QueryResults>)
        ensures
            ({
                let base = records_from(
                    raw_catalog@,
                    search_term@,
                    DEFAULT_SCORE_THRESHOLD as int,
                );
                match r {
                    Option::Some(q) => q.wf() && base.len() > 0 && query_outcome_ok(
                        base,
                        recs_view(q.records@),
                    ),
                    Option::None => base.len() == 0,
                }
            }),
    {
        Self::query_raw(raw_catalog, search_term)
    }

    /// Rank the backend's answer for exactly `search_term`: same parse,
    /// sort and exact-match collapse as the broad query, on the output of
    /// the strict backend search.
    pub fn strict_query(raw_results: &Vec<u8>, search_term: &str) -> (r: Option<QueryResults>)
        ensures
            ({
                let base = records_from(
                    raw_results@,
                    search_term@,
                    DEFAULT_SCORE_THRESHOLD as int,
                );
                match r {
                    Option::Some(q) => q.wf() && base.len() > 0 && query_outcome_ok(
                        base,
                        recs_view(q.records@),
                    ),
                    Option::None => base.len() == 0,
                }
            }),
    {
        Self::query_raw(raw_results, search_term)
    }

    fn query_raw(raw: &Vec<u8>, search_term: &str) -> (r: Option<QueryResults>)
        ensures
            ({
                let base = records_from(raw@, search_term@, DEFAULT_SCORE_THRESHOLD as int);
                match r {
                    Option::Some(q) => q.wf() && base.len() > 0 && query_outcome_ok(
                        base,
                        recs_view(q.records@),
                    ),
                    Option::None => base.len() == 0,
                }
            }),
    {
        broadcast use group_to_multiset_ensures;

        let ghost base = records_from(raw@, search_term@, DEFAULT_SCORE_THRESHOLD as int);
        let mut q = Self::parse_results(raw, search_term);
        if q.records.len() == 0 {
            return Option::None;
        }
        q.sort();
        let ghost s = recs_view(q.records@);
        proof {
            assert(s.len() == base.len()) by {
                assert(s.to_multiset().len() == base.to_multiset().len());
            }
            // the head of the sorted run is a top-scoring element of the base
            lemma_multiset_elem_from(base, s, 0);
            assert forall|k: int| 0 <= k < base.len() implies #[trigger] base[k].score
                <= s[0].score by {
                lemma_multiset_elem_from(s, base, k);
                let j = choose|j: int| 0 <= j < s.len() && s[j] == base[k];
                assert(s[0].score >= s[j].score);
            }
            if exists|k: int| 0 <= k < base.len() && #[trigger] base[k].score >= 100 {
                let k = choose|k: int| 0 <= k < base.len() && #[trigger] base[k].score >= 100;
                assert(s[0].score >= base[k].score);
            }
        }
        q.collapse_exact();
        proof {
            if s[0].score >= 100 {
                assert(recs_view(q.records@) =~= seq![s[0]]);
                assert(base.to_multiset().count(s[0]) > 0) by {
                    assert(s.contains(s[0]));
                }
            } else {
                assert(!(exists|k: int| 0 <= k < base.len() && #[trigger] base[k].score >= 100))
                    by {
                    if exists|k: int| 0 <= k < base.len() && #[trigger] base[k].score >= 100 {
                        let k = choose|k: int|
                            0 <= k < base.len() && #[trigger] base[k].score >= 100;
                        assert(s[0].score >= base[k].score);
                    }
                }
            }
            assert(forall|k: int|
                0 <= k < q.records@.len() ==> (#[trigger] q.records@[k])@ == recs_view(
                    q.records@,
                )[k]);
        }
        Option::Some(q)
    }

    /// Drop every record that does not mention the term in its name or
    /// description.
    pub fn filter_include(&mut self, filter_term: &str)
        ensures
            recs_view(final(self).records@) == recs_view(old(self).records@).filter(
                include_pred(filter_term@),
            ),
            final(self).longest_name == old(self).longest_name,
            old(self).wf() ==> final(self).wf(),
    {
        let ghost pred = include_pred(filter_term@);
        let mut out: Vec<QueryResult> = Vec::new();
        let mut i: usize = 0;
        proof {
            reveal(Seq::filter);
            assert(recs_view(self.records@).take(0) =~= Seq::<QueryResultView>::empty());
            assert(Seq::<QueryResultView>::empty().filter(pred) =~= Seq::<QueryResultView>::empty());
            assert(recs_view(out@) =~= Seq::<QueryResultView>::empty());
        }
        while i < self.records.len()
            invariant
                0 <= i <= self.records@.len(),
                recs_view(out@) == recs_view(self.records@).take(i as int).filter(pred),
                pred == include_pred(filter_term@),
                old(self).wf() ==> forall|k: int|
                    0 <= k < out@.len() ==> (#[trigger] out@[k])@.pkg_name.len() <= old(
                        self,
                    ).longest_name,
                self == old(self),
            decreases self.records@.len() - i,
        {
            let keep = str_contains(self.records[i].pkg_name.as_str(), filter_term)
                || str_contains(self.records[i].pkg_description.as_str(), filter_term);
            let ghost views = recs_view(self.records@);
            let ghost out_pre = out@;
            if keep {
                let r = self.records[i].clone();
                out.push(r);
            }
            proof {
                reveal(Seq::filter);
                assert(views.take(i + 1).drop_last() =~= views.take(i as int));
                assert(views.take(i + 1).last() == views[i as int]);
                assert((pred)(views[i as int]) == keep);
                if keep {
                    assert(recs_view(out@) =~= recs_view(out_pre).push(views[i as int]));
                }
            }
            i = i + 1;
        }
        proof {
            assert(recs_view(self.records@).take(self.records@.len() as int) =~= recs_view(
                self.records@,
            ));
        }
        self.records = out;
    }

    /// Drop every record that mentions the term in its name or
    /// description.
    pub fn filter_exclude(&mut self, filter_term: &str)
        ensures
            recs_view(final(self).records@) == recs_view(old(self).records@).filter(
                exclude_pred(filter_term@),
            ),
            final(self).longest_name == old(self).longest_name,
            old(self).wf() ==> final(self).wf(),
    {
        let ghost pred = exclude_pred(filter_term@);
        let mut out: Vec<QueryResult> = Vec::new();
        let mut i: usize = 0;
        proof {
            reveal(Seq::filter);
            assert(recs_view(self.records@).take(0) =~= Seq::<QueryResultView>::empty());
            assert(Seq::<QueryResultView>::empty().filter(pred) =~= Seq::<QueryResultView>::empty());
            assert(recs_view(out@) =~= Seq::<QueryResultView>::empty());
        }
        while i < self.records.len()
            invariant
                0 <= i <= self.records@.len(),
                recs_view(out@) == recs_view(self.records@).take(i as int).filter(pred),
                pred == exclude_pred(filter_term@),
                old(self).wf() ==> forall|k: int|
                    0 <= k < out@.len() ==> (#[trigger] out@[k])@.pkg_name.len() <= old(
                        self,
                    ).longest_name,
                self == old(self),
            decreases self.records@.len() - i,
        {
            let keep = !str_contains(self.records[i].pkg_name.as_str(), filter_term)
                && !str_contains(self.records[i].pkg_description.as_str(), filter_term);
            let ghost views = recs_view(self.records@);
            let ghost out_pre = out@;
            if keep {
                let r = self.records[i].clone();
                out.push(r);
            }
            proof {
                reveal(Seq::filter);
                assert(views.take(i + 1).drop_last() =~= views.take(i as int));
                assert(views.take(i + 1).last() == views[i as int]);
                assert((pred)(views[i as int]) == keep);
                if keep {
                    assert(recs_view(out@) =~= recs_view(out_pre).push(views[i as int]));
                }
            }
            i = i + 1;
        }
        proof {
            assert(recs_view(self.records@).take(self.records@.len() as int) =~= recs_view(
                self.records@,
            ));
        }
        self.records = out;
    }
}

/// How many result rows make one menu column by default.
pub const DEFAULT_LIST_COLUMN_LEN: usize = 20;

/// One line of the plain result list: marker, name with its version
/// suffix, the column spacer, then the description.
pub open spec fn render_list_entry(v: QueryResultView, spacer: Seq<char>) -> Seq<char> {
    "["@ + (if v.is_installed {
        "*"@
    } else {
        "-"@
    }) + "] "@ + v.pkg_name + v.pkg_version + spacer + v.pkg_description
}

/// The result list from entry `i` on, one line per record.
pub open spec fn render_list_from(rs: Seq<QueryResultView>, i: int, spacer: Seq<char>) -> Seq<
    char,
>
    decreases rs.len() - i,
{
    if i < 0 || i >= rs.len() {
        Seq::empty()
    } else {
        (if i > 0 {
            "\n"@
        } else {
            Seq::empty()
        }) + render_list_entry(rs[i], spacer) + render_list_from(rs, i + 1, spacer)
    }
}

/// One menu entry: the 1-based index, the name, and either a line break
/// (first entry of a row) or padding up to the longest name.
pub open spec fn render_menu_entry(i: int, v: QueryResultView, longest: int, col: int) -> Seq<
    char,
> {
    crate::strutil::dec_digits(i + 1) + ". "@ + v.pkg_name + (if col > 0 && i % col == 0 {
        "\n"@
    } else {
        crate::strutil::spaces(longest - v.pkg_name.len() + 1)
    })
}

/// The menu from entry `i` on.
pub open spec fn render_menu_from(
    rs: Seq<QueryResultView>,
    i: int,
    longest: int,
    col: int,
) -> Seq<char>
    decreases rs.len() - i,
{
    if i < 0 || i >= rs.len() {
        Seq::empty()
    } else {
        render_menu_entry(i, rs[i], longest, col) + render_menu_from(rs, i + 1, longest, col)
    }
}

impl QueryResults {
    /// Render the records one per line, marker first, the name and
    /// version separated from the description by a spacer as wide as the
    /// longest name.
    pub fn to_list(&self) -> (r: String)
        ensures
            r@ == render_list_from(
                recs_view(self.records@),
                0,
                crate::strutil::spaces(self.longest_name as int),
            ),
    {
        let ghost rs = recs_view(self.records@);
        let mut spacer = String::new();
        crate::strutil::push_spaces(&mut spacer, self.longest_name);
        proof {
            assert(Seq::<char>::empty() + crate::strutil::spaces(self.longest_name as int)
                =~= crate::strutil::spaces(self.longest_name as int));
        }
        let ghost sp = spacer@;
        let mut out = String::new();
        let mut i: usize = 0;
        proof {
            assert(Seq::<char>::empty() + render_list_from(rs, 0, sp) =~= render_list_from(
                rs,
                0,
                sp,
            ));
        }
        while i < self.records.len()
            invariant
                0 <= i <= self.records@.len(),
                rs == recs_view(self.records@),
                sp == spacer@,
                sp == crate::strutil::spaces(self.longest_name as int),
                out@ + render_list_from(rs, i as int, sp) == render_list_from(rs, 0, sp),
            decreases self.records@.len() - i,
        {
            let ghost pre = out@;
            if i > 0 {
                out.append("\n");
            }
            out.append("[");
            out.append(
                if self.records[i].is_installed {
                    "*"
                } else {
                    "-"
                },
            );
            out.append("] ");
            out.append(self.records[i].pkg_name.as_str());
            out.append(self.records[i].pkg_version.as_str());
            out.append(spacer.as_str());
            out.append(self.records[i].pkg_description.as_str());
            proof {
                assert(rs[i as int] == self.records@[i as int]@);
                assert(out@ =~= pre + ((if i > 0 {
                    "\n"@
                } else {
                    Seq::<char>::empty()
                }) + render_list_entry(rs[i as int], sp)));
                assert(out@ + render_list_from(rs, i + 1, sp) =~= pre + render_list_from(
                    rs,
                    i as int,
                    sp,
                ));
            }
            i = i + 1;
        }
        proof {
            assert(out@ + Seq::<char>::empty() =~= out@);
        }
        out
    }

    /// Render the records as a numbered menu in columns: an entry per
    /// record, a line break opening each row, names padded to the longest.
    pub fn to_menu(&self) -> (r: String)
        requires
            self.wf(),
        ensures
            ({
                let col = if self.records@.len() as int / DEFAULT_LIST_COLUMN_LEN as int > 1 {
                    self.records@.len() as int / DEFAULT_LIST_COLUMN_LEN as int
                } else {
                    1int
                };
                r@ == render_menu_from(
                    recs_view(self.records@),
                    0,
                    self.longest_name as int,
                    col,
                )
            }),
    {
        let ghost rs = recs_view(self.records@);
        let cols_raw = self.records.len() / DEFAULT_LIST_COLUMN_LEN;
        let col: usize = if cols_raw > 1 {
            cols_raw
        } else {
            1
        };
        let mut out = String::new();
        let mut i: usize = 0;
        proof {
            assert(Seq::<char>::empty() + render_menu_from(
                rs,
                0,
                self.longest_name as int,
                col as int,
            ) =~= render_menu_from(rs, 0, self.longest_name as int, col as int));
        }
        while i < self.records.len()
            invariant
                0 <= i <= self.records@.len(),
                rs == recs_view(self.records@),
                col >= 1,
                col == (if self.records@.len() as int / DEFAULT_LIST_COLUMN_LEN as int > 1 {
                    self.records@.len() as int / DEFAULT_LIST_COLUMN_LEN as int
                } else {
                    1int
                }),
                self.wf(),
                out@ + render_menu_from(rs, i as int, self.longest_name as int, col as int)
                    == render_menu_from(rs, 0, self.longest_name as int, col as int),
            decreases self.records@.len() - i,
        {
            let ghost pre = out@;
            let digits = crate::strutil::usize_to_string(i + 1);
            out.append(digits.as_str());
            out.append(". ");
            out.append(self.records[i].pkg_name.as_str());
            let name_len = self.records[i].pkg_name.as_str().unicode_len();
            if col > 0 && i % col == 0 {
                out.append("\n");
            } else {
                proof {
                    assert(self.records@[i as int]@.pkg_name.len() <= self.longest_name);
                }
                crate::strutil::push_spaces(&mut out, self.longest_name - name_len);
                crate::strutil::push_char(&mut out, ' ');
                proof {
                    assert(crate::strutil::spaces((self.longest_name - name_len) as int).push(
                        ' ',
                    ) =~= crate::strutil::spaces(self.longest_name - name_len + 1));
                }
            }
            proof {
                assert(rs[i as int] == self.records@[i as int]@);
                assert(out@ =~= pre + render_menu_entry(
                    i as int,
                    rs[i as int],
                    self.longest_name as int,
                    col as int,
                ));
                assert(out@ + render_menu_from(rs, i + 1, self.longest_name as int, col as int)
                    =~= pre + render_menu_from(rs, i as int, self.longest_name as int, col as int));
            }
            i = i + 1;
        }
        proof {
            assert(out@ + Seq::<char>::empty() =~= out@);
        }
        out
    }
}

/// Run a strict query first; only when it yields nothing at all, fall
/// back to ranking the whole catalog.
pub fn smart_query(raw_strict: &Vec<u8>, raw_catalog: &Vec<u8>, search_term: &str) -> (r: Option<
    QueryResults,
>)
    ensures
        ({
            let bs = records_from(raw_strict@, search_term@, DEFAULT_SCORE_THRESHOLD as int);
            let bf = records_from(raw_catalog@, search_term@, DEFAULT_SCORE_THRESHOLD as int);
            match r {
                Option::Some(q) => q.wf() && (if bs.len() > 0 {
                    query_outcome_ok(bs, recs_view(q.records@))
                } else {
                    bf.len() > 0 && query_outcome_ok(bf, recs_view(q.records@))
                }),
                Option::None => bs.len() == 0 && bf.len() == 0,
            }
        }),
{
    match QueryResults::strict_query(raw_strict, search_term) {
        Option::Some(q) => Option::Some(q),
        Option::None => QueryResults::fuzzy_query(raw_catalog, search_term),
    }
}

} // verus!
