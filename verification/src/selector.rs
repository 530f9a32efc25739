//! The package selector: one unresolvable name, the query results found
//! for it, and the menu and input interpretation that let the user pick
//! its replacements. The prompt loop itself lives with the caller; every
//! decision about one line of input is made here.
use crate::parser::records_from;
use crate::parser::DEFAULT_SCORE_THRESHOLD;
use crate::queries::query_outcome_ok;
use crate::queries::QueryResults;
use crate::queries::DEFAULT_LIST_COLUMN_LEN;
use crate::records::recs_view;
use crate::records::PackageSelection;
use crate::selection::input_selection;
use crate::selection::selection_from_input;
use vstd::prelude::*;
use vstd::string::StringExecFns;

verus! {

/// A package name waiting for replacement, with the query results found
/// for it so far.
pub struct PackageSelector {
    pub pkg_name: String,
    pub query_results: Option<QueryResults>,
}

impl PackageSelector {
    /// A selector for a name with nothing queried yet.
    pub fn new(pkg_name: String) -> (r: PackageSelector)
        ensures
            r.pkg_name@ == pkg_name@,
            r.query_results is None,
    {
        PackageSelector { pkg_name, query_results: Option::None }
    }

    /// A selector over results already in hand.
    pub fn from_results(pkg_name: String, results: QueryResults) -> (r: PackageSelector)
        ensures
            r.pkg_name@ == pkg_name@,
            r.query_results matches Option::Some(q) && q == results,
    {
        PackageSelector { pkg_name, query_results: Option::Some(results) }
    }

    /// Fill the selector by a smart query: the strict results when the
    /// backend found any for the name as given, else the ranked catalog;
    /// nothing at all leaves the selector empty.
    pub fn smart_query(&mut self, raw_strict: &Vec<u8>, raw_catalog: &Vec<u8>) -> (r: bool)
        ensures
            final(self).pkg_name@ == old(self).pkg_name@,
            r == (final(self).query_results is Some),
            ({
                let bs = records_from(
                    raw_strict@,
                    old(self).pkg_name@,
                    DEFAULT_SCORE_THRESHOLD as int,
                );
                let bf = records_from(
                    raw_catalog@,
                    old(self).pkg_name@,
                    DEFAULT_SCORE_THRESHOLD as int,
                );
                match final(self).query_results {
                    Option::Some(q) => q.wf() && (if bs.len() > 0 {
                        query_outcome_ok(bs, recs_view(q.records@))
                    } else {
                        bf.len() > 0 && query_outcome_ok(bf, recs_view(q.records@))
                    }),
                    Option::None => bs.len() == 0 && bf.len() == 0,
                }
            }),
    {
        let res = crate::queries::smart_query(raw_strict, raw_catalog, self.pkg_name.as_str());
        let found = matches!(res, Option::Some(_));
        self.query_results = res;
        found
    }

    /// The selection menu for the results in hand: a heading naming the
    /// queried package, the numbered menu, and the cancel line.
    pub fn build_msg(&self) -> (r: String)
        requires
            self.query_results matches Option::Some(q) && q.wf(),
        ensures
            ({
                let q = self.query_results->Some_0;
                let col = if q.records@.len() as int / DEFAULT_LIST_COLUMN_LEN as int > 1 {
                    q.records@.len() as int / DEFAULT_LIST_COLUMN_LEN as int
                } else {
                    1int
                };
                r@ == "Query results for: "@ + self.pkg_name@ + "\n"@
                    + crate::queries::render_menu_from(
                    recs_view(q.records@),
                    0,
                    q.longest_name as int,
                    col,
                ) + "\n0. Remove pkg\nEnter option: "@
            }),
    {
        let menu = match &self.query_results {
            Option::Some(q) => q.to_menu(),
            Option::None => String::new(),
        };
        let mut r = String::from_str("Query results for: ");
        r.append(self.pkg_name.as_str());
        r.append("\n");
        r.append(menu.as_str());
        r.append("\n0. Remove pkg\nEnter option: ");
        r
    }

    /// What one line of input selects from the results in hand.
    pub fn select_line(&self, input: &str, allow_extra_opts: bool) -> (r: Option<
        PackageSelection,
    >)
        requires
            self.query_results is Some,
        ensures
            ({
                let q = self.query_results->Some_0;
                match r {
                    Option::Some(sel) => input_selection(
                        input@,
                        recs_view(q.records@),
                        allow_extra_opts,
                    ) == Option::Some(sel@),
                    Option::None => input_selection(
                        input@,
                        recs_view(q.records@),
                        allow_extra_opts,
                    ) is None,
                }
            }),
    {
        match &self.query_results {
            Option::Some(q) => selection_from_input(input, q, allow_extra_opts),
            Option::None => Option::None,
        }
    }
}

} // verus!
