//! The structured record a backend query yields, and the outcome types of
//! a user selection.
use vstd::prelude::*;
use vstd::string::StringExecFns;

verus! {

/// Mathematical model of a `QueryResult`.
pub ghost struct QueryResultView {
    pub is_installed: bool,
    pub pkg_name: Seq<char>,
    pub pkg_version: Seq<char>,
    pub pkg_description: Seq<char>,
    pub score: int,
}

/// One package as reported by a backend query: parsed name, version and
/// description, installation marker, and the fuzzy-match score (0 ..= 100)
/// against the search term.
#[derive(Debug)]
pub struct QueryResult {
    pub is_installed: bool,
    pub pkg_name: String,
    pub pkg_version: String,
    pub pkg_description: String,
    pub score: i32,
}

impl View for QueryResult {
    type V = QueryResultView;

    open spec fn view(&self) -> QueryResultView {
        QueryResultView {
            is_installed: self.is_installed,
            pkg_name: self.pkg_name@,
            pkg_version: self.pkg_version@,
            pkg_description: self.pkg_description@,
            score: self.score as int,
        }
    }
}

impl Clone for QueryResult {
    fn clone(&self) -> (r: Self)
        ensures
            r@ == self@,
    {
        QueryResult {
            is_installed: self.is_installed,
            pkg_name: self.pkg_name.clone(),
            pkg_version: self.pkg_version.clone(),
            pkg_description: self.pkg_description.clone(),
            score: self.score,
        }
    }
}

/// The views of a sequence of records.
pub open spec fn recs_view(rs: Seq<QueryResult>) -> Seq<QueryResultView> {
    rs.map_values(|r: QueryResult| r@)
}

/// The views of a sequence of strings.
pub open spec fn strs_view(ss: Seq<String>) -> Seq<Seq<char>> {
    ss.map_values(|s: String| s@)
}

/// Descending order by score: every record scores at least as high as any
/// record after it.
pub open spec fn sorted_desc(rs: Seq<QueryResultView>) -> bool {
    forall|i: int, j: int| 0 <= i <= j < rs.len() ==> rs[i].score >= rs[j].score
}

impl QueryResult {
    /// Render the record for the detail view: name with the installation
    /// marker, then version and description, one per line.
    pub fn display(&self) -> (r: String)
        ensures
            r@ == self@.pkg_name + " ["@ + (if self@.is_installed {
                "*"@
            } else {
                "-"@
            }) + "]\nVersion: "@ + self@.pkg_version + "\nDescription: "@
                + self@.pkg_description,
    {
        let mut r = (&self.pkg_name).clone();
        r.append(" [");
        r.append(if self.is_installed {
            "*"
        } else {
            "-"
        });
        r.append("]\nVersion: ");
        r.append(self.pkg_version.as_str());
        r.append("\nDescription: ");
        r.append(self.pkg_description.as_str());
        r
    }
}

/// What a reported query failure means: the package was only found in the
/// tertiary manager list, or nothing matched the search at all. Each
/// variant carries the message shown to the user.
#[derive(Debug)]
pub enum QueryError {
    TertiaryList(String),
    NotFound(String),
}

/// The outcome of one selection: a single replacement package, several in
/// the order they were chosen, a menu entry past the end of the result
/// list (1-based among the trailing options), or the explicit removal of
/// the package under consideration.
#[derive(Debug)]
pub enum PackageSelection {
    Package(String),
    Packages(Vec<String>),
    OtherOpt(usize),
    Removed,
}

/// Mathematical model of a `PackageSelection`.
pub ghost enum SelectionView {
    Package(Seq<char>),
    Packages(Seq<Seq<char>>),
    OtherOpt(int),
    Removed,
}

impl View for PackageSelection {
    type V = SelectionView;

    open spec fn view(&self) -> SelectionView {
        match self {
            PackageSelection::Package(p) => SelectionView::Package(p@),
            PackageSelection::Packages(ps) => SelectionView::Packages(strs_view(ps@)),
            PackageSelection::OtherOpt(k) => SelectionView::OtherOpt(*k as int),
            PackageSelection::Removed => SelectionView::Removed,
        }
    }
}

} // verus!
