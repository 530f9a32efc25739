//! The query command: which display mode to use, which backend arguments
//! to pass, and the small menus around the result flow. The prompting and
//! process plumbing live with the caller.
use crate::records::strs_view;
use crate::strutil::dec_digits;
use crate::strutil::str_eq;
use crate::strutil::usize_to_string;
use vstd::prelude::*;
use vstd::string::StringExecFns;

verus! {

/// How results are presented: passed through to the backend untouched, a
/// plain list, the full-screen pager, or whichever of the two fits the
/// result count.
pub enum QueryDisplayMode {
    AliasMode,
    List,
    Tui,
    Smart,
}

/// What the user asked to do with the selected packages.
pub enum PipeChoice {
    Quit,
    ToInstall,
    ToRemove,
    Details,
    Invalid,
}

/// A query invocation: the terms to look up, pass-through backend
/// arguments, and the display mode.
pub struct QueryCommand {
    pub pkgs: Vec<String>,
    pub xbps_args: Vec<String>,
    pub display_mode: QueryDisplayMode,
    pub do_dry_run: bool,
}

/// The argument list of the backend query: the remote-search flag unless
/// the command is a plain alias, then the pass-through arguments, then
/// the terms.
pub open spec fn query_args_spec(c: &QueryCommand) -> Seq<Seq<char>> {
    (if (c.display_mode matches QueryDisplayMode::AliasMode) {
        Seq::empty()
    } else {
        seq!["-Rs"@]
    }) + strs_view(c.xbps_args@) + strs_view(c.pkgs@)
}

impl QueryCommand {
    /// A fresh query: nothing to look up yet, smart display.
    pub fn new() -> (r: QueryCommand)
        ensures
            r.pkgs@.len() == 0,
            r.xbps_args@.len() == 0,
            r.display_mode matches QueryDisplayMode::Smart,
            !r.do_dry_run,
    {
        QueryCommand {
            pkgs: Vec::new(),
            xbps_args: Vec::new(),
            display_mode: QueryDisplayMode::Smart,
            do_dry_run: false,
        }
    }

    /// Choose how results are presented.
    pub fn set_display_mode(&mut self, mode: QueryDisplayMode)
        ensures
            final(self).display_mode == mode,
            final(self).pkgs@ == old(self).pkgs@,
            final(self).xbps_args@ == old(self).xbps_args@,
            final(self).do_dry_run == old(self).do_dry_run,
    {
        self.display_mode = mode;
    }

    /// Add one term to look up.
    pub fn add_pkg(&mut self, pkg: String)
        ensures
            strs_view(final(self).pkgs@) == strs_view(old(self).pkgs@).push(pkg@),
            final(self).xbps_args@ == old(self).xbps_args@,
            final(self).display_mode == old(self).display_mode,
            final(self).do_dry_run == old(self).do_dry_run,
    {
        let ghost pre = self.pkgs@;
        self.pkgs.push(pkg);
        proof {
            assert(strs_view(self.pkgs@) =~= strs_view(pre).push(self.pkgs@.last()@));
        }
    }

    /// The argument list for the backend query.
    pub fn build_args(&self) -> (r: Vec<String>)
        ensures
            strs_view(r@) == query_args_spec(self),
    {
        let mut args: Vec<String> = Vec::new();
        proof {
            assert(strs_view(args@) =~= Seq::<Seq<char>>::empty());
        }
        if !matches!(self.display_mode, QueryDisplayMode::AliasMode) {
            let ghost pre = args@;
            args.push(String::from_str("-Rs"));
            proof {
                assert(strs_view(args@) =~= strs_view(pre).push("-Rs"@));
            }
        }
        let ghost flags = strs_view(args@);
        let mut i: usize = 0;
        while i < self.xbps_args.len()
            invariant
                0 <= i <= self.xbps_args@.len(),
                strs_view(args@) == flags + strs_view(self.xbps_args@).take(i as int),
            decreases self.xbps_args@.len() - i,
        {
            let ghost pre = args@;
            args.push(self.xbps_args[i].clone());
            proof {
                assert(strs_view(args@) =~= strs_view(pre).push(self.xbps_args@[i as int]@));
                assert(strs_view(self.xbps_args@).take(i + 1) =~= strs_view(
                    self.xbps_args@,
                ).take(i as int).push(self.xbps_args@[i as int]@));
            }
            i = i + 1;
        }
        proof {
            assert(strs_view(self.xbps_args@).take(self.xbps_args@.len() as int) =~= strs_view(
                self.xbps_args@,
            ));
        }
        let ghost with_args = strs_view(args@);
        let mut j: usize = 0;
        while j < self.pkgs.len()
            invariant
                0 <= j <= self.pkgs@.len(),
                strs_view(args@) == with_args + strs_view(self.pkgs@).take(j as int),
            decreases self.pkgs@.len() - j,
        {
            let ghost pre = args@;
            args.push(self.pkgs[j].clone());
            proof {
                assert(strs_view(args@) =~= strs_view(pre).push(self.pkgs@[j as int]@));
                assert(strs_view(self.pkgs@).take(j + 1) =~= strs_view(self.pkgs@).take(
                    j as int,
                ).push(self.pkgs@[j as int]@));
            }
            j = j + 1;
        }
        proof {
            assert(strs_view(self.pkgs@).take(self.pkgs@.len() as int) =~= strs_view(
                self.pkgs@,
            ));
            assert(strs_view(args@) =~= query_args_spec(self));
        }
        args
    }

    /// The per-term option menu: exit, select from the results shown, or
    /// move on to the next term, numbered from `offset`.
    pub fn user_options(&self, offset: usize) -> (r: String)
        requires
            offset < usize::MAX,
        ensures
            r@ == "0. Exit Cocytus\n"@ + dec_digits(offset as int) + ". Select pkgs\n"@
                + dec_digits(offset as int + 1) + ". Query next pkg\nOption: "@,
    {
        let mut r = String::from_str("0. Exit Cocytus\n");
        let d1 = usize_to_string(offset);
        r.append(d1.as_str());
        r.append(". Select pkgs\n");
        let d2 = usize_to_string(offset + 1);
        r.append(d2.as_str());
        r.append(". Query next pkg\nOption: ");
        r
    }
}

/// What the final menu choice means: quit, hand the selection to the
/// install command, hand it to the removal command, or show details.
pub fn pipe_choice(input: &str) -> (r: PipeChoice)
    ensures
        input@ == "0"@ ==> r matches PipeChoice::Quit,
        input@ == "1"@ ==> r matches PipeChoice::ToInstall,
        input@ == "2"@ ==> r matches PipeChoice::ToRemove,
        input@ == "3"@ ==> r matches PipeChoice::Details,
        input@ != "0"@ && input@ != "1"@ && input@ != "2"@ && input@ != "3"@ ==> r
            matches PipeChoice::Invalid,
{
    broadcast use vstd::string::group_string_axioms;

    proof {
        reveal_strlit("0");
        reveal_strlit("1");
        reveal_strlit("2");
        reveal_strlit("3");
        assert("0"@[0] == '0' && "1"@[0] == '1' && "2"@[0] == '2' && "3"@[0] == '3');
    }
    if str_eq(input, "0") {
        PipeChoice::Quit
    } else if str_eq(input, "1") {
        PipeChoice::ToInstall
    } else if str_eq(input, "2") {
        PipeChoice::ToRemove
    } else if str_eq(input, "3") {
        PipeChoice::Details
    } else {
        PipeChoice::Invalid
    }
}

} // verus!
