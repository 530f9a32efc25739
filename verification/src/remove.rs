//! The removal command: the symmetric, simpler shape of the recovery
//! machine. Validation probes each package with a dry run; a package the
//! backend does not know as installed leaves the working set and waits
//! for a replacement choice; there are no update branches.
use crate::records::strs_view;
use crate::records::PackageSelection;
use crate::records::SelectionView;
use crate::strutil::ends_with_seq;
use crate::strutil::str_ends_with;
use vstd::prelude::*;
use vstd::string::StringExecFns;

verus! {

pub open spec fn not_installed_suffix() -> Seq<char> {
    "not currently installed."@
}

/// The first probe output reporting a package not installed.
pub open spec fn first_not_installed(ps: Seq<Seq<char>>) -> Option<int>
    decreases ps.len(),
{
    if ps.len() == 0 {
        Option::None
    } else if ends_with_seq(ps.first(), not_installed_suffix()) {
        Option::Some(0int)
    } else {
        match first_not_installed(ps.drop_first()) {
            Option::Some(i) => Option::Some(i + 1),
            Option::None => Option::None,
        }
    }
}

/// What `first_not_installed` returns: the least such index, or nothing.
pub proof fn lemma_first_not_installed(ps: Seq<Seq<char>>)
    ensures
        match first_not_installed(ps) {
            Option::Some(i) => 0 <= i < ps.len() && ends_with_seq(ps[i], not_installed_suffix())
                && forall|j: int|
                0 <= j < i ==> !ends_with_seq(#[trigger] ps[j], not_installed_suffix()),
            Option::None => forall|j: int|
                0 <= j < ps.len() ==> !ends_with_seq(#[trigger] ps[j], not_installed_suffix()),
        },
    decreases ps.len(),
{
    if ps.len() > 0 && !ends_with_seq(ps.first(), not_installed_suffix()) {
        let t = ps.drop_first();
        lemma_first_not_installed(t);
        match first_not_installed(t) {
            Option::Some(i) => {
                assert(t[i] == ps[i + 1]);
                assert forall|j: int| 0 <= j < i + 1 implies !ends_with_seq(
                    #[trigger] ps[j],
                    not_installed_suffix(),
                ) by {
                    if j > 0 {
                        assert(t[j - 1] == ps[j]);
                    }
                }
            },
            Option::None => {
                assert forall|j: int| 0 <= j < ps.len() implies !ends_with_seq(
                    #[trigger] ps[j],
                    not_installed_suffix(),
                ) by {
                    if j > 0 {
                        assert(t[j - 1] == ps[j]);
                    }
                }
            },
        }
    }
}

/// A working set of packages to remove, with the flags the backend
/// command will carry.
pub struct RemoveCommand {
    pub do_dry_run: bool,
    pub assume_yes: bool,
    pub xbps_args: Vec<String>,
    pub pkgs: Vec<String>,
    pub remove_orphans: bool,
    pub do_recursive: bool,
    pub do_validate_pkgs: bool,
    pub bad_pkg: Option<String>,
}

/// The flags and backend arguments two command values share.
pub open spec fn remove_flags_unchanged(a: &RemoveCommand, b: &RemoveCommand) -> bool {
    &&& a.do_dry_run == b.do_dry_run
    &&& a.assume_yes == b.assume_yes
    &&& a.remove_orphans == b.remove_orphans
    &&& a.do_recursive == b.do_recursive
    &&& strs_view(a.xbps_args@) == strs_view(b.xbps_args@)
}

/// The argument list of the removal command: dry-run, recursive and
/// orphan flags as set, then the working set. The folded pass-through
/// word is appended by the caller, which also turns it into one argument.
pub open spec fn remove_args_spec(c: &RemoveCommand) -> Seq<Seq<char>> {
    (if c.do_dry_run {
        seq!["-n"@]
    } else {
        Seq::empty()
    }) + (if c.do_recursive {
        seq!["-R"@]
    } else {
        Seq::empty()
    }) + (if c.remove_orphans {
        seq!["-o"@]
    } else {
        Seq::empty()
    }) + strs_view(c.pkgs@)
}

impl RemoveCommand {
    /// A fresh removal: orphans removed too, nothing recursive, nothing
    /// assumed, validation pending.
    pub fn new() -> (r: RemoveCommand)
        ensures
            !r.do_dry_run,
            !r.assume_yes,
            r.xbps_args@.len() == 0,
            r.pkgs@.len() == 0,
            r.remove_orphans,
            !r.do_recursive,
            r.do_validate_pkgs,
            r.bad_pkg is None,
    {
        RemoveCommand {
            do_dry_run: false,
            assume_yes: false,
            xbps_args: Vec::new(),
            pkgs: Vec::new(),
            remove_orphans: true,
            do_recursive: false,
            do_validate_pkgs: true,
            bad_pkg: Option::None,
        }
    }

    pub fn set_assume_yes(&mut self, val: bool)
        ensures
            *final(self) == (RemoveCommand { assume_yes: val, ..*old(self) }),
    {
        self.assume_yes = val;
    }

    pub fn set_remove_orphans(&mut self, val: bool)
        ensures
            *final(self) == (RemoveCommand { remove_orphans: val, ..*old(self) }),
    {
        self.remove_orphans = val;
    }

    pub fn set_do_recursive(&mut self, val: bool)
        ensures
            *final(self) == (RemoveCommand { do_recursive: val, ..*old(self) }),
    {
        self.do_recursive = val;
    }

    pub fn set_do_dry_run(&mut self, val: bool)
        ensures
            *final(self) == (RemoveCommand { do_dry_run: val, ..*old(self) }),
    {
        self.do_dry_run = val;
    }

    /// Add one package to the working set.
    pub fn add_pkg(&mut self, pkg: String)
        ensures
            strs_view(final(self).pkgs@) == strs_view(old(self).pkgs@).push(pkg@),
            remove_flags_unchanged(final(self), old(self)),
            final(self).do_validate_pkgs == old(self).do_validate_pkgs,
            final(self).bad_pkg == old(self).bad_pkg,
    {
        let ghost pre = self.pkgs@;
        self.pkgs.push(pkg);
        proof {
            assert(strs_view(self.pkgs@) =~= strs_view(pre).push(self.pkgs@.last()@));
        }
    }

    /// The working set, one package per line.
    pub fn list_pkgs(&self) -> (r: String)
        ensures
            r@ == crate::strutil::lines_render(strs_view(self.pkgs@)),
    {
        crate::strutil::join_lines(&self.pkgs)
    }

    /// The argument list for the removal command, without the folded
    /// pass-through word.
    pub fn build_args(&self) -> (r: Vec<String>)
        ensures
            strs_view(r@) == remove_args_spec(self),
    {
        let mut args: Vec<String> = Vec::new();
        proof {
            assert(strs_view(args@) =~= Seq::<Seq<char>>::empty());
        }
        if self.do_dry_run {
            let ghost pre = args@;
            args.push(String::from_str("-n"));
            proof {
                assert(strs_view(args@) =~= strs_view(pre).push("-n"@));
            }
        }
        if self.do_recursive {
            let ghost pre = args@;
            args.push(String::from_str("-R"));
            proof {
                assert(strs_view(args@) =~= strs_view(pre).push("-R"@));
            }
        }
        if self.remove_orphans {
            let ghost pre = args@;
            args.push(String::from_str("-o"));
            proof {
                assert(strs_view(args@) =~= strs_view(pre).push("-o"@));
            }
        }
        let ghost flags = strs_view(args@);
        let mut j: usize = 0;
        while j < self.pkgs.len()
            invariant
                0 <= j <= self.pkgs@.len(),
                strs_view(args@) == flags + strs_view(self.pkgs@).take(j as int),
            decreases self.pkgs@.len() - j,
        {
            let ghost pre = args@;
            args.push(self.pkgs[j].clone());
            proof {
                assert(strs_view(args@) =~= strs_view(pre).push(self.pkgs@[j as int]@));
                assert(strs_view(self.pkgs@).take(j + 1) =~= strs_view(self.pkgs@).take(
                    j as int,
                ).push(self.pkgs@[j as int]@));
            }
            j = j + 1;
        }
        proof {
            assert(strs_view(self.pkgs@).take(self.pkgs@.len() as int) =~= strs_view(
                self.pkgs@,
            ));
            assert(strs_view(args@) =~= remove_args_spec(self));
        }
        args
    }

    /// The argument list for one validation probe: a dry run of the one
    /// package.
    pub fn probe_args(&self, pkg: &String) -> (r: Vec<String>)
        ensures
            strs_view(r@) == crate::commands::probe_args_spec(pkg@),
    {
        let mut args: Vec<String> = Vec::new();
        args.push(String::from_str("-n"));
        args.push(pkg.clone());
        proof {
            assert(strs_view(args@) =~= crate::commands::probe_args_spec(pkg@));
        }
        args
    }

    /// Judge the working set from one probe output per package: the first
    /// package reported not installed leaves the set and is remembered as
    /// the bad package; a clean pass clears the validation flag, and a
    /// set already validated passes at once.
    pub fn validate_pkgs(&mut self, probes: &Vec<String>) -> (r: Result<(), String>)
        requires
            probes@.len() == old(self).pkgs@.len(),
        ensures
            remove_flags_unchanged(final(self), old(self)),
            ({
                let ps = strs_view(probes@);
                if !old(self).do_validate_pkgs {
                    &&& r is Ok
                    &&& final(self).pkgs@ == old(self).pkgs@
                    &&& final(self).bad_pkg == old(self).bad_pkg
                    &&& !final(self).do_validate_pkgs
                } else {
                    match first_not_installed(ps) {
                        Option::None => {
                            &&& r is Ok
                            &&& final(self).pkgs@ == old(self).pkgs@
                            &&& final(self).bad_pkg == old(self).bad_pkg
                            &&& !final(self).do_validate_pkgs
                        },
                        Option::Some(i) => {
                            &&& r is Err
                            &&& strs_view(final(self).pkgs@) == strs_view(
                                old(self).pkgs@,
                            ).remove(i)
                            &&& final(self).bad_pkg matches Option::Some(p) && p@ == old(
                                self,
                            ).pkgs@[i]@
                            &&& final(self).do_validate_pkgs == old(self).do_validate_pkgs
                        },
                    }
                }
            }),
    {
        if !self.do_validate_pkgs {
            return Result::Ok(());
        }
        let ghost ps = strs_view(probes@);
        let mut i: usize = 0;
        while i < probes.len()
            invariant
                0 <= i <= probes@.len(),
                ps == strs_view(probes@),
                probes@.len() == self.pkgs@.len(),
                forall|j: int|
                    0 <= j < i ==> !ends_with_seq(#[trigger] ps[j], not_installed_suffix()),
                self == old(self),
                old(self).do_validate_pkgs,
            decreases probes@.len() - i,
        {
            proof {
                assert(ps[i as int] == probes@[i as int]@);
            }
            if str_ends_with(probes[i].as_str(), "not currently installed.") {
                proof {
                    lemma_first_not_installed(ps);
                    assert(first_not_installed(ps) == Option::Some(i as int));
                }
                let ghost pre = self.pkgs@;
                let pkg = self.pkgs.remove(i);
                proof {
                    assert(strs_view(pre.remove(i as int)) =~= strs_view(pre).remove(i as int));
                }
                let msg = String::from_str("Package '").concat(pkg.as_str()).concat(
                    "' not installed.",
                );
                self.bad_pkg = Option::Some(pkg);
                return Result::Err(msg);
            }
            i = i + 1;
        }
        proof {
            lemma_first_not_installed(ps);
            assert(first_not_installed(ps) is None);
        }
        self.do_validate_pkgs = false;
        Result::Ok(())
    }

    /// Replace or drop the remembered bad package: the chosen replacements
    /// — zero, one or many — join the working set and the bad slot is
    /// cleared.
    pub fn fix_bad_pkg(&mut self, replacement: &PackageSelection) -> (r: String)
        requires
            old(self).bad_pkg is Some,
        ensures
            remove_flags_unchanged(final(self), old(self)),
            final(self).bad_pkg is None,
            final(self).do_validate_pkgs == old(self).do_validate_pkgs,
            strs_view(final(self).pkgs@) == strs_view(old(self).pkgs@) + (match replacement@ {
                SelectionView::Package(p) => seq![p],
                SelectionView::Packages(ps) => ps,
                _ => Seq::empty(),
            }),
    {
        let pkg = match &self.bad_pkg {
            Option::Some(p) => p.clone(),
            Option::None => String::new(),
        };
        self.bad_pkg = Option::None;
        match replacement {
            PackageSelection::Package(new_pkg) => {
                let msg = String::from_str("Replaced '").concat(pkg.as_str()).concat(
                    "' with '",
                ).concat(new_pkg.as_str()).concat("'");
                let ghost pre = self.pkgs@;
                self.pkgs.push(new_pkg.clone());
                proof {
                    assert(strs_view(self.pkgs@) =~= strs_view(pre) + seq![new_pkg@]);
                }
                msg
            },
            PackageSelection::Packages(new_pkgs) => {
                let msg = String::from_str("Replaced '").concat(pkg.as_str()).concat(
                    "' with the selected packages",
                );
                let mut k: usize = 0;
                let ghost pre = strs_view(self.pkgs@);
                let ghost added = strs_view(new_pkgs@);
                while k < new_pkgs.len()
                    invariant
                        0 <= k <= new_pkgs@.len(),
                        added == strs_view(new_pkgs@),
                        strs_view(self.pkgs@) == pre + added.take(k as int),
                        remove_flags_unchanged(self, old(self)),
                        self.bad_pkg is None,
                        self.do_validate_pkgs == old(self).do_validate_pkgs,
                    decreases new_pkgs@.len() - k,
                {
                    let ghost cur = self.pkgs@;
                    self.pkgs.push(new_pkgs[k].clone());
                    proof {
                        assert(strs_view(self.pkgs@) =~= strs_view(cur).push(
                            new_pkgs@[k as int]@,
                        ));
                        assert(added.take(k + 1) =~= added.take(k as int).push(added[k as int]));
                        assert(added[k as int] == new_pkgs@[k as int]@);
                    }
                    k = k + 1;
                }
                proof {
                    assert(added.take(new_pkgs@.len() as int) =~= added);
                }
                msg
            },
            _ => {
                proof {
                    assert(strs_view(self.pkgs@) + Seq::<Seq<char>>::empty() =~= strs_view(
                        self.pkgs@,
                    ));
                }
                String::from_str("Removed '").concat(pkg.as_str()).concat("'")
            },
        }
    }
}

} // verus!
