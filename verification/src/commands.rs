//! The install recovery state machine. It owns the working set of
//! packages and decides every transition; running the backend process and
//! prompting the user happen outside, and their results come back in as
//! plain values: whether the command launched, its merged and trimmed
//! output, the probe output per package, and the selection the user made.
//!
//! Failure categories are recognised by fixed substrings of the backend's
//! human-readable output; the signature table lives in `probe_finding_spec`
//! and the markers beside it.
use crate::records::strs_view;
use crate::records::PackageSelection;
use crate::records::SelectionView;
use crate::strutil::contains_seq;
use crate::strutil::ends_with_seq;
use crate::strutil::starts_with_seq;
use crate::strutil::str_contains;
use crate::strutil::str_ends_with;
use crate::strutil::str_starts_with;
use vstd::prelude::*;
use vstd::string::StrSliceExecFns;
use vstd::string::StringExecFns;

verus! {

/// The states of one install or update invocation. The `Do` states ask
/// for a backend command; the `Needs` states wait for the user to confirm
/// the corrective step; `BadPkg` waits for a replacement choice.
#[derive(Clone, Debug)]
pub enum StyxState {
    Completed,
    Failed,
    BadPkg(String),
    DoInstall,
    DoSysUpdate,
    DoXbpsUpdate,
    NeedsSysUpdate,
    NeedsXbpsUpdate,
}

/// What one validation probe reports about one package.
pub enum ProbeFinding {
    Clean,
    NotFound,
    NeedsSysUpdate,
    NeedsXbpsUpdate,
}

/// What a validation pass over the whole working set decided.
pub enum ValidationOutcome {
    Clean,
    BadPkg(String),
    NeedsSysUpdate,
    NeedsXbpsUpdate,
}

/// A parsed answer to a yes/no confirmation prompt.
pub enum ConfirmAnswer {
    Yes,
    No,
    Invalid,
}

pub open spec fn shlib_marker() -> Seq<char> {
    "broken, unresolvable shlib"@
}

pub open spec fn xbps_update_marker() -> Seq<char> {
    "The 'xbps' package must be updated"@
}

pub open spec fn not_found_prefix() -> Seq<char> {
    "Package '"@
}

pub open spec fn not_found_suffix() -> Seq<char> {
    "' not found in repository pool."@
}

/// The signature table: what a probe's output means. An unresolvable
/// package is recognised first; then a broken shared-library graph; then
/// an outdated backend tool; anything else counts as clean.
pub open spec fn probe_finding_spec(msg: Seq<char>) -> ProbeFinding {
    if starts_with_seq(msg, not_found_prefix()) && ends_with_seq(msg, not_found_suffix()) {
        ProbeFinding::NotFound
    } else if contains_seq(msg, shlib_marker()) {
        ProbeFinding::NeedsSysUpdate
    } else if contains_seq(msg, xbps_update_marker()) {
        ProbeFinding::NeedsXbpsUpdate
    } else {
        ProbeFinding::Clean
    }
}

/// Classify one probe's merged output.
pub fn classify_probe(msg: &str) -> (r: ProbeFinding)
    ensures
        r == probe_finding_spec(msg@),
{
    if str_starts_with(msg, "Package '") && str_ends_with(msg, "' not found in repository pool.")
    {
        ProbeFinding::NotFound
    } else if str_contains(msg, "broken, unresolvable shlib") {
        ProbeFinding::NeedsSysUpdate
    } else if str_contains(msg, "The 'xbps' package must be updated") {
        ProbeFinding::NeedsXbpsUpdate
    } else {
        ProbeFinding::Clean
    }
}

/// The first probe that reports anything but clean.
pub open spec fn first_flagged(ps: Seq<Seq<char>>) -> Option<int>
    decreases ps.len(),
{
    if ps.len() == 0 {
        Option::None
    } else if !(probe_finding_spec(ps.first()) matches ProbeFinding::Clean) {
        Option::Some(0int)
    } else {
        match first_flagged(ps.drop_first()) {
            Option::Some(i) => Option::Some(i + 1),
            Option::None => Option::None,
        }
    }
}

/// What `first_flagged` returns: the least flagged index, or nothing when
/// every probe is clean.
pub proof fn lemma_first_flagged(ps: Seq<Seq<char>>)
    ensures
        match first_flagged(ps) {
            Option::Some(i) => 0 <= i < ps.len() && !(probe_finding_spec(ps[i])
                matches ProbeFinding::Clean) && forall|j: int|
                0 <= j < i ==> probe_finding_spec(#[trigger] ps[j]) matches ProbeFinding::Clean,
            Option::None => forall|j: int|
                0 <= j < ps.len() ==> probe_finding_spec(#[trigger] ps[j])
                    matches ProbeFinding::Clean,
        },
    decreases ps.len(),
{
    if ps.len() > 0 && (probe_finding_spec(ps.first()) matches ProbeFinding::Clean) {
        let t = ps.drop_first();
        lemma_first_flagged(t);
        match first_flagged(t) {
            Option::Some(i) => {
                assert(t[i] == ps[i + 1]);
                assert forall|j: int| 0 <= j < i + 1 implies probe_finding_spec(#[trigger] ps[j])
                    matches ProbeFinding::Clean by {
                    if j > 0 {
                        assert(t[j - 1] == ps[j]);
                    }
                }
            },
            Option::None => {
                assert forall|j: int| 0 <= j < ps.len() implies probe_finding_spec(
                    #[trigger] ps[j],
                ) matches ProbeFinding::Clean by {
                    if j > 0 {
                        assert(t[j - 1] == ps[j]);
                    }
                }
            },
        }
    }
}

/// A working set of packages being installed, with the flags the backend
/// command will carry and the state the recovery machine is in.
pub struct InstallCommand {
    pub assume_yes: bool,
    pub do_dry_run: bool,
    pub do_sync_repos: bool,
    pub xbps_args: Vec<String>,
    pub pkgs: Vec<String>,
    pub current_state: StyxState,
    pub do_validate_pkgs: bool,
}

/// The flags and backend arguments two machine values share.
pub open spec fn flags_unchanged(a: &InstallCommand, b: &InstallCommand) -> bool {
    &&& a.assume_yes == b.assume_yes
    &&& a.do_dry_run == b.do_dry_run
    &&& a.do_sync_repos == b.do_sync_repos
    &&& strs_view(a.xbps_args@) == strs_view(b.xbps_args@)
}

/// The argument list of the apply-phase install command: sync, assume-yes
/// and dry-run flags as set, then the pass-through arguments, then the
/// working set.
pub open spec fn install_args_spec(c: &InstallCommand) -> Seq<Seq<char>> {
    (if c.do_sync_repos {
        seq!["-S"@]
    } else {
        Seq::empty()
    }) + (if c.assume_yes {
        seq!["-y"@]
    } else {
        Seq::empty()
    }) + (if c.do_dry_run {
        seq!["-n"@]
    } else {
        Seq::empty()
    }) + strs_view(c.xbps_args@) + strs_view(c.pkgs@)
}

/// The argument list of one validation probe: always a dry run of the one
/// package.
pub open spec fn probe_args_spec(pkg: Seq<char>) -> Seq<Seq<char>> {
    seq!["-n"@, pkg]
}

/// The state after one backend run: the self-update step moves on to the
/// system update or fails; the system update completes (to the install
/// phase, or straight to done with nothing to install), asks for the
/// backend tool to be updated first, or fails; the install apply step
/// completes only when the backend launched and reported nothing.
pub open spec fn try_run_next(
    state: StyxState,
    pkgs_len: int,
    launched: bool,
    out: Seq<char>,
) -> StyxState {
    match state {
        StyxState::DoXbpsUpdate => if launched {
            StyxState::DoSysUpdate
        } else {
            StyxState::Failed
        },
        StyxState::DoSysUpdate => if !launched {
            StyxState::Failed
        } else if out.len() == 0 {
            if pkgs_len > 0 {
                StyxState::DoInstall
            } else {
                StyxState::Completed
            }
        } else if contains_seq(out, xbps_update_marker()) {
            StyxState::NeedsXbpsUpdate
        } else {
            StyxState::Failed
        },
        StyxState::DoInstall => if launched && out.len() == 0 {
            StyxState::Completed
        } else {
            StyxState::Failed
        },
        _ => state,
    }
}

/// Whether the backend run counts as a success of its step.
pub open spec fn try_run_ok(state: StyxState, launched: bool, out: Seq<char>) -> bool {
    match state {
        StyxState::DoXbpsUpdate => launched,
        StyxState::DoSysUpdate => launched && out.len() == 0,
        StyxState::DoInstall => launched && out.len() == 0,
        _ => false,
    }
}

impl InstallCommand {
    /// A fresh command in the given starting state: repositories synced,
    /// nothing assumed, the working set empty and validation pending.
    pub fn new(initial_state: StyxState) -> (r: InstallCommand)
        ensures
            !r.assume_yes,
            !r.do_dry_run,
            r.do_sync_repos,
            r.xbps_args@.len() == 0,
            r.pkgs@.len() == 0,
            r.current_state == initial_state,
            r.do_validate_pkgs,
    {
        InstallCommand {
            assume_yes: false,
            do_dry_run: false,
            do_sync_repos: true,
            xbps_args: Vec::new(),
            pkgs: Vec::new(),
            current_state: initial_state,
            do_validate_pkgs: true,
        }
    }

    /// Add one package to the working set.
    pub fn add_pkg(&mut self, pkg: String)
        ensures
            strs_view(final(self).pkgs@) == strs_view(old(self).pkgs@).push(pkg@),
            final(self).current_state == old(self).current_state,
            final(self).do_validate_pkgs == old(self).do_validate_pkgs,
            flags_unchanged(final(self), old(self)),
    {
        let ghost pre = self.pkgs@;
        self.pkgs.push(pkg);
        proof {
            assert(strs_view(self.pkgs@) =~= strs_view(pre).push(self.pkgs@.last()@));
        }
    }

    /// Append pass-through arguments for the backend.
    pub fn xbps_args(&mut self, args: Vec<String>)
        ensures
            strs_view(final(self).xbps_args@) == strs_view(old(self).xbps_args@) + strs_view(
                args@,
            ),
            final(self).pkgs@ == old(self).pkgs@,
            final(self).current_state == old(self).current_state,
            final(self).do_validate_pkgs == old(self).do_validate_pkgs,
            final(self).assume_yes == old(self).assume_yes,
            final(self).do_dry_run == old(self).do_dry_run,
            final(self).do_sync_repos == old(self).do_sync_repos,
    {
        let ghost pre = self.xbps_args@;
        let ghost added = args@;
        let mut args = args;
        self.xbps_args.append(&mut args);
        proof {
            assert(strs_view(pre + added) =~= strs_view(pre) + strs_view(added));
        }
    }

    /// The working set, one package per line.
    pub fn list_pkgs(&self) -> (r: String)
        ensures
            r@ == crate::strutil::lines_render(strs_view(self.pkgs@)),
    {
        crate::strutil::join_lines(&self.pkgs)
    }

    /// The argument list for the apply-phase install command.
    pub fn build_args(&self) -> (r: Vec<String>)
        ensures
            strs_view(r@) == install_args_spec(self),
    {
        let mut args: Vec<String> = Vec::new();
        proof {
            assert(strs_view(args@) =~= Seq::<Seq<char>>::empty());
        }
        if self.do_sync_repos {
            let ghost pre = args@;
            args.push(String::from_str("-S"));
            proof {
                assert(strs_view(args@) =~= strs_view(pre).push("-S"@));
            }
        }
        if self.assume_yes {
            let ghost pre = args@;
            args.push(String::from_str("-y"));
            proof {
                assert(strs_view(args@) =~= strs_view(pre).push("-y"@));
            }
        }
        if self.do_dry_run {
            let ghost pre = args@;
            args.push(String::from_str("-n"));
            proof {
                assert(strs_view(args@) =~= strs_view(pre).push("-n"@));
            }
        }
        let mut i: usize = 0;
        let ghost flags = strs_view(args@);
        while i < self.xbps_args.len()
            invariant
                0 <= i <= self.xbps_args@.len(),
                strs_view(args@) == flags + strs_view(self.xbps_args@).take(i as int),
            decreases self.xbps_args@.len() - i,
        {
            let ghost pre = args@;
            args.push(self.xbps_args[i].clone());
            proof {
                assert(strs_view(args@) =~= strs_view(pre).push(self.xbps_args@[i as int]@));
                assert(strs_view(self.xbps_args@).take(i + 1) =~= strs_view(
                    self.xbps_args@,
                ).take(i as int).push(self.xbps_args@[i as int]@));
            }
            i = i + 1;
        }
        proof {
            assert(strs_view(self.xbps_args@).take(self.xbps_args@.len() as int) =~= strs_view(
                self.xbps_args@,
            ));
        }
        let ghost with_args = strs_view(args@);
        let mut j: usize = 0;
        while j < self.pkgs.len()
            invariant
                0 <= j <= self.pkgs@.len(),
                strs_view(args@) == with_args + strs_view(self.pkgs@).take(j as int),
            decreases self.pkgs@.len() - j,
        {
            let ghost pre = args@;
            args.push(self.pkgs[j].clone());
            proof {
                assert(strs_view(args@) =~= strs_view(pre).push(self.pkgs@[j as int]@));
                assert(strs_view(self.pkgs@).take(j + 1) =~= strs_view(self.pkgs@).take(
                    j as int,
                ).push(self.pkgs@[j as int]@));
            }
            j = j + 1;
        }
        proof {
            assert(strs_view(self.pkgs@).take(self.pkgs@.len() as int) =~= strs_view(
                self.pkgs@,
            ));
            assert(strs_view(args@) =~= install_args_spec(self));
        }
        args
    }

    /// The argument list for one validation probe: a dry run of the one
    /// package, whatever the command's own flags say.
    pub fn probe_args(&self, pkg: &String) -> (r: Vec<String>)
        ensures
            strs_view(r@) == probe_args_spec(pkg@),
    {
        let mut args: Vec<String> = Vec::new();
        args.push(String::from_str("-n"));
        args.push(pkg.clone());
        proof {
            assert(strs_view(args@) =~= probe_args_spec(pkg@));
        }
        args
    }

    /// Whether the invocation has finished successfully.
    pub fn is_completed(&self) -> (r: bool)
        ensures
            r == (self.current_state matches StyxState::Completed),
    {
        matches!(self.current_state, StyxState::Completed)
    }

    /// Whether the machine still wants a step to run.
    pub fn is_executing(&self) -> (r: bool)
        ensures
            r == !(self.current_state matches StyxState::Completed || self.current_state
                matches StyxState::Failed),
    {
        !matches!(self.current_state, StyxState::Completed | StyxState::Failed)
    }

    /// Judge the working set from one probe output per package. The first
    /// flagged package decides: an unresolvable one is removed from the
    /// set and the machine waits in `BadPkg` for its replacement; a broken
    /// shared-library graph routes through the system update; an outdated
    /// backend tool routes through the self-update. Only a fully clean
    /// pass clears the validation flag, and a set already validated is
    /// clean at once.
    pub fn validate_pkgs(&mut self, probes: &Vec<String>) -> (r: ValidationOutcome)
        requires
            old(self).current_state matches StyxState::DoInstall,
            probes@.len() == old(self).pkgs@.len(),
        ensures
            flags_unchanged(final(self), old(self)),
            ({
                let ps = strs_view(probes@);
                if !old(self).do_validate_pkgs {
                    &&& r matches ValidationOutcome::Clean
                    &&& final(self).pkgs@ == old(self).pkgs@
                    &&& final(self).current_state matches StyxState::DoInstall
                    &&& !final(self).do_validate_pkgs
                } else {
                    match first_flagged(ps) {
                        Option::None => {
                            &&& r matches ValidationOutcome::Clean
                            &&& final(self).pkgs@ == old(self).pkgs@
                            &&& final(self).current_state matches StyxState::DoInstall
                            &&& !final(self).do_validate_pkgs
                        },
                        Option::Some(i) => {
                            &&& final(self).do_validate_pkgs
                            &&& match probe_finding_spec(ps[i]) {
                                ProbeFinding::NotFound => {
                                    &&& r matches ValidationOutcome::BadPkg(p) && p@ == old(
                                        self,
                                    ).pkgs@[i]@
                                    &&& final(self).current_state matches StyxState::BadPkg(q)
                                        && q@ == old(self).pkgs@[i]@
                                    &&& strs_view(final(self).pkgs@) == strs_view(
                                        old(self).pkgs@,
                                    ).remove(i)
                                },
                                ProbeFinding::NeedsSysUpdate => {
                                    &&& r matches ValidationOutcome::NeedsSysUpdate
                                    &&& final(self).current_state
                                        matches StyxState::DoSysUpdate
                                    &&& final(self).pkgs@ == old(self).pkgs@
                                },
                                ProbeFinding::NeedsXbpsUpdate => {
                                    &&& r matches ValidationOutcome::NeedsXbpsUpdate
                                    &&& final(self).current_state
                                        matches StyxState::DoXbpsUpdate
                                    &&& final(self).pkgs@ == old(self).pkgs@
                                },
                                ProbeFinding::Clean => false,
                            }
                        },
                    }
                }
            }),
    {
        if !self.do_validate_pkgs {
            return ValidationOutcome::Clean;
        }
        let ghost ps = strs_view(probes@);
        proof {
            lemma_first_flagged(ps);
        }
        let mut i: usize = 0;
        while i < probes.len()
            invariant
                0 <= i <= probes@.len(),
                ps == strs_view(probes@),
                probes@.len() == self.pkgs@.len(),
                forall|j: int|
                    0 <= j < i ==> probe_finding_spec(#[trigger] ps[j])
                        matches ProbeFinding::Clean,
                self == old(self),
                old(self).do_validate_pkgs,
                old(self).current_state matches StyxState::DoInstall,
            decreases probes@.len() - i,
        {
            let finding = classify_probe(probes[i].as_str());
            proof {
                assert(ps[i as int] == probes@[i as int]@);
                lemma_first_flagged(ps);
            }
            match finding {
                ProbeFinding::Clean => {},
                ProbeFinding::NotFound => {
                    proof {
                        assert(first_flagged(ps) == Option::Some(i as int));
                    }
                    let ghost pre = self.pkgs@;
                    let bad = self.pkgs.remove(i);
                    proof {
                        assert(strs_view(pre.remove(i as int)) =~= strs_view(pre).remove(
                            i as int,
                        ));
                    }
                    let state_pkg = bad.clone();
                    let ret_pkg = bad;
                    self.current_state = StyxState::BadPkg(state_pkg);
                    return ValidationOutcome::BadPkg(ret_pkg);
                },
                ProbeFinding::NeedsSysUpdate => {
                    proof {
                        assert(first_flagged(ps) == Option::Some(i as int));
                    }
                    self.current_state = StyxState::DoSysUpdate;
                    return ValidationOutcome::NeedsSysUpdate;
                },
                ProbeFinding::NeedsXbpsUpdate => {
                    proof {
                        assert(first_flagged(ps) == Option::Some(i as int));
                    }
                    self.current_state = StyxState::DoXbpsUpdate;
                    return ValidationOutcome::NeedsXbpsUpdate;
                },
            }
            i = i + 1;
        }
        proof {
            lemma_first_flagged(ps);
            assert(first_flagged(ps) is None);
        }
        self.do_validate_pkgs = false;
        ValidationOutcome::Clean
    }

    /// Feed back one backend run for the current `Do` state: whether the
    /// command could be launched at all, and its merged, trimmed output.
    /// The state moves as `try_run_next` says; the message names the step
    /// and its outcome.
    pub fn try_run(&mut self, launched: bool, output: &String) -> (r: Result<String, String>)
        requires
            old(self).current_state matches StyxState::DoXbpsUpdate || old(self).current_state
                matches StyxState::DoSysUpdate || old(self).current_state
                matches StyxState::DoInstall,
            old(self).current_state matches StyxState::DoInstall ==> !old(self).do_validate_pkgs,
        ensures
            flags_unchanged(final(self), old(self)),
            final(self).pkgs@ == old(self).pkgs@,
            final(self).do_validate_pkgs == old(self).do_validate_pkgs,
            final(self).current_state == try_run_next(
                old(self).current_state,
                old(self).pkgs@.len() as int,
                launched,
                output@,
            ),
            r is Ok == try_run_ok(old(self).current_state, launched, output@),
    {
        match &self.current_state {
            StyxState::DoXbpsUpdate => {
                if launched {
                    self.current_state = StyxState::DoSysUpdate;
                    Result::Ok(String::from_str("STYX (Success): Updated the 'xbps' package"))
                } else {
                    self.current_state = StyxState::Failed;
                    Result::Err(
                        String::from_str("STYX (Fatal Error): Could not update the 'xbps' package."),
                    )
                }
            },
            StyxState::DoSysUpdate => {
                if !launched {
                    self.current_state = StyxState::Failed;
                    Result::Err(String::from_str("STYX (Fatal Error): Could not update system."))
                } else if output.as_str().is_empty() {
                    self.current_state = if self.pkgs.len() > 0 {
                        StyxState::DoInstall
                    } else {
                        StyxState::Completed
                    };
                    Result::Ok(String::from_str("STYX (Success): Updated system."))
                } else if str_contains(output.as_str(), "The 'xbps' package must be updated") {
                    self.current_state = StyxState::NeedsXbpsUpdate;
                    Result::Err(String::from_str("STYX (Error): Xbps needs to be updated."))
                } else {
                    self.current_state = StyxState::Failed;
                    let msg = String::from_str("STYX (Fatal Error): Could not update system.\n");
                    Result::Err(msg.concat(output.as_str()))
                }
            },
            _ => {
                // the install apply phase
                if launched && output.as_str().is_empty() {
                    self.current_state = StyxState::Completed;
                    Result::Ok(String::from_str("STYX (Success): Installation complete!"))
                } else {
                    self.current_state = StyxState::Failed;
                    let msg = String::from_str(
                        "STYX (Fatal Error): Could not run install command.\n",
                    );
                    Result::Err(msg.concat(output.as_str()))
                }
            },
        }
    }

    /// Apply the user-approved fix for the current condition: a pending
    /// update step becomes the matching `Do` state; a bad package returns
    /// the machine to the install phase with the chosen replacements —
    /// zero, one or many — appended to the working set.
    pub fn apply_fix(&mut self, replacement: &PackageSelection) -> (r: String)
        requires
            old(self).current_state matches StyxState::NeedsSysUpdate || old(
                self,
            ).current_state matches StyxState::NeedsXbpsUpdate || old(self).current_state
                matches StyxState::BadPkg(_),
        ensures
            flags_unchanged(final(self), old(self)),
            final(self).do_validate_pkgs == old(self).do_validate_pkgs,
            match old(self).current_state {
                StyxState::NeedsSysUpdate => final(self).current_state
                    matches StyxState::DoSysUpdate && final(self).pkgs@ == old(self).pkgs@,
                StyxState::NeedsXbpsUpdate => final(self).current_state
                    matches StyxState::DoXbpsUpdate && final(self).pkgs@ == old(self).pkgs@,
                StyxState::BadPkg(_) => final(self).current_state matches StyxState::DoInstall
                    && strs_view(final(self).pkgs@) == strs_view(old(self).pkgs@) + (
                match replacement@ {
                    SelectionView::Package(p) => seq![p],
                    SelectionView::Packages(ps) => ps,
                    _ => Seq::empty(),
                }),
                _ => false,
            },
    {
        let bad: Option<String> = match &self.current_state {
            StyxState::BadPkg(p) => Option::Some(p.clone()),
            _ => Option::None,
        };
        match bad {
            Option::None => {
                if matches!(self.current_state, StyxState::NeedsSysUpdate) {
                    self.current_state = StyxState::DoSysUpdate;
                } else {
                    self.current_state = StyxState::DoXbpsUpdate;
                }
                String::new()
            },
            Option::Some(pkg) => {
                self.current_state = StyxState::DoInstall;
                match replacement {
                    PackageSelection::Package(new_pkg) => {
                        let msg = String::from_str("STYX: Replaced '").concat(
                            pkg.as_str(),
                        ).concat("' with '").concat(new_pkg.as_str()).concat("'");
                        let ghost pre = self.pkgs@;
                        self.pkgs.push(new_pkg.clone());
                        proof {
                            assert(strs_view(self.pkgs@) =~= strs_view(pre) + seq![new_pkg@]);
                        }
                        msg
                    },
                    PackageSelection::Packages(new_pkgs) => {
                        let msg = String::from_str("STYX: Replaced '").concat(
                            pkg.as_str(),
                        ).concat("' with the selected packages");
                        let mut k: usize = 0;
                        let ghost pre = strs_view(self.pkgs@);
                        let ghost added = strs_view(new_pkgs@);
                        while k < new_pkgs.len()
                            invariant
                                0 <= k <= new_pkgs@.len(),
                                added == strs_view(new_pkgs@),
                                strs_view(self.pkgs@) == pre + added.take(k as int),
                                self.current_state == old(self).current_state
                                    || self.current_state matches StyxState::DoInstall,
                                flags_unchanged(self, old(self)),
                                self.do_validate_pkgs == old(self).do_validate_pkgs,
                                self.current_state matches StyxState::DoInstall,
                            decreases new_pkgs@.len() - k,
                        {
                            let ghost cur = self.pkgs@;
                            self.pkgs.push(new_pkgs[k].clone());
                            proof {
                                assert(strs_view(self.pkgs@) =~= strs_view(cur).push(
                                    new_pkgs@[k as int]@,
                                ));
                                assert(added.take(k + 1) =~= added.take(k as int).push(
                                    added[k as int],
                                ));
                                assert(added[k as int] == new_pkgs@[k as int]@);
                            }
                            k = k + 1;
                        }
                        proof {
                            assert(added.take(new_pkgs@.len() as int) =~= added);
                        }
                        msg
                    },
                    _ => {
                        proof {
                            assert(strs_view(self.pkgs@) + Seq::<Seq<char>>::empty()
                                =~= strs_view(self.pkgs@));
                        }
                        String::from_str("STYX: Removed '").concat(pkg.as_str()).concat("'")
                    },
                }
            },
        }
    }

    /// The user declined the fix: declining an update step fails the whole
    /// invocation; declining a replacement merely drops the package (it
    /// already left the working set) and the install phase goes on.
    pub fn decline_fix(&mut self) -> (r: Result<String, String>)
        requires
            old(self).current_state matches StyxState::NeedsSysUpdate || old(
                self,
            ).current_state matches StyxState::NeedsXbpsUpdate || old(self).current_state
                matches StyxState::BadPkg(_),
        ensures
            flags_unchanged(final(self), old(self)),
            final(self).pkgs@ == old(self).pkgs@,
            final(self).do_validate_pkgs == old(self).do_validate_pkgs,
            match old(self).current_state {
                StyxState::NeedsSysUpdate => final(self).current_state matches StyxState::Failed
                    && r is Err,
                StyxState::NeedsXbpsUpdate => final(self).current_state
                    matches StyxState::Failed && r is Err,
                StyxState::BadPkg(_) => final(self).current_state matches StyxState::DoInstall
                    && r is Ok,
                _ => false,
            },
    {
        let bad: Option<String> = match &self.current_state {
            StyxState::BadPkg(p) => Option::Some(p.clone()),
            _ => Option::None,
        };
        match bad {
            Option::None => {
                self.current_state = StyxState::Failed;
                Result::Err(String::from_str("STYX: User cancelled command."))
            },
            Option::Some(pkg) => {
                self.current_state = StyxState::DoInstall;
                Result::Ok(
                    String::from_str("STYX: Removed package: '").concat(pkg.as_str()).concat(
                        "'",
                    ),
                )
            },
        }
    }
}

/// An already-corrected working set passes in one step: when every probe
/// is clean, validation flags nothing (so the set is left untouched and
/// reported clean), and a clean apply run moves the install phase straight
/// to `Completed` — one pass, no corrective transition.
pub proof fn lemma_recovery_idempotent(probes: Seq<Seq<char>>, pkgs_len: int, out: Seq<char>)
    requires
        forall|k: int|
            0 <= k < probes.len() ==> probe_finding_spec(#[trigger] probes[k])
                matches ProbeFinding::Clean,
        out.len() == 0,
    ensures
        first_flagged(probes) is None,
        try_run_next(StyxState::DoInstall, pkgs_len, true, out) matches StyxState::Completed,
        try_run_ok(StyxState::DoInstall, true, out),
    decreases probes.len(),
{
    if probes.len() > 0 {
        assert(probe_finding_spec(probes.first()) matches ProbeFinding::Clean) by {
            assert(probes[0] == probes.first());
        }
        lemma_recovery_idempotent(probes.drop_first(), pkgs_len, out);
        assert(forall|k: int|
            0 <= k < probes.drop_first().len() ==> probes.drop_first()[k] == #[trigger] probes[k
                + 1]);
    }
}

/// The answer a confirmation line gives, once trimmed and lower-cased:
/// `n` or `no` declines; `y`, `yes` or an empty line accepts; anything
/// else is asked again.
pub open spec fn confirm_of(s: Seq<char>) -> ConfirmAnswer {
    let t = crate::strutil::ascii_lower(crate::strutil::trim_spec(s));
    if t == "n"@ || t == "no"@ {
        ConfirmAnswer::No
    } else if t == "y"@ || t == "yes"@ || t.len() == 0 {
        ConfirmAnswer::Yes
    } else {
        ConfirmAnswer::Invalid
    }
}

/// Parse one line of a yes/no prompt.
pub fn confirm_answer(input: &str) -> (r: ConfirmAnswer)
    ensures
        r == confirm_of(input@),
{
    let chars = crate::strutil::str_chars(input);
    let trimmed = crate::strutil::trim_chars(&chars);
    let t = crate::strutil::to_ascii_lower(trimmed.as_str());
    if crate::strutil::str_eq(t.as_str(), "n") || crate::strutil::str_eq(t.as_str(), "no") {
        ConfirmAnswer::No
    } else if crate::strutil::str_eq(t.as_str(), "y") || crate::strutil::str_eq(
        t.as_str(),
        "yes",
    ) || t.as_str().unicode_len() == 0 {
        ConfirmAnswer::Yes
    } else {
        ConfirmAnswer::Invalid
    }
}

/// A pass-through argument with its leading hyphens removed.
pub open spec fn trim_lead_hyphens(s: Seq<char>) -> Seq<char>
    decreases s.len(),
{
    if s.len() > 0 && s.first() == '-' {
        trim_lead_hyphens(s.drop_first())
    } else {
        s
    }
}

/// The short arguments joined in order, each without its leading hyphens.
pub open spec fn joined_short_args(args: Seq<Seq<char>>) -> Seq<char>
    decreases args.len(),
{
    if args.len() == 0 {
        Seq::empty()
    } else {
        trim_lead_hyphens(args.first()) + joined_short_args(args.drop_first())
    }
}

proof fn lemma_trim_lead_hyphens(s: Seq<char>, j: int)
    requires
        0 <= j <= s.len(),
        forall|k: int| 0 <= k < j ==> s[k] == '-',
        j < s.len() ==> s[j] != '-',
    ensures
        trim_lead_hyphens(s) == s.skip(j),
    decreases j,
{
    if j == 0 {
        assert(s.skip(0) =~= s);
    } else {
        let t = s.drop_first();
        assert(forall|k: int| 0 <= k < j - 1 ==> #[trigger] t[k] == s[k + 1]);
        lemma_trim_lead_hyphens(t, j - 1);
        assert(t.skip(j - 1) =~= s.skip(j));
    }
}

/// Strip every leading hyphen off a pass-through argument.
fn strip_lead_hyphens(s: &str) -> (r: String)
    ensures
        r@ == trim_lead_hyphens(s@),
{
    let n = s.unicode_len();
    let mut j: usize = 0;
    while j < n && s.get_char(j) == '-'
        invariant
            0 <= j <= n,
            n == s@.len(),
            forall|k: int| 0 <= k < j ==> s@[k] == '-',
        decreases n - j,
    {
        j = j + 1;
    }
    proof {
        lemma_trim_lead_hyphens(s@, j as int);
    }
    let mut r = String::new();
    let mut i: usize = j;
    while i < n
        invariant
            j <= i <= n,
            n == s@.len(),
            r@ == s@.subrange(j as int, i as int),
        decreases n - i,
    {
        crate::strutil::push_char(&mut r, s.get_char(i));
        i = i + 1;
        proof {
            assert(s@.subrange(j as int, i as int) =~= s@.subrange(j as int, i - 1).push(
                s@[i - 1],
            ));
        }
    }
    proof {
        assert(s@.subrange(j as int, n as int) =~= s@.skip(j as int));
    }
    r
}

/// Fold pass-through arguments into one short-option word: a single `-`
/// followed by each argument with its own hyphens stripped. An empty list
/// folds to the empty word; a long option (`--...`) is refused, since the
/// backend wrapper only forwards short options.
pub fn xbps_args_to_string(xbps_args: &Vec<String>) -> (r: Result<String, String>)
    ensures
        ({
            let vs = strs_view(xbps_args@);
            if vs.len() == 0 {
                r matches Result::Ok(s) && s@ == Seq::<char>::empty()
            } else if exists|k: int|
                0 <= k < vs.len() && starts_with_seq(#[trigger] vs[k], "--"@) {
                r is Err
            } else {
                r matches Result::Ok(s) && s@ == "-"@ + joined_short_args(vs)
            }
        }),
{
    let ghost vs = strs_view(xbps_args@);
    if xbps_args.len() == 0 {
        return Result::Ok(String::new());
    }
    let mut acc = String::from_str("-");
    let mut i: usize = 0;
    proof {
        assert(vs.skip(0) =~= vs);
        assert(acc@ + joined_short_args(vs.skip(0)) =~= "-"@ + joined_short_args(vs));
    }
    while i < xbps_args.len()
        invariant
            0 <= i <= xbps_args@.len(),
            vs == strs_view(xbps_args@),
            forall|k: int| 0 <= k < i ==> !starts_with_seq(#[trigger] vs[k], "--"@),
            acc@ + joined_short_args(vs.skip(i as int)) == "-"@ + joined_short_args(vs),
        decreases xbps_args@.len() - i,
    {
        let ghost rest = vs.skip(i as int);
        proof {
            assert(rest.first() == vs[i as int]);
            assert(rest.drop_first() =~= vs.skip(i + 1));
            assert(vs[i as int] == xbps_args@[i as int]@);
        }
        if str_starts_with(xbps_args[i].as_str(), "--") {
            return Result::Err(
                String::from_str("Styx can only take the short version of xbps-install args"),
            );
        }
        let piece = strip_lead_hyphens(xbps_args[i].as_str());
        acc = acc.concat(piece.as_str());
        i = i + 1;
    }
    proof {
        assert(vs.skip(vs.len() as int) =~= Seq::<Seq<char>>::empty());
        assert(acc@ + Seq::<char>::empty() =~= acc@);
    }
    Result::Ok(acc)
}

/// With dry-run set, every apply-phase argument list carries the no-op
/// flag, and a validation probe carries it whatever the flags say: no
/// state-mutating backend command is ever issued.
pub proof fn lemma_dry_run_never_mutates(c: &InstallCommand, pkg: Seq<char>)
    requires
        c.do_dry_run,
    ensures
        install_args_spec(c).contains("-n"@),
        probe_args_spec(pkg).contains("-n"@),
{
    let idx: int = (if c.do_sync_repos {
        1int
    } else {
        0int
    }) + (if c.assume_yes {
        1int
    } else {
        0int
    });
    assert(install_args_spec(c)[idx] == "-n"@);
    assert(probe_args_spec(pkg)[0] == "-n"@);
}

} // verus!
