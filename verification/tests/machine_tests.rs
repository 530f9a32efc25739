use plutonian_shores::commands::classify_probe;
use plutonian_shores::commands::confirm_answer;
use plutonian_shores::commands::xbps_args_to_string;
use plutonian_shores::commands::ConfirmAnswer;
use plutonian_shores::commands::InstallCommand;
use plutonian_shores::commands::ProbeFinding;
use plutonian_shores::commands::StyxState;
use plutonian_shores::commands::ValidationOutcome;
use plutonian_shores::queries::QueryResults;
use plutonian_shores::records::PackageSelection;
use plutonian_shores::remove::RemoveCommand;
use plutonian_shores::selection::selection_from_token;

fn strings(v: &[&str]) -> Vec<String> {
    v.iter().map(|s| String::from(*s)).collect()
}

#[test]
fn recovery_trace_replaces_bad_package() {
    // Invocation requests ["firefox", "bledner"].
    let mut cmd = InstallCommand::new(StyxState::DoInstall);
    cmd.add_pkg(String::from("firefox"));
    cmd.add_pkg(String::from("bledner"));

    // Validation finds "bledner" unresolvable.
    let probes = strings(&["", "Package 'bledner' not found in repository pool."]);
    match cmd.validate_pkgs(&probes) {
        ValidationOutcome::BadPkg(p) => assert_eq!(p, "bledner"),
        _ => panic!("expected a bad package"),
    }
    assert!(matches!(cmd.current_state, StyxState::BadPkg(_)));
    assert_eq!(cmd.pkgs, vec![String::from("firefox")]);

    // Fuzzy resolution on "bledner" finds blender.
    let catalog = b"- blender-4.0_1 3D creation suite\n- zzzz-1_1 nothing\n".to_vec();
    let results = QueryResults::fuzzy_query(&catalog, "bledner").unwrap();
    assert_eq!(results.records[0].pkg_name, "blender");

    // The user selects it; the working set grows back.
    let sel = selection_from_token("1", &results).unwrap();
    let msg = cmd.apply_fix(&sel);
    assert_eq!(msg, "STYX: Replaced 'bledner' with 'blender'");
    assert!(matches!(cmd.current_state, StyxState::DoInstall));
    assert_eq!(cmd.pkgs, strings(&["firefox", "blender"]));

    // Revalidation is clean, the apply phase succeeds.
    let clean = strings(&["", ""]);
    assert!(matches!(cmd.validate_pkgs(&clean), ValidationOutcome::Clean));
    let out = String::new();
    assert!(cmd.try_run(true, &out).is_ok());
    assert!(cmd.is_completed());
}

#[test]
fn dry_run_always_carries_noop_flag() {
    let mut cmd = InstallCommand::new(StyxState::DoInstall);
    cmd.do_dry_run = true;
    cmd.add_pkg(String::from("feh"));
    let args = cmd.build_args();
    assert!(args.contains(&String::from("-n")));
    let probe = cmd.probe_args(&String::from("feh"));
    assert_eq!(probe, strings(&["-n", "feh"]));
}

#[test]
fn recovery_idempotent_on_corrected_set() {
    let mut cmd = InstallCommand::new(StyxState::DoInstall);
    cmd.add_pkg(String::from("firefox"));
    let clean = strings(&[""]);
    // First pass: validation clean, apply completes; no corrective state.
    assert!(matches!(cmd.validate_pkgs(&clean), ValidationOutcome::Clean));
    assert!(matches!(cmd.current_state, StyxState::DoInstall));
    let out = String::new();
    assert!(cmd.try_run(true, &out).is_ok());
    assert!(cmd.is_completed());

    // Second pass over an already-corrected set behaves the same.
    let mut again = InstallCommand::new(StyxState::DoInstall);
    again.add_pkg(String::from("firefox"));
    assert!(matches!(again.validate_pkgs(&clean), ValidationOutcome::Clean));
    // validation is now marked done and does not re-probe
    assert!(matches!(again.validate_pkgs(&strings(&[""])), ValidationOutcome::Clean));
    assert!(again.try_run(true, &String::new()).is_ok());
    assert!(again.is_completed());
}

#[test]
fn validation_routes_shlib_to_system_update() {
    let mut cmd = InstallCommand::new(StyxState::DoInstall);
    cmd.add_pkg(String::from("feh"));
    let probes = strings(&["feh-3.1_1: broken, unresolvable shlib 'libx.so.1'"]);
    assert!(matches!(cmd.validate_pkgs(&probes), ValidationOutcome::NeedsSysUpdate));
    assert!(matches!(cmd.current_state, StyxState::DoSysUpdate));
    assert_eq!(cmd.pkgs.len(), 1);
}

#[test]
fn validation_routes_tooling_to_self_update() {
    let mut cmd = InstallCommand::new(StyxState::DoInstall);
    cmd.add_pkg(String::from("feh"));
    let probes = strings(&["The 'xbps' package must be updated"]);
    assert!(matches!(cmd.validate_pkgs(&probes), ValidationOutcome::NeedsXbpsUpdate));
    assert!(matches!(cmd.current_state, StyxState::DoXbpsUpdate));
}

#[test]
fn sys_update_transitions() {
    // Success with packages pending moves to the install phase.
    let mut cmd = InstallCommand::new(StyxState::DoSysUpdate);
    cmd.add_pkg(String::from("feh"));
    assert!(cmd.try_run(true, &String::new()).is_ok());
    assert!(matches!(cmd.current_state, StyxState::DoInstall));

    // Success with nothing pending completes.
    let mut cmd2 = InstallCommand::new(StyxState::DoSysUpdate);
    assert!(cmd2.try_run(true, &String::new()).is_ok());
    assert!(cmd2.is_completed());

    // The tooling signature asks for the self-update first.
    let mut cmd3 = InstallCommand::new(StyxState::DoSysUpdate);
    let out = String::from("The 'xbps' package must be updated");
    assert!(cmd3.try_run(true, &out).is_err());
    assert!(matches!(cmd3.current_state, StyxState::NeedsXbpsUpdate));

    // Any other output fails the invocation.
    let mut cmd4 = InstallCommand::new(StyxState::DoSysUpdate);
    let out4 = String::from("transaction failed");
    assert!(cmd4.try_run(true, &out4).is_err());
    assert!(matches!(cmd4.current_state, StyxState::Failed));

    // A command that could not launch is fatal.
    let mut cmd5 = InstallCommand::new(StyxState::DoSysUpdate);
    assert!(cmd5.try_run(false, &String::new()).is_err());
    assert!(matches!(cmd5.current_state, StyxState::Failed));
}

#[test]
fn xbps_update_moves_to_system_update() {
    let mut cmd = InstallCommand::new(StyxState::DoXbpsUpdate);
    assert!(cmd.try_run(true, &String::new()).is_ok());
    assert!(matches!(cmd.current_state, StyxState::DoSysUpdate));
}

#[test]
fn declining_fix_fails_updates_but_not_replacements() {
    let mut cmd = InstallCommand::new(StyxState::NeedsXbpsUpdate);
    assert!(cmd.decline_fix().is_err());
    assert!(matches!(cmd.current_state, StyxState::Failed));

    let mut cmd2 = InstallCommand::new(StyxState::BadPkg(String::from("bledner")));
    let msg = cmd2.decline_fix().unwrap();
    assert_eq!(msg, "STYX: Removed package: 'bledner'");
    assert!(matches!(cmd2.current_state, StyxState::DoInstall));
}

#[test]
fn apply_fix_appends_many_replacements() {
    let mut cmd = InstallCommand::new(StyxState::BadPkg(String::from("old")));
    let sel = PackageSelection::Packages(strings(&["a", "b"]));
    cmd.apply_fix(&sel);
    assert_eq!(cmd.pkgs, strings(&["a", "b"]));
    assert!(matches!(cmd.current_state, StyxState::DoInstall));

    let mut cmd2 = InstallCommand::new(StyxState::BadPkg(String::from("old")));
    cmd2.apply_fix(&PackageSelection::Removed);
    assert_eq!(cmd2.pkgs.len(), 0);
    assert!(matches!(cmd2.current_state, StyxState::DoInstall));
}

#[test]
fn probe_classification_signatures() {
    assert!(matches!(
        classify_probe("Package 'xyz' not found in repository pool."),
        ProbeFinding::NotFound
    ));
    assert!(matches!(
        classify_probe("feh: broken, unresolvable shlib 'libz.so'"),
        ProbeFinding::NeedsSysUpdate
    ));
    assert!(matches!(
        classify_probe("The 'xbps' package must be updated"),
        ProbeFinding::NeedsXbpsUpdate
    ));
    assert!(matches!(classify_probe(""), ProbeFinding::Clean));
    assert!(matches!(classify_probe("all fine"), ProbeFinding::Clean));
}

#[test]
fn confirm_answers() {
    assert!(matches!(confirm_answer("y\n"), ConfirmAnswer::Yes));
    assert!(matches!(confirm_answer("YES"), ConfirmAnswer::Yes));
    assert!(matches!(confirm_answer(""), ConfirmAnswer::Yes));
    assert!(matches!(confirm_answer("n"), ConfirmAnswer::No));
    assert!(matches!(confirm_answer(" No "), ConfirmAnswer::No));
    assert!(matches!(confirm_answer("maybe"), ConfirmAnswer::Invalid));
}

#[test]
fn fold_xbps_args_to_short_word() {
    assert_eq!(xbps_args_to_string(&strings(&[])).unwrap(), "");
    assert_eq!(xbps_args_to_string(&strings(&["-S", "y"])).unwrap(), "-Sy");
    assert!(xbps_args_to_string(&strings(&["--sync"])).is_err());
}

#[test]
fn list_pkgs_one_per_line() {
    let mut cmd = InstallCommand::new(StyxState::DoInstall);
    cmd.add_pkg(String::from("feh"));
    cmd.add_pkg(String::from("gimp"));
    assert_eq!(cmd.list_pkgs(), "feh\ngimp\n");
}

#[test]
fn install_args_order() {
    let mut cmd = InstallCommand::new(StyxState::DoInstall);
    cmd.assume_yes = true;
    cmd.add_pkg(String::from("feh"));
    assert_eq!(cmd.build_args(), strings(&["-S", "-y", "feh"]));
}

#[test]
fn test_validate_pkgs() {
    let mut cmd = InstallCommand::new(StyxState::DoInstall);
    cmd.do_dry_run = true;
    cmd.assume_yes = true;
    cmd.add_pkg(String::from("firefox"));
    cmd.add_pkg(String::from("bledner"));
    cmd.add_pkg(String::from("feh"));
    let _ = cmd.build_args();
}

#[test]
fn remove_command_test_validation() {
    let mut cmd = RemoveCommand::new();
    cmd.add_pkg(String::from("blen"));
    cmd.add_pkg(String::from("godot"));
    cmd.set_assume_yes(true);

    let probes = strings(&["Package blen (1_1) is not currently installed.", ""]);
    let _ = cmd.validate_pkgs(&probes);
    assert_eq!(cmd.bad_pkg, Some(String::from("blen")));
}

#[test]
fn remove_validation_clean_pass() {
    let mut cmd = RemoveCommand::new();
    cmd.add_pkg(String::from("feh"));
    assert!(cmd.validate_pkgs(&strings(&[""])).is_ok());
    assert!(!cmd.do_validate_pkgs);
    assert_eq!(cmd.pkgs, strings(&["feh"]));
}

#[test]
fn remove_fix_bad_pkg_replaces() {
    let mut cmd = RemoveCommand::new();
    cmd.add_pkg(String::from("blen"));
    let _ = cmd.validate_pkgs(&strings(&["blen is not currently installed."]));
    let msg = cmd.fix_bad_pkg(&PackageSelection::Package(String::from("blender")));
    assert_eq!(msg, "Replaced 'blen' with 'blender'");
    assert_eq!(cmd.pkgs, strings(&["blender"]));
    assert!(cmd.bad_pkg.is_none());
}

#[test]
fn remove_args_reflect_flags() {
    let mut cmd = RemoveCommand::new();
    cmd.set_do_dry_run(true);
    cmd.set_do_recursive(true);
    cmd.set_remove_orphans(true);
    cmd.add_pkg(String::from("feh"));
    assert_eq!(cmd.build_args(), strings(&["-n", "-R", "-o", "feh"]));
}
