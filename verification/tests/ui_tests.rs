use plutonian_shores::charon::charon_file_contents;
use plutonian_shores::charon::orphaned_files;
use plutonian_shores::charon::skeleton;
use plutonian_shores::charon::InstallItem;
use plutonian_shores::charon::InstallationCmd;
use plutonian_shores::pager::column_count;
use plutonian_shores::pager::Pager;
use plutonian_shores::pager::PagerAction;
use plutonian_shores::pager::PagerKey;
use plutonian_shores::querycmd::pipe_choice;
use plutonian_shores::querycmd::PipeChoice;
use plutonian_shores::querycmd::QueryCommand;
use plutonian_shores::querycmd::QueryDisplayMode;

fn strings(v: &[&str]) -> Vec<String> {
    v.iter().map(|s| String::from(*s)).collect()
}

#[test]
fn pager_stays_within_bounds() {
    let mut p = Pager::new(20, 3);
    assert!(matches!(p.step(PagerKey::Up), PagerAction::Ignore));
    assert!(matches!(p.step(PagerKey::Down), PagerAction::Redraw));
    assert_eq!(p.start_row, 1);
    p.step(PagerKey::Bottom);
    assert_eq!(p.start_row, 3);
    assert!(matches!(p.step(PagerKey::Down), PagerAction::Ignore));
    p.step(PagerKey::Top);
    assert_eq!(p.start_row, 0);
    p.step(PagerKey::JumpForward);
    assert_eq!(p.start_row, 3);
    p.step(PagerKey::JumpBack);
    assert_eq!(p.start_row, 0);
}

#[test]
fn pager_accumulates_indices() {
    let mut p = Pager::new(20, 3);
    p.step(PagerKey::Digit('1'));
    p.step(PagerKey::Digit(' '));
    p.step(PagerKey::Digit('3'));
    assert_eq!(p.input_line(), "1 3");
    p.step(PagerKey::Backspace);
    assert_eq!(p.input_line(), "1 ");
    assert!(matches!(p.step(PagerKey::Digit('0')), PagerAction::Ignore));
    assert!(matches!(p.step(PagerKey::Cancel), PagerAction::Abort));
    assert!(matches!(p.step(PagerKey::Confirm), PagerAction::Finish));
    assert!(matches!(p.step(PagerKey::Quit), PagerAction::Finish));
    assert!(matches!(p.step(PagerKey::Other), PagerAction::Ignore));
}

#[test]
fn columns_fit_terminal_width() {
    // each entry takes 10 + 3 + 2 = 15 columns
    assert_eq!(column_count(80, 10, 100), 5);
    // too narrow still gives one column
    assert_eq!(column_count(8, 30, 10), 1);
}

#[test]
fn query_command_args_and_menus() {
    let mut q = QueryCommand::new();
    q.add_pkg(String::from("feh"));
    assert_eq!(q.build_args(), strings(&["-Rs", "feh"]));
    q.set_display_mode(QueryDisplayMode::AliasMode);
    assert_eq!(q.build_args(), strings(&["feh"]));
    assert_eq!(
        q.user_options(1),
        "0. Exit Cocytus\n1. Select pkgs\n2. Query next pkg\nOption: "
    );
}

#[test]
fn pipe_choices() {
    assert!(matches!(pipe_choice("0"), PipeChoice::Quit));
    assert!(matches!(pipe_choice("1"), PipeChoice::ToInstall));
    assert!(matches!(pipe_choice("2"), PipeChoice::ToRemove));
    assert!(matches!(pipe_choice("3"), PipeChoice::Details));
    assert!(matches!(pipe_choice("4"), PipeChoice::Invalid));
    assert!(matches!(pipe_choice(""), PipeChoice::Invalid));
}

#[test]
fn install_item_manifest_entry() {
    let mut it = InstallItem::new();
    it.target(String::from("bin/foo.sh"));
    it.perms(0o755);
    it.strip_ext(true);
    assert_eq!(it.to_toml_str(), "{ target = \"bin/foo.sh\", perms = 493, strip_ext = true}");

    let mut plain = InstallItem::new();
    plain.target(String::from("a\"b"));
    plain.overwrite(false);
    assert_eq!(plain.to_toml_str(), "{ target = \"a\\\"b\", overwrite = false}");
}

#[test]
fn installation_cmd_index_entry() {
    let mut cmd = InstallationCmd::new();
    cmd.set_name("charon");
    cmd.version = Some(String::from("0.0.0"));
    assert_eq!(cmd.to_toml_str(), "charon = {version = \"0.0.0\", source = \"charon\" }");
}

#[test]
fn add_simple_item_strips_extension() {
    let mut cmd = InstallationCmd::new();
    cmd.add_simple_item(String::from("path/tool.sh"), String::from("/usr/local/bin"), 0o755, true, true);
    assert_eq!(cmd.items[0].dest, "/usr/local/bin/tool");
    cmd.add_simple_item(String::from("conf.toml"), String::from("/etc/x/conf.toml"), 0o644, true, false);
    assert_eq!(cmd.items[1].dest, "/etc/x/conf.toml");
}

#[test]
fn skeleton_lists_every_section() {
    let s = skeleton();
    assert!(s.contains("bin = []"));
    assert!(s.contains("localconfig = []"));
}

#[test]
fn guided_contents_cover_chosen_files() {
    let text = charon_file_contents(Some(String::from("t/a.sh")), None, None, None);
    assert_eq!(text, "bin = [\n\t{ target = \"t/a.sh\", perms = 1877, strip_ext = true}\n]\n");
    let none = charon_file_contents(None, None, None, None);
    assert_eq!(none, "");
}

#[test]
fn orphans_are_old_files_missing_from_new() {
    let old = strings(&["/usr/bin/a", "# comment", "/usr/bin/b"]);
    let new = strings(&["/usr/bin/b"]);
    assert_eq!(orphaned_files(&old, &new), strings(&["/usr/bin/a"]));
}
