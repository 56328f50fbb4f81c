use modsnap::branch::Branch;
use modsnap::file_handler::RelPath;
use modsnap::mod_info::ModInfo;
use modsnap::workspace::WorkspaceError;
use modsnap::workspace_handler::RestoreAction;
use modsnap::workspace_handler::SwitchResult;
use modsnap::workspace_handler::Workspace;

fn info(current: Option<&str>) -> ModInfo {
    ModInfo::new(
        "mymod".to_string(),
        "someone".to_string(),
        "a mod".to_string(),
        current.map(|c| c.to_string()),
    )
}

fn session(current: Option<&str>, branches: Vec<Branch>) -> Workspace {
    Workspace::new("/work/mymod".to_string(), info(current), branches, vec![])
}

fn branch(name: &str, version: i32) -> Branch {
    Branch::new(name.to_string(), String::new(), version)
}

#[test]
fn init_registers_main_at_version_zero() {
    let ws = Workspace::init("/work/mymod".to_string(), info(Some("main")));
    assert_eq!(ws.root_folder, "/work/mymod");
    assert_eq!(ws.branches.len(), 1);
    assert_eq!(ws.branches[0].name, "main");
    assert_eq!(ws.branches[0].description, "Main branch");
    assert_eq!(ws.branches[0].version, 0);
    assert!(ws.ignore_files_pattern.is_empty());
}

#[test]
fn fixed_layout_paths() {
    let ws = session(None, vec![]);
    assert_eq!(ws.src_folder_path(), "/work/mymod/src");
    assert_eq!(ws.info_path(), "/work/mymod/.info");
    assert_eq!(ws.branches_folder_path(), "/work/mymod/branches");
    assert_eq!(ws.branches_path(), "/work/mymod/branches/.branches");
    let (info_file, registry_file) = ws.save();
    assert_eq!(info_file, "/work/mymod/.info");
    assert_eq!(registry_file, "/work/mymod/branches/.branches");
    assert_eq!(ws.version_folder_path("dev", 12), "/work/mymod/branches/dev/12");
    assert_eq!(ws.version_folder_path("main", 0), "/work/mymod/branches/main/0");
}

#[test]
fn current_branch_folder_needs_active_branch() {
    let ws = session(None, vec![branch("main", 0)]);
    assert!(matches!(ws.current_branch_folder_path(), Err(WorkspaceError::NoActiveBranch)));
    let ws = session(Some("main"), vec![branch("main", 0)]);
    assert_eq!(ws.current_branch_folder_path().unwrap(), "/work/mymod/branches/main");
}

#[test]
fn latest_version_is_version_less_one() {
    let ws = session(None, vec![branch("main", 3), branch("dev", 0)]);
    assert_eq!(ws.latest_version("main"), Some(2));
    assert_eq!(ws.latest_version("dev"), Some(-1));
    assert_eq!(ws.latest_version("missing"), None);
}

#[test]
fn switch_to_active_branch_is_a_noop() {
    let mut ws = session(Some("main"), vec![branch("main", 2), branch("dev", 1)]);
    let r = ws.switch_branch("main", true);
    assert!(matches!(r, Ok(SwitchResult::AlreadtInBranch)));
    assert_eq!(ws.info.current_branch.as_deref(), Some("main"));
    assert_eq!(ws.branches.len(), 2);
    assert_eq!(ws.branches[0].version, 2);
    assert_eq!(ws.branches[1].version, 1);
}

#[test]
fn switch_to_missing_branch_fails() {
    let mut ws = session(Some("main"), vec![branch("main", 2)]);
    let r = ws.switch_branch("ghost", false);
    assert!(matches!(r, Err(WorkspaceError::BranchNotFound(n)) if n == "ghost"));
    assert_eq!(ws.info.current_branch.as_deref(), Some("main"));
}

#[test]
fn switch_with_snapshot_loads_and_activates() {
    let mut ws = session(Some("main"), vec![branch("main", 2), branch("dev", 1)]);
    let r = ws.switch_branch("dev", true);
    assert!(matches!(r, Ok(SwitchResult::Success)));
    assert_eq!(ws.info.current_branch.as_deref(), Some("dev"));
}

#[test]
fn switch_without_snapshot_still_activates() {
    let mut ws = session(Some("main"), vec![branch("main", 2), branch("dev", 0)]);
    let r = ws.switch_branch("dev", false);
    assert!(matches!(r, Ok(SwitchResult::NoFileMove)));
    assert_eq!(ws.info.current_branch.as_deref(), Some("dev"));
}

#[test]
fn save_needs_active_branch() {
    let mut ws = session(None, vec![branch("main", 0)]);
    assert!(matches!(ws.save_current_state(), Err(WorkspaceError::NoActiveBranch)));
}

#[test]
fn save_with_unregistered_active_branch_fails() {
    let mut ws = session(Some("ghost"), vec![branch("main", 0)]);
    let r = ws.save_current_state();
    assert!(matches!(r, Err(WorkspaceError::BranchNotFound(n)) if n == "ghost"));
    assert_eq!(ws.branches[0].version, 0);
}

#[test]
fn save_returns_written_version_and_bumps() {
    let mut ws = session(Some("main"), vec![branch("main", 0), branch("dev", 5)]);
    let r = ws.save_current_state();
    assert_eq!(r.unwrap(), 0);
    assert_eq!(ws.branches[0].version, 1);
    assert_eq!(ws.branches[1].version, 5);
    assert_eq!(ws.info.current_branch.as_deref(), Some("main"));
}

#[test]
fn save_then_switch_round_trip() {
    // Saving main at version 0 writes branches/main/0 and bumps to 1;
    // switching back to main afterwards resolves the latest snapshot as
    // 1 - 1 == 0, the directory the save filled.
    let mut ws = session(Some("main"), vec![branch("main", 0), branch("dev", 1)]);
    let written = ws.save_current_state().unwrap();
    assert_eq!(written, 0);
    assert_eq!(ws.branches[0].version, 1);
    ws.switch_branch("dev", true).unwrap();
    assert_eq!(ws.latest_version("main"), Some(written));
    let r = ws.switch_branch("main", true);
    assert!(matches!(r, Ok(SwitchResult::Success)));
    assert_eq!(ws.info.current_branch.as_deref(), Some("main"));
}

#[test]
fn remove_active_branch_is_refused() {
    let mut ws = session(Some("main"), vec![branch("main", 2), branch("dev", 1)]);
    let r = ws.remove_branch_by_name("main");
    assert!(matches!(r, Err(WorkspaceError::CannotDeleteActiveBranch(n)) if n == "main"));
    assert_eq!(ws.branches.len(), 2);
    assert_eq!(ws.branches[0].name, "main");
    assert_eq!(ws.info.current_branch.as_deref(), Some("main"));
}

#[test]
fn remove_missing_branch_fails() {
    let mut ws = session(Some("main"), vec![branch("main", 2)]);
    let r = ws.remove_branch_by_name("ghost");
    assert!(matches!(r, Err(WorkspaceError::BranchNotFound(n)) if n == "ghost"));
    assert_eq!(ws.branches.len(), 1);
}

#[test]
fn remove_other_branch_keeps_selection() {
    let mut ws = session(Some("main"), vec![branch("main", 2), branch("dev", 1)]);
    assert!(ws.remove_branch_by_name("dev").is_ok());
    assert_eq!(ws.branches.len(), 1);
    assert_eq!(ws.branches[0].name, "main");
    assert_eq!(ws.info.current_branch.as_deref(), Some("main"));
}

#[test]
fn create_duplicate_branch_fails() {
    let mut ws = session(Some("main"), vec![branch("main", 2)]);
    let r = ws.branch_create("main", "again", false, false);
    assert!(matches!(r, Err(WorkspaceError::DuplicateBranch(n)) if n == "main"));
    assert_eq!(ws.branches.len(), 1);
}

#[test]
fn create_without_swap_keeps_selection() {
    let mut ws = session(Some("main"), vec![branch("main", 2)]);
    let r = ws.branch_create("dev", "work", false, false);
    assert_eq!(r.unwrap(), None);
    assert_eq!(ws.branches.len(), 2);
    assert_eq!(ws.branches[1].name, "dev");
    assert_eq!(ws.branches[1].description, "work");
    assert_eq!(ws.branches[1].version, 0);
    assert_eq!(ws.info.current_branch.as_deref(), Some("main"));
}

#[test]
fn create_with_swap_activates_new_branch() {
    let mut ws = session(Some("main"), vec![branch("main", 2)]);
    let r = ws.branch_create("dev", "work", true, false);
    assert_eq!(r.unwrap(), None);
    assert_eq!(ws.info.current_branch.as_deref(), Some("dev"));
    assert_eq!(ws.branches[1].version, 0);
}

#[test]
fn create_with_swap_and_save_writes_first_version() {
    let mut ws = session(Some("main"), vec![branch("main", 2)]);
    let r = ws.branch_create("dev", "work", true, true);
    assert_eq!(r.unwrap(), Some(0));
    assert_eq!(ws.info.current_branch.as_deref(), Some("dev"));
    assert_eq!(ws.branches[1].version, 1);
    assert_eq!(ws.branches[0].version, 2);
}

#[test]
fn restore_needs_active_branch() {
    let ws = session(None, vec![branch("main", 2)]);
    assert!(matches!(ws.restore_version(None, true), Err(WorkspaceError::NoActiveBranch)));
}

#[test]
fn restore_defaults_to_branch_version_field() {
    let ws = session(Some("main"), vec![branch("main", 2)]);
    let r = ws.restore_version(None, true);
    assert!(matches!(r, Ok(RestoreAction::CopyVersion(2))));
}

#[test]
fn restore_prefers_explicit_version() {
    let ws = session(Some("main"), vec![branch("main", 2)]);
    let r = ws.restore_version(Some(1), true);
    assert!(matches!(r, Ok(RestoreAction::CopyVersion(1))));
}

#[test]
fn restore_of_missing_snapshot_clears_working_directory() {
    let ws = session(Some("main"), vec![branch("main", 2)]);
    let r = ws.restore_version(Some(9), false);
    assert!(matches!(r, Ok(RestoreAction::ClearWorking)));
}

#[test]
fn allow_copy_honours_suffix() {
    let file = RelPath::new(vec!["a".to_string(), "notes.txt".to_string()]);
    assert!(Workspace::allow_copy(&file, &None));
    assert!(Workspace::allow_copy(&file, &Some(".txt".to_string())));
    assert!(!Workspace::allow_copy(&file, &Some(".png".to_string())));
}

#[test]
fn workspace_scenario() {
    // A workspace with branch main at version 0 and a file in src: the
    // first save targets branches/main/0 and main moves to version 1; a
    // branch dev created with swap has no snapshot, so the swap reports
    // nothing to load; a save then targets branches/dev/0 with whatever
    // the working directory holds.
    let mut ws = Workspace::init("/work/mymod".to_string(), info(Some("main")));
    let v = ws.save_current_state().unwrap();
    assert_eq!(v, 0);
    assert_eq!(ws.branches[0].version, 1);

    let r = ws.branch_create("dev", "sandbox", true, false);
    assert_eq!(r.unwrap(), None);
    assert_eq!(ws.info.current_branch.as_deref(), Some("dev"));
    assert_eq!(ws.latest_version("dev"), Some(-1));

    let v = ws.save_current_state().unwrap();
    assert_eq!(v, 0);
    assert_eq!(ws.branches[1].version, 1);
    assert_eq!(ws.latest_version("dev"), Some(0));
}
