use modsnap::models::branch::Branch;
use modsnap::models::mod_info::ModInfo;
use modsnap::workspace::Workspace;
use modsnap::workspace::WorkspaceError;

fn info() -> ModInfo {
    ModInfo::new(
        "mymod".to_string(),
        "a mod".to_string(),
        "1.0".to_string(),
        "main".to_string(),
    )
}

fn registry() -> Workspace {
    Workspace::new(
        info(),
        vec![Branch::new("main".to_string(), 0), Branch::new("dev".to_string(), 3)],
    )
}

#[test]
fn branch_record_construction() {
    let b = Branch::new("main".to_string(), 2);
    assert_eq!(b.name, "main");
    assert_eq!(b.version, 2);
}

#[test]
fn mod_info_construction() {
    let m = info();
    assert_eq!(m.name, "mymod");
    assert_eq!(m.description, "a mod");
    assert_eq!(m.version, "1.0");
    assert_eq!(m.current_branch, "main");
}

#[test]
fn branches_compare_by_name() {
    assert_eq!(Branch::new("main".to_string(), 0), Branch::new("main".to_string(), 7));
    assert_ne!(Branch::new("main".to_string(), 0), Branch::new("dev".to_string(), 0));
}

#[test]
fn get_branch_finds_exact_name() {
    let ws = registry();
    let b = ws.get_branch("dev").unwrap();
    assert_eq!(b.name, "dev");
    assert_eq!(b.version, 3);
    assert!(ws.get_branch("Dev").is_none());
    assert!(ws.get_branch("missing").is_none());
}

#[test]
fn add_branch_appends_fresh_name() {
    let mut ws = registry();
    assert!(ws.add_branch(Branch::new("feature".to_string(), 0)).is_ok());
    assert_eq!(ws.branches.len(), 3);
    assert_eq!(ws.branches[2].name, "feature");
}

#[test]
fn add_duplicate_fails_and_leaves_registry_alone() {
    let mut ws = registry();
    let r = ws.add_branch(Branch::new("dev".to_string(), 9));
    assert!(matches!(r, Err(WorkspaceError::DuplicateBranch(n)) if n == "dev"));
    assert_eq!(ws.branches.len(), 2);
    assert_eq!(ws.branches[0].name, "main");
    assert_eq!(ws.branches[0].version, 0);
    assert_eq!(ws.branches[1].name, "dev");
    assert_eq!(ws.branches[1].version, 3);
}

#[test]
fn change_branch_version_sets_exactly_one_record() {
    let mut ws = registry();
    assert!(ws.change_branch_version("dev", 4).is_ok());
    assert_eq!(ws.branches[1].version, 4);
    assert_eq!(ws.branches[0].version, 0);
}

#[test]
fn change_branch_version_of_missing_branch_fails() {
    let mut ws = registry();
    let r = ws.change_branch_version("missing", 4);
    assert!(matches!(r, Err(WorkspaceError::BranchNotFound(n)) if n == "missing"));
    assert_eq!(ws.branches[0].version, 0);
    assert_eq!(ws.branches[1].version, 3);
}
