use koharu::project::{
    placement, reconcile_page, validate_project_name, At, History, ProjectNameError,
};

#[test]
fn project_names_are_trimmed_and_checked() {
    assert_eq!(validate_project_name("  Chapter 1 ").unwrap(), "Chapter 1");
    assert_eq!(validate_project_name("   "), Err(ProjectNameError::Empty));
    assert_eq!(
        validate_project_name("a/b"),
        Err(ProjectNameError::InvalidCharacters)
    );
    assert_eq!(
        validate_project_name("name."),
        Err(ProjectNameError::InvalidCharacters)
    );
    assert_eq!(
        validate_project_name("tab\there"),
        Err(ProjectNameError::InvalidCharacters)
    );
    assert_eq!(validate_project_name("con.txt"), Err(ProjectNameError::Reserved));
    assert_eq!(validate_project_name("Lpt9"), Err(ProjectNameError::Reserved));
    assert_eq!(validate_project_name("COM0").unwrap(), "COM0");
    assert_eq!(validate_project_name("console").unwrap(), "console");
}

#[test]
fn project_name_errors_have_messages() {
    assert_eq!(ProjectNameError::Empty.message(), "project name cannot be empty");
    assert_eq!(
        ProjectNameError::Reserved.message(),
        "project name is reserved by Windows"
    );
}

#[test]
fn moved_layers_land_before_the_sibling_at_their_index() {
    let siblings = [1_u128, 2, 3, 4];
    assert_eq!(placement(&siblings, 2, 0), At::Before(1));
    assert_eq!(placement(&siblings, 2, 1), At::Before(3));
    assert_eq!(placement(&siblings, 2, 3), At::End);
    assert_eq!(placement(&siblings, 4, 3), At::End);
    assert_eq!(placement(&[], 1, 0), At::End);
}

#[test]
fn recording_forgets_the_redo_stack() {
    let mut history: History<u32> = History::new();
    assert!(!history.can_undo() && !history.can_redo());
    history.record(vec![1, 2]);
    assert!(history.can_undo());
    let group = history.begin_undo().unwrap();
    assert_eq!(group, vec![1, 2]);
    history.finish_undo(group, Some(3));
    assert!(history.can_redo());
    history.record_commit(4, true);
    assert!(!history.can_redo());
    assert!(history.can_undo());
}

#[test]
fn empty_or_unchanged_actions_are_not_recorded() {
    let mut history: History<u32> = History::new();
    history.record(Vec::new());
    history.record_commit(7, false);
    assert!(!history.can_undo());
    assert!(history.begin_undo().is_none());
    assert!(history.begin_redo().is_none());
}

#[test]
fn a_failed_undo_keeps_the_group_for_another_try() {
    let mut history: History<u32> = History::new();
    history.record(vec![5]);
    let group = history.begin_undo().unwrap();
    assert!(!history.can_undo());
    history.finish_undo(group, None);
    assert_eq!(history.begin_undo(), Some(vec![5]));
}

#[test]
fn undo_then_redo_swaps_revisions_between_the_stacks() {
    let mut history: History<u32> = History::new();
    history.record(vec![1]);
    let group = history.begin_undo().unwrap();
    history.finish_undo(group, Some(2));
    let redo = history.begin_redo().unwrap();
    assert_eq!(redo, vec![2]);
    history.finish_redo(redo, Some(3));
    assert!(!history.can_redo());
    assert_eq!(history.begin_undo(), Some(vec![3]));
}

#[test]
fn a_failed_redo_keeps_the_group() {
    let mut history: History<u32> = History::new();
    history.record(vec![1]);
    let group = history.begin_undo().unwrap();
    history.finish_undo(group, Some(2));
    let redo = history.begin_redo().unwrap();
    history.finish_redo(redo, None);
    assert_eq!(history.begin_redo(), Some(vec![2]));
}

#[test]
fn the_active_page_survives_or_falls_back_to_the_first() {
    assert_eq!(reconcile_page(Some(2), &[1, 2, 3]), Some(2));
    assert_eq!(reconcile_page(Some(9), &[1, 2, 3]), Some(1));
    assert_eq!(reconcile_page(None, &[4, 5]), Some(4));
    assert_eq!(reconcile_page(Some(4), &[]), None);
}
