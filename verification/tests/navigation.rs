use workspace_nav::NavError;
use workspace_nav::direction::Direction;
use workspace_nav::engine::{resolve, scan_from, Action, Probe};
use workspace_nav::locator::{WorkspaceInfo, WorkspaceLocator};
use workspace_nav::registry::{OutputInfo, OutputRegistry};

fn output(name: &str, x: i32) -> OutputInfo {
    OutputInfo { name: name.to_string(), x }
}

fn workspace(num: i32, owner: &str) -> WorkspaceInfo {
    WorkspaceInfo { num, output: owner.to_string() }
}

fn two_outputs() -> OutputRegistry {
    OutputRegistry::new(vec![output("A", 0), output("B", 1920)])
}

#[test]
fn adjacent_next_is_taken_at_once() {
    let reg = two_outputs();
    let loc = WorkspaceLocator::new(vec![
        workspace(1, "A"),
        workspace(2, "A"),
        workspace(3, "A"),
    ]);
    let r = resolve(&reg, &loc, 2, &"A".to_string(), Direction::Next);
    assert_eq!(r, Ok(Action::Switch(3)));
}

#[test]
fn adjacent_previous_is_taken_at_once() {
    let reg = two_outputs();
    let loc = WorkspaceLocator::new(vec![
        workspace(1, "A"),
        workspace(2, "A"),
        workspace(3, "A"),
    ]);
    let r = resolve(&reg, &loc, 2, &"A".to_string(), Direction::Previous);
    assert_eq!(r, Ok(Action::Switch(1)));
}

#[test]
fn upper_boundary_goes_to_neighbours_first_workspace() {
    let reg = two_outputs();
    let loc = WorkspaceLocator::new(vec![
        workspace(10, "A"),
        workspace(15, "B"),
        workspace(11, "B"),
    ]);
    let r = resolve(&reg, &loc, 10, &"A".to_string(), Direction::Next);
    assert_eq!(r, Ok(Action::Switch(11)));
}

#[test]
fn lower_boundary_goes_to_neighbours_last_workspace() {
    let reg = two_outputs();
    let loc = WorkspaceLocator::new(vec![
        workspace(11, "B"),
        workspace(2, "A"),
        workspace(7, "A"),
    ]);
    let r = resolve(&reg, &loc, 1, &"B".to_string(), Direction::Previous);
    assert_eq!(r, Ok(Action::Switch(7)));
}

#[test]
fn scan_skips_absent_and_foreign_numbers() {
    let reg = two_outputs();
    let loc = WorkspaceLocator::new(vec![
        workspace(1, "A"),
        workspace(3, "B"),
        workspace(5, "A"),
    ]);
    // 2 is absent, 3 belongs to B, 4 is absent: the scan lands on 5.
    let r = resolve(&reg, &loc, 1, &"A".to_string(), Direction::Next);
    assert_eq!(r, Ok(Action::Switch(5)));
}

#[test]
fn exhausted_decade_falls_through_to_the_boundary() {
    let reg = two_outputs();
    let loc = WorkspaceLocator::new(vec![
        workspace(1, "A"),
        workspace(2, "A"),
        workspace(3, "A"),
        workspace(11, "B"),
    ]);
    // From 3 upward nothing on A exists: the pass rolls over to B's first.
    let r = resolve(&reg, &loc, 3, &"A".to_string(), Direction::Next);
    assert_eq!(r, Ok(Action::Switch(11)));
}

#[test]
fn rightmost_output_with_nothing_beyond_is_a_noop() {
    let reg = two_outputs();
    let loc = WorkspaceLocator::new(vec![
        workspace(1, "A"),
        workspace(11, "B"),
    ]);
    let r = resolve(&reg, &loc, 11, &"B".to_string(), Direction::Next);
    assert_eq!(r, Ok(Action::NoOp));
}

#[test]
fn single_output_previous_from_one_is_a_noop() {
    let reg = OutputRegistry::new(vec![output("A", 0)]);
    let loc = WorkspaceLocator::new(vec![workspace(1, "A")]);
    let r = resolve(&reg, &loc, 1, &"A".to_string(), Direction::Previous);
    assert_eq!(r, Ok(Action::NoOp));
}

#[test]
fn unknown_current_output_is_reported() {
    let reg = two_outputs();
    let loc = WorkspaceLocator::new(vec![workspace(1, "A")]);
    let r = resolve(&reg, &loc, 1, &"C".to_string(), Direction::Next);
    assert_eq!(r, Err(NavError::NotFound));
}

#[test]
fn neighbour_without_workspaces_is_reported() {
    let reg = two_outputs();
    let loc = WorkspaceLocator::new(vec![workspace(10, "A")]);
    let r = resolve(&reg, &loc, 10, &"A".to_string(), Direction::Next);
    assert_eq!(r, Err(NavError::LookupError));
}

#[test]
fn scan_reports_where_it_ends() {
    let loc = WorkspaceLocator::new(vec![
        workspace(1, "A"),
        workspace(4, "A"),
    ]);
    let a = "A".to_string();
    assert_eq!(scan_from(&loc, 1, &a, Direction::Next), Probe::Found(4));
    assert_eq!(scan_from(&loc, 4, &a, Direction::Next), Probe::Upper);
    assert_eq!(scan_from(&loc, 4, &a, Direction::Previous), Probe::Found(1));
    assert_eq!(scan_from(&loc, 1, &a, Direction::Previous), Probe::Lower);
}

#[test]
fn workspace_on_high_numbers_still_uses_the_fixed_decade() {
    // The current workspace may lie outside 1..=10 (on a second output);
    // stepping up from it leaves the decade at once.
    let reg = two_outputs();
    let loc = WorkspaceLocator::new(vec![
        workspace(11, "B"),
        workspace(1, "A"),
    ]);
    let r = resolve(&reg, &loc, 11, &"B".to_string(), Direction::Next);
    assert_eq!(r, Ok(Action::NoOp));
    let r = resolve(&reg, &loc, 11, &"B".to_string(), Direction::Previous);
    assert_eq!(r, Ok(Action::Switch(1)));
}
