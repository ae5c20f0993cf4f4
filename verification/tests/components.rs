use workspace_nav::NavError;
use workspace_nav::direction::{parse_direction, Direction};
use workspace_nav::locator::{WorkspaceInfo, WorkspaceLocator};
use workspace_nav::registry::{OutputInfo, OutputRegistry};
use workspace_nav::wsnum::workspace_number;

fn output(name: &str, x: i32) -> OutputInfo {
    OutputInfo { name: name.to_string(), x }
}

fn workspace(num: i32, owner: &str) -> WorkspaceInfo {
    WorkspaceInfo { num, output: owner.to_string() }
}

#[test]
fn registry_orders_outputs_by_position() {
    let reg = OutputRegistry::new(vec![
        output("C", 500),
        output("A", 0),
        output("B", 1920),
    ]);
    assert_eq!(reg.len(), 3);
    assert_eq!(reg.index_of(&"A".to_string()), Ok(0));
    assert_eq!(reg.index_of(&"C".to_string()), Ok(1));
    assert_eq!(reg.index_of(&"B".to_string()), Ok(2));
    assert_eq!(reg.at(0).unwrap().name, "A");
    assert_eq!(reg.at(1).unwrap().name, "C");
    assert_eq!(reg.at(2).unwrap().name, "B");
    assert!(reg.at(3).is_none());
}

#[test]
fn registry_handles_negative_positions() {
    let reg = OutputRegistry::new(vec![output("R", 100), output("L", -1920)]);
    assert_eq!(reg.index_of(&"L".to_string()), Ok(0));
    assert_eq!(reg.index_of(&"R".to_string()), Ok(1));
}

#[test]
fn registry_keeps_input_order_on_equal_positions() {
    let reg = OutputRegistry::new(vec![output("B", 0), output("A", 0)]);
    assert_eq!(reg.index_of(&"B".to_string()), Ok(0));
    assert_eq!(reg.index_of(&"A".to_string()), Ok(1));
}

#[test]
fn registry_reports_a_missing_name() {
    let reg = OutputRegistry::new(vec![output("A", 0)]);
    assert_eq!(reg.index_of(&"Z".to_string()), Err(NavError::NotFound));
}

#[test]
fn owner_lookup_finds_the_first_entry() {
    let loc = WorkspaceLocator::new(vec![
        workspace(3, "A"),
        workspace(3, "B"),
        workspace(5, "B"),
    ]);
    assert_eq!(loc.owner_of(3), Some("A".to_string()));
    assert_eq!(loc.owner_of(5), Some("B".to_string()));
    assert_eq!(loc.owner_of(4), None);
}

#[test]
fn first_and_last_pick_the_extremes() {
    let loc = WorkspaceLocator::new(vec![
        workspace(5, "A"),
        workspace(2, "A"),
        workspace(9, "A"),
        workspace(1, "B"),
    ]);
    assert_eq!(loc.first_on(&"A".to_string()), Ok(2));
    assert_eq!(loc.last_on(&"A".to_string()), Ok(9));
    assert_eq!(loc.first_on(&"B".to_string()), Ok(1));
    assert_eq!(loc.last_on(&"B".to_string()), Ok(1));
}

#[test]
fn an_output_without_workspaces_is_an_error() {
    let loc = WorkspaceLocator::new(vec![workspace(1, "A")]);
    assert_eq!(loc.first_on(&"B".to_string()), Err(NavError::LookupError));
    assert_eq!(loc.last_on(&"B".to_string()), Err(NavError::LookupError));
}

#[test]
fn directions_are_the_two_literals() {
    assert_eq!(parse_direction(&"prev".to_string()), Some(Direction::Previous));
    assert_eq!(parse_direction(&"next".to_string()), Some(Direction::Next));
    assert_eq!(parse_direction(&"up".to_string()), None);
    assert_eq!(parse_direction(&"Next".to_string()), None);
    assert_eq!(parse_direction(&"".to_string()), None);
}

#[test]
fn workspace_number_reads_the_first_token() {
    assert_eq!(workspace_number("3"), Some(3));
    assert_eq!(workspace_number("10 web"), Some(10));
    assert_eq!(workspace_number("  7"), Some(7));
    assert_eq!(workspace_number("-5"), Some(-5));
    assert_eq!(workspace_number("+5"), Some(5));
    assert_eq!(workspace_number("007"), Some(7));
}

#[test]
fn workspace_number_rejects_malformed_names() {
    assert_eq!(workspace_number(""), None);
    assert_eq!(workspace_number("   "), None);
    assert_eq!(workspace_number("web"), None);
    assert_eq!(workspace_number("3:web"), None);
    assert_eq!(workspace_number("-"), None);
    assert_eq!(workspace_number("+"), None);
    assert_eq!(workspace_number("1-2"), None);
}

#[test]
fn workspace_number_holds_the_i32_range() {
    assert_eq!(workspace_number("2147483647"), Some(2147483647));
    assert_eq!(workspace_number("2147483648"), None);
    assert_eq!(workspace_number("-2147483648"), Some(-2147483648));
    assert_eq!(workspace_number("-2147483649"), None);
    assert_eq!(workspace_number("99999999999999999999"), None);
}
