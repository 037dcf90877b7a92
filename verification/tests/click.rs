use tspace_menu::click::{hit_test, ClickAction, ClickRegion};

#[test]
fn direct_hit_returns_action() {
    let regions = vec![
        ClickRegion::row(5, 0, 80, ClickAction::ExecuteCommand(0)),
        ClickRegion::row(6, 0, 80, ClickAction::ExecuteCommand(1)),
    ];
    let action = hit_test(&regions, 5, 10);
    assert_eq!(action, Some(&ClickAction::ExecuteCommand(0)));

    let action = hit_test(&regions, 6, 79);
    assert_eq!(action, Some(&ClickAction::ExecuteCommand(1)));
}

#[test]
fn miss_returns_none() {
    let regions = vec![ClickRegion::row(5, 10, 80, ClickAction::ExecuteCommand(0))];
    // Wrong row.
    assert_eq!(hit_test(&regions, 4, 40), None);
    assert_eq!(hit_test(&regions, 6, 40), None);
    // Right row, wrong column (past col_end).
    assert_eq!(hit_test(&regions, 5, 80), None);
    // Right row, wrong column (before col_start).
    assert_eq!(hit_test(&regions, 5, 9), None);
}

#[test]
fn boundary_conditions_are_half_open() {
    let regions = vec![ClickRegion::row(5, 10, 20, ClickAction::ExecuteCommand(42))];
    assert_eq!(hit_test(&regions, 5, 10), Some(&ClickAction::ExecuteCommand(42)));
    assert_eq!(hit_test(&regions, 5, 19), Some(&ClickAction::ExecuteCommand(42)));
    assert_eq!(hit_test(&regions, 5, 20), None);
    assert_eq!(hit_test(&regions, 5, 9), None);
    assert_eq!(hit_test(&regions, 4, 15), None);
    assert_eq!(hit_test(&regions, 6, 15), None);
}

#[test]
fn overlapping_regions_first_match_wins() {
    let regions = vec![
        ClickRegion::row(5, 0, 80, ClickAction::ExecuteCommand(0)),
        ClickRegion::row(5, 0, 80, ClickAction::ExecuteCommand(1)),
    ];
    let action = hit_test(&regions, 5, 10);
    assert_eq!(action, Some(&ClickAction::ExecuteCommand(0)));
}

#[test]
fn empty_region_list_returns_none() {
    let regions: Vec<ClickRegion> = vec![];
    assert_eq!(hit_test(&regions, 0, 0), None);
}

#[test]
fn row_region_spans_exactly_one_row() {
    let r = ClickRegion::row(7, 3, 9, ClickAction::SelectRow(2));
    assert_eq!((r.row_start, r.row_end, r.col_start, r.col_end), (7, 8, 3, 9));
    assert_eq!(r.action, ClickAction::SelectRow(2));
}

#[test]
fn non_execute_regions_are_still_hit() {
    let regions = vec![
        ClickRegion::row(0, 0, 10, ClickAction::ClosePalette),
        ClickRegion::row(0, 0, 10, ClickAction::ExecuteCommand(3)),
    ];
    assert_eq!(hit_test(&regions, 0, 5), Some(&ClickAction::ClosePalette));
}
