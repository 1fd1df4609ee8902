use helix_commands::commands::Preset;
use helix_commands::direction::Direction;
use helix_commands::layout::{cells_per_percent, resize_panes, ResizeOp};

#[test]
fn three_panes_shrink_first_two() {
    // 150 cells: one cell per percent, so the targets are 10, 60 and 30
    // cells and the excess widths +10, +40 and 0.
    let ops = resize_panes(&vec![10, 60, 30], 150, &vec![20, 100, 30], &vec![1, 2, 3]);
    assert_eq!(cells_per_percent(150), 1);
    assert_eq!(
        ops,
        vec![
            ResizeOp { pane_id: 1, amount: 10, direction: Direction::Left },
            ResizeOp { pane_id: 2, amount: 40, direction: Direction::Right },
        ]
    );
    assert!(ops.iter().all(|op| op.pane_id != 3));
}

#[test]
fn narrow_row_still_one_cell_per_percent() {
    assert_eq!(cells_per_percent(0), 1);
    assert_eq!(cells_per_percent(99), 1);
    assert_eq!(cells_per_percent(100), 1);
    assert_eq!(cells_per_percent(199), 1);
    assert_eq!(cells_per_percent(250), 2);
    assert_eq!(cells_per_percent(u64::MAX), u64::MAX / 100);
}

#[test]
fn wide_rows_have_at_least_one_cell_per_percent() {
    for total in [100u64, 101, 150, 1000, 12345, u64::MAX] {
        assert!(cells_per_percent(total) >= 1);
        assert_eq!(cells_per_percent(total), total / 100);
    }
}

#[test]
fn growing_panes_and_panes_on_target() {
    // 300 cells: 3 per percent; targets 30, 180, 90.
    let ops = resize_panes(&vec![10, 60, 30], 300, &vec![30, 150, 120], &vec![5, 6, 7]);
    assert_eq!(ops, vec![ResizeOp { pane_id: 6, amount: 30, direction: Direction::Left }]);
}

#[test]
fn four_panes_never_touch_the_last() {
    let ops = resize_panes(&vec![25, 25, 25, 25], 400, &vec![50, 150, 120, 80], &vec![1, 2, 3, 4]);
    assert!(ops.len() <= 3);
    assert!(ops.iter().all(|op| op.pane_id != 4));
    assert_eq!(
        ops,
        vec![
            ResizeOp { pane_id: 1, amount: 50, direction: Direction::Right },
            ResizeOp { pane_id: 2, amount: 50, direction: Direction::Left },
            ResizeOp { pane_id: 3, amount: 20, direction: Direction::Right },
        ]
    );
}

#[test]
fn single_and_empty_layouts_issue_nothing() {
    assert!(resize_panes(&vec![100], 200, &vec![10], &vec![9]).is_empty());
    assert!(resize_panes(&vec![], 200, &vec![], &vec![]).is_empty());
}

#[test]
fn huge_targets_do_not_overflow() {
    let ops = resize_panes(&vec![u64::MAX, 0], u64::MAX, &vec![0, 0], &vec![1, 2]);
    let expected = (u64::MAX as u128) * ((u64::MAX / 100) as u128);
    assert_eq!(ops, vec![ResizeOp { pane_id: 1, amount: expected, direction: Direction::Left }]);
}

#[test]
fn presets_and_directions() {
    assert_eq!(Preset::Default.percents(), vec![10, 60, 30]);
    assert_eq!(Preset::LargeTerminal.percents(), vec![10, 40, 50]);
    assert_eq!(Preset::SmallTerminal.percents(), vec![10, 95, 10]);
    assert_eq!(Direction::Left.as_str(), "left");
    assert_eq!(Direction::Right.as_str(), "right");
    assert_eq!(Direction::Up.as_str(), "up");
    assert_eq!(Direction::Down.as_str(), "down");
    assert_eq!(Direction::Left.split_flag(), "--left");
    assert_eq!(Direction::Down.split_flag(), "--bottom");
}
