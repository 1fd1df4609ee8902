use helix_commands::error::CommandError;
use helix_commands::locator::{get_or_split_pane, LocateAction, LocateState};
use helix_commands::number::parse_pane_id;
use helix_commands::pane_list::{extract_pane_id_and_size, get_pane_sizes};

const LISTING: &str = "WINID TABID PANEID WORKSPACE SIZE  TITLE  CWD\n\
    0     0      0 default   40x50 zsh    file:///home/u\n\
    0     0      3 default   120x50 hx   file:///home/u/p\n\
    0     0      4 default   60x50 zsh    file:///home/u/p\n\
    short line\n\
    0     0      x default   60x50 zsh    file:///\n\
    0     0      9 default   60-50 zsh    file:///\n\
    1     1      7 other     80x24 zsh    file:///\n";

#[test]
fn pane_listing_rows() {
    assert_eq!(extract_pane_id_and_size(LISTING), vec![(0, 40), (3, 120), (4, 60), (7, 80)]);
    assert_eq!(extract_pane_id_and_size(""), vec![]);
    assert_eq!(extract_pane_id_and_size("0 0 1 d 10x2"), vec![]);
}

#[test]
fn pane_sizes_of_the_row() {
    let rows = extract_pane_id_and_size(LISTING);
    let (sizes, total) = get_pane_sizes(&rows, &vec![0, 3, 4]).unwrap();
    assert_eq!(sizes, vec![40, 120, 60]);
    assert_eq!(total, 220);
    let (sizes, total) = get_pane_sizes(&rows, &vec![0, 99]).unwrap();
    assert_eq!(sizes, vec![40, 0]);
    assert_eq!(total, 40);
    assert_eq!(get_pane_sizes(&vec![(1, u64::MAX), (2, 1)], &vec![1, 2]), None);
}

#[test]
fn pane_ids() {
    assert_eq!(parse_pane_id("42"), Some(42));
    assert_eq!(parse_pane_id("0"), Some(0));
    assert_eq!(parse_pane_id("18446744073709551615"), Some(u64::MAX));
    assert_eq!(parse_pane_id("18446744073709551616"), None);
    assert_eq!(parse_pane_id(""), None);
    assert_eq!(parse_pane_id("4a"), None);
    assert_eq!(parse_pane_id("-1"), None);
}

#[test]
fn locate_existing_neighbor() {
    assert_eq!(
        get_or_split_pane(LocateState::AwaitingNeighbor, "7"),
        (LocateState::Located(7), LocateAction::UsePane(7))
    );
}

#[test]
fn locate_splits_once_then_reuses() {
    let (state, action) = get_or_split_pane(LocateState::AwaitingNeighbor, "");
    assert_eq!(action, LocateAction::SplitPane);
    let (state, action) = get_or_split_pane(state, "12");
    assert_eq!(state, LocateState::Located(12));
    assert_eq!(action, LocateAction::UsePane(12));
    // the second search finds the pane the first one made
    let (state, action) = get_or_split_pane(LocateState::AwaitingNeighbor, "12");
    assert_eq!(state, LocateState::Located(12));
    assert_eq!(action, LocateAction::UsePane(12));
}

#[test]
fn locate_rejects_unreadable_replies() {
    let failed = (
        LocateState::Failed(CommandError::Multiplexer),
        LocateAction::Stop(CommandError::Multiplexer),
    );
    assert_eq!(get_or_split_pane(LocateState::AwaitingNeighbor, "pane?"), failed);
    assert_eq!(get_or_split_pane(LocateState::AwaitingSplit, ""), failed);
    assert_eq!(get_or_split_pane(failed.0, "3"), failed);
}

#[test]
fn printed_pane_ids_read_back() {
    for id in [0u64, 7, 10, 99, 1234567, u64::MAX] {
        assert_eq!(parse_pane_id(&id.to_string()), Some(id));
        assert_eq!(
            get_or_split_pane(LocateState::AwaitingNeighbor, &id.to_string()),
            (LocateState::Located(id), LocateAction::UsePane(id))
        );
    }
}

#[test]
fn pane_ids_with_plus_sign() {
    assert_eq!(parse_pane_id("+5"), Some(5));
    assert_eq!(parse_pane_id("+18446744073709551615"), Some(u64::MAX));
    assert_eq!(parse_pane_id("+"), None);
    assert_eq!(parse_pane_id("++5"), None);
    assert_eq!(parse_pane_id("5+"), None);
}

#[test]
fn locate_reads_plus_signed_replies() {
    assert_eq!(
        get_or_split_pane(LocateState::AwaitingNeighbor, "+5"),
        (LocateState::Located(5), LocateAction::UsePane(5))
    );
    let (state, action) = get_or_split_pane(LocateState::AwaitingNeighbor, "");
    assert_eq!(action, LocateAction::SplitPane);
    assert_eq!(get_or_split_pane(state, "+5"), (LocateState::Located(5), LocateAction::UsePane(5)));
}
