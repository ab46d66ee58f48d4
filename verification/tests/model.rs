use tezedge_tui::extensions::CellContent;
use tezedge_tui::model::{EndorsementState, EndorsementStatus, EndorsementStatusSortable};

fn status(state: &str) -> EndorsementStatus {
    EndorsementStatus {
        block_timestamp: 0,
        decoded_time: Some(20),
        received_time: Some(10),
        applied_time: None,
        prechecked_time: None,
        broadcast_time: Some(50),
        slot: 3,
        state: state.to_string(),
    }
}

fn text(c: &CellContent) -> &str {
    match c {
        CellContent::Text(s) => s.as_str(),
        CellContent::Duration(_) => panic!("a time where a text was expected"),
    }
}

#[test]
fn first_form_states_are_parsed_from_lower_case_names() {
    assert_eq!(EndorsementState::from_str("applied"), Ok(EndorsementState::Applied));
    assert_eq!(EndorsementState::from_str("received"), Ok(EndorsementState::Received));
    assert!(EndorsementState::from_str("Applied").is_err());
    assert!(EndorsementState::from_str("unknown").is_err());
}

#[test]
fn first_form_rows_parse_the_state_and_count_the_unknown_as_missing() {
    let up = status("decoded").to_sortable_ascending("tz1a".to_string(), 2);
    assert_eq!(up.state, EndorsementState::Decoded);
    assert_eq!(up.delta, 40);
    assert_eq!(up.applied_time, u64::MAX);
    let down = status("whatever").to_sortable_descending("tz1a".to_string(), 2);
    assert_eq!(down.state, EndorsementState::Missing);
    assert_eq!(down.applied_time, 0);
    assert_eq!(down.slot, 3);
}

#[test]
fn first_form_table_shows_applied_as_broadcast() {
    let row = status("applied").to_sortable_ascending("tz1b".to_string(), 7);
    let cells = row.construct_tui_table_data();
    assert_eq!(cells.len(), 9);
    assert_eq!(text(&cells[0]), "7");
    assert_eq!(text(&cells[1]), "tz1b");
    assert_eq!(text(&cells[2]), "broadcast");
    assert_eq!(EndorsementState::Missing.to_string(), "missing");
    assert_eq!(EndorsementState::Prechecked.to_string(), "prechecked");
    let empty = EndorsementStatusSortable::new("tz1c".to_string(), 1).construct_tui_table_data();
    assert_eq!(text(&empty[2]), "missing");
    assert_eq!(text(&empty[3]), "-");
}
