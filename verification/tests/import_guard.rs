use audio_import::import_state::{
    cancel_import, is_import_in_progress, ConcurrencyError, ImportState,
};

#[test]
fn second_start_is_turned_down_and_changes_nothing() {
    let mut state = ImportState::new();
    assert_eq!(state.begin(), Ok(()));
    assert!(is_import_in_progress(&state));
    assert!(!state.is_cancelled());

    assert_eq!(state.begin(), Err(ConcurrencyError::ImportAlreadyInProgress));
    assert!(is_import_in_progress(&state));
    assert!(!state.is_cancelled());

    cancel_import(&mut state);
    assert_eq!(state.begin(), Err(ConcurrencyError::ImportAlreadyInProgress));
    assert!(is_import_in_progress(&state));
    assert!(state.is_cancelled());
}

#[test]
fn cancellation_is_seen_while_an_import_runs() {
    let mut state = ImportState::new();
    state.begin().unwrap();
    cancel_import(&mut state);
    assert!(state.is_cancelled());
    assert!(is_import_in_progress(&state));
}

#[test]
fn running_flag_does_not_depend_on_the_cancellation_flag() {
    let mut idle = ImportState::new();
    assert!(!is_import_in_progress(&idle));
    cancel_import(&mut idle);
    assert!(idle.is_cancelled());
    assert!(!is_import_in_progress(&idle));

    let mut running = ImportState::new();
    running.begin().unwrap();
    assert!(is_import_in_progress(&running));
    cancel_import(&mut running);
    assert!(is_import_in_progress(&running));
}

#[test]
fn new_start_clears_a_stale_cancellation() {
    let mut state = ImportState::new();
    state.begin().unwrap();
    state.request_cancel().unwrap();
    state.finish();
    assert!(!is_import_in_progress(&state));
    assert!(state.is_cancelled());

    assert_eq!(state.begin(), Ok(()));
    assert!(!state.is_cancelled());
}

#[test]
fn cancel_request_needs_a_running_import() {
    let mut state = ImportState::new();
    assert_eq!(state.request_cancel(), Err(ConcurrencyError::NoImportInProgress));
    assert!(!state.is_cancelled());

    state.begin().unwrap();
    assert_eq!(state.request_cancel(), Ok(()));
    assert!(state.is_cancelled());
    assert!(is_import_in_progress(&state));
}
