use icu::interface::state::{command, get_data, get_mode, set_data};
use icu::memory::app::{AppCommand, AppMode, AppState, AppStateData, AppStateError};
use icu::memory::MemoryError;
use icu::Error;

#[test]
fn command_changes_the_mode() {
    let mut state = AppState::new(AppStateData { mode: AppMode::Disabled });
    assert_eq!(command(&mut state, AppCommand::Start), Ok(()));
    assert_eq!(get_mode(&state), AppMode::Enabled);
    assert_eq!(command(&mut state, AppCommand::Readonly), Ok(()));
    assert_eq!(get_mode(&state), AppMode::Readonly);
    assert_eq!(command(&mut state, AppCommand::Stop), Ok(()));
    assert_eq!(get_mode(&state), AppMode::Disabled);
}

#[test]
fn command_for_the_present_mode_is_refused() {
    let cases = [
        (AppMode::Enabled, AppCommand::Start),
        (AppMode::Readonly, AppCommand::Readonly),
        (AppMode::Disabled, AppCommand::Stop),
    ];
    for (mode, cmd) in cases {
        let mut state = AppState::new(AppStateData { mode });
        assert_eq!(
            command(&mut state, cmd),
            Err(Error::MemoryError(MemoryError::AppStateError(AppStateError::AlreadyInMode(mode))))
        );
        assert_eq!(get_mode(&state), mode);
    }
}

#[test]
fn data_is_read_back() {
    let mut state = AppState::new(AppStateData { mode: AppMode::Enabled });
    assert_eq!(get_data(&state), AppStateData { mode: AppMode::Enabled });
    assert_eq!(set_data(&mut state, AppStateData { mode: AppMode::Readonly }), Ok(()));
    assert_eq!(get_data(&state), AppStateData { mode: AppMode::Readonly });
    assert_eq!(get_mode(&state), AppMode::Readonly);
}

#[test]
fn state_methods_answer_like_the_interface() {
    let mut state = AppState::new(AppStateData { mode: AppMode::Enabled });
    assert_eq!(state.command(AppCommand::Start), Err(AppStateError::AlreadyInMode(AppMode::Enabled)));
    assert_eq!(state.command(AppCommand::Stop), Ok(()));
    assert_eq!(state.get_mode(), AppMode::Disabled);
    assert_eq!(state.set_data(AppStateData { mode: AppMode::Enabled }), Ok(()));
    assert_eq!(state.get_data(), AppStateData { mode: AppMode::Enabled });
}
