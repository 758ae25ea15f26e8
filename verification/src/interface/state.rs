//! The application state as operation handlers see it: the state's own
//! answers, its refusals turned into the library's failure.

use vstd::prelude::*;
use crate::memory::app::{target_mode, AppCommand, AppMode, AppState, AppStateData, AppStateError};
use crate::memory::MemoryError;
use crate::Error;

verus! {

/// The failure that a refusal of the application state becomes.
pub open spec fn app_state_failure(error: AppStateError) -> Error {
    Error::MemoryError(MemoryError::AppStateError(error))
}

/// Carries out a command on the application state. A command for the mode
/// that the instance is in fails and changes nothing.
pub fn command(state: &mut AppState, cmd: AppCommand) -> (done: Result<(), Error>)
    ensures
        match done {
            Ok(_) => old(state)@.mode != target_mode(cmd) && final(state)@ == (AppStateData {
                mode: target_mode(cmd),
            }),
            Err(error) => old(state)@.mode == target_mode(cmd) && final(state)@ == old(state)@
                && error == app_state_failure(AppStateError::AlreadyInMode(old(state)@.mode)),
        },
{
    match state.command(cmd) {
        Ok(_) => Ok(()),
        Err(error) => Err(Error::MemoryError(MemoryError::AppStateError(error))),
    }
}

/// The application state as data.
pub fn get_data(state: &AppState) -> (data: AppStateData)
    ensures
        data == state@,
{
    state.get_data()
}

/// Replaces the application state by `data`. Nothing makes it fail.
pub fn set_data(state: &mut AppState, data: AppStateData) -> (done: Result<(), Error>)
    ensures
        done is Ok,
        final(state)@ == data,
{
    match state.set_data(data) {
        Ok(_) => Ok(()),
        Err(error) => Err(Error::MemoryError(MemoryError::AppStateError(error))),
    }
}

/// The mode of the application state.
pub fn get_mode(state: &AppState) -> (mode: AppMode)
    ensures
        mode == state@.mode,
{
    state.get_mode()
}

} // verus!
