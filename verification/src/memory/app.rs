//! The application state of an instance: whether it serves calls, serves
//! reads only, or is stopped.

use vstd::prelude::*;

verus! {

/// How much of its work an instance does.
#[derive(Clone, Copy, Debug, PartialEq, Eq, Structural)]
pub enum AppMode {
    /// Reads and writes are served.
    Enabled,
    /// Reads are served, writes are not.
    Readonly,
    /// Nothing is served.
    Disabled,
}

/// An order to change the mode.
#[derive(Clone, Copy, Debug, PartialEq, Eq, Structural)]
pub enum AppCommand {
    /// Serve reads and writes.
    Start,
    /// Serve reads only.
    Readonly,
    /// Serve nothing.
    Stop,
}

/// The application state as exported and imported.
#[derive(Clone, Copy, Debug, PartialEq, Eq, Structural)]
pub struct AppStateData {
    pub mode: AppMode,
}

/// An order that the application state refuses.
#[derive(Debug, PartialEq, Eq)]
pub enum AppStateError {
    /// The instance is in this mode already.
    AlreadyInMode(AppMode),
}

/// The mode that a command asks for.
pub open spec fn target_mode(cmd: AppCommand) -> AppMode {
    match cmd {
        AppCommand::Start => AppMode::Enabled,
        AppCommand::Readonly => AppMode::Readonly,
        AppCommand::Stop => AppMode::Disabled,
    }
}

/// The application state of one instance.
pub struct AppState {
    data: AppStateData,
}

impl View for AppState {
    type V = AppStateData;

    closed spec fn view(&self) -> AppStateData {
        self.data
    }
}

impl AppState {
    /// The state that holds `data`.
    pub fn new(data: AppStateData) -> (state: AppState)
        ensures
            state@ == data,
    {
        AppState { data }
    }

    /// The state as data.
    pub fn get_data(&self) -> (data: AppStateData)
        ensures
            data == self@,
    {
        self.data
    }

    /// Replaces the state by `data`. Nothing makes it fail.
    pub fn set_data(&mut self, data: AppStateData) -> (done: Result<(), AppStateError>)
        ensures
            done is Ok,
            final(self)@ == data,
    {
        self.data = data;
        Ok(())
    }

    /// The mode.
    pub fn get_mode(&self) -> (mode: AppMode)
        ensures
            mode == self@.mode,
    {
        self.data.mode
    }

    /// Carries out a command: the mode becomes the one that the command asks
    /// for, unless the instance is in that mode already, which is refused
    /// and changes nothing.
    pub fn command(&mut self, cmd: AppCommand) -> (done: Result<(), AppStateError>)
        ensures
            match done {
                Ok(_) => old(self)@.mode != target_mode(cmd) && final(self)@ == (AppStateData {
                    mode: target_mode(cmd),
                }),
                Err(error) => old(self)@.mode == target_mode(cmd) && final(self)@ == old(self)@
                    && error == AppStateError::AlreadyInMode(old(self)@.mode),
            },
    {
        let wanted = match cmd {
            AppCommand::Start => AppMode::Enabled,
            AppCommand::Readonly => AppMode::Readonly,
            AppCommand::Stop => AppMode::Disabled,
        };
        if self.data.mode == wanted {
            return Err(AppStateError::AlreadyInMode(wanted));
        }
        self.data = AppStateData { mode: wanted };
        Ok(())
    }
}

/// The name of a mode.
pub open spec fn mode_name(mode: AppMode) -> Seq<char> {
    match mode {
        AppMode::Enabled => "enabled"@,
        AppMode::Readonly => "readonly"@,
        AppMode::Disabled => "disabled"@,
    }
}

/// The words of a refused order.
pub open spec fn app_state_message(error: AppStateError) -> Seq<char> {
    match error {
        AppStateError::AlreadyInMode(mode) => "app is already in mode "@ + mode_name(mode),
    }
}

impl AppMode {
    /// The name of the mode.
    pub fn name(&self) -> (text: String)
        ensures
            text@ == mode_name(*self),
    {
        match self {
            AppMode::Enabled => String::from_str("enabled"),
            AppMode::Readonly => String::from_str("readonly"),
            AppMode::Disabled => String::from_str("disabled"),
        }
    }
}

impl AppStateError {
    /// The refusal in words.
    pub fn message(&self) -> (text: String)
        ensures
            text@ == app_state_message(*self),
    {
        match self {
            AppStateError::AlreadyInMode(mode) => {
                let name = mode.name();
                String::from_str("app is already in mode ").concat(name.as_str())
            },
        }
    }
}

} // verus!
