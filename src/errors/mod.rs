use vstd::prelude::*;
use vstd::string::*;

verus! {

/// No mapping file exists at any of the searched locations.
#[derive(Debug, Clone, Copy, PartialEq, Eq)]
pub struct ConfigPathNotFound;

impl ConfigPathNotFound {
    /// The text shown to the operator.
    pub fn message(&self) -> (r: String)
        ensures
            r@ == "No config file found in default locations. Refer to the documentation."@,
    {
        String::from_str("No config file found in default locations. Refer to the documentation.")
    }
}

/// No supported input device is attached.
#[derive(Debug, Clone, Copy, PartialEq, Eq)]
pub struct DeviceNotFound;

impl DeviceNotFound {
    /// The text shown to the operator.
    pub fn message(&self) -> (r: String)
        ensures
            r@ == "No device found. Refer to the documentation for supported devices."@,
    {
        String::from_str("No device found. Refer to the documentation for supported devices.")
    }
}

/// A script reference resolves to no file under any script root.
#[derive(Debug, Clone, Copy, PartialEq, Eq)]
pub struct ScriptNotFound;

impl ScriptNotFound {
    /// The text shown to the operator.
    pub fn message(&self) -> (r: String)
        ensures
            r@ == "Could not locate script in scripts directory. Refer to the documentation."@,
    {
        String::from_str("Could not locate script in scripts directory. Refer to the documentation.")
    }
}

/// A script file could not be read or executed by the interpreter.
#[derive(Debug, Clone, Copy, PartialEq, Eq)]
pub struct LoadScriptError;

impl LoadScriptError {
    /// The text shown to the operator.
    pub fn message(&self) -> (r: String)
        ensures
            r@ == "Could not load script. Refer to the documentation."@,
    {
        String::from_str("Could not load script. Refer to the documentation.")
    }
}

/// A script file could not be registered for watching.
#[derive(Debug, Clone, Copy, PartialEq, Eq)]
pub struct WatchError;

impl WatchError {
    /// The text shown to the operator.
    pub fn message(&self) -> (r: String)
        ensures
            r@ == "Could not watch script file for changes."@,
    {
        String::from_str("Could not watch script file for changes.")
    }
}

/// Why one script could not be bound or reloaded.
#[derive(Debug)]
pub enum ScriptError {
    /// The script file does not exist under any script root, or is not one
    /// this table knows.
    NotFound(ScriptNotFound),
    /// The file could not be read, names no table, or the interpreter
    /// rejected it; the text says why.
    Load(LoadScriptError, String),
    /// The file could not be registered for watching.
    Watch(WatchError),
}

/// A script entry point raised an error while handling an event.
#[derive(Debug)]
pub struct ScriptRuntimeError {
    /// The entry point that was invoked, as `<table>.Press` or `<table>.Release`.
    pub entry: String,
    /// The interpreter's description of the failure.
    pub detail: String,
}

} // verus!
