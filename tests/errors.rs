use scriptkeys::errors::{
    ConfigPathNotFound, DeviceNotFound, LoadScriptError, ScriptNotFound, WatchError,
};

#[test]
fn error_messages_name_the_failing_collaborator() {
    assert_eq!(
        ConfigPathNotFound.message(),
        "No config file found in default locations. Refer to the documentation."
    );
    assert_eq!(
        DeviceNotFound.message(),
        "No device found. Refer to the documentation for supported devices."
    );
    assert_eq!(
        ScriptNotFound.message(),
        "Could not locate script in scripts directory. Refer to the documentation."
    );
    assert_eq!(LoadScriptError.message(), "Could not load script. Refer to the documentation.");
    assert_eq!(WatchError.message(), "Could not watch script file for changes.");
}
