use icu::identity::Identity;
use icu::interface::ic::{
    after_create, after_install, after_upgrade, before_upgrade, IcError, CREATE_CANISTER_CYCLES,
};
use icu::interface::InterfaceError;
use icu::serialize::{deserialize_error, serialize_error, SerializeError};
use icu::Error;

fn call_failed(words: &str) -> Error {
    Error::InterfaceError(InterfaceError::IcError(IcError::CallFailed(words.to_string())))
}

#[test]
fn serialize_error_keeps_the_cause() {
    assert_eq!(serialize_error("too deep"), SerializeError::Serialize("too deep".to_string()));
}

#[test]
fn deserialize_error_shows_the_untyped_value() {
    assert_eq!(
        deserialize_error("missing field", &Ok("Map([])".to_string())),
        SerializeError::Deserialize("failed to deserialize: missing field (Map([]))".to_string())
    );
}

#[test]
fn deserialize_error_shows_the_second_failure() {
    assert_eq!(
        deserialize_error("missing field", &Err("unexpected end".to_string())),
        SerializeError::Deserialize(
            "failed to deserialize: missing field. DEBUG FAILED unexpected end".to_string()
        )
    );
}

#[test]
fn creation_goes_on_to_install_or_fails() {
    let new = Identity::from_slice(&[4, 2]).unwrap();
    assert_eq!(CREATE_CANISTER_CYCLES, 5_000_000_000_000);
    assert_eq!(after_create(Ok(new)), Ok(new));
    assert_eq!(after_create(Err("rejected".to_string())), Err(call_failed("rejected")));
    assert_eq!(after_install(new, Ok(())), Ok(new));
    assert_eq!(after_install(new, Err("no space".to_string())), Err(call_failed("no space")));
}

#[test]
fn upgrade_is_refused_for_the_installed_module() {
    let wanted = vec![1u8, 2, 3];
    assert_eq!(
        before_upgrade(Ok(Some(vec![1u8, 2, 3])), &wanted),
        Err(Error::InterfaceError(InterfaceError::IcError(IcError::WasmHashMatches)))
    );
    assert_eq!(before_upgrade(Ok(Some(vec![1u8, 2, 4])), &wanted), Ok(()));
    assert_eq!(before_upgrade(Ok(Some(vec![1u8, 2])), &wanted), Ok(()));
    assert_eq!(before_upgrade(Ok(None), &wanted), Ok(()));
    assert_eq!(before_upgrade(Err("gone".to_string()), &wanted), Err(call_failed("gone")));
}

#[test]
fn upgrade_ends_with_the_reply_of_the_install() {
    assert_eq!(after_upgrade(Ok(())), Ok(()));
    assert_eq!(after_upgrade(Err("trap".to_string())), Err(call_failed("trap")));
}

#[test]
fn call_result_keeps_the_value_or_names_the_failure() {
    assert_eq!(icu::interface::ic::call_result(Ok(7u64)), Ok(7u64));
    assert_eq!(
        icu::interface::ic::call_result::<u64>(Err("timeout".to_string())),
        Err(call_failed("timeout"))
    );
}
