use ic_stable_structures::memory_manager::{MemoryId, MemoryManager};
use ic_stable_structures::DefaultMemoryImpl;
use icu::identity::Identity;
use icu::memory::canister::{CanisterState, CanisterStateError};
use icu::structures::DefaultMemory;

fn fresh_state() -> CanisterState {
    let manager = MemoryManager::init(DefaultMemoryImpl::default());
    CanisterState::init(DefaultMemory(manager.get(MemoryId::new(0))))
}

fn instance(bytes: &[u8]) -> Identity {
    Identity::from_slice(bytes).unwrap()
}

#[test]
fn root_is_undefined_until_set() {
    let mut state = fresh_state();
    assert_eq!(state.get_root(), Err(CanisterStateError::RootNotDefined));
    state.set_root(instance(&[1, 2, 3]));
    assert_eq!(state.get_root(), Ok(instance(&[1, 2, 3])));
    state.set_root(instance(&[4]));
    assert_eq!(state.get_root(), Ok(instance(&[4])));
}

#[test]
fn root_instance_has_no_parent() {
    let mut state = fresh_state();
    state.set_root(instance(&[1]));
    assert_eq!(state.get_parent(), None);
    assert!(!state.has_parent(&instance(&[1])));
}

#[test]
fn parent_is_kept_beside_the_root() {
    let mut state = fresh_state();
    state.set_root(instance(&[1]));
    state.set_parent(Some(instance(&[2])));
    assert_eq!(state.get_parent(), Some(instance(&[2])));
    assert_eq!(state.get_root(), Ok(instance(&[1])));
    assert!(state.has_parent(&instance(&[2])));
    assert!(!state.has_parent(&instance(&[1])));
    state.set_parent(None);
    assert_eq!(state.get_parent(), None);
    assert!(!state.has_parent(&instance(&[2])));
    assert_eq!(state.get_root(), Ok(instance(&[1])));
}

#[test]
fn cleared_state_has_neither_root_nor_parent() {
    let mut state = fresh_state();
    state.set_root(instance(&[1]));
    state.set_parent(Some(instance(&[2])));
    state.clear();
    assert_eq!(state.get_root(), Err(CanisterStateError::RootNotDefined));
    assert_eq!(state.get_parent(), None);
}
