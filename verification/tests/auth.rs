use std::cell::Cell;

use ic_stable_structures::memory_manager::{MemoryId, MemoryManager};
use ic_stable_structures::DefaultMemoryImpl;
use icu::auth::{
    evaluate, is_canister_type, is_child, is_controller, is_parent, is_root, is_same_canister,
    require_all, require_any, AuthError, CallContext, Outcome, Rule,
};
use icu::codec::ChildDescriptor;
use icu::identity::Identity;
use icu::memory::canister::CanisterState;
use icu::memory::child::ChildIndex;
use icu::memory::subnet::SubnetIndex;
use icu::memory::Hierarchy;
use icu::structures::DefaultMemory;
use icu::Error;

type Plain = fn(Identity) -> Outcome;

type Boxed<'a> = Box<dyn Fn(Identity) -> Outcome + 'a>;

fn fresh_hierarchy() -> Hierarchy {
    let manager = MemoryManager::init(DefaultMemoryImpl::default());
    Hierarchy {
        state: CanisterState::init(DefaultMemory(manager.get(MemoryId::new(0)))),
        children: ChildIndex::init(DefaultMemory(manager.get(MemoryId::new(1)))),
        subnet: SubnetIndex::init(DefaultMemory(manager.get(MemoryId::new(2)))),
    }
}

fn party(bytes: &[u8]) -> Identity {
    Identity::from_slice(bytes).unwrap()
}

fn call_from(caller: Identity) -> CallContext {
    CallContext { caller, this: party(&[0xee]), caller_is_controller: false }
}

fn worker() -> ChildDescriptor {
    ChildDescriptor { role: "worker".to_string(), created_at: 1 }
}

fn denied(error: AuthError) -> Outcome {
    Err(Error::AuthError(error))
}

fn counting<'a>(count: &'a Cell<u32>, outcome: fn() -> Outcome) -> Rule<Boxed<'a>> {
    Rule::Custom(Box::new(move |_caller: Identity| {
        count.set(count.get() + 1);
        outcome()
    }))
}

fn refuse(_caller: Identity) -> Outcome {
    Err(Error::AuthError(AuthError::Custom("first".to_string())))
}

fn pass() -> Outcome {
    Ok(())
}

fn fail_first() -> Outcome {
    Err(Error::AuthError(AuthError::Custom("first".to_string())))
}

fn fail_second() -> Outcome {
    Err(Error::AuthError(AuthError::Custom("second".to_string())))
}

#[test]
fn require_all_succeeds_when_every_rule_succeeds() {
    let hierarchy = fresh_hierarchy();
    let context = call_from(party(&[1]));
    let (a, b, c) = (Cell::new(0), Cell::new(0), Cell::new(0));
    let rules = vec![counting(&a, pass), counting(&b, pass), counting(&c, pass)];
    assert_eq!(require_all(&rules, &hierarchy, &context), Ok(()));
    assert_eq!((a.get(), b.get(), c.get()), (1, 1, 1));
}

#[test]
fn require_all_stops_at_the_first_failure() {
    let hierarchy = fresh_hierarchy();
    let context = call_from(party(&[1]));
    let (a, b, c, d) = (Cell::new(0), Cell::new(0), Cell::new(0), Cell::new(0));
    let rules = vec![
        counting(&a, pass),
        counting(&b, fail_first),
        counting(&c, fail_second),
        counting(&d, pass),
    ];
    assert_eq!(
        require_all(&rules, &hierarchy, &context),
        denied(AuthError::Custom("first".to_string()))
    );
    assert_eq!((a.get(), b.get(), c.get(), d.get()), (1, 1, 0, 0));
}

#[test]
fn require_all_fails_when_only_the_last_rule_fails() {
    let hierarchy = fresh_hierarchy();
    let context = call_from(party(&[1]));
    let (a, b) = (Cell::new(0), Cell::new(0));
    let rules = vec![counting(&a, pass), counting(&b, fail_second)];
    assert_eq!(
        require_all(&rules, &hierarchy, &context),
        denied(AuthError::Custom("second".to_string()))
    );
    assert_eq!((a.get(), b.get()), (1, 1));
}

#[test]
fn require_any_stops_at_the_first_success() {
    let hierarchy = fresh_hierarchy();
    let context = call_from(party(&[1]));
    let (a, b, c) = (Cell::new(0), Cell::new(0), Cell::new(0));
    let rules = vec![counting(&a, fail_first), counting(&b, pass), counting(&c, pass)];
    assert_eq!(require_any(&rules, &hierarchy, &context), Ok(()));
    assert_eq!((a.get(), b.get(), c.get()), (1, 1, 0));
}

#[test]
fn require_any_returns_the_last_failure() {
    let hierarchy = fresh_hierarchy();
    let context = call_from(party(&[1]));
    let (a, b) = (Cell::new(0), Cell::new(0));
    let rules = vec![counting(&a, fail_first), counting(&b, fail_second)];
    assert_eq!(
        require_any(&rules, &hierarchy, &context),
        denied(AuthError::Custom("second".to_string()))
    );
    assert_eq!((a.get(), b.get()), (1, 1));
}

#[test]
fn require_any_of_one_rule_is_that_rule() {
    let hierarchy = fresh_hierarchy();
    let context = call_from(party(&[1]));
    let a = Cell::new(0);
    assert_eq!(require_any(&vec![counting(&a, pass)], &hierarchy, &context), Ok(()));
    let b = Cell::new(0);
    assert_eq!(
        require_any(&vec![counting(&b, fail_first)], &hierarchy, &context),
        denied(AuthError::Custom("first".to_string()))
    );
    assert_eq!((a.get(), b.get()), (1, 1));
}

#[test]
fn empty_rule_sets_are_refused() {
    let hierarchy = fresh_hierarchy();
    let none: Vec<Rule<Plain>> = Vec::new();
    for bytes in [&[][..], &[1][..], &[0xee][..]] {
        let context = call_from(party(bytes));
        assert_eq!(require_all(&none, &hierarchy, &context), denied(AuthError::NoRulesDefined));
        assert_eq!(require_any(&none, &hierarchy, &context), denied(AuthError::NoRulesDefined));
    }
}

#[test]
fn custom_rule_sees_the_caller() {
    let hierarchy = fresh_hierarchy();
    let wanted = party(&[5, 5]);
    let rules: Vec<Rule<Boxed>> = vec![Rule::Custom(Box::new(move |caller: Identity| {
        if caller == wanted {
            Ok(())
        } else {
            Err(Error::AuthError(AuthError::custom("not the one")))
        }
    }))];
    assert_eq!(require_all(&rules, &hierarchy, &call_from(wanted)), Ok(()));
    assert_eq!(
        require_all(&rules, &hierarchy, &call_from(party(&[5]))),
        denied(AuthError::Custom("not the one".to_string()))
    );
}

#[test]
fn child_rule_follows_the_child_index() {
    let mut hierarchy = fresh_hierarchy();
    let a = party(&[0xa]);
    let rules: Vec<Rule<Plain>> = vec![Rule::IsChild];
    hierarchy.children.set(a, &worker());
    assert_eq!(require_all(&rules, &hierarchy, &call_from(a)), Ok(()));
    hierarchy.children.remove(&a);
    assert_eq!(require_all(&rules, &hierarchy, &call_from(a)), denied(AuthError::NotChild(a)));
}

#[test]
fn role_rule_follows_the_registry() {
    let mut hierarchy = fresh_hierarchy();
    let b = party(&[0xb]);
    let rules: Vec<Rule<Plain>> = vec![Rule::HasRole("ledger".to_string())];
    assert_eq!(
        require_all(&rules, &hierarchy, &call_from(b)),
        denied(AuthError::NotOfRole(b, "ledger".to_string()))
    );
    hierarchy.subnet.set_canister("ledger", b);
    assert_eq!(require_all(&rules, &hierarchy, &call_from(b)), Ok(()));
}

#[test]
fn root_or_any_child() {
    let mut hierarchy = fresh_hierarchy();
    let root = party(&[1]);
    let kid = party(&[2]);
    let stranger = party(&[3]);
    hierarchy.state.set_root(root);
    hierarchy.children.set(kid, &worker());
    let rules: Vec<Rule<Plain>> = vec![Rule::IsRoot, Rule::IsChild];
    assert_eq!(require_any(&rules, &hierarchy, &call_from(root)), Ok(()));
    assert_eq!(require_any(&rules, &hierarchy, &call_from(kid)), Ok(()));
    assert_eq!(
        require_any(&rules, &hierarchy, &call_from(stranger)),
        denied(AuthError::NotChild(stranger))
    );
    assert_eq!(
        require_all(&rules, &hierarchy, &call_from(kid)),
        denied(AuthError::NotRoot(kid))
    );
}

#[test]
fn root_rule_tells_no_root_from_another_root() {
    let mut hierarchy = fresh_hierarchy();
    let caller = party(&[1]);
    assert_eq!(is_root(&hierarchy.state, caller), denied(AuthError::NoRootDefined));
    hierarchy.state.set_root(party(&[2]));
    assert_eq!(is_root(&hierarchy.state, caller), denied(AuthError::NotRoot(caller)));
    hierarchy.state.set_root(caller);
    assert_eq!(is_root(&hierarchy.state, caller), Ok(()));
}

#[test]
fn parent_rule_follows_the_hierarchy_state() {
    let mut hierarchy = fresh_hierarchy();
    let caller = party(&[1]);
    assert_eq!(is_parent(&hierarchy.state, caller), denied(AuthError::NotParent(caller)));
    hierarchy.state.set_parent(Some(party(&[2])));
    assert_eq!(is_parent(&hierarchy.state, caller), denied(AuthError::NotParent(caller)));
    hierarchy.state.set_parent(Some(caller));
    assert_eq!(is_parent(&hierarchy.state, caller), Ok(()));
}

#[test]
fn controller_rule_follows_the_platform() {
    let caller = party(&[1]);
    let mut context = call_from(caller);
    assert_eq!(is_controller(&context), denied(AuthError::NotController(caller)));
    context.caller_is_controller = true;
    assert_eq!(is_controller(&context), Ok(()));
}

#[test]
fn self_rule_compares_caller_and_instance() {
    let caller = party(&[1]);
    let mut context = call_from(caller);
    assert_eq!(is_same_canister(&context), denied(AuthError::NotThis(caller)));
    context.this = caller;
    assert_eq!(is_same_canister(&context), Ok(()));
}

#[test]
fn child_rule_alone() {
    let mut hierarchy = fresh_hierarchy();
    let caller = party(&[1]);
    assert_eq!(is_child(&hierarchy.children, caller), denied(AuthError::NotChild(caller)));
    hierarchy.children.set(caller, &worker());
    assert_eq!(is_child(&hierarchy.children, caller), Ok(()));
}

#[test]
fn role_rule_asks_for_the_role_not_for_its_holder() {
    let mut hierarchy = fresh_hierarchy();
    let caller = party(&[1]);
    hierarchy.subnet.set_canister("users", party(&[2]));
    assert_eq!(is_canister_type(&hierarchy.subnet, caller, "users".to_string()), Ok(()));
    assert_eq!(
        is_canister_type(&hierarchy.subnet, caller, "ledger".to_string()),
        denied(AuthError::NotOfRole(caller, "ledger".to_string()))
    );
}

#[test]
fn evaluate_asks_the_rule_it_is_given() {
    let mut hierarchy = fresh_hierarchy();
    let caller = party(&[1]);
    let mut context = call_from(caller);
    context.caller_is_controller = true;
    hierarchy.state.set_root(caller);
    assert_eq!(evaluate(&Rule::<Plain>::IsController, &hierarchy, &context), Ok(()));
    assert_eq!(evaluate(&Rule::<Plain>::IsRoot, &hierarchy, &context), Ok(()));
    assert_eq!(
        evaluate(&Rule::<Plain>::IsParent, &hierarchy, &context),
        denied(AuthError::NotParent(caller))
    );
    assert_eq!(
        evaluate(&Rule::<Plain>::IsChild, &hierarchy, &context),
        denied(AuthError::NotChild(caller))
    );
    assert_eq!(
        evaluate(&Rule::<Plain>::IsSelf, &hierarchy, &context),
        denied(AuthError::NotThis(caller))
    );
    assert_eq!(
        evaluate(&Rule::<Plain>::HasRole("x".to_string()), &hierarchy, &context),
        denied(AuthError::NotOfRole(caller, "x".to_string()))
    );
    let custom: Rule<Plain> = Rule::Custom(refuse);
    assert_eq!(
        evaluate(&custom, &hierarchy, &context),
        denied(AuthError::Custom("first".to_string()))
    );
}

#[test]
fn custom_error_keeps_its_words() {
    assert_eq!(AuthError::custom("no entry"), AuthError::Custom("no entry".to_string()));
    assert_eq!(AuthError::custom(""), AuthError::Custom(String::new()));
}
