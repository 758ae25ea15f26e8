use icu::auth::{AuthError, Combinator, Evaluation, Outcome, Progress};
use icu::Error;

fn failure(words: &str) -> Outcome {
    Err(Error::AuthError(AuthError::Custom(words.to_string())))
}

fn started(combinator: Combinator, total: usize) -> Evaluation {
    match Evaluation::start(combinator, total) {
        Progress::Evaluate(evaluation) => evaluation,
        Progress::Done(outcome) => panic!("ended at once with {:?}", outcome),
    }
}

fn next(progress: Progress) -> Evaluation {
    match progress {
        Progress::Evaluate(evaluation) => evaluation,
        Progress::Done(outcome) => panic!("ended with {:?}", outcome),
    }
}

fn verdict(progress: Progress) -> Outcome {
    match progress {
        Progress::Done(outcome) => outcome,
        Progress::Evaluate(evaluation) => panic!("asks for rule {}", evaluation.index()),
    }
}

#[test]
fn evaluation_of_no_rules_ends_at_once() {
    for combinator in [Combinator::All, Combinator::Any] {
        assert_eq!(
            verdict(Evaluation::start(combinator, 0)),
            Err(Error::AuthError(AuthError::NoRulesDefined))
        );
    }
}

#[test]
fn evaluation_asks_the_rules_in_order() {
    let first = started(Combinator::All, 3);
    assert_eq!(first.index(), 0);
    let second = next(first.record(Ok(())));
    assert_eq!(second.index(), 1);
    let third = next(second.record(Ok(())));
    assert_eq!(third.index(), 2);
    assert_eq!(verdict(third.record(Ok(()))), Ok(()));
}

#[test]
fn evaluation_of_all_ends_at_a_failure() {
    let first = started(Combinator::All, 3);
    let second = next(first.record(Ok(())));
    assert_eq!(verdict(second.record(failure("no"))), failure("no"));
}

#[test]
fn evaluation_of_any_ends_at_a_success() {
    let first = started(Combinator::Any, 3);
    let second = next(first.record(failure("one")));
    assert_eq!(second.index(), 1);
    assert_eq!(verdict(second.record(Ok(()))), Ok(()));
}

#[test]
fn evaluation_of_any_ends_with_the_last_failure() {
    let first = started(Combinator::Any, 3);
    let second = next(first.record(failure("one")));
    let third = next(second.record(failure("two")));
    assert_eq!(third.index(), 2);
    assert_eq!(verdict(third.record(failure("three"))), failure("three"));
}

#[test]
fn evaluation_of_one_rule_ends_with_its_outcome() {
    assert_eq!(verdict(started(Combinator::All, 1).record(Ok(()))), Ok(()));
    assert_eq!(verdict(started(Combinator::All, 1).record(failure("a"))), failure("a"));
    assert_eq!(verdict(started(Combinator::Any, 1).record(Ok(()))), Ok(()));
    assert_eq!(verdict(started(Combinator::Any, 1).record(failure("b"))), failure("b"));
}
