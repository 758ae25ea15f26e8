//! The authorization engine: rules over the identity of the caller, and the
//! two combinators that evaluate a set of rules in order.

use vstd::prelude::*;
use crate::identity::{principal_phrase, Identity};
use crate::memory::canister::CanisterState;
use crate::memory::child::ChildIndex;
use crate::memory::subnet::SubnetIndex;
use crate::memory::{Hierarchy, Standing};
use crate::Error;

verus! {

/// Why a caller was refused.
#[derive(Debug, PartialEq, Eq)]
pub enum AuthError {
    /// A custom rule refused, with its own words.
    Custom(String),
    /// A combinator ended without a verdict. No set of rules leads here.
    InvalidState,
    /// The hierarchy state has no root.
    NoRootDefined,
    /// A combinator was given no rule.
    NoRulesDefined,
    /// The registry names no instance for users.
    NoUserCanister,
    /// The configuration forbids the action.
    NotAllowed,
    /// The registry names no instance for the role.
    NotOfRole(Identity, String),
    /// The caller is not a child of this instance.
    NotChild(Identity),
    /// The caller is not a controller of this instance.
    NotController(Identity),
    /// The caller is not the parent of this instance.
    NotParent(Identity),
    /// The caller is not the root.
    NotRoot(Identity),
    /// The caller is not this instance.
    NotThis(Identity),
}

impl AuthError {
    /// A refusal in the caller's own words.
    pub fn custom(s: &str) -> (error: AuthError)
        ensures
            error matches AuthError::Custom(text) && text@ == s@,
    {
        AuthError::Custom(String::from_str(s))
    }
}

/// What a rule, or a combinator, answers.
pub type Outcome = Result<(), Error>;

/// The refusal `error` as an outcome.
pub open spec fn refused(error: AuthError) -> Outcome {
    Err(Error::AuthError(error))
}

/// What the platform says of the call that is being served. The values come
/// from the platform, never from what the caller sent.
#[derive(Clone, Copy, Debug)]
pub struct CallContext {
    /// Who calls.
    pub caller: Identity,
    /// The instance that is called.
    pub this: Identity,
    /// Whether the platform knows the caller as a controller of this
    /// instance.
    pub caller_is_controller: bool,
}

/// A rule: one of the built-in predicates, or a predicate of the
/// application's own.
pub enum Rule<F> {
    /// The caller is a controller of this instance.
    IsController,
    /// The caller is the root.
    IsRoot,
    /// The caller is the parent of this instance.
    IsParent,
    /// The caller is a child of this instance.
    IsChild,
    /// The caller is this instance.
    IsSelf,
    /// The registry names an instance for the role.
    HasRole(String),
    /// A predicate of the application, applied to the caller.
    Custom(F),
}

/// The outcome of the rule "the registry names an instance for the role".
pub open spec fn role_outcome(roles: Map<Seq<char>, Seq<u8>>, pid: Identity, role: String) -> Outcome {
    if roles.contains_key(role@) {
        Ok(())
    } else {
        refused(AuthError::NotOfRole(pid, role))
    }
}

/// The outcome of the rule "`pid` is a child".
pub open spec fn child_outcome(children: Set<Seq<u8>>, pid: Identity) -> Outcome {
    if children.contains(pid@) {
        Ok(())
    } else {
        refused(AuthError::NotChild(pid))
    }
}

/// The outcome of the rule "the caller is a controller".
pub open spec fn controller_outcome(context: CallContext) -> Outcome {
    if context.caller_is_controller {
        Ok(())
    } else {
        refused(AuthError::NotController(context.caller))
    }
}

/// The outcome of the rule "`pid` is the root".
pub open spec fn root_outcome(root: Option<Seq<u8>>, pid: Identity) -> Outcome {
    match root {
        None => refused(AuthError::NoRootDefined),
        Some(root) => if root == pid@ {
            Ok(())
        } else {
            refused(AuthError::NotRoot(pid))
        },
    }
}

/// The outcome of the rule "`pid` is the parent".
pub open spec fn parent_outcome(parent: Option<Seq<u8>>, pid: Identity) -> Outcome {
    if parent == Some(pid@) {
        Ok(())
    } else {
        refused(AuthError::NotParent(pid))
    }
}

/// The outcome of the rule "the caller is this instance".
pub open spec fn self_outcome(context: CallContext) -> Outcome {
    if context.caller@ == context.this@ {
        Ok(())
    } else {
        refused(AuthError::NotThis(context.caller))
    }
}

/// Succeeds if the registry names an instance for the role `canister`,
/// whoever `pid` is; fails with `NotOfRole` otherwise.
pub fn is_canister_type(subnet: &SubnetIndex, pid: Identity, canister: String) -> (outcome: Outcome)
    ensures
        outcome == role_outcome(subnet@, pid, canister),
{
    match subnet.try_get_canister(canister.as_str()) {
        Ok(_) => Ok(()),
        Err(_) => Err(Error::AuthError(AuthError::NotOfRole(pid, canister))),
    }
}

/// Succeeds if `pid` is in the child index; fails with `NotChild` otherwise.
pub fn is_child(children: &ChildIndex, pid: Identity) -> (outcome: Outcome)
    ensures
        outcome == child_outcome(children@.dom(), pid),
{
    match children.get(&pid) {
        Some(_) => Ok(()),
        None => Err(Error::AuthError(AuthError::NotChild(pid))),
    }
}

/// Succeeds if the platform knows the caller as a controller; fails with
/// `NotController` otherwise.
pub fn is_controller(context: &CallContext) -> (outcome: Outcome)
    ensures
        outcome == controller_outcome(*context),
{
    if context.caller_is_controller {
        Ok(())
    } else {
        Err(Error::AuthError(AuthError::NotController(context.caller)))
    }
}

/// Succeeds if `pid` is the root; fails with `NoRootDefined` where no root
/// is set, and with `NotRoot` otherwise.
pub fn is_root(state: &CanisterState, pid: Identity) -> (outcome: Outcome)
    ensures
        outcome == root_outcome(state@.root, pid),
{
    match state.get_root() {
        Err(_) => Err(Error::AuthError(AuthError::NoRootDefined)),
        Ok(root) => {
            if pid.same(&root) {
                Ok(())
            } else {
                Err(Error::AuthError(AuthError::NotRoot(pid)))
            }
        },
    }
}

/// Succeeds if `pid` is the parent; fails with `NotParent` otherwise.
pub fn is_parent(state: &CanisterState, pid: Identity) -> (outcome: Outcome)
    ensures
        outcome == parent_outcome(state@.parent, pid),
{
    if state.has_parent(&pid) {
        Ok(())
    } else {
        Err(Error::AuthError(AuthError::NotParent(pid)))
    }
}

/// Succeeds if the caller is this instance; fails with `NotThis` otherwise.
pub fn is_same_canister(context: &CallContext) -> (outcome: Outcome)
    ensures
        outcome == self_outcome(*context),
{
    if context.caller.same(&context.this) {
        Ok(())
    } else {
        Err(Error::AuthError(AuthError::NotThis(context.caller)))
    }
}

/// What a built-in rule answers for the records and the call at hand. A
/// custom rule answers for itself, so this says nothing of it.
pub open spec fn builtin_outcome<F>(rule: Rule<F>, standing: Standing, context: CallContext) -> Outcome {
    match rule {
        Rule::IsController => controller_outcome(context),
        Rule::IsRoot => root_outcome(standing.position.root, context.caller),
        Rule::IsParent => parent_outcome(standing.position.parent, context.caller),
        Rule::IsChild => child_outcome(standing.children.dom(), context.caller),
        Rule::IsSelf => self_outcome(context),
        Rule::HasRole(role) => role_outcome(standing.roles, context.caller, role),
        Rule::Custom(_) => Ok(()),
    }
}

/// Whether `outcome` is an answer that `rule` can give: for a built-in rule
/// the one that the records determine, for a custom rule any that the
/// predicate returns for the caller.
pub open spec fn permits<F: Fn(Identity) -> Outcome>(
    rule: Rule<F>,
    standing: Standing,
    context: CallContext,
    outcome: Outcome,
) -> bool {
    match rule {
        Rule::Custom(predicate) => call_ensures(predicate, (context.caller,), outcome),
        _ => outcome == builtin_outcome(rule, standing, context),
    }
}

/// Whether each custom rule of the set may be called for the caller.
pub open spec fn callable<F: Fn(Identity) -> Outcome>(rules: Seq<Rule<F>>, context: CallContext) -> bool {
    forall|i: int|
        0 <= i < rules.len() ==> (#[trigger] rules[i] matches Rule::Custom(predicate)
            ==> call_requires(predicate, (context.caller,)))
}

/// Evaluates one rule for the caller.
pub fn evaluate<F: Fn(Identity) -> Outcome>(
    rule: &Rule<F>,
    hierarchy: &Hierarchy,
    context: &CallContext,
) -> (outcome: Outcome)
    requires
        rule matches Rule::Custom(predicate) ==> call_requires(*predicate, (context.caller,)),
    ensures
        permits(*rule, hierarchy@, *context, outcome),
{
    match rule {
        Rule::IsController => is_controller(context),
        Rule::IsRoot => is_root(&hierarchy.state, context.caller),
        Rule::IsParent => is_parent(&hierarchy.state, context.caller),
        Rule::IsChild => is_child(&hierarchy.children, context.caller),
        Rule::IsSelf => is_same_canister(context),
        Rule::HasRole(role) => is_canister_type(&hierarchy.subnet, context.caller, role.clone()),
        Rule::Custom(predicate) => predicate(context.caller),
    }
}

/// How a set of rules is combined.
#[derive(Clone, Copy, Debug, PartialEq, Eq)]
pub enum Combinator {
    /// Every rule must succeed.
    All,
    /// One rule must succeed.
    Any,
}

/// Whether an outcome ends the evaluation: a failure where all must
/// succeed, a success where one is enough.
pub open spec fn stops(combinator: Combinator, outcome: Outcome) -> bool {
    match combinator {
        Combinator::All => outcome is Err,
        Combinator::Any => outcome is Ok,
    }
}

/// Whether `run` is the sequence of outcomes of a whole evaluation of
/// `total` rules: the rules were evaluated from the first on, none after an
/// outcome that ends the evaluation, and the evaluation went on until such
/// an outcome or the last rule.
pub open spec fn is_run(combinator: Combinator, total: nat, run: Seq<Outcome>) -> bool {
    &&& 0 < run.len() <= total
    &&& forall|i: int| 0 <= i < run.len() - 1 ==> !stops(combinator, #[trigger] run[i])
    &&& (run.len() == total || stops(combinator, run.last()))
}

/// The failure of a combinator that was given no rule.
pub open spec fn no_rules() -> Outcome {
    refused(AuthError::NoRulesDefined)
}

/// An evaluation under way: some rules have answered, none of the answers
/// ends the evaluation, and at least one rule is still to be asked.
///
/// Whoever drives the evaluation asks the rule of number `index()` and hands
/// its answer to `record`. Between the two it may suspend; the records may
/// change meanwhile, and the answer is that of the moment of asking.
pub struct Evaluation {
    combinator: Combinator,
    total: usize,
    next: usize,
    seen: Ghost<Seq<Outcome>>,
}

/// Where an evaluation stands.
pub enum Progress {
    /// The rule of number `index()` is to be asked next.
    Evaluate(Evaluation),
    /// The verdict.
    Done(Outcome),
}

impl Evaluation {
    #[verifier::type_invariant]
    spec fn well_formed(self) -> bool {
        &&& self.next < self.total
        &&& self.seen@.len() == self.next
        &&& forall|i: int| 0 <= i < self.seen@.len() ==> !stops(self.combinator, #[trigger] self.seen@[i])
    }

    /// How the rules are combined.
    pub closed spec fn combinator(self) -> Combinator {
        self.combinator
    }

    /// How many rules the set has.
    pub closed spec fn total(self) -> nat {
        self.total as nat
    }

    /// The outcomes recorded so far, in the order of the rules.
    pub closed spec fn seen(self) -> Seq<Outcome> {
        self.seen@
    }

    /// Begins the evaluation of `total` rules. An empty set is refused at
    /// once.
    pub fn start(combinator: Combinator, total: usize) -> (progress: Progress)
        ensures
            match progress {
                Progress::Done(outcome) => total == 0 && outcome == no_rules(),
                Progress::Evaluate(evaluation) => total > 0 && evaluation.combinator() == combinator
                    && evaluation.total() == total && evaluation.seen() == Seq::<Outcome>::empty(),
            },
    {
        if total == 0 {
            Progress::Done(Err(Error::AuthError(AuthError::NoRulesDefined)))
        } else {
            Progress::Evaluate(Evaluation { combinator, total, next: 0, seen: Ghost(Seq::empty()) })
        }
    }

    /// The number of the rule to ask next.
    pub fn index(&self) -> (index: usize)
        ensures
            index == self.seen().len(),
            index < self.total(),
    {
        proof {
            use_type_invariant(self);
        }
        self.next
    }

    /// Takes the answer of the rule of number `index()`. The evaluation ends
    /// with that answer as its verdict if the answer ends it or the rule was
    /// the last; else the next rule is to be asked.
    pub fn record(self, outcome: Outcome) -> (progress: Progress)
        ensures
            match progress {
                Progress::Done(verdict) => verdict == outcome && is_run(
                    self.combinator(),
                    self.total(),
                    self.seen().push(outcome),
                ),
                Progress::Evaluate(evaluation) => !stops(self.combinator(), outcome)
                    && self.seen().len() + 1 < self.total() && evaluation.seen() == self.seen().push(
                    outcome,
                ) && evaluation.combinator() == self.combinator() && evaluation.total()
                    == self.total(),
            },
    {
        proof {
            use_type_invariant(&self);
        }
        let ghost run = self.seen@.push(outcome);
        proof {
            assert(run.last() == outcome);
            assert forall|i: int| 0 <= i < run.len() - 1 implies !stops(
                self.combinator,
                #[trigger] run[i],
            ) by {
                assert(run[i] == self.seen@[i]);
            }
        }
        let Evaluation { combinator, total, next, seen: _ } = self;
        let last = next + 1 == total;
        match combinator {
            Combinator::All => {
                if outcome.is_err() || last {
                    Progress::Done(outcome)
                } else {
                    Progress::Evaluate(Evaluation { combinator, total, next: next + 1, seen: Ghost(run) })
                }
            },
            Combinator::Any => {
                if outcome.is_ok() {
                    Progress::Done(outcome)
                } else if last {
                    // Every rule has failed, and the failure of the last one
                    // is returned. Without a failure at hand the evaluation
                    // would end in `InvalidState`, never in a success that no
                    // rule gave; the contract shows that this is not reached.
                    match outcome {
                        Err(error) => Progress::Done(Err(error)),
                        Ok(_) => Progress::Done(Err(Error::AuthError(AuthError::InvalidState))),
                    }
                } else {
                    Progress::Evaluate(Evaluation { combinator, total, next: next + 1, seen: Ghost(run) })
                }
            },
        }
    }
}

/// Whether each outcome of `run` is an answer that the rule of its number
/// can give.
pub open spec fn permitted<F: Fn(Identity) -> Outcome>(
    rules: Seq<Rule<F>>,
    standing: Standing,
    context: CallContext,
    run: Seq<Outcome>,
) -> bool {
    &&& run.len() <= rules.len()
    &&& forall|i: int| 0 <= i < run.len() ==> permits(rules[i], standing, context, #[trigger] run[i])
}

/// What a combinator returns for a set of rules: the refusal of an empty
/// set, or the last outcome of some whole evaluation of the set.
pub open spec fn combined<F: Fn(Identity) -> Outcome>(
    combinator: Combinator,
    rules: Seq<Rule<F>>,
    standing: Standing,
    context: CallContext,
    verdict: Outcome,
) -> bool {
    if rules.len() == 0 {
        verdict == no_rules()
    } else {
        exists|run: Seq<Outcome>|
            is_run(combinator, rules.len(), run) && permitted(rules, standing, context, run)
                && verdict == #[trigger] run.last()
    }
}

/// The number of the first outcome that ends the evaluation, or the length
/// of the sequence where none does.
pub open spec fn first_stop(combinator: Combinator, outcomes: Seq<Outcome>) -> int
    decreases outcomes.len(),
{
    if outcomes.len() == 0 || stops(combinator, outcomes[0]) {
        0
    } else {
        1 + first_stop(combinator, outcomes.drop_first())
    }
}

/// The verdict on rules whose answers are `outcomes`, one for each rule in
/// order: the refusal of an empty set; else the first outcome that ends the
/// evaluation; else the last outcome.
pub open spec fn verdict_of(combinator: Combinator, outcomes: Seq<Outcome>) -> Outcome {
    if outcomes.len() == 0 {
        no_rules()
    } else if first_stop(combinator, outcomes) < outcomes.len() {
        outcomes[first_stop(combinator, outcomes)]
    } else {
        outcomes.last()
    }
}

/// How many of the rules are evaluated: those up to the first whose outcome
/// ends the evaluation.
pub open spec fn evaluated(combinator: Combinator, outcomes: Seq<Outcome>) -> int {
    if first_stop(combinator, outcomes) < outcomes.len() {
        first_stop(combinator, outcomes) + 1
    } else {
        outcomes.len() as int
    }
}

/// The answers of a set of built-in rules, one for each rule.
pub open spec fn outcomes_of<F>(rules: Seq<Rule<F>>, standing: Standing, context: CallContext) -> Seq<
    Outcome,
> {
    rules.map_values(|rule: Rule<F>| builtin_outcome(rule, standing, context))
}

/// Whether the set holds built-in rules only.
pub open spec fn all_builtin<F>(rules: Seq<Rule<F>>) -> bool {
    forall|i: int| 0 <= i < rules.len() ==> !(#[trigger] rules[i] is Custom)
}

/// `first_stop` is the number of the first outcome that ends the evaluation.
pub proof fn lemma_first_stop(combinator: Combinator, outcomes: Seq<Outcome>)
    ensures
        0 <= first_stop(combinator, outcomes) <= outcomes.len(),
        forall|i: int|
            0 <= i < first_stop(combinator, outcomes) ==> !stops(combinator, #[trigger] outcomes[i]),
        first_stop(combinator, outcomes) < outcomes.len() ==> stops(
            combinator,
            outcomes[first_stop(combinator, outcomes)],
        ),
    decreases outcomes.len(),
{
    if outcomes.len() == 0 || stops(combinator, outcomes[0]) {
    } else {
        let rest = outcomes.drop_first();
        lemma_first_stop(combinator, rest);
        assert forall|i: int| 0 <= i < first_stop(combinator, outcomes) implies !stops(
            combinator,
            #[trigger] outcomes[i],
        ) by {
            if i > 0 {
                assert(outcomes[i] == rest[i - 1]);
            }
        }
        if first_stop(combinator, outcomes) < outcomes.len() {
            assert(outcomes[first_stop(combinator, outcomes)] == rest[first_stop(combinator, rest)]);
        }
    }
}

/// Rules that answer `outcomes` have one whole evaluation only: it asks the
/// first `evaluated` rules, in order, and its last outcome is `verdict_of`.
pub proof fn lemma_run_of_outcomes(combinator: Combinator, outcomes: Seq<Outcome>, run: Seq<Outcome>)
    requires
        is_run(combinator, outcomes.len(), run),
        forall|i: int| 0 <= i < run.len() ==> run[i] == outcomes[i],
    ensures
        run.len() == evaluated(combinator, outcomes),
        run.last() == verdict_of(combinator, outcomes),
{
    lemma_first_stop(combinator, outcomes);
    let k = first_stop(combinator, outcomes);
    if k < run.len() - 1 {
        assert(!stops(combinator, run[k]));
    }
    if stops(combinator, run.last()) && run.len() - 1 < k {
        assert(!stops(combinator, outcomes[run.len() - 1]));
    }
}

/// With all rules required, the verdict on a set that is not empty is a
/// success exactly if every rule succeeds. Otherwise it is the failure of
/// the first rule that fails, and no rule after that one is evaluated.
pub proof fn lemma_all_verdict(outcomes: Seq<Outcome>)
    requires
        outcomes.len() > 0,
    ensures
        verdict_of(Combinator::All, outcomes) is Ok <==> forall|i: int|
            0 <= i < outcomes.len() ==> #[trigger] outcomes[i] is Ok,
        verdict_of(Combinator::All, outcomes) is Err ==> {
            let first = first_stop(Combinator::All, outcomes);
            &&& 0 <= first < outcomes.len()
            &&& forall|i: int| 0 <= i < first ==> #[trigger] outcomes[i] is Ok
            &&& outcomes[first] is Err
            &&& verdict_of(Combinator::All, outcomes) == outcomes[first]
            &&& evaluated(Combinator::All, outcomes) == first + 1
        },
{
    lemma_first_stop(Combinator::All, outcomes);
    let first = first_stop(Combinator::All, outcomes);
    assert forall|i: int| 0 <= i < first implies #[trigger] outcomes[i] is Ok by {
        assert(!stops(Combinator::All, outcomes[i]));
    }
    if first == outcomes.len() {
        assert(outcomes.last() == outcomes[outcomes.len() - 1]);
    } else {
        assert(stops(Combinator::All, outcomes[first]));
    }
}

/// With one rule required, the verdict on a set that is not empty is a
/// success exactly if some rule succeeds, and no rule after the first that
/// succeeds is evaluated. Where every rule fails, the verdict is the failure
/// of the last rule.
pub proof fn lemma_any_verdict(outcomes: Seq<Outcome>)
    requires
        outcomes.len() > 0,
    ensures
        verdict_of(Combinator::Any, outcomes) is Ok <==> exists|i: int|
            0 <= i < outcomes.len() && #[trigger] outcomes[i] is Ok,
        verdict_of(Combinator::Any, outcomes) is Ok ==> {
            let first = first_stop(Combinator::Any, outcomes);
            &&& 0 <= first < outcomes.len()
            &&& forall|i: int| 0 <= i < first ==> #[trigger] outcomes[i] is Err
            &&& outcomes[first] is Ok
            &&& evaluated(Combinator::Any, outcomes) == first + 1
        },
        verdict_of(Combinator::Any, outcomes) is Err ==> verdict_of(Combinator::Any, outcomes)
            == outcomes.last() && evaluated(Combinator::Any, outcomes) == outcomes.len(),
{
    lemma_first_stop(Combinator::Any, outcomes);
    let first = first_stop(Combinator::Any, outcomes);
    assert forall|i: int| 0 <= i < first implies #[trigger] outcomes[i] is Err by {
        assert(!stops(Combinator::Any, outcomes[i]));
    }
    if first == outcomes.len() {
        assert(outcomes.last() == outcomes[outcomes.len() - 1]);
        assert(!stops(Combinator::Any, outcomes[outcomes.len() - 1]));
    } else {
        assert(stops(Combinator::Any, outcomes[first]));
    }
}

/// Of a whole evaluation where all rules are required: it succeeds exactly
/// if every rule was asked and every answer was a success; a failure is the
/// only failure among the answers, and the last of them.
pub proof fn lemma_all_run(total: nat, run: Seq<Outcome>)
    requires
        is_run(Combinator::All, total, run),
    ensures
        run.last() is Ok <==> run.len() == total && forall|i: int|
            0 <= i < run.len() ==> #[trigger] run[i] is Ok,
        forall|i: int| 0 <= i < run.len() - 1 ==> #[trigger] run[i] is Ok,
{
    assert forall|i: int| 0 <= i < run.len() - 1 implies #[trigger] run[i] is Ok by {
        assert(!stops(Combinator::All, run[i]));
    }
    assert(run.last() == run[run.len() - 1]);
}

/// Of a whole evaluation where one rule is required: it fails exactly if
/// every rule was asked and every answer was a failure, and then with the
/// answer of the last rule; a success is the only success among the answers.
pub proof fn lemma_any_run(total: nat, run: Seq<Outcome>)
    requires
        is_run(Combinator::Any, total, run),
    ensures
        run.last() is Err <==> run.len() == total && forall|i: int|
            0 <= i < run.len() ==> #[trigger] run[i] is Err,
        forall|i: int| 0 <= i < run.len() - 1 ==> #[trigger] run[i] is Err,
{
    assert forall|i: int| 0 <= i < run.len() - 1 implies #[trigger] run[i] is Err by {
        assert(!stops(Combinator::Any, run[i]));
    }
    assert(run.last() == run[run.len() - 1]);
}

/// An empty set is refused with `NoRulesDefined` under either combinator,
/// whoever calls.
pub proof fn lemma_no_rules<F: Fn(Identity) -> Outcome>(
    combinator: Combinator,
    rules: Seq<Rule<F>>,
    standing: Standing,
    context: CallContext,
    verdict: Outcome,
)
    requires
        rules.len() == 0,
        combined(combinator, rules, standing, context, verdict),
    ensures
        verdict == refused(AuthError::NoRulesDefined),
        verdict == verdict_of(combinator, outcomes_of(rules, standing, context)),
{
}

/// Where every rule of the set is built in, the records and the call
/// determine what the combinator returns, namely `verdict_of` the outcomes
/// of the set.
pub proof fn lemma_builtin_verdict<F: Fn(Identity) -> Outcome>(
    combinator: Combinator,
    rules: Seq<Rule<F>>,
    standing: Standing,
    context: CallContext,
    verdict: Outcome,
)
    requires
        all_builtin(rules),
        combined(combinator, rules, standing, context, verdict),
    ensures
        verdict == verdict_of(combinator, outcomes_of(rules, standing, context)),
{
    if rules.len() > 0 {
        let outcomes = outcomes_of(rules, standing, context);
        let run = choose|run: Seq<Outcome>|
            is_run(combinator, rules.len(), run) && permitted(rules, standing, context, run)
                && verdict == #[trigger] run.last();
        assert forall|i: int| 0 <= i < run.len() implies run[i] == outcomes[i] by {
            assert(permits(rules[i], standing, context, run[i]));
            assert(!(rules[i] is Custom));
        }
        lemma_run_of_outcomes(combinator, outcomes, run);
    }
}

/// `require_all` on built-in rules, for any records and any call: a set
/// that is not empty succeeds exactly if every rule of it succeeds; where
/// one fails, what is returned is the failure of the first rule that fails.
pub proof fn lemma_require_all<F: Fn(Identity) -> Outcome>(
    rules: Seq<Rule<F>>,
    standing: Standing,
    context: CallContext,
    verdict: Outcome,
)
    requires
        rules.len() > 0,
        all_builtin(rules),
        combined(Combinator::All, rules, standing, context, verdict),
    ensures
        verdict is Ok <==> forall|i: int|
            0 <= i < rules.len() ==> builtin_outcome(#[trigger] rules[i], standing, context) is Ok,
        verdict is Err ==> exists|first: int|
            0 <= first < rules.len() && verdict == builtin_outcome(
                #[trigger] rules[first],
                standing,
                context,
            ) && forall|i: int|
                0 <= i < first ==> builtin_outcome(#[trigger] rules[i], standing, context) is Ok,
{
    let outcomes = outcomes_of(rules, standing, context);
    lemma_builtin_verdict(Combinator::All, rules, standing, context, verdict);
    lemma_all_verdict(outcomes);
    assert forall|i: int| 0 <= i < rules.len() implies outcomes[i] == builtin_outcome(
        #[trigger] rules[i],
        standing,
        context,
    ) by {}
    if verdict is Ok {
        assert forall|i: int| 0 <= i < rules.len() implies builtin_outcome(
            #[trigger] rules[i],
            standing,
            context,
        ) is Ok by {
            assert(outcomes[i] is Ok);
        }
    } else {
        let first = first_stop(Combinator::All, outcomes);
        assert(verdict == builtin_outcome(rules[first], standing, context));
        assert forall|i: int| 0 <= i < first implies builtin_outcome(
            #[trigger] rules[i],
            standing,
            context,
        ) is Ok by {
            assert(outcomes[i] is Ok);
        }
    }
    if forall|i: int|
        0 <= i < rules.len() ==> builtin_outcome(#[trigger] rules[i], standing, context) is Ok {
        assert forall|i: int| 0 <= i < outcomes.len() implies #[trigger] outcomes[i] is Ok by {
            assert(builtin_outcome(rules[i], standing, context) is Ok);
        }
    }
}

/// `require_any` on built-in rules, for any records and any call: a set
/// that is not empty succeeds exactly if some rule of it succeeds; where
/// none does, what is returned is the failure of the last rule.
pub proof fn lemma_require_any<F: Fn(Identity) -> Outcome>(
    rules: Seq<Rule<F>>,
    standing: Standing,
    context: CallContext,
    verdict: Outcome,
)
    requires
        rules.len() > 0,
        all_builtin(rules),
        combined(Combinator::Any, rules, standing, context, verdict),
    ensures
        verdict is Ok <==> exists|i: int|
            0 <= i < rules.len() && builtin_outcome(#[trigger] rules[i], standing, context) is Ok,
        verdict is Err ==> verdict == builtin_outcome(rules.last(), standing, context),
{
    let outcomes = outcomes_of(rules, standing, context);
    lemma_builtin_verdict(Combinator::Any, rules, standing, context, verdict);
    lemma_any_verdict(outcomes);
    assert forall|i: int| 0 <= i < rules.len() implies outcomes[i] == builtin_outcome(
        #[trigger] rules[i],
        standing,
        context,
    ) by {}
    if verdict is Ok {
        let i = choose|i: int| 0 <= i < outcomes.len() && #[trigger] outcomes[i] is Ok;
        assert(builtin_outcome(rules[i], standing, context) is Ok);
    }
    if exists|i: int|
        0 <= i < rules.len() && builtin_outcome(#[trigger] rules[i], standing, context) is Ok {
        let i = choose|i: int|
            0 <= i < rules.len() && builtin_outcome(#[trigger] rules[i], standing, context) is Ok;
        assert(outcomes[i] is Ok);
    }
}

/// Evaluates the rules in order under the combinator, and returns the
/// verdict.
pub fn combine<F: Fn(Identity) -> Outcome>(
    combinator: Combinator,
    rules: &Vec<Rule<F>>,
    hierarchy: &Hierarchy,
    context: &CallContext,
) -> (verdict: Outcome)
    requires
        callable(rules@, *context),
    ensures
        combined(combinator, rules@, hierarchy@, *context, verdict),
        all_builtin(rules@) ==> verdict == verdict_of(
            combinator,
            outcomes_of(rules@, hierarchy@, *context),
        ),
{
    let mut progress = Evaluation::start(combinator, rules.len());
    loop
        invariant
            callable(rules@, *context),
            match progress {
                Progress::Done(verdict) => combined(combinator, rules@, hierarchy@, *context, verdict),
                Progress::Evaluate(evaluation) => evaluation.combinator() == combinator
                    && evaluation.total() == rules.len() && permitted(
                    rules@,
                    hierarchy@,
                    *context,
                    evaluation.seen(),
                ),
            },
        decreases
                match progress {
                    Progress::Done(_) => 0,
                    Progress::Evaluate(evaluation) => 1 + rules.len() - evaluation.seen().len(),
                },
    {
        match progress {
            Progress::Done(verdict) => {
                proof {
                    if all_builtin(rules@) {
                        lemma_builtin_verdict(combinator, rules@, hierarchy@, *context, verdict);
                    }
                }
                return verdict;
            },
            Progress::Evaluate(evaluation) => {
                let index = evaluation.index();
                let outcome = evaluate(&rules[index], hierarchy, context);
                let ghost run = evaluation.seen().push(outcome);
                assert(permitted(rules@, hierarchy@, *context, run));
                progress = evaluation.record(outcome);
                assert(progress matches Progress::Done(verdict) ==> verdict == run.last());
            },
        }
    }
}

/// Succeeds if every rule succeeds for the caller. The rules are evaluated
/// in order; the first failure is returned at once and no later rule is
/// evaluated. An empty set fails with `NoRulesDefined`.
pub fn require_all<F: Fn(Identity) -> Outcome>(
    rules: &Vec<Rule<F>>,
    hierarchy: &Hierarchy,
    context: &CallContext,
) -> (verdict: Outcome)
    requires
        callable(rules@, *context),
    ensures
        combined(Combinator::All, rules@, hierarchy@, *context, verdict),
        rules@.len() == 0 ==> verdict == refused(AuthError::NoRulesDefined),
        all_builtin(rules@) ==> verdict == verdict_of(
            Combinator::All,
            outcomes_of(rules@, hierarchy@, *context),
        ),
{
    combine(Combinator::All, rules, hierarchy, context)
}

/// Succeeds if one rule succeeds for the caller. The rules are evaluated in
/// order; the first success is returned at once and no later rule is
/// evaluated. Where all fail, the failure of the last rule is returned. An
/// empty set fails with `NoRulesDefined`.
pub fn require_any<F: Fn(Identity) -> Outcome>(
    rules: &Vec<Rule<F>>,
    hierarchy: &Hierarchy,
    context: &CallContext,
) -> (verdict: Outcome)
    requires
        callable(rules@, *context),
    ensures
        combined(Combinator::Any, rules@, hierarchy@, *context, verdict),
        rules@.len() == 0 ==> verdict == refused(AuthError::NoRulesDefined),
        all_builtin(rules@) ==> verdict == verdict_of(
            Combinator::Any,
            outcomes_of(rules@, hierarchy@, *context),
        ),
{
    combine(Combinator::Any, rules, hierarchy, context)
}

/// The words of a refusal.
pub open spec fn auth_message(error: AuthError) -> Seq<char> {
    match error {
        AuthError::Custom(words) => words@,
        AuthError::InvalidState => "invalid error state - this should never happen"@,
        AuthError::NoRootDefined => "the root canister is not defined"@,
        AuthError::NoRulesDefined => "one or more rules must be defined"@,
        AuthError::NoUserCanister => "there has to be a user canister defined in the schema"@,
        AuthError::NotAllowed => "this action is not allowed due to configuration settings"@,
        AuthError::NotOfRole(id, role) => principal_phrase(
            id,
            "' does not match canister type '"@ + role@ + "'"@,
        ),
        AuthError::NotChild(id) => principal_phrase(id, "' is not a child of this canister"@),
        AuthError::NotController(id) => principal_phrase(
            id,
            "' is not a controller of this canister"@,
        ),
        AuthError::NotParent(id) => principal_phrase(id, "' is not the parent of this canister"@),
        AuthError::NotRoot(id) => principal_phrase(id, "' is not root"@),
        AuthError::NotThis(id) => principal_phrase(id, "' is not the current canister"@),
    }
}

impl AuthError {
    /// The refusal in words.
    pub fn message(&self) -> (text: String)
        ensures
            text@ == auth_message(*self),
    {
        match self {
            AuthError::Custom(words) => words.clone(),
            AuthError::InvalidState => String::from_str(
                "invalid error state - this should never happen",
            ),
            AuthError::NoRootDefined => String::from_str("the root canister is not defined"),
            AuthError::NoRulesDefined => String::from_str("one or more rules must be defined"),
            AuthError::NoUserCanister => String::from_str(
                "there has to be a user canister defined in the schema",
            ),
            AuthError::NotAllowed => String::from_str(
                "this action is not allowed due to configuration settings",
            ),
            AuthError::NotOfRole(id, role) => {
                let mut rest = String::from_str("' does not match canister type '");
                rest.append(role.as_str());
                rest.append("'");
                id.phrase(rest.as_str())
            },
            AuthError::NotChild(id) => id.phrase("' is not a child of this canister"),
            AuthError::NotController(id) => id.phrase("' is not a controller of this canister"),
            AuthError::NotParent(id) => id.phrase("' is not the parent of this canister"),
            AuthError::NotRoot(id) => id.phrase("' is not root"),
            AuthError::NotThis(id) => id.phrase("' is not the current canister"),
        }
    }
}

} // verus!
