//! The aggregation policies of hooks, as functions of the plugins' answers,
//! and the step-by-step dispatch for hooks whose plugins must be awaited.
//!
//! A hook whose plugins can be called outright is run by the driver in a
//! loop. A hook whose plugins may have to wait for I/O cannot be run from
//! here: for those the driver only decides. The caller starts with no
//! answer, is told which plugin to invoke, invokes it, reports the answer,
//! and is told what comes next, until the hook is over.

use vstd::prelude::*;
use crate::error::Error;

verus! {

/// All-run: the first failure in registration order, or success.
pub open spec fn run_all_from<E>(answers: Seq<Result<(), E>>, from: int) -> Result<(), E>
    decreases answers.len() - from,
{
    if from < 0 || from >= answers.len() {
        Ok(())
    } else {
        match answers[from] {
            Ok(_) => run_all_from(answers, from + 1),
            Err(e) => Err(e),
        }
    }
}

/// All-run over all answers.
pub open spec fn run_all<E>(answers: Seq<Result<(), E>>) -> Result<(), E> {
    run_all_from(answers, 0)
}

/// First-match: the first answer in registration order that is a value or a
/// failure, or no value where every plugin passed.
pub open spec fn first_match_from<T, E>(answers: Seq<Result<Option<T>, E>>, from: int) -> Result<
    Option<T>,
    E,
>
    decreases answers.len() - from,
{
    if from < 0 || from >= answers.len() {
        Ok(None)
    } else {
        match answers[from] {
            Ok(None) => first_match_from(answers, from + 1),
            decided => decided,
        }
    }
}

/// First-match over all answers.
pub open spec fn first_match<T, E>(answers: Seq<Result<Option<T>, E>>) -> Result<Option<T>, E> {
    first_match_from(answers, 0)
}

/// Collect-all over the first `upto` answers: their items one after the
/// other in registration order, or the first failure.
pub open spec fn collect_all_upto<T, E>(answers: Seq<Result<Seq<T>, E>>, upto: int) -> Result<
    Seq<T>,
    E,
>
    decreases upto,
{
    if upto <= 0 || upto > answers.len() {
        Ok(Seq::empty())
    } else {
        match collect_all_upto(answers, upto - 1) {
            Err(e) => Err(e),
            Ok(items) => match answers[upto - 1] {
                Err(e) => Err(e),
                Ok(more) => Ok(items + more),
            },
        }
    }
}

/// Collect-all over all answers.
pub open spec fn collect_all<T, E>(answers: Seq<Result<Seq<T>, E>>) -> Result<Seq<T>, E> {
    collect_all_upto(answers, answers.len() as int)
}

/// All-run over plugins that work on a shared state, each on what the one
/// before it left: the state after the last plugin that ran, and success or
/// the first failure. A plugin that fails is the last to run.
pub open spec fn thread_all_from<P, S, E>(
    plugins: Seq<P>,
    hook: spec_fn(P, S) -> (S, Result<(), E>),
    state: S,
    from: int,
) -> (S, Result<(), E>)
    decreases plugins.len() - from,
{
    if from < 0 || from >= plugins.len() {
        (state, Ok(()))
    } else {
        let (next, r) = hook(plugins[from], state);
        match r {
            Ok(_) => thread_all_from(plugins, hook, next, from + 1),
            Err(e) => (next, Err(e)),
        }
    }
}

/// As `thread_all_from`, for hooks that may change the plugin too: the
/// plugins as the hook left them, the state, and success or the first failure.
pub open spec fn thread_all_mut_from<P, S, E>(
    plugins: Seq<P>,
    hook: spec_fn(P, S) -> (P, S, Result<(), E>),
    state: S,
    from: int,
) -> (Seq<P>, S, Result<(), E>)
    decreases plugins.len() - from,
{
    if from < 0 || from >= plugins.len() {
        (plugins, state, Ok(()))
    } else {
        let (plugin, next, r) = hook(plugins[from], state);
        match r {
            Ok(_) => thread_all_mut_from(plugins.update(from, plugin), hook, next, from + 1),
            Err(e) => (plugins.update(from, plugin), next, Err(e)),
        }
    }
}

/// The position of the first failure among the answers, or their number
/// where none failed.
pub open spec fn first_failure<E>(answers: Seq<Result<(), E>>, from: int) -> int
    decreases answers.len() - from,
{
    if from < 0 || from >= answers.len() {
        answers.len() as int
    } else if answers[from] is Err {
        from
    } else {
        first_failure(answers, from + 1)
    }
}

/// All-run succeeds exactly when no plugin failed; where one failed, the
/// failure is that of the first plugin that did, and no plugin before it failed.
pub proof fn lemma_run_all(answers: Seq<Result<(), Error>>, from: int)
    requires
        0 <= from <= answers.len(),
    ensures
        from <= first_failure(answers, from) <= answers.len(),
        forall|j: int| from <= j < first_failure(answers, from) ==> answers[j] is Ok,
        first_failure(answers, from) < answers.len() ==> answers[first_failure(answers, from)]
            is Err && run_all_from(answers, from) == answers[first_failure(answers, from)],
        first_failure(answers, from) == answers.len() ==> run_all_from(answers, from) is Ok,
    decreases answers.len() - from,
{
    if from < answers.len() && answers[from] is Ok {
        lemma_run_all(answers, from + 1);
    }
}

/// First-match returns the answer of the first plugin that did not pass:
/// every plugin before it passed, and no plugin after it counts.
pub proof fn lemma_first_match<T>(answers: Seq<Result<Option<T>, Error>>, at: int)
    requires
        0 <= at < answers.len(),
        forall|j: int| 0 <= j < at ==> answers[j] == Ok::<Option<T>, Error>(None),
        answers[at] != Ok::<Option<T>, Error>(None),
    ensures
        first_match(answers) == answers[at],
{
    lemma_first_match_skip(answers, 0, at);
}

/// First-match from `from` on is first-match from `to` on where every plugin
/// between the two passed.
pub proof fn lemma_first_match_skip<T, E>(answers: Seq<Result<Option<T>, E>>, from: int, to: int)
    requires
        0 <= from <= to <= answers.len(),
        forall|j: int| from <= j < to ==> answers[j] == Ok::<Option<T>, E>(None),
    ensures
        first_match_from(answers, from) == first_match_from(answers, to),
    decreases to - from,
{
    if from < to {
        lemma_first_match_skip(answers, from + 1, to);
    }
}

/// Where every plugin passed, first-match finds nothing.
pub proof fn lemma_first_match_none<T, E>(answers: Seq<Result<Option<T>, E>>)
    requires
        forall|j: int| 0 <= j < answers.len() ==> answers[j] == Ok::<Option<T>, E>(None),
    ensures
        first_match(answers) == Ok::<Option<T>, E>(None),
{
    lemma_first_match_skip(answers, 0, answers.len() as int);
}

/// Collect-all over answers that all succeeded keeps every item of every
/// answer: whatever a plugin contributed is in the result, and an answer
/// without items takes nothing away.
pub proof fn lemma_collect_all_keeps<T, E>(
    answers: Seq<Result<Seq<T>, E>>,
    upto: int,
    from: int,
    item: T,
)
    requires
        0 <= from < upto <= answers.len(),
        forall|j: int| 0 <= j < upto ==> answers[j] is Ok,
        answers[from]->Ok_0.contains(item),
    ensures
        collect_all_upto(answers, upto) is Ok,
        collect_all_upto(answers, upto)->Ok_0.contains(item),
    decreases upto,
{
    lemma_collect_all_ok(answers, upto - 1);
    let before = collect_all_upto(answers, upto - 1)->Ok_0;
    let last = answers[upto - 1]->Ok_0;
    if from < upto - 1 {
        lemma_collect_all_keeps(answers, upto - 1, from, item);
        let i = choose|i: int| 0 <= i < before.len() && before[i] == item;
        assert((before + last)[i] == item);
    } else {
        let i = choose|i: int| 0 <= i < last.len() && last[i] == item;
        assert((before + last)[before.len() + i] == item);
    }
}

/// Collect-all over answers that all succeeded succeeds.
pub proof fn lemma_collect_all_ok<T, E>(answers: Seq<Result<Seq<T>, E>>, upto: int)
    requires
        0 <= upto <= answers.len(),
        forall|j: int| 0 <= j < upto ==> answers[j] is Ok,
    ensures
        collect_all_upto(answers, upto) is Ok,
    decreases upto,
{
    if upto > 0 {
        lemma_collect_all_ok(answers, upto - 1);
    }
}

/// What the caller of a step-by-step hook does next.
#[derive(Debug)]
pub enum HookStep<T> {
    /// Invoke the plugin at this position and report its answer.
    Invoke(usize),
    /// The hook is over, with this result.
    Done(T),
}

/// The next step of an all-run hook over `count` plugins, after `last`: the
/// position and answer of the plugin that was invoked last, or nothing at
/// the start.
pub open spec fn run_all_next(count: nat, last: Option<(usize, Result<(), Error>)>) -> HookStep<
    Result<(), Error>,
> {
    match last {
        None => if count > 0 {
            HookStep::Invoke(0)
        } else {
            HookStep::Done(Ok(()))
        },
        Some((asked, Ok(_))) => if asked + 1 < count {
            HookStep::Invoke((asked + 1) as usize)
        } else {
            HookStep::Done(Ok(()))
        },
        Some((_, Err(e))) => HookStep::Done(Err(e)),
    }
}

/// The next step of a first-match hook over `count` plugins, after `last`.
pub open spec fn first_match_next<T>(
    count: nat,
    last: Option<(usize, Result<Option<T>, Error>)>,
) -> HookStep<Result<Option<T>, Error>> {
    match last {
        None => if count > 0 {
            HookStep::Invoke(0)
        } else {
            HookStep::Done(Ok(None))
        },
        Some((asked, Ok(None))) => if asked + 1 < count {
            HookStep::Invoke((asked + 1) as usize)
        } else {
            HookStep::Done(Ok(None))
        },
        Some((_, decided)) => HookStep::Done(decided),
    }
}

/// Decides the next step of an all-run hook.
pub fn run_all_step(count: usize, last: Option<(usize, Result<(), Error>)>) -> (step: HookStep<
    Result<(), Error>,
>)
    ensures
        step == run_all_next(count as nat, last),
{
    match last {
        None => if count > 0 {
            HookStep::Invoke(0)
        } else {
            HookStep::Done(Ok(()))
        },
        Some((asked, Ok(_))) => if asked < count && asked + 1 < count {
            HookStep::Invoke(asked + 1)
        } else {
            HookStep::Done(Ok(()))
        },
        Some((_, Err(e))) => HookStep::Done(Err(e)),
    }
}

/// Decides the next step of a first-match hook.
pub fn first_match_step<T>(count: usize, last: Option<(usize, Result<Option<T>, Error>)>) -> (step:
    HookStep<Result<Option<T>, Error>>)
    ensures
        step == first_match_next(count as nat, last),
{
    match last {
        None => if count > 0 {
            HookStep::Invoke(0)
        } else {
            HookStep::Done(Ok(None))
        },
        Some((asked, Ok(None))) => if asked < count && asked + 1 < count {
            HookStep::Invoke(asked + 1)
        } else {
            HookStep::Done(Ok(None))
        },
        Some((_, decided)) => HookStep::Done(decided),
    }
}

/// Step-by-step all-run dispatch does what all-run says. Given the answers
/// that the plugins would give, and a plugin `at` before which no plugin
/// failed: after that plugin's answer the hook either goes on to the next
/// plugin, or is over with the all-run result of the answers.
pub proof fn lemma_run_all_dispatch(answers: Seq<Result<(), Error>>, at: int)
    requires
        0 <= at < answers.len() <= usize::MAX,
        forall|j: int| 0 <= j < at ==> answers[j] is Ok,
    ensures
        run_all_next(answers.len(), Some((at as usize, answers[at]))) == if answers[at] is Ok && at
            + 1 < answers.len() {
            HookStep::<Result<(), Error>>::Invoke((at + 1) as usize)
        } else {
            HookStep::<Result<(), Error>>::Done(run_all(answers))
        },
        answers.len() > 0 ==> run_all_next(answers.len(), None) == HookStep::<
            Result<(), Error>,
        >::Invoke(0),
{
    lemma_run_all(answers, 0);
    let first = first_failure(answers, 0);
    if answers[at] is Err {
        assert(first == at) by {
            if first > at {
                assert(answers[at] is Ok);
            }
        }
        assert(run_all(answers) == answers[at]);
    } else if at + 1 >= answers.len() {
        assert(first == answers.len()) by {
            if first < answers.len() {
                assert(answers[first] is Err);
            }
        }
        lemma_unit_ok(run_all(answers));
    }
}

/// A success that carries nothing is the one such success.
pub proof fn lemma_unit_ok<E>(r: Result<(), E>)
    requires
        r is Ok,
    ensures
        r == Ok::<(), E>(()),
{
    assert(r->Ok_0 == ());
}

/// Step-by-step first-match dispatch does what first-match says. Given the
/// answers that the plugins would give, and a plugin `at` before which every
/// plugin passed: after that plugin's answer the hook either goes on to the
/// next plugin, or is over with the first-match result of the answers.
pub proof fn lemma_first_match_dispatch<T>(answers: Seq<Result<Option<T>, Error>>, at: int)
    requires
        0 <= at < answers.len() <= usize::MAX,
        forall|j: int| 0 <= j < at ==> answers[j] == Ok::<Option<T>, Error>(None),
    ensures
        first_match_next(answers.len(), Some((at as usize, answers[at]))) == if answers[at] == Ok::<
            Option<T>,
            Error,
        >(None) && at + 1 < answers.len() {
            HookStep::<Result<Option<T>, Error>>::Invoke((at + 1) as usize)
        } else {
            HookStep::<Result<Option<T>, Error>>::Done(first_match(answers))
        },
{
    if answers[at] == Ok::<Option<T>, Error>(None) {
        if at + 1 >= answers.len() {
            lemma_first_match_none(answers);
        }
    } else {
        lemma_first_match(answers, at);
    }
}

/// The stages at which plugins may work on the assets, in the order in
/// which they run.
#[derive(Clone, Copy, Debug, PartialEq, Eq, Structural, Hash)]
pub enum ProcessAssetsStage {
    Additional,
    PreProcess,
    /// The stage of work that asks for no stage in particular.
    Unstaged,
    OptimizeSize,
    DevTooling,
    OptimizeInline,
    Summarize,
    Report,
}

impl ProcessAssetsStage {
    /// The stage's place in the order, from 0.
    pub open spec fn rank(self) -> nat {
        match self {
            ProcessAssetsStage::Additional => 0,
            ProcessAssetsStage::PreProcess => 1,
            ProcessAssetsStage::Unstaged => 2,
            ProcessAssetsStage::OptimizeSize => 3,
            ProcessAssetsStage::DevTooling => 4,
            ProcessAssetsStage::OptimizeInline => 5,
            ProcessAssetsStage::Summarize => 6,
            ProcessAssetsStage::Report => 7,
        }
    }

    /// The stage that follows, if any.
    pub open spec fn successor(self) -> Option<ProcessAssetsStage> {
        match self {
            ProcessAssetsStage::Additional => Some(ProcessAssetsStage::PreProcess),
            ProcessAssetsStage::PreProcess => Some(ProcessAssetsStage::Unstaged),
            ProcessAssetsStage::Unstaged => Some(ProcessAssetsStage::OptimizeSize),
            ProcessAssetsStage::OptimizeSize => Some(ProcessAssetsStage::DevTooling),
            ProcessAssetsStage::DevTooling => Some(ProcessAssetsStage::OptimizeInline),
            ProcessAssetsStage::OptimizeInline => Some(ProcessAssetsStage::Summarize),
            ProcessAssetsStage::Summarize => Some(ProcessAssetsStage::Report),
            ProcessAssetsStage::Report => None,
        }
    }

    /// The stage that follows, if any.
    pub fn next(self) -> (n: Option<ProcessAssetsStage>)
        ensures
            n == self.successor(),
    {
        match self {
            ProcessAssetsStage::Additional => Some(ProcessAssetsStage::PreProcess),
            ProcessAssetsStage::PreProcess => Some(ProcessAssetsStage::Unstaged),
            ProcessAssetsStage::Unstaged => Some(ProcessAssetsStage::OptimizeSize),
            ProcessAssetsStage::OptimizeSize => Some(ProcessAssetsStage::DevTooling),
            ProcessAssetsStage::DevTooling => Some(ProcessAssetsStage::OptimizeInline),
            ProcessAssetsStage::OptimizeInline => Some(ProcessAssetsStage::Summarize),
            ProcessAssetsStage::Summarize => Some(ProcessAssetsStage::Report),
            ProcessAssetsStage::Report => None,
        }
    }
}

/// What the caller of the staged asset hook does next.
#[derive(Debug)]
pub enum StageStep {
    /// Run this stage of the plugin at this position and report its answer.
    Invoke(ProcessAssetsStage, usize),
    /// The hook is over, with this result.
    Done(Result<(), Error>),
}

/// The next step of the staged asset hook over `count` plugins, after
/// `last`: the stage, position and answer of the call made last, or nothing
/// at the start. Within a stage the plugins run in registration order; a
/// stage begins only when the stage before it is through; a failure ends
/// the hook.
pub open spec fn process_assets_next(
    count: nat,
    last: Option<(ProcessAssetsStage, usize, Result<(), Error>)>,
) -> StageStep {
    match last {
        None => if count > 0 {
            StageStep::Invoke(ProcessAssetsStage::Additional, 0)
        } else {
            StageStep::Done(Ok(()))
        },
        Some((stage, asked, Ok(_))) => if asked + 1 < count {
            StageStep::Invoke(stage, (asked + 1) as usize)
        } else {
            match stage.successor() {
                Some(following) => if count > 0 {
                    StageStep::Invoke(following, 0)
                } else {
                    StageStep::Done(Ok(()))
                },
                None => StageStep::Done(Ok(())),
            }
        },
        Some((_, _, Err(e))) => StageStep::Done(Err(e)),
    }
}

/// Decides the next step of the staged asset hook.
pub fn process_assets_step(
    count: usize,
    last: Option<(ProcessAssetsStage, usize, Result<(), Error>)>,
) -> (step: StageStep)
    ensures
        step == process_assets_next(count as nat, last),
{
    match last {
        None => if count > 0 {
            StageStep::Invoke(ProcessAssetsStage::Additional, 0)
        } else {
            StageStep::Done(Ok(()))
        },
        Some((stage, asked, Ok(_))) => if asked < count && asked + 1 < count {
            StageStep::Invoke(stage, asked + 1)
        } else {
            match stage.next() {
                Some(following) => if count > 0 {
                    StageStep::Invoke(following, 0)
                } else {
                    StageStep::Done(Ok(()))
                },
                None => StageStep::Done(Ok(())),
            }
        },
        Some((_, _, Err(e))) => StageStep::Done(Err(e)),
    }
}

/// Where a call stands in the order of all calls of the staged hook: stage
/// by stage, and within a stage plugin by plugin.
pub open spec fn stage_call_rank(count: nat, stage: ProcessAssetsStage, plugin: usize) -> int {
    stage.rank() * count + plugin
}

/// The staged hook keeps a fixed order: after a call that succeeded, the
/// next call is the very next one stage by stage and plugin by plugin, so
/// every plugin is through with a stage before any plugin begins the next.
/// The hook ends after the last plugin's last stage, or at the first failure.
pub proof fn lemma_process_assets_order(
    count: nat,
    stage: ProcessAssetsStage,
    plugin: usize,
    answer: Result<(), Error>,
)
    requires
        plugin < count <= usize::MAX,
    ensures
        match process_assets_next(count, Some((stage, plugin, answer))) {
            StageStep::Invoke(next_stage, next_plugin) => answer is Ok && next_plugin < count
                && stage_call_rank(count, next_stage, next_plugin) == stage_call_rank(
                count,
                stage,
                plugin,
            ) + 1,
            StageStep::Done(r) => r == answer && (answer is Ok ==> stage
                == ProcessAssetsStage::Report && plugin + 1 == count),
        },
{
    if answer is Ok {
        lemma_unit_ok(answer);
    }
    if answer is Ok && plugin + 1 >= count {
        match stage.successor() {
            Some(following) => {
                assert(following.rank() == stage.rank() + 1);
                assert(following.rank() * count == stage.rank() * count + count)
                    by (nonlinear_arith)
                    requires
                        following.rank() == stage.rank() + 1,
                ;
            },
            None => {},
        }
    }
}

} // verus!
