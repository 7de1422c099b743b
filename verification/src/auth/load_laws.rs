//! What holds of every load, whatever the calls it makes are answered.

use vstd::prelude::*;

use crate::auth::load::{
    after_fetch, after_retry, after_roles, failure_of, first_step, kept_denial, next_step,
    no_method, with_role, LoadMemoryView, LoadStepView, Registry,
};
use crate::auth::method::MethodErrorView;
use crate::model::config::MappingView;
use crate::model::provider::FailureView;

verus! {

/// The reply to one turn of a load.
pub enum LoadReplyView<S> {
    Fetch(Result<S, MethodErrorView>),
    Roles(Option<Seq<Seq<char>>>),
    Retry(Result<S, MethodErrorView>),
}

/// `step` waits for a reply of this kind.
pub open spec fn fits<S>(step: LoadStepView<S>, reply: LoadReplyView<S>) -> bool {
    match reply {
        LoadReplyView::Fetch(_) => step is Fetch,
        LoadReplyView::Roles(_) => step is Recover,
        LoadReplyView::Retry(_) => step is Retry,
    }
}

/// The step after `reply`.
pub open spec fn advance<S>(step: LoadStepView<S>, reply: LoadReplyView<S>) -> LoadStepView<S> {
    match reply {
        LoadReplyView::Fetch(r) => after_fetch(step->Fetch_memory, r),
        LoadReplyView::Roles(r) => after_roles(step->Recover_memory, step->context, r),
        LoadReplyView::Retry(r) => after_retry(step->Retry_memory, step->patched, r),
    }
}

/// The step a load has come to after these replies.
pub open spec fn run<S>(
    environments: Seq<MappingView>,
    registry: Registry,
    replies: Seq<LoadReplyView<S>>,
) -> LoadStepView<S>
    decreases replies.len(),
{
    if replies.len() == 0 {
        first_step(environments, registry)
    } else {
        advance(run(environments, registry, replies.drop_last()), replies.last())
    }
}

/// Each reply is of the kind the load waited for.
pub open spec fn is_run<S>(
    environments: Seq<MappingView>,
    registry: Registry,
    replies: Seq<LoadReplyView<S>>,
) -> bool
    decreases replies.len(),
{
    replies.len() == 0 || {
        &&& is_run(environments, registry, replies.drop_last())
        &&& fits(run(environments, registry, replies.drop_last()), replies.last())
    }
}

/// `m` is one of the Environments with another role, and otherwise as it is stored.
pub open spec fn corrects_one(environments: Seq<MappingView>, m: MappingView) -> bool {
    exists|i: int|
        0 <= i < environments.len() && m == with_role(#[trigger] environments[i], m.permission_set)
            && m.permission_set != environments[i].permission_set
}

/// What holds of a load on its way: each Environment before `next` gave a Set or a
/// failure, in order.
pub open spec fn sound<S>(
    memory: LoadMemoryView<S>,
    environments: Seq<MappingView>,
    registry: Registry,
) -> bool {
    &&& memory.environments == environments
    &&& memory.registry == registry
    &&& 0 <= memory.next <= environments.len()
    &&& memory.sets.len() + memory.failures.len() == memory.next
    &&& memory.corrected.len() <= memory.sets.len()
    &&& forall|i: int|
        0 <= i < memory.corrected.len() ==> corrects_one(environments, #[trigger] memory.corrected[i])
    &&& memory.failures.len() == 0 ==> forall|i: int|
        0 <= i < memory.next ==> (#[trigger] memory.sets[i]).0 == environments[i].environment
}

/// What holds of a step of a load.
pub open spec fn step_sound<S>(
    step: LoadStepView<S>,
    environments: Seq<MappingView>,
    registry: Registry,
) -> bool {
    match step {
        LoadStepView::Fetch { memory } => sound(memory, environments, registry) && memory.next
            < environments.len(),
        LoadStepView::Recover { memory, .. } => sound(memory, environments, registry)
            && memory.next < environments.len(),
        LoadStepView::Retry { memory, patched } => {
            &&& sound(memory, environments, registry)
            &&& memory.next < environments.len()
            &&& patched == with_role(memory.at_hand(), patched.permission_set)
            &&& patched.permission_set != memory.at_hand().permission_set
        },
        LoadStepView::Done(Ok(loaded)) => {
            &&& loaded.sets.len() == environments.len()
            &&& forall|i: int|
                0 <= i < environments.len() ==> (#[trigger] loaded.sets[i]).0
                    == environments[i].environment
            &&& forall|i: int|
                0 <= i < loaded.corrected.len() ==> corrects_one(
                    environments,
                    #[trigger] loaded.corrected[i],
                )
        },
        LoadStepView::Done(Err(failures)) => failures.len() > 0,
    }
}

proof fn lemma_next_step_sound<S>(
    memory: LoadMemoryView<S>,
    environments: Seq<MappingView>,
    registry: Registry,
)
    requires
        sound(memory, environments, registry),
    ensures
        step_sound(next_step(memory), environments, registry),
        rank(next_step(memory), environments.len()) <= 3 * (environments.len() - memory.next),
    decreases environments.len() - memory.next,
{
    if memory.next < environments.len() && registry.info(memory.at_hand().method) is None {
        let failure = no_method(memory.at_hand());
        lemma_with_failure_sound(memory, failure, environments, registry);
        lemma_next_step_sound(memory.with_failure(failure), environments, registry);
    }
}

proof fn lemma_with_failure_sound<S>(
    memory: LoadMemoryView<S>,
    failure: FailureView,
    environments: Seq<MappingView>,
    registry: Registry,
)
    requires
        sound(memory, environments, registry),
        memory.next < environments.len(),
    ensures
        sound(memory.with_failure(failure), environments, registry),
{
}

proof fn lemma_with_set_sound<S>(
    memory: LoadMemoryView<S>,
    set: S,
    environments: Seq<MappingView>,
    registry: Registry,
)
    requires
        sound(memory, environments, registry),
        memory.next < environments.len(),
    ensures
        sound(memory.with_set(set), environments, registry),
{
    let after = memory.with_set(set);
    if after.failures.len() == 0 {
        assert forall|i: int| 0 <= i < after.next implies (#[trigger] after.sets[i]).0
            == environments[i].environment by {
            if i < memory.next {
                assert(after.sets[i] == memory.sets[i]);
            }
        }
    }
}

proof fn lemma_with_corrected_sound<S>(
    memory: LoadMemoryView<S>,
    set: S,
    patched: MappingView,
    environments: Seq<MappingView>,
    registry: Registry,
)
    requires
        sound(memory, environments, registry),
        memory.next < environments.len(),
        patched == with_role(memory.at_hand(), patched.permission_set),
        patched.permission_set != memory.at_hand().permission_set,
    ensures
        sound(memory.with_corrected(set, patched), environments, registry),
{
    lemma_with_set_sound(memory, set, environments, registry);
    let after = memory.with_corrected(set, patched);
    assert(after.sets == memory.with_set(set).sets);
    assert(corrects_one(environments, patched)) by {
        assert(patched == with_role(environments[memory.next], patched.permission_set));
    }
    assert forall|i: int| 0 <= i < after.corrected.len() implies corrects_one(
        environments,
        #[trigger] after.corrected[i],
    ) by {
        if i < memory.corrected.len() {
            assert(after.corrected[i] == memory.corrected[i]);
        }
    }
}

/// How many replies a load takes at most from this step on.
pub open spec fn rank<S>(step: LoadStepView<S>, total: nat) -> int {
    match step {
        LoadStepView::Fetch { memory } => 3 * (total - memory.next),
        LoadStepView::Recover { memory, .. } => 3 * (total - memory.next) - 1,
        LoadStepView::Retry { memory, .. } => 3 * (total - memory.next) - 2,
        LoadStepView::Done(_) => 0,
    }
}

proof fn lemma_advance_sound<S>(
    step: LoadStepView<S>,
    reply: LoadReplyView<S>,
    environments: Seq<MappingView>,
    registry: Registry,
)
    requires
        step_sound(step, environments, registry),
        fits(step, reply),
    ensures
        step_sound(advance(step, reply), environments, registry),
        rank(advance(step, reply), environments.len()) < rank(step, environments.len()),
{
    match reply {
        LoadReplyView::Fetch(r) => {
            let memory = step->Fetch_memory;
            match r {
                Ok(set) => {
                    lemma_with_set_sound(memory, set, environments, registry);
                    lemma_next_step_sound(memory.with_set(set), environments, registry);
                },
                Err(e) => {
                    let failure = failure_of(memory.at_hand(), e);
                    lemma_with_failure_sound(memory, failure, environments, registry);
                    lemma_next_step_sound(memory.with_failure(failure), environments, registry);
                },
            }
        },
        LoadReplyView::Roles(names) => {
            let memory = step->Recover_memory;
            let failure = kept_denial(memory.at_hand(), step->context);
            lemma_with_failure_sound(memory, failure, environments, registry);
            lemma_next_step_sound(memory.with_failure(failure), environments, registry);
        },
        LoadReplyView::Retry(r) => {
            let memory = step->Retry_memory;
            match r {
                Ok(set) => {
                    lemma_with_corrected_sound(
                        memory,
                        set,
                        step->patched,
                        environments,
                        registry,
                    );
                    lemma_next_step_sound(
                        memory.with_corrected(set, step->patched),
                        environments,
                        registry,
                    );
                },
                Err(e) => {
                    let failure = failure_of(memory.at_hand(), e);
                    lemma_with_failure_sound(memory, failure, environments, registry);
                    lemma_next_step_sound(memory.with_failure(failure), environments, registry);
                },
            }
        },
    }
}

proof fn lemma_run_sound<S>(
    environments: Seq<MappingView>,
    registry: Registry,
    replies: Seq<LoadReplyView<S>>,
)
    requires
        is_run(environments, registry, replies),
    ensures
        step_sound(run(environments, registry, replies), environments, registry),
        rank(run(environments, registry, replies), environments.len()) + replies.len() <= 3
            * environments.len(),
    decreases replies.len(),
{
    if replies.len() == 0 {
        let start = LoadMemoryView::<S> {
            environments,
            registry,
            next: 0,
            sets: Seq::empty(),
            failures: Seq::empty(),
            corrected: Seq::empty(),
        };
        lemma_next_step_sound(start, environments, registry);
    } else {
        let before = replies.drop_last();
        lemma_run_sound(environments, registry, before);
        lemma_advance_sound(
            run(environments, registry, before),
            replies.last(),
            environments,
            registry,
        );
    }
}

/// There is never a partial matrix: a load that succeeds has the Set of every
/// Environment, under its name and in its place.
pub proof fn a_load_is_whole_or_nothing<S>(
    environments: Seq<MappingView>,
    registry: Registry,
    replies: Seq<LoadReplyView<S>>,
)
    requires
        is_run(environments, registry, replies),
        run(environments, registry, replies) is Done,
        run(environments, registry, replies)->Done_0 is Ok,
    ensures
        ({
            let sets = (run(environments, registry, replies)->Done_0)->Ok_0.sets;
            &&& sets.len() == environments.len()
            &&& forall|i: int|
                0 <= i < environments.len() ==> (#[trigger] sets[i]).0
                    == environments[i].environment
        }),
{
    lemma_run_sound(environments, registry, replies);
}

/// The Environment a step is at, by its place.
pub open spec fn place<S>(step: LoadStepView<S>) -> int {
    match step {
        LoadStepView::Fetch { memory } => memory.next,
        LoadStepView::Recover { memory, .. } => memory.next,
        LoadStepView::Retry { memory, .. } => memory.next,
        LoadStepView::Done(_) => -1,
    }
}

/// A reply that brings a Set.
pub open spec fn brings_set<S>(reply: LoadReplyView<S>) -> bool {
    match reply {
        LoadReplyView::Fetch(r) => r is Ok,
        LoadReplyView::Roles(_) => false,
        LoadReplyView::Retry(r) => r is Ok,
    }
}

/// Some reply brought the Set of the Environment at `e`.
pub open spec fn has_set<S>(
    environments: Seq<MappingView>,
    registry: Registry,
    replies: Seq<LoadReplyView<S>>,
    e: int,
) -> bool
    decreases replies.len(),
{
    replies.len() > 0 && {
        ||| has_set(environments, registry, replies.drop_last(), e)
        ||| place(run(environments, registry, replies.drop_last())) == e && brings_set(
            replies.last(),
        )
    }
}

/// The Environments before `n` that failed, by their places and in order: those no reply
/// brought the Set of.
pub open spec fn failed_before<S>(
    environments: Seq<MappingView>,
    registry: Registry,
    replies: Seq<LoadReplyView<S>>,
    n: int,
) -> Seq<int>
    decreases n,
{
    if n <= 0 {
        Seq::empty()
    } else if has_set(environments, registry, replies, n - 1) {
        failed_before(environments, registry, replies, n - 1)
    } else {
        failed_before(environments, registry, replies, n - 1).push(n - 1)
    }
}

/// There is one failure for each of these Environments, in their order, under its name.
pub open spec fn one_failure_each(
    failures: Seq<FailureView>,
    environments: Seq<MappingView>,
    failed: Seq<int>,
) -> bool {
    &&& failures.len() == failed.len()
    &&& forall|i: int|
        0 <= i < failures.len() ==> (#[trigger] failures[i]).environment
            == environments[failed[i]].environment
}

/// What a load on its way has noted of the Environments before `next`.
spec fn noted<S>(
    memory: LoadMemoryView<S>,
    environments: Seq<MappingView>,
    registry: Registry,
    replies: Seq<LoadReplyView<S>>,
) -> bool {
    &&& memory.environments == environments
    &&& memory.registry == registry
    &&& 0 <= memory.next <= environments.len()
    &&& forall|e: int|
        #[trigger] has_set(environments, registry, replies, e) ==> 0 <= e < memory.next
    &&& one_failure_each(
        memory.failures,
        environments,
        failed_before(environments, registry, replies, memory.next),
    )
}

/// What a step of a load has noted.
spec fn step_noted<S>(
    step: LoadStepView<S>,
    environments: Seq<MappingView>,
    registry: Registry,
    replies: Seq<LoadReplyView<S>>,
) -> bool {
    match step {
        LoadStepView::Fetch { memory } => noted(memory, environments, registry, replies)
            && memory.next < environments.len(),
        LoadStepView::Recover { memory, .. } => noted(memory, environments, registry, replies)
            && memory.next < environments.len(),
        LoadStepView::Retry { memory, .. } => noted(memory, environments, registry, replies)
            && memory.next < environments.len(),
        LoadStepView::Done(Ok(_)) => true,
        LoadStepView::Done(Err(failures)) => one_failure_each(
            failures,
            environments,
            failed_before(environments, registry, replies, environments.len() as int),
        ),
    }
}

proof fn lemma_failed_before_same<S>(
    environments: Seq<MappingView>,
    registry: Registry,
    a: Seq<LoadReplyView<S>>,
    b: Seq<LoadReplyView<S>>,
    n: int,
)
    requires
        forall|e: int|
            0 <= e < n ==> #[trigger] has_set(environments, registry, a, e) == has_set(
                environments,
                registry,
                b,
                e,
            ),
    ensures
        failed_before(environments, registry, a, n) == failed_before(environments, registry, b, n),
    decreases n,
{
    if n > 0 {
        assert(has_set(environments, registry, a, n - 1) == has_set(
            environments,
            registry,
            b,
            n - 1,
        ));
        lemma_failed_before_same(environments, registry, a, b, n - 1);
    }
}

proof fn lemma_next_step_noted<S>(
    memory: LoadMemoryView<S>,
    environments: Seq<MappingView>,
    registry: Registry,
    replies: Seq<LoadReplyView<S>>,
)
    requires
        noted(memory, environments, registry, replies),
    ensures
        step_noted(next_step(memory), environments, registry, replies),
    decreases environments.len() - memory.next,
{
    if memory.next < environments.len() && registry.info(memory.at_hand().method) is None {
        let failure = no_method(memory.at_hand());
        lemma_failure_noted(memory, failure, environments, registry, replies);
        lemma_next_step_noted(memory.with_failure(failure), environments, registry, replies);
    }
}

proof fn lemma_failure_noted<S>(
    memory: LoadMemoryView<S>,
    failure: FailureView,
    environments: Seq<MappingView>,
    registry: Registry,
    replies: Seq<LoadReplyView<S>>,
)
    requires
        noted(memory, environments, registry, replies),
        memory.next < environments.len(),
        failure.environment == memory.at_hand().environment,
    ensures
        noted(memory.with_failure(failure), environments, registry, replies),
{
    assert(!has_set(environments, registry, replies, memory.next));
}

proof fn lemma_run_noted<S>(
    environments: Seq<MappingView>,
    registry: Registry,
    replies: Seq<LoadReplyView<S>>,
)
    requires
        is_run(environments, registry, replies),
    ensures
        step_noted(run(environments, registry, replies), environments, registry, replies),
    decreases replies.len(),
{
    if replies.len() == 0 {
        let start = LoadMemoryView::<S> {
            environments,
            registry,
            next: 0,
            sets: Seq::empty(),
            failures: Seq::empty(),
            corrected: Seq::empty(),
        };
        lemma_next_step_noted(start, environments, registry, replies);
    } else {
        let before = replies.drop_last();
        let reply = replies.last();
        lemma_run_noted(environments, registry, before);
        let step = run(environments, registry, before);
        let memory = match step {
            LoadStepView::Fetch { memory } => memory,
            LoadStepView::Recover { memory, .. } => memory,
            LoadStepView::Retry { memory, .. } => memory,
            LoadStepView::Done(_) => arbitrary(),
        };
        let x = memory.next;
        assert forall|e: int| 0 <= e < x implies #[trigger] has_set(
            environments,
            registry,
            before,
            e,
        ) == has_set(environments, registry, replies, e) by {}
        lemma_failed_before_same(environments, registry, before, replies, x);
        assert forall|e: int| #[trigger] has_set(environments, registry, replies, e) implies 0 <= e
            <= x by {
            if e != x {
                assert(has_set(environments, registry, before, e));
            }
        }
        if brings_set(reply) {
            let after = match reply {
                LoadReplyView::Fetch(r) => memory.with_set(r->Ok_0),
                LoadReplyView::Retry(r) => memory.with_corrected(r->Ok_0, step->patched),
                LoadReplyView::Roles(_) => memory,
            };
            assert(has_set(environments, registry, replies, x));
            assert(noted(after, environments, registry, replies));
            lemma_next_step_noted(after, environments, registry, replies);
        } else {
            assert(!has_set(environments, registry, before, x));
            assert(noted(memory, environments, registry, replies));
            let failure = match reply {
                LoadReplyView::Fetch(r) => failure_of(memory.at_hand(), r->Err_0),
                LoadReplyView::Roles(_) => kept_denial(memory.at_hand(), step->context),
                LoadReplyView::Retry(r) => failure_of(memory.at_hand(), r->Err_0),
            };
            lemma_failure_noted(memory, failure, environments, registry, replies);
            lemma_next_step_noted(
                memory.with_failure(failure),
                environments,
                registry,
                replies,
            );
        }
    }
}

/// A load that fails has at least one failure, and exactly one for each Environment that
/// failed, in the Application's order and under that Environment's name.
pub proof fn a_failed_load_names_its_environments<S>(
    environments: Seq<MappingView>,
    registry: Registry,
    replies: Seq<LoadReplyView<S>>,
)
    requires
        is_run(environments, registry, replies),
        run(environments, registry, replies) is Done,
        run(environments, registry, replies)->Done_0 is Err,
    ensures
        ({
            let failures = (run(environments, registry, replies)->Done_0)->Err_0;
            let n = environments.len() as int;
            &&& failures.len() > 0
            &&& one_failure_each(
                failures,
                environments,
                failed_before(environments, registry, replies, n),
            )
        }),
{
    lemma_run_sound(environments, registry, replies);
    lemma_run_noted(environments, registry, replies);
}

/// A correction changes a role and nothing else.
pub proof fn a_correction_changes_the_role_alone<S>(
    environments: Seq<MappingView>,
    registry: Registry,
    replies: Seq<LoadReplyView<S>>,
)
    requires
        is_run(environments, registry, replies),
        run(environments, registry, replies) is Done,
        run(environments, registry, replies)->Done_0 is Ok,
    ensures
        ({
            let corrected = (run(environments, registry, replies)->Done_0)->Ok_0.corrected;
            forall|i: int|
                0 <= i < corrected.len() ==> corrects_one(environments, #[trigger] corrected[i])
        }),
{
    lemma_run_sound(environments, registry, replies);
}

/// A load ends: each Environment takes at most one fetch, one listing and one more
/// fetch.
pub proof fn a_load_ends<S>(
    environments: Seq<MappingView>,
    registry: Registry,
    replies: Seq<LoadReplyView<S>>,
)
    requires
        is_run(environments, registry, replies),
    ensures
        replies.len() <= 3 * environments.len(),
        replies.len() == 3 * environments.len() ==> run(environments, registry, replies) is Done,
{
    lemma_run_sound(environments, registry, replies);
}

/// No role is picked among several, and none where the listing failed, none is
/// granted, or the stored one is the only one: the denial is kept.
pub proof fn a_role_is_never_picked_among_several<S>(
    memory: LoadMemoryView<S>,
    context: Seq<char>,
    names: Option<Seq<Seq<char>>>,
)
    requires
        after_roles(memory, context, names) is Retry,
    ensures
        names is Some,
        names->0.len() == 1,
        names->0[0] != memory.at_hand().permission_set,
        after_roles(memory, context, names)->patched == with_role(memory.at_hand(), names->0[0]),
{
    lemma_next_step_no_retry(
        memory.with_failure(kept_denial(memory.at_hand(), context)),
    );
}

proof fn lemma_next_step_no_retry<S>(memory: LoadMemoryView<S>)
    ensures
        !(next_step(memory) is Retry),
    decreases memory.environments.len() - memory.next,
{
    if memory.next < memory.environments.len() && memory.registry.info(
        memory.at_hand().method,
    ) is None {
        lemma_next_step_no_retry(memory.with_failure(no_method(memory.at_hand())));
    }
}

} // verus!
