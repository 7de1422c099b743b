//! What a load reports, told by the replies to the calls it made for each Environment.

use vstd::prelude::*;

use crate::auth::error::SessionErrorView;
use crate::auth::load::{
    failure_of, kept_denial, next_step, no_method, LoadMemoryView, LoadStepView, Registry,
};
use crate::auth::load_laws::{advance, brings_set, fits, is_run, place, run, LoadReplyView};
use crate::auth::method::MethodErrorView;
use crate::model::config::{MappingView, Method};
use crate::model::provider::{FailureView, FetchFailReason};

verus! {

/// The replies that were taken while the load was at the Environment `e`, in order.
pub open spec fn story<S>(
    environments: Seq<MappingView>,
    registry: Registry,
    replies: Seq<LoadReplyView<S>>,
    e: int,
) -> Seq<LoadReplyView<S>>
    decreases replies.len(),
{
    if replies.len() == 0 {
        Seq::empty()
    } else {
        let before = story(environments, registry, replies.drop_last(), e);
        if place(run(environments, registry, replies.drop_last())) == e {
            before.push(replies.last())
        } else {
            before
        }
    }
}

/// What became of one Environment: its Set, and the role it was read with where that is
/// not the stored one; or a failure; or nothing yet.
pub enum SettledView<S> {
    Fetched { set: S, role: Option<Seq<char>> },
    Failed(FailureView),
    Open,
}

/// The Method of a Mapping is registered.
pub open spec fn is_registered(registry: Registry, m: MappingView) -> bool {
    match m.method {
        Method::SecretsManager => registry.secrets_manager is Some,
        Method::SsmDotenv => registry.ssm_dotenv is Some,
    }
}

/// This fetch was denied because the role is not granted.
pub open spec fn is_role_denial<S>(reply: LoadReplyView<S>) -> bool {
    reply matches LoadReplyView::Fetch(Err(MethodErrorView::Session(e))) && e is RoleNotEntitled
}

/// What the denial of a role said.
pub open spec fn denial_text<S>(reply: LoadReplyView<S>) -> Seq<char> {
    match reply {
        LoadReplyView::Fetch(Err(MethodErrorView::Session(SessionErrorView::RoleNotEntitled {
            context,
        }))) => context,
        _ => Seq::empty(),
    }
}

/// This listing has exactly one role, and another than the stored one.
pub open spec fn names_another_role<S>(reply: LoadReplyView<S>, m: MappingView) -> bool {
    reply matches LoadReplyView::Roles(Some(names)) && names.len() == 1 && names[0]
        != m.permission_set
}

/// What an Environment comes to by the replies it got: a Set that was fetched is its Set;
/// a role that is not granted is replaced where the account grants exactly one other, and
/// else stays a denial; any other error is its failure, by that error's reason and
/// detail. Without a registered Method it fails unasked.
pub open spec fn settled<S>(
    m: MappingView,
    registered: bool,
    replies: Seq<LoadReplyView<S>>,
) -> SettledView<S> {
    if !registered {
        SettledView::Failed(
            FailureView {
                environment: m.environment,
                reason: FetchFailReason::Other,
                detail: "no method configured for this Environment"@,
            },
        )
    } else if replies.len() == 1 && !is_role_denial(replies[0]) {
        match replies[0] {
            LoadReplyView::Fetch(Ok(set)) => SettledView::Fetched { set, role: None },
            LoadReplyView::Fetch(Err(e)) => SettledView::Failed(
                FailureView {
                    environment: m.environment,
                    reason: e.reason(),
                    detail: e.detail(),
                },
            ),
            _ => SettledView::Open,
        }
    } else if replies.len() == 2 && is_role_denial(replies[0]) && !names_another_role(
        replies[1],
        m,
    ) {
        SettledView::Failed(
            FailureView {
                environment: m.environment,
                reason: FetchFailReason::AccessDenied,
                detail: denial_text(replies[0]),
            },
        )
    } else if replies.len() == 3 && is_role_denial(replies[0]) && names_another_role(
        replies[1],
        m,
    ) {
        match replies[2] {
            LoadReplyView::Retry(Ok(set)) => SettledView::Fetched {
                set,
                role: Some(replies[1]->Roles_0->0[0]),
            },
            LoadReplyView::Retry(Err(e)) => SettledView::Failed(
                FailureView {
                    environment: m.environment,
                    reason: e.reason(),
                    detail: e.detail(),
                },
            ),
            _ => SettledView::Open,
        }
    } else {
        SettledView::Open
    }
}

/// What became of the Environment at `e`.
pub open spec fn settled_at<S>(
    environments: Seq<MappingView>,
    registry: Registry,
    replies: Seq<LoadReplyView<S>>,
    e: int,
) -> SettledView<S> {
    settled(
        environments[e],
        is_registered(registry, environments[e]),
        story(environments, registry, replies, e),
    )
}

/// The Sets of the Environments before `n`, each under its name, in order.
pub open spec fn sets_of<S>(
    environments: Seq<MappingView>,
    registry: Registry,
    replies: Seq<LoadReplyView<S>>,
    n: int,
) -> Seq<(Seq<char>, S)>
    decreases n,
{
    if n <= 0 {
        Seq::empty()
    } else {
        let before = sets_of(environments, registry, replies, n - 1);
        match settled_at(environments, registry, replies, n - 1) {
            SettledView::Fetched { set, .. } => before.push((environments[n - 1].environment, set)),
            _ => before,
        }
    }
}

/// The failures of the Environments before `n`, in order.
pub open spec fn failures_of<S>(
    environments: Seq<MappingView>,
    registry: Registry,
    replies: Seq<LoadReplyView<S>>,
    n: int,
) -> Seq<FailureView>
    decreases n,
{
    if n <= 0 {
        Seq::empty()
    } else {
        let before = failures_of(environments, registry, replies, n - 1);
        match settled_at(environments, registry, replies, n - 1) {
            SettledView::Failed(failure) => before.push(failure),
            _ => before,
        }
    }
}

/// The Environments before `n` that were read with another role, each with that role and
/// otherwise as it is stored, in order.
pub open spec fn corrections_of<S>(
    environments: Seq<MappingView>,
    registry: Registry,
    replies: Seq<LoadReplyView<S>>,
    n: int,
) -> Seq<MappingView>
    decreases n,
{
    if n <= 0 {
        Seq::empty()
    } else {
        let before = corrections_of(environments, registry, replies, n - 1);
        match settled_at(environments, registry, replies, n - 1) {
            SettledView::Fetched { role: Some(role), .. } => before.push(
                MappingView { permission_set: role, ..environments[n - 1] },
            ),
            _ => before,
        }
    }
}

/// A load on its way has noted exactly what became of the Environments before `next`.
spec fn told<S>(
    memory: LoadMemoryView<S>,
    environments: Seq<MappingView>,
    registry: Registry,
    replies: Seq<LoadReplyView<S>>,
) -> bool {
    &&& memory.environments == environments
    &&& memory.registry == registry
    &&& 0 <= memory.next <= environments.len()
    &&& memory.sets == sets_of(environments, registry, replies, memory.next)
    &&& memory.failures == failures_of(environments, registry, replies, memory.next)
    &&& memory.corrected == corrections_of(environments, registry, replies, memory.next)
    &&& forall|e: int|
        0 <= e < memory.next ==> !(#[trigger] settled_at(
            environments,
            registry,
            replies,
            e,
        ) is Open)
}

/// No reply was taken at an Environment from `n` on.
spec fn untold_from<S>(
    environments: Seq<MappingView>,
    registry: Registry,
    replies: Seq<LoadReplyView<S>>,
    n: int,
) -> bool {
    forall|e: int| e >= n ==> (#[trigger] story(environments, registry, replies, e)).len() == 0
}

spec fn step_told<S>(
    step: LoadStepView<S>,
    environments: Seq<MappingView>,
    registry: Registry,
    replies: Seq<LoadReplyView<S>>,
) -> bool {
    match step {
        LoadStepView::Fetch { memory } => {
            &&& told(memory, environments, registry, replies)
            &&& memory.next < environments.len()
            &&& is_registered(registry, environments[memory.next])
            &&& untold_from(environments, registry, replies, memory.next)
        },
        LoadStepView::Recover { memory, context } => {
            let here = story(environments, registry, replies, memory.next);
            &&& told(memory, environments, registry, replies)
            &&& memory.next < environments.len()
            &&& is_registered(registry, environments[memory.next])
            &&& untold_from(environments, registry, replies, memory.next + 1)
            &&& here.len() == 1
            &&& is_role_denial(here[0])
            &&& denial_text(here[0]) == context
        },
        LoadStepView::Retry { memory, patched } => {
            let here = story(environments, registry, replies, memory.next);
            &&& told(memory, environments, registry, replies)
            &&& memory.next < environments.len()
            &&& is_registered(registry, environments[memory.next])
            &&& untold_from(environments, registry, replies, memory.next + 1)
            &&& here.len() == 2
            &&& is_role_denial(here[0])
            &&& names_another_role(here[1], environments[memory.next])
            &&& patched == (MappingView {
                permission_set: here[1]->Roles_0->0[0],
                ..environments[memory.next]
            })
        },
        LoadStepView::Done(end) => {
            let n = environments.len() as int;
            &&& forall|e: int|
                0 <= e < n ==> !(#[trigger] settled_at(
                    environments,
                    registry,
                    replies,
                    e,
                ) is Open)
            &&& match end {
                Ok(loaded) => {
                    &&& loaded.sets == sets_of(environments, registry, replies, n)
                    &&& loaded.corrected == corrections_of(environments, registry, replies, n)
                    &&& failures_of(environments, registry, replies, n).len() == 0
                },
                Err(failures) => failures.len() > 0 && failures == failures_of(
                    environments,
                    registry,
                    replies,
                    n,
                ),
            }
        },
    }
}

proof fn lemma_next_step_told<S>(
    memory: LoadMemoryView<S>,
    environments: Seq<MappingView>,
    registry: Registry,
    replies: Seq<LoadReplyView<S>>,
)
    requires
        told(memory, environments, registry, replies),
        untold_from(environments, registry, replies, memory.next),
    ensures
        step_told(next_step(memory), environments, registry, replies),
    decreases environments.len() - memory.next,
{
    if memory.next < environments.len() && registry.info(memory.at_hand().method) is None {
        let failure = no_method(memory.at_hand());
        let after = memory.with_failure(failure);
        assert(settled_at(environments, registry, replies, memory.next) == SettledView::<
            S,
        >::Failed(failure));
        assert(told(after, environments, registry, replies));
        lemma_next_step_told(after, environments, registry, replies);
    }
}

proof fn lemma_same_before<S>(
    environments: Seq<MappingView>,
    registry: Registry,
    a: Seq<LoadReplyView<S>>,
    b: Seq<LoadReplyView<S>>,
    n: int,
)
    requires
        forall|e: int|
            0 <= e < n ==> #[trigger] story(environments, registry, a, e) == story(
                environments,
                registry,
                b,
                e,
            ),
    ensures
        sets_of(environments, registry, a, n) == sets_of(environments, registry, b, n),
        failures_of(environments, registry, a, n) == failures_of(environments, registry, b, n),
        corrections_of(environments, registry, a, n) == corrections_of(
            environments,
            registry,
            b,
            n,
        ),
    decreases n,
{
    if n > 0 {
        assert(story(environments, registry, a, n - 1) == story(
            environments,
            registry,
            b,
            n - 1,
        ));
        lemma_same_before(environments, registry, a, b, n - 1);
    }
}

proof fn lemma_told<S>(
    environments: Seq<MappingView>,
    registry: Registry,
    replies: Seq<LoadReplyView<S>>,
)
    requires
        is_run(environments, registry, replies),
    ensures
        step_told(run(environments, registry, replies), environments, registry, replies),
    decreases replies.len(),
{
    if replies.len() == 0 {
        let start = LoadMemoryView::<S> {
            environments,
            registry,
            next: 0,
            sets: Seq::empty(),
            failures: Seq::empty(),
            corrected: Seq::empty(),
        };
        lemma_next_step_told(start, environments, registry, replies);
    } else {
        let before = replies.drop_last();
        let reply = replies.last();
        lemma_told(environments, registry, before);
        let step = run(environments, registry, before);
        let memory = match step {
            LoadStepView::Fetch { memory } => memory,
            LoadStepView::Recover { memory, .. } => memory,
            LoadStepView::Retry { memory, .. } => memory,
            LoadStepView::Done(_) => arbitrary(),
        };
        let x = memory.next;
        assert(place(step) == x);
        assert forall|e: int| e != x implies #[trigger] story(environments, registry, before, e)
            == story(environments, registry, replies, e) by {}
        lemma_same_before(environments, registry, before, replies, x);
        assert forall|e: int| 0 <= e < x implies !(#[trigger] settled_at(
            environments,
            registry,
            replies,
            e,
        ) is Open) by {
            assert(!(settled_at(environments, registry, before, e) is Open));
            assert(story(environments, registry, before, e) == story(
                environments,
                registry,
                replies,
                e,
            ));
        }
        assert(told(memory, environments, registry, replies));
        assert(untold_from(environments, registry, replies, x + 1)) by {
            assert forall|e: int| e >= x + 1 implies (#[trigger] story(
                environments,
                registry,
                replies,
                e,
            )).len() == 0 by {
                assert(story(environments, registry, before, e).len() == 0);
            }
        }
        let was = story(environments, registry, before, x);
        let here = story(environments, registry, replies, x);
        assert(here == was.push(reply));
        let next = run(environments, registry, replies);
        assert(next == advance(step, reply));
        if brings_set(reply) {
            let after = match reply {
                LoadReplyView::Fetch(r) => memory.with_set(r->Ok_0),
                LoadReplyView::Retry(r) => memory.with_corrected(r->Ok_0, step->patched),
                LoadReplyView::Roles(_) => memory,
            };
            assert(settled_at(environments, registry, replies, x) is Fetched);
            assert(told(after, environments, registry, replies));
            lemma_next_step_told(after, environments, registry, replies);
        } else if is_role_denial(reply) {
            assert(next is Recover);
        } else if reply is Roles && names_another_role(reply, environments[x]) {
            assert(next is Retry);
        } else {
            let failure = match reply {
                LoadReplyView::Fetch(r) => failure_of(memory.at_hand(), r->Err_0),
                LoadReplyView::Roles(_) => kept_denial(memory.at_hand(), step->context),
                LoadReplyView::Retry(r) => failure_of(memory.at_hand(), r->Err_0),
            };
            assert(settled_at(environments, registry, replies, x) == SettledView::<S>::Failed(
                failure,
            ));
            let after = memory.with_failure(failure);
            assert(told(after, environments, registry, replies));
            lemma_next_step_told(after, environments, registry, replies);
        }
    }
}

proof fn lemma_whole<S>(
    environments: Seq<MappingView>,
    registry: Registry,
    replies: Seq<LoadReplyView<S>>,
    n: int,
)
    requires
        0 <= n <= environments.len(),
        failures_of(environments, registry, replies, n).len() == 0,
        forall|e: int|
            0 <= e < n ==> !(#[trigger] settled_at(environments, registry, replies, e) is Open),
    ensures
        sets_of(environments, registry, replies, n).len() == n,
        forall|e: int|
            0 <= e < n ==> {
                &&& #[trigger] settled_at(environments, registry, replies, e) is Fetched
                &&& sets_of(environments, registry, replies, n)[e] == (
                    environments[e].environment,
                    settled_at(environments, registry, replies, e)->set,
                )
            },
    decreases n,
{
    if n > 0 {
        assert(!(settled_at(environments, registry, replies, n - 1) is Open));
        lemma_whole(environments, registry, replies, n - 1);
    }
}

/// A load that succeeds has every Environment settled with a Set: in its place, under its
/// name, the Set that its own fetch brought. It reports as corrected those read with
/// another role, and no others.
pub proof fn a_load_reports_each_set_under_its_own_name<S>(
    environments: Seq<MappingView>,
    registry: Registry,
    replies: Seq<LoadReplyView<S>>,
)
    requires
        is_run(environments, registry, replies),
        run(environments, registry, replies) is Done,
        run(environments, registry, replies)->Done_0 is Ok,
    ensures
        ({
            let loaded = (run(environments, registry, replies)->Done_0)->Ok_0;
            let n = environments.len() as int;
            &&& loaded.sets.len() == n
            &&& forall|e: int|
                0 <= e < n ==> {
                    &&& #[trigger] settled_at(environments, registry, replies, e) is Fetched
                    &&& loaded.sets[e] == (
                        environments[e].environment,
                        settled_at(environments, registry, replies, e)->set,
                    )
                }
            &&& loaded.corrected == corrections_of(environments, registry, replies, n)
        }),
{
    lemma_told(environments, registry, replies);
    lemma_whole(environments, registry, replies, environments.len() as int);
}

/// A load that fails reports the failure of each Environment that failed, and no others,
/// in order: by its own name, reason and detail.
pub proof fn a_failed_load_reports_each_failure<S>(
    environments: Seq<MappingView>,
    registry: Registry,
    replies: Seq<LoadReplyView<S>>,
)
    requires
        is_run(environments, registry, replies),
        run(environments, registry, replies) is Done,
        run(environments, registry, replies)->Done_0 is Err,
    ensures
        ({
            let failures = (run(environments, registry, replies)->Done_0)->Err_0;
            let n = environments.len() as int;
            &&& failures.len() > 0
            &&& failures == failures_of(environments, registry, replies, n)
            &&& forall|e: int|
                0 <= e < n ==> !(#[trigger] settled_at(
                    environments,
                    registry,
                    replies,
                    e,
                ) is Open)
        }),
{
    lemma_told(environments, registry, replies);
}

/// A load fails exactly where some Environment failed.
pub proof fn a_load_fails_where_an_environment_failed<S>(
    environments: Seq<MappingView>,
    registry: Registry,
    replies: Seq<LoadReplyView<S>>,
    e: int,
)
    requires
        is_run(environments, registry, replies),
        run(environments, registry, replies) is Done,
        0 <= e < environments.len(),
        settled_at(environments, registry, replies, e) is Failed,
    ensures
        run(environments, registry, replies)->Done_0 is Err,
{
    lemma_told(environments, registry, replies);
    if run(environments, registry, replies)->Done_0 is Ok {
        lemma_whole(environments, registry, replies, environments.len() as int);
    }
}

/// The Set in a reply.
pub open spec fn set_in<S>(reply: LoadReplyView<S>) -> S {
    match reply {
        LoadReplyView::Fetch(r) => r->Ok_0,
        LoadReplyView::Roles(_) => arbitrary(),
        LoadReplyView::Retry(r) => r->Ok_0,
    }
}

proof fn lemma_in_story<S>(
    environments: Seq<MappingView>,
    registry: Registry,
    replies: Seq<LoadReplyView<S>>,
    r: int,
) -> (at: int)
    requires
        0 <= r < replies.len(),
    ensures
        ({
            let e = place(run(environments, registry, replies.take(r)));
            let here = story(environments, registry, replies, e);
            0 <= at < here.len() && here[at] == replies[r]
        }),
    decreases replies.len(),
{
    let e = place(run(environments, registry, replies.take(r)));
    let before = replies.drop_last();
    if r == replies.len() - 1 {
        assert(replies.take(r) =~= before);
        story(environments, registry, before, e).len() as int
    } else {
        assert(before.take(r) =~= replies.take(r));
        lemma_in_story(environments, registry, before, r)
    }
}

/// The Set under an Environment's name is the one that was fetched for it: whenever a
/// fetch brought a Set while the load was at an Environment, that Set is what a load that
/// succeeds has there.
pub proof fn a_set_is_what_its_own_fetch_brought<S>(
    environments: Seq<MappingView>,
    registry: Registry,
    replies: Seq<LoadReplyView<S>>,
    r: int,
)
    requires
        is_run(environments, registry, replies),
        run(environments, registry, replies) is Done,
        run(environments, registry, replies)->Done_0 is Ok,
        0 <= r < replies.len(),
        brings_set(replies[r]),
    ensures
        ({
            let e = place(run(environments, registry, replies.take(r)));
            let sets = (run(environments, registry, replies)->Done_0)->Ok_0.sets;
            &&& 0 <= e < environments.len()
            &&& e < sets.len()
            &&& sets[e] == (environments[e].environment, set_in(replies[r]))
        }),
{
    a_load_reports_each_set_under_its_own_name(environments, registry, replies);
    let e = place(run(environments, registry, replies.take(r)));
    let at = lemma_in_story(environments, registry, replies, r);
    lemma_prefix(environments, registry, replies, r);
    lemma_told(environments, registry, replies.take(r));
    assert(settled_at(environments, registry, replies, e) is Fetched);
    let here = story(environments, registry, replies, e);
    assert(here[at] == replies[r]);
}

proof fn lemma_prefix<S>(
    environments: Seq<MappingView>,
    registry: Registry,
    replies: Seq<LoadReplyView<S>>,
    r: int,
)
    requires
        is_run(environments, registry, replies),
        0 <= r < replies.len(),
    ensures
        is_run(environments, registry, replies.take(r)),
        fits(run(environments, registry, replies.take(r)), replies[r]),
    decreases replies.len(),
{
    let before = replies.drop_last();
    if r == replies.len() - 1 {
        assert(replies.take(r) =~= before);
    } else {
        lemma_prefix(environments, registry, before, r);
        assert(before.take(r) =~= replies.take(r));
    }
}

/// A load fetches each Environment with the Mapping it is stored with, in order, and none
/// whose Method is not registered. Only a denied role is looked into, under the words of
/// the denial, and only a role that the account grants alone is tried, with nothing else
/// of the Mapping changed.
pub proof fn a_load_asks_for_each_environment_in_turn<S>(
    environments: Seq<MappingView>,
    registry: Registry,
    replies: Seq<LoadReplyView<S>>,
)
    requires
        is_run(environments, registry, replies),
        !(run(environments, registry, replies) is Done),
    ensures
        ({
            let step = run(environments, registry, replies);
            let x = place(step);
            let here = story(environments, registry, replies, x);
            &&& 0 <= x < environments.len()
            &&& is_registered(registry, environments[x])
            &&& forall|e: int|
                0 <= e < x ==> !(#[trigger] settled_at(
                    environments,
                    registry,
                    replies,
                    e,
                ) is Open)
            &&& forall|e: int|
                x < e < environments.len() ==> (#[trigger] story(
                    environments,
                    registry,
                    replies,
                    e,
                )).len() == 0
            &&& step is Fetch ==> here.len() == 0 && step->Fetch_memory.at_hand()
                == environments[x]
            &&& step is Recover ==> {
                &&& here.len() == 1
                &&& is_role_denial(here[0])
                &&& step->context == denial_text(here[0])
                &&& step->Recover_memory.at_hand() == environments[x]
            }
            &&& step is Retry ==> {
                &&& here.len() == 2
                &&& is_role_denial(here[0])
                &&& names_another_role(here[1], environments[x])
                &&& step->patched == (MappingView {
                    permission_set: here[1]->Roles_0->0[0],
                    ..environments[x]
                })
            }
        }),
{
    lemma_told(environments, registry, replies);
}

} // verus!
