//! What holds of a provider and of a session between their calls.

use vstd::prelude::*;

use crate::auth::broker::BrokerView;
use crate::auth::error::SessionError;
use crate::auth::family::{probes, stamped, write_sign_in_needed, Notes, ProviderView};
use crate::auth::load::{listed, no_method, resolution_of, Registry, RoleResolutionView};
use crate::auth::types::SsoTokenView;
use crate::auth::wire::RoleSummary;
use crate::aws::discovery::DiscoveryView;
use crate::aws::secret_write::write_order;
use crate::aws::session::{every_method, fresh_walk, SessionView};
use crate::model::config::{Mapping, MappingView, Method};
use crate::model::provider::{sign_in_needed, FetchFailReason, StepView};
use crate::model::write::EnvEditView;

verus! {

/// A note that was never queued is queued behind those that wait; one that was is not
/// queued again. Handing the notes out leaves none waiting and forgets none.
pub proof fn notes_wait_in_order(notes: Notes, note: Seq<char>)
    ensures
        notes.seen.contains(note) ==> notes.push(note) == notes,
        !notes.seen.contains(note) ==> notes.push(note).waiting == notes.waiting.push(note),
        notes.push(note).seen.contains(note),
        forall|n: Seq<char>| #[trigger]
            notes.seen.contains(n) ==> notes.push(note).seen.contains(n),
        forall|n: Seq<char>| #[trigger]
            notes.push(note).seen.contains(n) ==> n == note || notes.seen.contains(n),
        notes.take().waiting.len() == 0,
        notes.take().seen == notes.seen,
{
    let after = notes.push(note);
    if !notes.seen.contains(note) {
        assert(after.seen[notes.seen.len() as int] == note);
        assert forall|n: Seq<char>| #[trigger] notes.seen.contains(n) implies after.seen.contains(
            n,
        ) by {
            let i = choose|i: int| 0 <= i < notes.seen.len() && notes.seen[i] == n;
            assert(after.seen[i] == n);
        }
    }
}

/// A finished walk maps by the Method it was begun for, and nothing else of its step is
/// changed.
pub proof fn a_walk_maps_by_its_method(m: MappingView, step: StepView, method: Method)
    ensures
        stamped(StepView::Done(m), method) == StepView::Done(
            MappingView {
                environment: m.environment,
                account_id: m.account_id,
                region: m.region,
                secret_id: m.secret_id,
                permission_set: m.permission_set,
                method,
            },
        ),
        !(step is Done) ==> stamped(step, method) == step,
{
}

/// The first Environment of every Method that is registered and has notes is probed, and
/// nothing but Environments of the Application is.
pub proof fn every_method_with_notes_is_probed(
    environments: Seq<MappingView>,
    registry: Registry,
    n: int,
    k: int,
)
    requires
        0 <= k < n <= environments.len(),
        forall|j: int| 0 <= j < k ==> (#[trigger] environments[j]).method != environments[k].method,
        match environments[k].method {
            Method::SecretsManager => registry.secrets_manager is Some
                && registry.secrets_manager->0.has_advisory,
            Method::SsmDotenv => registry.ssm_dotenv is Some
                && registry.ssm_dotenv->0.has_advisory,
        },
    ensures
        probes(environments, registry, n).contains(environments[k]),
    decreases n,
{
    let p = probes(environments, registry, n);
    let before = probes(environments, registry, n - 1);
    if k == n - 1 {
        assert(p[before.len() as int] == environments[k]);
    } else {
        every_method_with_notes_is_probed(environments, registry, n - 1, k);
        let i = choose|i: int| 0 <= i < before.len() && before[i] == environments[k];
        assert(p[i] == environments[k]);
    }
}

/// Only the first Environment of a Method is probed.
pub proof fn a_probe_is_the_first_of_its_method(
    environments: Seq<MappingView>,
    registry: Registry,
    n: int,
    i: int,
)
    requires
        0 <= n <= environments.len(),
        0 <= i < probes(environments, registry, n).len(),
    ensures
        exists|k: int|
            0 <= k < n && #[trigger] environments[k] == probes(environments, registry, n)[i] && (
            forall|j: int|
                0 <= j < k ==> (#[trigger] environments[j]).method != environments[k].method),
    decreases n,
{
    let p = probes(environments, registry, n);
    let before = probes(environments, registry, n - 1);
    if n > 0 {
        if i < before.len() {
            a_probe_is_the_first_of_its_method(environments, registry, n - 1, i);
            assert(p[i] == before[i]);
        } else {
            assert(environments[n - 1] == p[i]);
        }
    }
}

/// A write is of the edits asked for, into the Set and the region of its Mapping.
pub proof fn a_write_is_into_its_mapping(m: MappingView, edits: Seq<EnvEditView>)
    ensures
        write_order(m, edits).secret_id == m.secret_id,
        write_order(m, edits).region == m.region,
        write_order(m, edits).edits == edits,
{
}

/// What is refused is told by its Environment's own name, and says what is missing: a
/// Sign-in, or a Method.
pub proof fn a_refusal_names_its_environment(m: MappingView)
    ensures
        write_sign_in_needed(m).environment == m.environment,
        write_sign_in_needed(m).reason == FetchFailReason::NeedsSignIn,
        no_method(m).environment == m.environment,
        no_method(m).reason == FetchFailReason::Other,
        sign_in_needed().reason == FetchFailReason::NeedsSignIn,
        write_sign_in_needed(m).detail == sign_in_needed().detail,
{
}

/// A session without Methods to choose from reads every Mapping, and notes nothing.
pub proof fn a_session_reads_every_mapping(method: Method)
    ensures
        every_method().info(method) is Some,
        !every_method().info(method)->0.has_advisory,
{
}

/// A Method is known by what is registered for it, and not by what is registered for
/// another.
pub proof fn a_method_is_known_by_its_own_entry(registry: Registry)
    ensures
        registry.info(Method::SecretsManager) == registry.secrets_manager,
        registry.info(Method::SsmDotenv) == registry.ssm_dotenv,
{
}

/// A new walk has picked nothing and asks nothing yet; it is for its Environment and
/// region, and knows what was picked last time.
pub proof fn a_new_walk_has_picked_nothing(
    environment: Seq<char>,
    region: Seq<char>,
    remembered: Option<Mapping>,
)
    ensures
        ({
            let walk = fresh_walk(environment, region, remembered);
            &&& walk.environment == environment
            &&& walk.region == region
            &&& walk.remembered is Some <==> remembered is Some
            &&& remembered is Some ==> walk.remembered->0 == remembered->0@
            &&& walk.cred is None
            &&& walk.chosen.len() == 0
            &&& walk.pending.len() == 0
        }),
{
}

/// What an account grants is told by its roles: the one role where there is exactly one,
/// none where there is none, and how many where there are several. A listing that failed
/// tells nothing.
pub proof fn a_listing_tells_what_is_granted(roles: Vec<RoleSummary>, e: SessionError)
    ensures
        ({
            let granted = resolution_of(listed(Ok::<Vec<RoleSummary>, SessionError>(roles)));
            &&& granted is Single <==> roles@.len() == 1
            &&& roles@.len() == 1 ==> granted == RoleResolutionView::Single(roles@[0].name@)
            &&& granted is NoRole <==> roles@.len() == 0
            &&& granted is Ambiguous <==> roles@.len() > 1
            &&& roles@.len() > 1 ==> granted == RoleResolutionView::Ambiguous(roles@.len())
        }),
        resolution_of(listed(Err::<Vec<RoleSummary>, SessionError>(e)))
            == RoleResolutionView::ListFailed,
        listed(Ok::<Vec<RoleSummary>, SessionError>(roles)) is Some,
        listed(Ok::<Vec<RoleSummary>, SessionError>(roles))->0.len() == roles@.len(),
        forall|i: int|
            0 <= i < roles@.len() ==> #[trigger] listed(
                Ok::<Vec<RoleSummary>, SessionError>(roles),
            )->0[i] == roles@[i].name@,
        listed(Err::<Vec<RoleSummary>, SessionError>(e)) is None,
{
}

// ---------------------------------------------------------------------------
// From call to call
// ---------------------------------------------------------------------------

/// A provider signs in once: a Sign-in that succeeds gives a provider that has none its
/// session, on that token and with nothing kept, and changes nothing for one that has.
/// A Sign-in that failed changes nothing.
pub proof fn a_provider_signs_in_once<S, W>(p: ProviderView<S, W>, token: SsoTokenView)
    ensures
        p.broker is None ==> p.signed_in(Some(token)).broker == Some(
            BrokerView { token, cache: Map::empty() },
        ),
        p.broker is Some ==> p.signed_in(Some(token)) == p,
        p.signed_in(None) == p,
        p.signed_in(Some(token)).cached == p.cached,
        p.signed_in(Some(token)).discovery == p.discovery,
        p.signed_in(Some(token)).notes == p.notes,
        p.signed_in(Some(token)).registry == p.registry,
{
}

/// A load that succeeded puts its Sets in place of all that were kept, and one that failed
/// leaves what was loaded before it. Nothing else is touched.
pub proof fn a_failed_load_leaves_what_was_loaded<S, W>(
    p: ProviderView<S, W>,
    sets: Seq<(Seq<char>, S)>,
)
    ensures
        p.loaded(Some(sets)).cached == sets,
        p.loaded(Some(sets)).broker == p.broker,
        p.loaded(Some(sets)).discovery == p.discovery,
        p.loaded(Some(sets)).notes == p.notes,
        p.loaded(Some(sets)).registry == p.registry,
        p.loaded(None) == p,
{
}

/// A walk that came to rest is kept, to go on with, and the session with it. On a dead
/// token both are dropped, so that the next Sign-in is a fresh one; what was loaded stays
/// either way.
pub proof fn only_a_dead_token_drops_the_session<S, W>(
    p: ProviderView<S, W>,
    method: Method,
    walk: W,
    note: Option<Seq<char>>,
    token: SsoTokenView,
)
    ensures
        p.rested(method, walk, false, note).broker == p.broker,
        p.rested(method, walk, false, note).discovery == Some((method, walk)),
        p.rested(method, walk, true, note).broker is None,
        p.rested(method, walk, true, note).discovery is None,
        p.rested(method, walk, true, note).signed_in(Some(token)).broker == Some(
            BrokerView { token, cache: Map::empty() },
        ),
        forall|dead: bool|
            {
                let after = #[trigger] p.rested(method, walk, dead, note);
                &&& after.cached == p.cached
                &&& after.registry == p.registry
                &&& note is None ==> after.notes == p.notes
                &&& note is Some ==> after.notes == p.notes.push(note->0)
            },
{
}

/// The same of a session over Secrets Manager alone: it signs in once, a failed load
/// leaves what was loaded, and only a dead token drops it.
pub proof fn a_session_changes_as_a_provider_does<S>(
    s: SessionView<S>,
    token: SsoTokenView,
    sets: Seq<(Seq<char>, S)>,
    walk: DiscoveryView,
)
    ensures
        s.facade is None ==> s.signed_in(Some(token)).facade == Some(
            BrokerView { token, cache: Map::empty() },
        ),
        s.facade is Some ==> s.signed_in(Some(token)) == s,
        s.signed_in(None) == s,
        s.signed_in(Some(token)).cached == s.cached,
        s.signed_in(Some(token)).discovery == s.discovery,
        s.loaded(Some(sets)).cached == sets,
        s.loaded(Some(sets)).facade == s.facade,
        s.loaded(Some(sets)).discovery == s.discovery,
        s.loaded(None) == s,
        s.rested(walk, false).facade == s.facade,
        s.rested(walk, false).discovery == Some(walk),
        s.rested(walk, false).cached == s.cached,
        s.rested(walk, true).facade is None,
        s.rested(walk, true).discovery is None,
        s.rested(walk, true).cached == s.cached,
{
}

/// Probes come in the Application's order: a further Environment can only add itself, at
/// the end.
pub proof fn probes_come_in_order(environments: Seq<MappingView>, registry: Registry, n: int)
    requires
        0 <= n < environments.len(),
    ensures
        ({
            let before = probes(environments, registry, n);
            let after = probes(environments, registry, n + 1);
            &&& probes(environments, registry, 0).len() == 0
            &&& after == before || after == before.push(environments[n])
        }),
{
}

} // verus!
