//! What each rung of the ladder leads to, by the reply it got.

use vstd::prelude::*;

use crate::auth::broker::BrokerView;
use crate::auth::climb::{self, ClimbReplyView, ClimbStepView};
use crate::auth::error::SessionErrorView;
use crate::auth::ladder::{self, LadderReplyView, LadderStepView};
use crate::auth::method::MethodErrorView;
use crate::auth::types::{CredentialView, SsoTokenView, Timestamp};
use crate::model::config::MappingView;

verus! {

/// The error of a dead token.
pub open spec fn dead_token() -> MethodErrorView {
    MethodErrorView::Session(SessionErrorView::ReauthRequired)
}

/// The error of a call that was denied.
pub open spec fn denied() -> MethodErrorView {
    MethodErrorView::Session(SessionErrorView::AccessDenied)
}

/// A call that succeeded ends the climb with what it gave.
pub proof fn a_call_that_succeeds_ends_the_climb<T>(
    signed_in_again: bool,
    refreshed: bool,
    value: T,
)
    ensures
        ladder::advance(
            LadderStepView::Call { signed_in_again, refreshed },
            LadderReplyView::Call(Ok(value)),
        ) == LadderStepView::<T>::Done(Ok(value)),
{
}

/// The first denial in a pass is answered with a Credential minted afresh and one more
/// call; a second denial in that pass stands.
pub proof fn a_denial_is_tried_once_more<T>(signed_in_again: bool)
    ensures
        ({
            let first = ladder::advance(
                LadderStepView::<T>::Call { signed_in_again, refreshed: false },
                LadderReplyView::Call(Err(denied())),
            );
            let then = ladder::advance(first, LadderReplyView::Refresh(Ok(())));
            let last = ladder::advance(then, LadderReplyView::Call(Err(denied())));
            &&& first == (LadderStepView::<T>::Refresh { signed_in_again })
            &&& then == (LadderStepView::<T>::Call { signed_in_again, refreshed: true })
            &&& last == LadderStepView::<T>::Done(Err(denied()))
        }),
{
}

/// `step` is where a dead token leads: to a fresh Sign-in, or to a denial where there was
/// one already.
pub open spec fn answers_a_dead_token<T>(step: LadderStepView<T>, signed_in_again: bool) -> bool {
    &&& !signed_in_again ==> step == LadderStepView::<T>::SignIn
    &&& signed_in_again ==> step == LadderStepView::<T>::Done(Err(denied()))
}

/// A dead token, wherever it shows, is answered with one fresh Sign-in; after that it is a
/// denial.
pub proof fn a_dead_token_is_answered_with_one_sign_in<T>(signed_in_again: bool, refreshed: bool)
    ensures
        answers_a_dead_token(
            ladder::advance(
                LadderStepView::<T>::Credentials { signed_in_again },
                LadderReplyView::Credentials(Err(SessionErrorView::ReauthRequired)),
            ),
            signed_in_again,
        ),
        answers_a_dead_token(
            ladder::advance(
                LadderStepView::<T>::Call { signed_in_again, refreshed },
                LadderReplyView::Call(Err(dead_token())),
            ),
            signed_in_again,
        ),
        answers_a_dead_token(
            ladder::advance(
                LadderStepView::<T>::Refresh { signed_in_again },
                LadderReplyView::Refresh(Err(SessionErrorView::ReauthRequired)),
            ),
            signed_in_again,
        ),
{
}

/// Any other error ends the climb as it is, wherever it shows.
pub proof fn any_other_error_ends_the_climb<T>(
    signed_in_again: bool,
    refreshed: bool,
    e: MethodErrorView,
    mint: SessionErrorView,
)
    ensures
        e != dead_token() && (e != denied() || refreshed) ==> ladder::advance(
            LadderStepView::<T>::Call { signed_in_again, refreshed },
            LadderReplyView::Call(Err(e)),
        ) == LadderStepView::<T>::Done(Err(e)),
        !(mint is ReauthRequired) ==> ladder::advance(
            LadderStepView::<T>::Credentials { signed_in_again },
            LadderReplyView::Credentials(Err(mint)),
        ) == LadderStepView::<T>::Done(Err(MethodErrorView::Session(mint))),
        !(mint is ReauthRequired) ==> ladder::advance(
            LadderStepView::<T>::Refresh { signed_in_again },
            LadderReplyView::Refresh(Err(mint)),
        ) == LadderStepView::<T>::Done(Err(MethodErrorView::Session(mint))),
{
}

/// A Credential leads to the call, and a fresh Sign-in to one more pass; where the Sign-in
/// failed, one is still needed.
pub proof fn each_pass_begins_with_a_credential<T>(signed_in_again: bool)
    ensures
        ladder::advance(
            LadderStepView::<T>::Credentials { signed_in_again },
            LadderReplyView::Credentials(Ok(())),
        ) == (LadderStepView::<T>::Call { signed_in_again, refreshed: false }),
        ladder::advance(LadderStepView::<T>::SignIn, LadderReplyView::SignIn { ok: true }) == (
        LadderStepView::<T>::Credentials { signed_in_again: true }),
        ladder::advance(LadderStepView::<T>::SignIn, LadderReplyView::SignIn { ok: false })
            == LadderStepView::<T>::Done(Err(dead_token())),
{
}

/// A climb makes its call with the kept Credential where that is good for more than a
/// minute yet, and else mints one first.
pub proof fn a_pass_uses_the_kept_credential<T>(
    broker: BrokerView,
    mapping: MappingView,
    kept: CredentialView,
    signed_in_again: bool,
    now: Timestamp,
)
    ensures
        ({
            let key = mapping.account_id + "|"@ + mapping.permission_set + "|"@ + mapping.region;
            let first = climb::pass::<T>(broker, mapping, signed_in_again, now);
            &&& broker.cache.contains_pair(key, kept) && now.nanos + 60_000_000_000
                < kept.expiration.nanos ==> first == (ClimbStepView::<T>::Call {
                mapping,
                credential: kept,
                signed_in_again,
                refreshed: false,
            })
            &&& broker.cache.contains_pair(key, kept) && now.nanos + 60_000_000_000
                >= kept.expiration.nanos ==> first == (ClimbStepView::<T>::Mint {
                mapping,
                signed_in_again,
                denied: false,
            })
            &&& !broker.cache.dom().contains(key) ==> first == (ClimbStepView::<T>::Mint {
                mapping,
                signed_in_again,
                denied: false,
            })
        }),
{
}

/// The call of a climb is made for its Mapping, with the Credential just minted for it.
pub proof fn a_call_is_made_with_what_was_minted<T>(
    mapping: MappingView,
    signed_in_again: bool,
    was_denied: bool,
    credential: CredentialView,
)
    ensures
        climb::advance(
            ClimbStepView::<T>::Mint { mapping, signed_in_again, denied: was_denied },
            ClimbReplyView::Mint(Ok(credential)),
        ) == (ClimbStepView::<T>::Call {
            mapping,
            credential,
            signed_in_again,
            refreshed: was_denied,
        }),
{
}

/// What a climb does with the outcome of its call: a success is its answer; the first
/// denial of a pass mints afresh for the same Mapping; a dead token asks for one fresh
/// Sign-in and is a denial after it; anything else is its end, as it is.
pub proof fn a_climb_acts_on_its_call<T>(
    mapping: MappingView,
    credential: CredentialView,
    signed_in_again: bool,
    refreshed: bool,
    reply: Result<T, MethodErrorView>,
)
    ensures
        ({
            let next = climb::advance(
                ClimbStepView::Call { mapping, credential, signed_in_again, refreshed },
                ClimbReplyView::Call(reply),
            );
            match reply {
                Ok(value) => next == ClimbStepView::<T>::Done(Ok(value)),
                Err(e) => {
                    &&& e == denied() && !refreshed ==> next == (ClimbStepView::<T>::Mint {
                        mapping,
                        signed_in_again,
                        denied: true,
                    })
                    &&& e == dead_token() && !signed_in_again ==> next == (ClimbStepView::<
                        T,
                    >::SignIn { mapping })
                    &&& e == dead_token() && signed_in_again ==> next == ClimbStepView::<T>::Done(
                        Err(denied()),
                    )
                    &&& e != dead_token() && (e != denied() || refreshed) ==> next
                        == ClimbStepView::<T>::Done(Err(e))
                },
            }
        }),
{
}

/// A mint that fails for a dead token asks for one fresh Sign-in, and is a denial after
/// it; any other error of a mint ends the climb as it is.
pub proof fn a_climb_acts_on_a_failed_mint<T>(
    mapping: MappingView,
    signed_in_again: bool,
    was_denied: bool,
    e: SessionErrorView,
)
    ensures
        ({
            let next = climb::advance(
                ClimbStepView::<T>::Mint { mapping, signed_in_again, denied: was_denied },
                ClimbReplyView::Mint(Err(e)),
            );
            &&& e is ReauthRequired && !signed_in_again ==> next == (ClimbStepView::<T>::SignIn {
                mapping,
            })
            &&& e is ReauthRequired && signed_in_again ==> next == ClimbStepView::<T>::Done(
                Err(denied()),
            )
            &&& !(e is ReauthRequired) ==> next == ClimbStepView::<T>::Done(
                Err(MethodErrorView::Session(e)),
            )
        }),
{
}

/// After a fresh Sign-in nothing that was kept under the dead token is used: a Credential
/// is minted, for the same Mapping. Without one the climb ends asking for a Sign-in.
pub proof fn a_fresh_sign_in_starts_anew<T>(
    mapping: MappingView,
    token: SsoTokenView,
    now: Timestamp,
)
    ensures
        climb::advance(
            ClimbStepView::<T>::SignIn { mapping },
            ClimbReplyView::SignIn { token: Some(token), now },
        ) == (ClimbStepView::<T>::Mint { mapping, signed_in_again: true, denied: false }),
        climb::advance(
            ClimbStepView::<T>::SignIn { mapping },
            ClimbReplyView::SignIn { token: None, now },
        ) == ClimbStepView::<T>::Done(Err(dead_token())),
{
}

/// A fresh Sign-in leaves nothing kept from before it, and puts its own token in place of
/// the dead one; one that failed leaves the session as it is.
pub proof fn a_fresh_sign_in_keeps_nothing(broker: BrokerView, token: SsoTokenView)
    ensures
        climb::broker_after_sign_in(broker, Some(token)).token == token,
        climb::broker_after_sign_in(broker, Some(token)).cache == Map::<
            Seq<char>,
            CredentialView,
        >::empty(),
        climb::broker_after_sign_in(broker, None) == broker,
{
}

} // verus!
