//! What holds of role Credentials: how long one serves, and whom.

use vstd::prelude::*;

use crate::auth::aws_impl::{after_seconds, at_millis};
use crate::auth::broker::{
    a_kept_credential_is_never_shared_across_roles, bar_free, cache_key_of, mint_for, BrokerView,
};
use crate::auth::climb::broker_after_mint;
use crate::auth::error::SessionErrorView;
use crate::auth::types::{CredentialView, SsoTokenView, Timestamp};
use crate::model::config::MappingView;

verus! {

/// A Credential past its expiry is stale, however long ago it expired and whatever the
/// skew.
pub proof fn an_expired_credential_is_stale(c: CredentialView, now: Timestamp, skew: u128)
    requires
        now.nanos >= c.expiration.nanos,
    ensures
        c.stale(now, skew),
{
}

/// A Credential within `skew` of its expiry is stale, and one further from it is not.
pub proof fn a_credential_is_stale_from_its_skew_on(
    c: CredentialView,
    now: Timestamp,
    skew: u128,
)
    ensures
        now.nanos + skew >= c.expiration.nanos ==> c.stale(now, skew),
        now.nanos + skew < c.expiration.nanos ==> !c.stale(now, skew),
{
}

/// A Credential that is stale stays so.
pub proof fn a_stale_credential_stays_stale(
    c: CredentialView,
    now: Timestamp,
    later: Timestamp,
    skew: u128,
)
    requires
        c.stale(now, skew),
        later.nanos >= now.nanos,
    ensures
        c.stale(later, skew),
{
}

/// Of two Credentials, the one that expires earlier is stale wherever the other is.
pub proof fn the_earlier_expiry_is_stale_first(
    a: CredentialView,
    b: CredentialView,
    now: Timestamp,
    skew: u128,
)
    requires
        a.expiration.nanos <= b.expiration.nanos,
        b.stale(now, skew),
    ensures
        a.stale(now, skew),
{
}

/// What a broker hands out is good for more than a minute yet, and is what it keeps for
/// the Mapping's own account, role and region.
pub proof fn what_is_handed_out_is_good(broker: BrokerView, m: MappingView, now: Timestamp)
    requires
        broker.fresh(m, now) is Some,
    ensures
        now.nanos + 60_000_000_000 < broker.fresh(m, now)->0.expiration.nanos,
        broker.cache.contains_pair(
            m.account_id + "|"@ + m.permission_set + "|"@ + m.region,
            broker.fresh(m, now)->0,
        ),
{
}

/// A Credential that is kept and good for more than a minute yet is handed out: nothing
/// is minted that need not be.
pub proof fn what_is_good_is_handed_out(
    broker: BrokerView,
    m: MappingView,
    kept: CredentialView,
    now: Timestamp,
)
    requires
        broker.cache.contains_pair(
            m.account_id + "|"@ + m.permission_set + "|"@ + m.region,
            kept,
        ),
        now.nanos + 60_000_000_000 < kept.expiration.nanos,
    ensures
        broker.fresh(m, now) == Some(kept),
{
}

/// A mint is for the Mapping's own account, role and region.
pub proof fn a_mint_is_for_its_mapping(m: MappingView)
    ensures
        mint_for(m).account_id == m.account_id,
        mint_for(m).permission_set == m.permission_set,
        mint_for(m).region == m.region,
{
}

/// The same account, role and region.
pub open spec fn same_role(a: MappingView, b: MappingView) -> bool {
    &&& a.account_id == b.account_id
    &&& a.permission_set == b.permission_set
    &&& a.region == b.region
}

/// Account and role hold no `|`.
pub open spec fn plain_role(m: MappingView) -> bool {
    bar_free(m.account_id) && bar_free(m.permission_set)
}

/// A session's broker after these mints, from nothing kept.
pub open spec fn after_mints(
    token: SsoTokenView,
    mints: Seq<(MappingView, CredentialView)>,
) -> BrokerView
    decreases mints.len(),
{
    if mints.len() == 0 {
        BrokerView { token, cache: Map::empty() }
    } else {
        broker_after_mint(
            after_mints(token, mints.drop_last()),
            mints.last().0,
            Ok::<CredentialView, SessionErrorView>(mints.last().1),
        )
    }
}

/// A Mapping is served with the Credential that was minted last for its account, role and
/// region, while that is good for more than a minute; else one is minted. What was
/// minted for other roles is never handed out for it.
pub proof fn a_mapping_gets_what_was_minted_last_for_its_role(
    token: SsoTokenView,
    mints: Seq<(MappingView, CredentialView)>,
    m: MappingView,
    now: Timestamp,
)
    requires
        plain_role(m),
        forall|i: int| 0 <= i < mints.len() ==> plain_role((#[trigger] mints[i]).0),
    ensures
        after_mints(token, mints).token == token,
        forall|last: int|
            0 <= last < mints.len() && same_role((#[trigger] mints[last]).0, m) && (forall|j: int|
                last < j < mints.len() ==> !same_role((#[trigger] mints[j]).0, m)) ==> after_mints(
                token,
                mints,
            ).fresh(m, now) == (if now.nanos + 60_000_000_000 < mints[last].1.expiration.nanos {
                Some(mints[last].1)
            } else {
                None
            }),
        (forall|j: int| 0 <= j < mints.len() ==> !same_role((#[trigger] mints[j]).0, m))
            ==> after_mints(token, mints).fresh(m, now) is None,
    decreases mints.len(),
{
    if mints.len() > 0 {
        let before = mints.drop_last();
        assert forall|i: int| 0 <= i < before.len() implies plain_role(
            (#[trigger] before[i]).0,
        ) by {
            assert(before[i] == mints[i]);
        }
        a_mapping_gets_what_was_minted_last_for_its_role(token, before, m, now);
        let (other, minted) = mints.last();
        assert(plain_role(mints[mints.len() - 1].0));
        if cache_key_of(other) == cache_key_of(m) {
            a_kept_credential_is_never_shared_across_roles(other, m);
        }
        assert forall|last: int|
            0 <= last < mints.len() && same_role((#[trigger] mints[last]).0, m) && (forall|j: int|
                last < j < mints.len() ==> !same_role((#[trigger] mints[j]).0, m)) implies after_mints(
            token,
            mints,
        ).fresh(m, now) == (if now.nanos + 60_000_000_000 < mints[last].1.expiration.nanos {
            Some(mints[last].1)
        } else {
            None
        }) by {
            if last < before.len() {
                assert(!same_role(mints[mints.len() - 1].0, m));
                assert(before[last] == mints[last]);
                assert forall|j: int| last < j < before.len() implies !same_role(
                    (#[trigger] before[j]).0,
                    m,
                ) by {
                    assert(before[j] == mints[j]);
                }
            }
        }
        if forall|j: int| 0 <= j < mints.len() ==> !same_role((#[trigger] mints[j]).0, m) {
            assert(!same_role(mints[mints.len() - 1].0, m));
            assert forall|j: int| 0 <= j < before.len() implies !same_role(
                (#[trigger] before[j]).0,
                m,
            ) by {
                assert(before[j] == mints[j]);
            }
        }
    }
}

/// A mint that failed leaves everything that is kept.
pub proof fn a_failed_mint_changes_nothing(
    broker: BrokerView,
    m: MappingView,
    e: SessionErrorView,
)
    ensures
        broker_after_mint(broker, m, Err::<CredentialView, SessionErrorView>(e)) == broker,
{
}

/// What is good for some seconds ends exactly that many seconds later, and a count that is
/// not positive ends it at once. A longer count ends it later.
pub proof fn seconds_are_counted_from_now(now: Timestamp, a: i32, b: i32)
    ensures
        a >= 0 ==> after_seconds(now, a) - now.nanos == a * 1_000_000_000,
        a <= 0 ==> after_seconds(now, a) == now.nanos,
        a <= b ==> after_seconds(now, a) <= after_seconds(now, b),
        0 <= a < b ==> after_seconds(now, a) < after_seconds(now, b),
{
}

/// A count of milliseconds is counted from the epoch, and one before it is the epoch. A
/// later count is later.
pub proof fn milliseconds_are_counted_from_the_epoch(a: i64, b: i64)
    ensures
        a >= 0 ==> at_millis(a) == a * 1_000_000,
        a <= 0 ==> at_millis(a) == 0,
        a <= b ==> at_millis(a) <= at_millis(b),
        0 <= a < b ==> at_millis(a) < at_millis(b),
{
}

} // verus!
