//! One role Credential per Environment, minted from the SSO token and kept until it
//! nears its expiry. A broker never opens a browser: a dead token shows when a
//! Credential is minted, and is for the ladder to act on.

use vstd::prelude::*;
use vstd::string::*;

use crate::auth::error::{SessionError, SessionErrorView};
use crate::auth::types::{Credential, CredentialView, SsoToken, SsoTokenView, Timestamp};
use crate::model::config::{Mapping, MappingView};

verus! {

/// A Credential is minted again when it is within this many nanoseconds of expiry.
pub const REFRESH_SKEW: u128 = 60_000_000_000;

/// Brokers Credentials from one SSO token.
#[derive(Debug)]
pub struct CredentialBroker {
    token: SsoToken,
    cache: Vec<(String, Credential)>,
}

/// A [`CredentialBroker`] as a mathematical value.
#[verifier::ext_equal]
pub struct BrokerView {
    pub token: SsoTokenView,
    pub cache: Map<Seq<char>, CredentialView>,
}

/// What a list of keyed Credentials holds.
spec fn cache_map(entries: Seq<(String, Credential)>) -> Map<Seq<char>, CredentialView> {
    Map::new(
        |k: Seq<char>| exists|i: int| 0 <= i < entries.len() && (#[trigger] entries[i]).0@ == k,
        |k: Seq<char>|
            entries[choose|i: int| 0 <= i < entries.len() && (#[trigger] entries[i]).0@ == k].1@,
    )
}

/// No key occurs twice.
spec fn distinct_keys(entries: Seq<(String, Credential)>) -> bool {
    forall|i: int, j: int|
        0 <= i < j < entries.len() ==> (#[trigger] entries[i]).0@ != (#[trigger] entries[j]).0@
}

impl View for CredentialBroker {
    type V = BrokerView;

    closed spec fn view(&self) -> BrokerView {
        BrokerView { token: self.token@, cache: cache_map(self.cache@) }
    }
}

proof fn lemma_cache_at(entries: Seq<(String, Credential)>, i: int)
    requires
        distinct_keys(entries),
        0 <= i < entries.len(),
    ensures
        cache_map(entries).dom().contains(entries[i].0@),
        cache_map(entries)[entries[i].0@] == entries[i].1@,
{
    let k = entries[i].0@;
    let j = choose|j: int| 0 <= j < entries.len() && (#[trigger] entries[j]).0@ == k;
    assert(entries[j].0@ == k);
    assert(i == j);
}

/// The key a Mapping's Credential is kept under.
pub open spec fn cache_key_of(m: MappingView) -> Seq<char> {
    m.account_id + "|"@ + m.permission_set + "|"@ + m.region
}

/// What to mint a Credential for.
#[derive(Debug)]
pub struct MintTurn {
    account_id: String,
    permission_set: String,
    region: String,
    key: String,
}

/// A [`MintTurn`] as a mathematical value.
#[verifier::ext_equal]
pub struct MintView {
    pub account_id: Seq<char>,
    pub permission_set: Seq<char>,
    pub region: Seq<char>,
    pub key: Seq<char>,
}

impl View for MintTurn {
    type V = MintView;

    closed spec fn view(&self) -> MintView {
        MintView {
            account_id: self.account_id@,
            permission_set: self.permission_set@,
            region: self.region@,
            key: self.key@,
        }
    }
}

/// The mint that a Mapping asks for.
pub open spec fn mint_for(m: MappingView) -> MintView {
    MintView {
        account_id: m.account_id,
        permission_set: m.permission_set,
        region: m.region,
        key: cache_key_of(m),
    }
}

/// How a Credential is come by.
#[derive(Debug)]
pub enum CredentialStep {
    /// The kept one is good.
    Ready(Credential),
    /// One is to be minted.
    Mint(MintTurn),
}

impl BrokerView {
    /// The kept Credential for a Mapping, where it is not near its expiry.
    pub open spec fn fresh(self, m: MappingView, now: Timestamp) -> Option<CredentialView> {
        let key = cache_key_of(m);
        if self.cache.dom().contains(key) && !self.cache[key].stale(now, REFRESH_SKEW) {
            Some(self.cache[key])
        } else {
            None
        }
    }
}

/// What a mint is called with: the session's token and the role.
pub struct MintCall<'a> {
    pub token: &'a SsoToken,
    pub account_id: &'a str,
    pub permission_set: &'a str,
    pub region: &'a str,
}

impl<'a> MintCall<'a> {
    /// This is the mint `turn` waits for, under the token of `broker`.
    pub open spec fn is_for(&self, broker: BrokerView, turn: MintView) -> bool {
        &&& self.token@ == broker.token
        &&& self.account_id@ == turn.account_id
        &&& self.permission_set@ == turn.permission_set
        &&& self.region@ == turn.region
    }
}

impl CredentialBroker {
    #[verifier::type_invariant]
    spec fn inv(&self) -> bool {
        distinct_keys(self.cache@)
    }

    /// A broker with nothing kept.
    pub fn new(token: SsoToken) -> (result: CredentialBroker)
        ensures
            result@ == (BrokerView { token: token@, cache: Map::empty() }),
    {
        let result = CredentialBroker { token, cache: Vec::new() };
        assert(cache_map(result.cache@) =~= Map::empty());
        result
    }

    /// The session's SSO token.
    pub fn token(&self) -> (result: &SsoToken)
        ensures
            result@ == self@.token,
    {
        &self.token
    }

    /// The key a Mapping's Credential is kept under.
    pub fn cache_key(m: &Mapping) -> (result: String)
        ensures
            result@ == cache_key_of(m@),
    {
        let mut out = m.account_id.clone();
        out.push_str("|");
        out.push_str(m.permission_set.as_str());
        out.push_str("|");
        out.push_str(m.region.as_str());
        out
    }

    fn position(&self, key: &String) -> (result: Option<usize>)
        ensures
            match result {
                Some(i) => i < self.cache@.len() && self.cache@[i as int].0@ == key@,
                None => forall|i: int|
                    0 <= i < self.cache@.len() ==> (#[trigger] self.cache@[i]).0@ != key@,
            },
    {
        let mut i: usize = 0;
        while i < self.cache.len()
            invariant
                i <= self.cache@.len(),
                forall|j: int| 0 <= j < i ==> (#[trigger] self.cache@[j]).0@ != key@,
            decreases self.cache@.len() - i,
        {
            if self.cache[i].0 == *key {
                return Some(i);
            }
            i = i + 1;
        }
        None
    }

    /// A currently valid Credential for `mapping`: the kept one, or one to mint.
    pub fn credentials_for(&self, mapping: &Mapping, now: Timestamp) -> (result: CredentialStep)
        ensures
            match self@.fresh(mapping@, now) {
                Some(kept) => result matches CredentialStep::Ready(c) && c@ == kept,
                None => result matches CredentialStep::Mint(turn) && turn@ == mint_for(mapping@),
            },
            result matches CredentialStep::Ready(c) ==> now.nanos + 60_000_000_000
                < c@.expiration.nanos,
    {
        proof {
            use_type_invariant(self);
        }
        let key = CredentialBroker::cache_key(mapping);
        match self.position(&key) {
            Some(i) => {
                proof {
                    lemma_cache_at(self.cache@, i as int);
                }
                if !self.cache[i].1.is_stale(now, REFRESH_SKEW) {
                    return CredentialStep::Ready(self.cache[i].1.duplicate());
                }
            },
            None => {},
        }
        CredentialStep::Mint(self.force_refresh(mapping))
    }

    /// Mint a Credential for `mapping`, whatever is kept.
    pub fn force_refresh(&self, mapping: &Mapping) -> (result: MintTurn)
        ensures
            result@ == mint_for(mapping@),
    {
        MintTurn {
            account_id: mapping.account_id.clone(),
            permission_set: mapping.permission_set.clone(),
            region: mapping.region.clone(),
            key: CredentialBroker::cache_key(mapping),
        }
    }

    /// What the mint a turn waits for is called with: the token this broker holds now.
    pub fn mint_call<'a>(&'a self, turn: &'a MintTurn) -> (result: MintCall<'a>)
        ensures
            result.is_for(self@, turn@),
    {
        MintCall {
            token: &self.token,
            account_id: turn.account_id(),
            permission_set: turn.permission_set(),
            region: turn.region(),
        }
    }

    /// Take the reply to a mint: a Credential is kept, in place of an earlier one,
    /// and handed out; an error leaves what is kept alone.
    pub fn minted(&mut self, turn: MintTurn, reply: Result<Credential, SessionError>) -> (result:
        Result<Credential, SessionError>)
        ensures
            match reply {
                Ok(c) => {
                    &&& result is Ok
                    &&& result->Ok_0@ == c@
                    &&& final(self)@ == (BrokerView {
                        token: old(self)@.token,
                        cache: old(self)@.cache.insert(turn@.key, c@),
                    })
                },
                Err(e) => result == Err::<Credential, SessionError>(e) && final(self)@ == old(
                    self,
                )@,
            },
    {
        proof {
            use_type_invariant(&*self);
        }
        let fresh = match reply {
            Ok(c) => c,
            Err(e) => return Err(e),
        };
        let out = fresh.duplicate();
        let ghost before = self.cache@;
        let at = self.position(&turn.key);
        let mut cache: Vec<(String, Credential)> = Vec::new();
        std::mem::swap(&mut cache, &mut self.cache);
        match at {
            Some(i) => {
                cache.set(i, (turn.key, fresh));
            },
            None => {
                cache.push((turn.key, fresh));
            },
        }
        proof {
            let after = cache@;
            let key = turn.key@;
            assert(distinct_keys(after)) by {
                assert forall|i: int, j: int| 0 <= i < j < after.len() implies (
                #[trigger] after[i]).0@ != (#[trigger] after[j]).0@ by {
                    if i < before.len() && j < before.len() {
                        assert(before[i].0@ != before[j].0@);
                    }
                }
            }
            let want = cache_map(before).insert(key, fresh@);
            let have = cache_map(after);
            assert forall|k: Seq<char>| #[trigger] have.dom().contains(k) == want.dom().contains(
                k,
            ) by {
                if have.dom().contains(k) {
                    let i = choose|i: int| 0 <= i < after.len() && (#[trigger] after[i]).0@ == k;
                    if k != key {
                        assert(before[i].0@ == k);
                    }
                }
                if want.dom().contains(k) {
                    if k == key {
                        let i = match at {
                            Some(i) => i as int,
                            None => before.len() as int,
                        };
                        assert(after[i].0@ == k);
                    } else {
                        let i = choose|i: int|
                            0 <= i < before.len() && (#[trigger] before[i]).0@ == k;
                        assert(after[i].0@ == k);
                    }
                }
            }
            assert(have.dom() =~= want.dom());
            assert forall|k: Seq<char>| #[trigger] have.dom().contains(k) implies have[k]
                == want[k] by {
                let i = choose|i: int| 0 <= i < after.len() && (#[trigger] after[i]).0@ == k;
                lemma_cache_at(after, i);
                if k != key {
                    assert(before[i].0@ == k);
                    lemma_cache_at(before, i);
                }
            }
            assert(have =~= want);
        }
        self.cache = cache;
        Ok(out)
    }
}

impl MintTurn {
    pub fn account_id(&self) -> (result: &str)
        ensures
            result@ == self@.account_id,
    {
        self.account_id.as_str()
    }

    pub fn permission_set(&self) -> (result: &str)
        ensures
            result@ == self@.permission_set,
    {
        self.permission_set.as_str()
    }

    pub fn region(&self) -> (result: &str)
        ensures
            result@ == self@.region,
    {
        self.region.as_str()
    }
}

// ---------------------------------------------------------------------------
// Laws
// ---------------------------------------------------------------------------

/// `s` holds no `|`.
pub open spec fn bar_free(s: Seq<char>) -> bool {
    forall|i: int| 0 <= i < s.len() ==> #[trigger] s[i] != '|'
}

proof fn lemma_cut(a: Seq<char>, x: Seq<char>, b: Seq<char>, y: Seq<char>)
    requires
        bar_free(a),
        bar_free(b),
        a + "|"@ + x == b + "|"@ + y,
    ensures
        a == b,
        x == y,
{
    reveal_strlit("|");
    let l = a + "|"@ + x;
    let r = b + "|"@ + y;
    if a.len() < b.len() {
        assert(l[a.len() as int] == '|');
        assert(r[a.len() as int] == b[a.len() as int]);
    } else if b.len() < a.len() {
        assert(r[b.len() as int] == '|');
        assert(l[b.len() as int] == a[b.len() as int]);
    }
    assert(a =~= l.take(a.len() as int));
    assert(b =~= r.take(b.len() as int));
    assert(x =~= l.skip(a.len() as int + 1));
    assert(y =~= r.skip(b.len() as int + 1));
}

/// Two Mappings whose account and role hold no `|` share a kept Credential only if
/// account, role and region are the same.
pub proof fn a_kept_credential_is_never_shared_across_roles(a: MappingView, b: MappingView)
    requires
        bar_free(a.account_id),
        bar_free(a.permission_set),
        bar_free(b.account_id),
        bar_free(b.permission_set),
        cache_key_of(a) == cache_key_of(b),
    ensures
        a.account_id == b.account_id,
        a.permission_set == b.permission_set,
        a.region == b.region,
{
    let ax = a.permission_set + "|"@ + a.region;
    let bx = b.permission_set + "|"@ + b.region;
    assert(cache_key_of(a) =~= a.account_id + "|"@ + ax);
    assert(cache_key_of(b) =~= b.account_id + "|"@ + bx);
    lemma_cut(a.account_id, ax, b.account_id, bx);
    lemma_cut(a.permission_set, a.region, b.permission_set, b.region);
}

/// A Credential that was minted for a Mapping serves it until it nears its expiry,
/// and no longer.
pub proof fn a_minted_credential_serves_until_it_is_stale(
    broker: BrokerView,
    m: MappingView,
    minted: CredentialView,
    now: Timestamp,
)
    ensures
        ({
            let after = BrokerView {
                token: broker.token,
                cache: broker.cache.insert(mint_for(m).key, minted),
            };
            after.fresh(m, now) == (if minted.stale(now, REFRESH_SKEW) {
                None
            } else {
                Some(minted)
            })
        }),
{
}

} // verus!
