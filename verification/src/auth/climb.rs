//! One read or one write for one Mapping, through the ladder and the broker.
//!
//! The ladder says when a Credential is wanted, minted afresh or replaced by a new
//! session; the broker says whether the one it keeps will do. What is left for the
//! outside is three calls: to mint a Credential, to make the call with it, and to
//! open the browser.
//!
//! A climb is a sequence of rungs. [`begin`] gives the first, and each rung says what
//! it waits for and takes the reply.

use vstd::pervasive::unreached;
use vstd::prelude::*;
use vstd::string::*;

use crate::auth::broker::{mint_for, BrokerView, CredentialBroker, CredentialStep, MintTurn};
use crate::auth::error::{SessionError, SessionErrorView, SignInError};
use crate::auth::ladder::{
    self, after_failure, call_reply, CallTurn, CredentialsTurn, LadderStep, LadderStepView,
    Laddered, ReSignInTurn, RefreshTurn,
};
use crate::auth::method::MethodErrorView;
use crate::auth::types::{Credential, CredentialView, SsoToken, SsoTokenView, Timestamp};
use crate::model::config::{Mapping, MappingView};

verus! {

/// Why a Credential is minted.
#[derive(Debug)]
enum MintReason {
    /// None is kept that will do.
    Wanted(CredentialsTurn),
    /// The call was denied with the one that is kept.
    Denied(RefreshTurn),
}

/// A climb that waits for a Credential to be minted.
#[derive(Debug)]
pub struct MintRung {
    mapping: Mapping,
    mint: MintTurn,
    reason: MintReason,
}

/// A climb that waits for the call to be made.
#[derive(Debug)]
pub struct CallRung {
    mapping: Mapping,
    credential: Credential,
    turn: CallTurn,
}

/// A climb that waits for a fresh Sign-in.
#[derive(Debug)]
pub struct SignInRung {
    mapping: Mapping,
    turn: ReSignInTurn,
}

/// Where a climb stands.
#[derive(Debug)]
pub enum ClimbStep<T, E> {
    Mint(MintRung),
    Call(CallRung),
    SignIn(SignInRung),
    Done(Result<T, E>),
}

/// A [`ClimbStep`] as a mathematical value.
#[allow(inconsistent_fields)]
#[verifier::ext_equal]
pub enum ClimbStepView<T> {
    Mint { mapping: MappingView, signed_in_again: bool, denied: bool },
    Call {
        mapping: MappingView,
        credential: CredentialView,
        signed_in_again: bool,
        refreshed: bool,
    },
    SignIn { mapping: MappingView },
    Done(Result<T, MethodErrorView>),
}

impl MintRung {
    pub closed spec fn mapping(&self) -> MappingView {
        self.mapping@
    }

    /// There was a fresh Sign-in on the way here.
    pub closed spec fn signed_in_again(&self) -> bool {
        match self.reason {
            MintReason::Wanted(t) => t.signed_in_again(),
            MintReason::Denied(t) => t.signed_in_again(),
        }
    }

    /// The call was denied in this pass.
    pub closed spec fn denied(&self) -> bool {
        self.reason is Denied
    }

    #[verifier::type_invariant]
    spec fn inv(&self) -> bool {
        self.mint@ == mint_for(self.mapping@)
    }

    /// What to mint.
    pub fn mint(&self) -> (result: &MintTurn)
        ensures
            result@ == mint_for(self.mapping()),
    {
        proof {
            use_type_invariant(self);
        }
        &self.mint
    }
}

impl CallRung {
    pub closed spec fn mapping(&self) -> MappingView {
        self.mapping@
    }

    pub closed spec fn credential(&self) -> CredentialView {
        self.credential@
    }

    /// There was a fresh Sign-in on the way here.
    pub closed spec fn signed_in_again(&self) -> bool {
        self.turn.signed_in_again()
    }

    /// The Credential was minted afresh in this pass.
    pub closed spec fn refreshed(&self) -> bool {
        self.turn.refreshed()
    }

    /// The Mapping to make the call for.
    pub fn target(&self) -> (result: &Mapping)
        ensures
            result@ == self.mapping(),
    {
        &self.mapping
    }

    /// The Credential to make the call with.
    pub fn cred(&self) -> (result: &Credential)
        ensures
            result@ == self.credential(),
    {
        &self.credential
    }
}

impl SignInRung {
    pub closed spec fn mapping(&self) -> MappingView {
        self.mapping@
    }
}

impl<T, E: Laddered> ClimbStep<T, E> {
    /// This step as a mathematical value.
    pub open spec fn view(&self) -> ClimbStepView<T> {
        match self {
            ClimbStep::Mint(r) => ClimbStepView::Mint {
                mapping: r.mapping(),
                signed_in_again: r.signed_in_again(),
                denied: r.denied(),
            },
            ClimbStep::Call(r) => ClimbStepView::Call {
                mapping: r.mapping(),
                credential: r.credential(),
                signed_in_again: r.signed_in_again(),
                refreshed: r.refreshed(),
            },
            ClimbStep::SignIn(r) => ClimbStepView::SignIn { mapping: r.mapping() },
            ClimbStep::Done(r) => ClimbStepView::Done(call_reply(*r)),
        }
    }
}

/// The first step of a pass: the kept Credential, or one to mint.
pub open spec fn pass<T>(
    broker: BrokerView,
    mapping: MappingView,
    signed_in_again: bool,
    now: Timestamp,
) -> ClimbStepView<T> {
    match broker.fresh(mapping, now) {
        Some(credential) => ClimbStepView::Call {
            mapping,
            credential,
            signed_in_again,
            refreshed: false,
        },
        None => ClimbStepView::Mint { mapping, signed_in_again, denied: false },
    }
}

/// The step for where the ladder leads when it does not go on with the Credential at
/// hand. Its two other steps never follow a failure.
pub open spec fn led<T>(step: LadderStepView<T>, mapping: MappingView) -> ClimbStepView<T> {
    match step {
        LadderStepView::Refresh { signed_in_again } => ClimbStepView::Mint {
            mapping,
            signed_in_again,
            denied: true,
        },
        LadderStepView::SignIn => ClimbStepView::SignIn { mapping },
        LadderStepView::Done(r) => ClimbStepView::Done(r),
        _ => arbitrary(),
    }
}

/// The step after a Credential was minted.
pub open spec fn after_mint<T>(
    mapping: MappingView,
    signed_in_again: bool,
    denied: bool,
    reply: Result<CredentialView, SessionErrorView>,
) -> ClimbStepView<T> {
    match reply {
        Ok(credential) => ClimbStepView::Call {
            mapping,
            credential,
            signed_in_again,
            refreshed: denied,
        },
        Err(e) => led(after_failure(MethodErrorView::Session(e), signed_in_again), mapping),
    }
}

/// The step after the call was made.
pub open spec fn after_call<T>(
    mapping: MappingView,
    signed_in_again: bool,
    refreshed: bool,
    reply: Result<T, MethodErrorView>,
) -> ClimbStepView<T> {
    led(ladder::after_call(signed_in_again, refreshed, reply), mapping)
}

/// The broker after a Credential was minted for a Mapping.
pub open spec fn broker_after_mint(
    broker: BrokerView,
    mapping: MappingView,
    reply: Result<CredentialView, SessionErrorView>,
) -> BrokerView {
    match reply {
        Ok(c) => BrokerView {
            token: broker.token,
            cache: broker.cache.insert(mint_for(mapping).key, c),
        },
        Err(_) => broker,
    }
}

/// The broker after a fresh Sign-in: on its token, with nothing kept. Where there is no
/// token it stays as it is.
pub open spec fn broker_after_sign_in(
    broker: BrokerView,
    token: Option<SsoTokenView>,
) -> BrokerView {
    match token {
        Some(token) => BrokerView { token, cache: Map::empty() },
        None => broker,
    }
}

/// The step after a fresh Sign-in: one more pass, or the need for one where it failed.
pub open spec fn after_sign_in<T>(
    mapping: MappingView,
    token: Option<SsoTokenView>,
    now: Timestamp,
) -> ClimbStepView<T> {
    match token {
        Some(token) => pass(BrokerView { token, cache: Map::empty() }, mapping, true, now),
        None => ClimbStepView::Done(
            Err(MethodErrorView::Session(SessionErrorView::ReauthRequired)),
        ),
    }
}

/// The token of a Sign-in, where it succeeded.
pub open spec fn token_of(r: Result<SsoToken, SignInError>) -> Option<SsoTokenView> {
    match r {
        Ok(token) => Some(token@),
        Err(_) => None,
    }
}

/// The reply to a mint as a mathematical value.
pub open spec fn mint_reply(r: Result<Credential, SessionError>) -> Result<
    CredentialView,
    SessionErrorView,
> {
    match r {
        Ok(c) => Ok(c@),
        Err(e) => Err(e@),
    }
}

fn start_pass<T, E: Laddered>(
    turn: CredentialsTurn,
    broker: &CredentialBroker,
    mapping: Mapping,
    now: Timestamp,
) -> (result: ClimbStep<T, E>)
    ensures
        result.view() == pass::<T>(broker@, mapping@, turn.signed_in_again(), now),
{
    match broker.credentials_for(&mapping, now) {
        CredentialStep::Ready(credential) => {
            let step: LadderStep<T, E> = turn.resume(Ok(()));
            match step {
                LadderStep::Call(turn) => ClimbStep::Call(CallRung { mapping, credential, turn }),
                _ => unreached(),
            }
        },
        CredentialStep::Mint(mint) => ClimbStep::Mint(
            MintRung { mapping, mint, reason: MintReason::Wanted(turn) },
        ),
    }
}

fn lead<T, E: Laddered>(step: LadderStep<T, E>, broker: &CredentialBroker, mapping: Mapping) -> (result:
    ClimbStep<T, E>)
    requires
        !(step is Credentials),
        !(step is Call),
    ensures
        result.view() == led(step.view(), mapping@),
{
    match step {
        LadderStep::Refresh(turn) => {
            let mint = broker.force_refresh(&mapping);
            ClimbStep::Mint(MintRung { mapping, mint, reason: MintReason::Denied(turn) })
        },
        LadderStep::SignIn(turn) => ClimbStep::SignIn(SignInRung { mapping, turn }),
        LadderStep::Done(r) => ClimbStep::Done(r),
        _ => unreached(),
    }
}

/// Begin a climb for a Mapping.
pub fn begin<T, E: Laddered>(broker: &CredentialBroker, mapping: Mapping, now: Timestamp) -> (result:
    ClimbStep<T, E>)
    ensures
        result.view() == pass::<T>(broker@, mapping@, false, now),
{
    start_pass(ladder::begin(), broker, mapping, now)
}

impl MintRung {
    /// Take the outcome of the mint. The broker keeps the Credential.
    pub fn resume<T, E: Laddered>(
        self,
        broker: &mut CredentialBroker,
        reply: Result<Credential, SessionError>,
    ) -> (result: ClimbStep<T, E>)
        ensures
            result.view() == after_mint::<T>(
                self.mapping(),
                self.signed_in_again(),
                self.denied(),
                mint_reply(reply),
            ),
            final(broker)@ == broker_after_mint(old(broker)@, self.mapping(), mint_reply(reply)),
    {
        proof {
            use_type_invariant(&self);
        }
        let mapping = self.mapping;
        match broker.minted(self.mint, reply) {
            Ok(credential) => {
                let step: LadderStep<T, E> = match self.reason {
                    MintReason::Wanted(turn) => turn.resume(Ok(())),
                    MintReason::Denied(turn) => turn.resume(Ok(())),
                };
                match step {
                    LadderStep::Call(turn) => ClimbStep::Call(
                        CallRung { mapping, credential, turn },
                    ),
                    _ => unreached(),
                }
            },
            Err(e) => {
                let step: LadderStep<T, E> = match self.reason {
                    MintReason::Wanted(turn) => turn.resume(Err(e)),
                    MintReason::Denied(turn) => turn.resume(Err(e)),
                };
                lead(step, broker, mapping)
            },
        }
    }
}

impl CallRung {
    /// Take the outcome of the call.
    pub fn resume<T, E: Laddered>(self, broker: &CredentialBroker, reply: Result<T, E>) -> (result:
        ClimbStep<T, E>)
        ensures
            result.view() == after_call::<T>(
                self.mapping(),
                self.signed_in_again(),
                self.refreshed(),
                call_reply(reply),
            ),
    {
        let step: LadderStep<T, E> = self.turn.resume(reply);
        lead(step, broker, self.mapping)
    }
}

impl SignInRung {
    /// Take the outcome of the Sign-in. On a fresh token the broker is built anew, with
    /// nothing kept, and there is one more pass.
    pub fn resume<T, E: Laddered>(
        self,
        broker: &mut CredentialBroker,
        reply: Result<SsoToken, SignInError>,
        now: Timestamp,
    ) -> (result: ClimbStep<T, E>)
        ensures
            match reply {
                Ok(token) => {
                    let fresh = BrokerView { token: token@, cache: Map::empty() };
                    &&& final(broker)@ == fresh
                    &&& result.view() == pass::<T>(fresh, self.mapping(), true, now)
                },
                Err(_) => {
                    &&& final(broker)@ == old(broker)@
                    &&& result.view() == ClimbStepView::<T>::Done(
                        Err(MethodErrorView::Session(SessionErrorView::ReauthRequired)),
                    )
                },
            },
            final(broker)@ == broker_after_sign_in(old(broker)@, token_of(reply)),
            result.view() == after_sign_in::<T>(self.mapping(), token_of(reply), now),
    {
        match reply {
            Ok(token) => {
                *broker = CredentialBroker::new(token);
                let step: LadderStep<T, E> = self.turn.resume(Ok(()));
                match step {
                    LadderStep::Credentials(turn) => start_pass(turn, broker, self.mapping, now),
                    _ => unreached(),
                }
            },
            Err(e) => {
                let step: LadderStep<T, E> = self.turn.resume(Err(e));
                lead(step, broker, self.mapping)
            },
        }
    }
}

// ---------------------------------------------------------------------------
// Laws
// ---------------------------------------------------------------------------

/// The reply to one rung of a climb. A Sign-in gives a token, or none.
pub enum ClimbReplyView<T> {
    Mint(Result<CredentialView, SessionErrorView>),
    Call(Result<T, MethodErrorView>),
    SignIn { token: Option<SsoTokenView>, now: Timestamp },
}

/// `step` waits for a reply of this kind.
pub open spec fn fits<T>(step: ClimbStepView<T>, reply: ClimbReplyView<T>) -> bool {
    match reply {
        ClimbReplyView::Mint(_) => step is Mint,
        ClimbReplyView::Call(_) => step is Call,
        ClimbReplyView::SignIn { .. } => step is SignIn,
    }
}

/// The step after `reply`, as the rungs give it.
pub open spec fn advance<T>(step: ClimbStepView<T>, reply: ClimbReplyView<T>) -> ClimbStepView<T> {
    match reply {
        ClimbReplyView::Mint(r) => after_mint(
            step->Mint_mapping,
            step->Mint_signed_in_again,
            step->denied,
            r,
        ),
        ClimbReplyView::Call(r) => after_call(
            step->Call_mapping,
            step->Call_signed_in_again,
            step->refreshed,
            r,
        ),
        ClimbReplyView::SignIn { token, now } => after_sign_in(step->SignIn_mapping, token, now),
    }
}

/// Where a climb from `first` stands after these replies.
pub open spec fn run<T>(first: ClimbStepView<T>, replies: Seq<ClimbReplyView<T>>) -> ClimbStepView<T>
    decreases replies.len(),
{
    if replies.len() == 0 {
        first
    } else {
        advance(run(first, replies.drop_last()), replies.last())
    }
}

/// Each of the replies is to the rung the climb stood on.
pub open spec fn is_run<T>(first: ClimbStepView<T>, replies: Seq<ClimbReplyView<T>>) -> bool
    decreases replies.len(),
{
    replies.len() > 0 ==> is_run(first, replies.drop_last()) && fits(
        run(first, replies.drop_last()),
        replies.last(),
    )
}

/// How many of the replies are to a Sign-in.
pub open spec fn sign_ins<T>(replies: Seq<ClimbReplyView<T>>) -> nat
    decreases replies.len(),
{
    if replies.len() == 0 {
        0
    } else {
        sign_ins(replies.drop_last()) + if replies.last() is SignIn {
            1nat
        } else {
            0
        }
    }
}

/// How many rungs a climb has at most before it.
pub open spec fn rank<T>(step: ClimbStepView<T>) -> nat {
    match step {
        ClimbStepView::Mint { signed_in_again, denied, .. } => match (signed_in_again, denied) {
            (false, false) => 9,
            (false, true) => 7,
            (true, false) => 4,
            (true, true) => 2,
        },
        ClimbStepView::Call { signed_in_again, refreshed, .. } => match (signed_in_again, refreshed) {
            (false, false) => 8,
            (false, true) => 6,
            (true, false) => 3,
            (true, true) => 1,
        },
        ClimbStepView::SignIn { .. } => 5,
        ClimbStepView::Done(_) => 0,
    }
}

/// A climb ends after at most nine replies, and opens the browser at most once.
pub proof fn a_climb_ends<T>(
    broker: BrokerView,
    mapping: MappingView,
    now: Timestamp,
    replies: Seq<ClimbReplyView<T>>,
)
    requires
        is_run(pass(broker, mapping, false, now), replies),
    ensures
        replies.len() <= 9,
        sign_ins(replies) <= 1,
{
    lemma_rank(pass(broker, mapping, false, now), replies);
}

proof fn lemma_rank<T>(first: ClimbStepView<T>, replies: Seq<ClimbReplyView<T>>)
    requires
        is_run(first, replies),
    ensures
        rank(run(first, replies)) + replies.len() <= rank(first),
        rank(run(first, replies)) >= 5 ==> sign_ins(replies) == 0,
        sign_ins(replies) <= 1,
    decreases replies.len(),
{
    if replies.len() > 0 {
        lemma_rank(first, replies.drop_last());
    }
}

/// After a fresh Sign-in no Credential from before it is used: one is minted under the
/// fresh token first.
pub proof fn a_fresh_session_mints_first<T>(step: ClimbStepView<T>, token: SsoTokenView, now: Timestamp)
    requires
        step is SignIn,
    ensures
        advance(step, ClimbReplyView::SignIn { token: Some(token), now }) == (ClimbStepView::<
            T,
        >::Mint { mapping: step->SignIn_mapping, signed_in_again: true, denied: false }),
{
}

/// Every call and every mint of a climb is for the Mapping it was begun for.
pub proof fn a_climb_keeps_its_mapping<T>(
    broker: BrokerView,
    mapping: MappingView,
    now: Timestamp,
    replies: Seq<ClimbReplyView<T>>,
)
    requires
        is_run(pass(broker, mapping, false, now), replies),
    ensures
        match run(pass(broker, mapping, false, now), replies) {
            ClimbStepView::Mint { mapping: m, .. } => m == mapping,
            ClimbStepView::Call { mapping: m, .. } => m == mapping,
            ClimbStepView::SignIn { mapping: m } => m == mapping,
            ClimbStepView::Done(_) => true,
        },
    decreases replies.len(),
{
    if replies.len() > 0 {
        a_climb_keeps_its_mapping(broker, mapping, now, replies.drop_last());
    }
}

} // verus!
