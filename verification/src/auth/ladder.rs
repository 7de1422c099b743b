//! The resilience ladder around one read or one write.
//!
//! A pass gets a Credential and makes the call. A call that is denied may have been
//! made with a Credential that AWS no longer takes, so it is made once more with one
//! freshly minted. A dead token, wherever it shows, is answered with one fresh
//! Sign-in and one more pass. Anything else ends the ladder as it is.
//!
//! A climb is a sequence of turns. [`begin`] gives the first, and each turn says
//! what it waits for and takes the reply.

use vstd::prelude::*;
use vstd::string::*;

use crate::auth::error::{SessionError, SessionErrorView, SignInError};
use crate::auth::method::{MethodError, MethodErrorView};

verus! {

/// An error a ladder can act on.
pub trait Laddered: Sized {
    /// What this error is.
    spec fn meaning(self) -> MethodErrorView;

    /// Whether the SSO token is dead.
    fn is_dead_token(&self) -> (result: bool)
        ensures
            result == (self.meaning() == MethodErrorView::Session(
                SessionErrorView::ReauthRequired,
            )),
    ;

    /// Whether the call was denied under policy.
    fn is_denied(&self) -> (result: bool)
        ensures
            result == (self.meaning() == MethodErrorView::Session(SessionErrorView::AccessDenied)),
    ;

    /// A Session error as this kind of error.
    fn of_session(e: SessionError) -> (result: Self)
        ensures
            result.meaning() == MethodErrorView::Session(e@),
    ;
}

impl Laddered for MethodError {
    open spec fn meaning(self) -> MethodErrorView {
        self@
    }

    fn is_dead_token(&self) -> (result: bool) {
        match self {
            MethodError::Session(SessionError::ReauthRequired) => true,
            _ => false,
        }
    }

    fn is_denied(&self) -> (result: bool) {
        match self {
            MethodError::Session(SessionError::AccessDenied) => true,
            _ => false,
        }
    }

    fn of_session(e: SessionError) -> (result: Self) {
        MethodError::Session(e)
    }
}

impl Laddered for SessionError {
    open spec fn meaning(self) -> MethodErrorView {
        MethodErrorView::Session(self@)
    }

    fn is_dead_token(&self) -> (result: bool) {
        match self {
            SessionError::ReauthRequired => true,
            _ => false,
        }
    }

    fn is_denied(&self) -> (result: bool) {
        match self {
            SessionError::AccessDenied => true,
            _ => false,
        }
    }

    fn of_session(e: SessionError) -> (result: Self) {
        e
    }
}

/// A climb that waits for a currently valid Credential.
#[derive(Debug)]
pub struct CredentialsTurn {
    signed_in_again: bool,
}

/// A climb that waits for the call itself.
#[derive(Debug)]
pub struct CallTurn {
    signed_in_again: bool,
    refreshed: bool,
}

/// A climb that waits for a Credential minted afresh.
#[derive(Debug)]
pub struct RefreshTurn {
    signed_in_again: bool,
}

/// A climb that waits for a fresh Sign-in. The broker is to be built anew on its
/// token.
#[derive(Debug)]
pub struct ReSignInTurn {}

/// Where a climb stands.
#[derive(Debug)]
pub enum LadderStep<T, E> {
    Credentials(CredentialsTurn),
    Call(CallTurn),
    Refresh(RefreshTurn),
    SignIn(ReSignInTurn),
    Done(Result<T, E>),
}

/// A [`LadderStep`] as a mathematical value.
#[allow(inconsistent_fields)]
pub enum LadderStepView<T> {
    Credentials { signed_in_again: bool },
    Call { signed_in_again: bool, refreshed: bool },
    Refresh { signed_in_again: bool },
    SignIn,
    Done(Result<T, MethodErrorView>),
}

impl CredentialsTurn {
    /// There was a fresh Sign-in on the way here.
    pub closed spec fn signed_in_again(&self) -> bool {
        self.signed_in_again
    }
}

impl CallTurn {
    /// There was a fresh Sign-in on the way here.
    pub closed spec fn signed_in_again(&self) -> bool {
        self.signed_in_again
    }

    /// The Credential was minted afresh in this pass.
    pub closed spec fn refreshed(&self) -> bool {
        self.refreshed
    }
}

impl RefreshTurn {
    /// There was a fresh Sign-in on the way here.
    pub closed spec fn signed_in_again(&self) -> bool {
        self.signed_in_again
    }
}

/// The outcome of a call as a mathematical value.
pub open spec fn call_reply<T, E: Laddered>(r: Result<T, E>) -> Result<T, MethodErrorView> {
    match r {
        Ok(v) => Ok(v),
        Err(e) => Err(e.meaning()),
    }
}

/// The outcome of a mint or a Sign-in, as far as the ladder looks at it.
pub open spec fn session_reply<C>(r: Result<C, SessionError>) -> Result<(), SessionErrorView> {
    match r {
        Ok(_) => Ok(()),
        Err(e) => Err(e@),
    }
}

impl<T, E: Laddered> LadderStep<T, E> {
    /// This step as a mathematical value.
    pub open spec fn view(&self) -> LadderStepView<T> {
        match self {
            LadderStep::Credentials(t) => LadderStepView::Credentials {
                signed_in_again: t.signed_in_again(),
            },
            LadderStep::Call(t) => LadderStepView::Call {
                signed_in_again: t.signed_in_again(),
                refreshed: t.refreshed(),
            },
            LadderStep::Refresh(t) => LadderStepView::Refresh {
                signed_in_again: t.signed_in_again(),
            },
            LadderStep::SignIn(_) => LadderStepView::SignIn,
            LadderStep::Done(r) => LadderStepView::Done(call_reply(*r)),
        }
    }
}

/// The step after a pass failed with `e`: a dead token asks for a fresh Sign-in, and
/// after one it is a denial. Anything else ends the climb.
pub open spec fn after_failure<T>(e: MethodErrorView, signed_in_again: bool) -> LadderStepView<T> {
    if e == MethodErrorView::Session(SessionErrorView::ReauthRequired) {
        if signed_in_again {
            LadderStepView::Done(Err(MethodErrorView::Session(SessionErrorView::AccessDenied)))
        } else {
            LadderStepView::SignIn
        }
    } else {
        LadderStepView::Done(Err(e))
    }
}

/// The step after a Credential was asked for.
pub open spec fn after_credentials<T>(
    signed_in_again: bool,
    reply: Result<(), SessionErrorView>,
) -> LadderStepView<T> {
    match reply {
        Ok(()) => LadderStepView::Call { signed_in_again, refreshed: false },
        Err(e) => after_failure(MethodErrorView::Session(e), signed_in_again),
    }
}

/// The step after the call: a first denial in a pass asks for a Credential minted
/// afresh.
pub open spec fn after_call<T>(
    signed_in_again: bool,
    refreshed: bool,
    reply: Result<T, MethodErrorView>,
) -> LadderStepView<T> {
    match reply {
        Ok(v) => LadderStepView::Done(Ok(v)),
        Err(e) => if e == MethodErrorView::Session(SessionErrorView::AccessDenied) && !refreshed {
            LadderStepView::Refresh { signed_in_again }
        } else {
            after_failure(e, signed_in_again)
        },
    }
}

/// The step after a Credential was minted afresh.
pub open spec fn after_refresh<T>(
    signed_in_again: bool,
    reply: Result<(), SessionErrorView>,
) -> LadderStepView<T> {
    match reply {
        Ok(()) => LadderStepView::Call { signed_in_again, refreshed: true },
        Err(e) => after_failure(MethodErrorView::Session(e), signed_in_again),
    }
}

/// The step after a fresh Sign-in: one more pass, or the need for a Sign-in where it
/// failed.
pub open spec fn after_sign_in<T>(ok: bool) -> LadderStepView<T> {
    if ok {
        LadderStepView::Credentials { signed_in_again: true }
    } else {
        LadderStepView::Done(Err(MethodErrorView::Session(SessionErrorView::ReauthRequired)))
    }
}

/// Begin a climb.
pub fn begin() -> (result: CredentialsTurn)
    ensures
        !result.signed_in_again(),
{
    CredentialsTurn { signed_in_again: false }
}

fn fail<T, E: Laddered>(e: E, signed_in_again: bool) -> (result: LadderStep<T, E>)
    ensures
        result.view() == after_failure::<T>(e.meaning(), signed_in_again),
{
    if e.is_dead_token() {
        if signed_in_again {
            LadderStep::Done(Err(E::of_session(SessionError::AccessDenied)))
        } else {
            LadderStep::SignIn(ReSignInTurn {  })
        }
    } else {
        LadderStep::Done(Err(e))
    }
}

impl CredentialsTurn {
    /// Take the outcome of asking for a Credential.
    pub fn resume<T, E: Laddered>(self, reply: Result<(), SessionError>) -> (result: LadderStep<
        T,
        E,
    >)
        ensures
            result.view() == after_credentials::<T>(self.signed_in_again(), session_reply(reply)),
    {
        match reply {
            Ok(()) => LadderStep::Call(
                CallTurn { signed_in_again: self.signed_in_again, refreshed: false },
            ),
            Err(e) => fail(E::of_session(e), self.signed_in_again),
        }
    }
}

impl CallTurn {
    /// Take the outcome of the call.
    pub fn resume<T, E: Laddered>(self, reply: Result<T, E>) -> (result: LadderStep<T, E>)
        ensures
            result.view() == after_call::<T>(
                self.signed_in_again(),
                self.refreshed(),
                call_reply(reply),
            ),
    {
        match reply {
            Ok(v) => LadderStep::Done(Ok(v)),
            Err(e) => {
                if e.is_denied() && !self.refreshed {
                    LadderStep::Refresh(RefreshTurn { signed_in_again: self.signed_in_again })
                } else {
                    fail(e, self.signed_in_again)
                }
            },
        }
    }
}

impl RefreshTurn {
    /// Take the outcome of minting a Credential afresh.
    pub fn resume<T, E: Laddered>(self, reply: Result<(), SessionError>) -> (result: LadderStep<
        T,
        E,
    >)
        ensures
            result.view() == after_refresh::<T>(self.signed_in_again(), session_reply(reply)),
    {
        match reply {
            Ok(()) => LadderStep::Call(
                CallTurn { signed_in_again: self.signed_in_again, refreshed: true },
            ),
            Err(e) => fail(E::of_session(e), self.signed_in_again),
        }
    }
}

impl ReSignInTurn {
    /// Take the outcome of the fresh Sign-in.
    pub fn resume<T, E: Laddered>(self, reply: Result<(), SignInError>) -> (result: LadderStep<
        T,
        E,
    >)
        ensures
            result.view() == after_sign_in::<T>(reply is Ok),
    {
        match reply {
            Ok(()) => LadderStep::Credentials(CredentialsTurn { signed_in_again: true }),
            Err(_) => LadderStep::Done(Err(E::of_session(SessionError::ReauthRequired))),
        }
    }
}

// ---------------------------------------------------------------------------
// Laws
// ---------------------------------------------------------------------------

/// The reply to one turn of a climb.
pub enum LadderReplyView<T> {
    Credentials(Result<(), SessionErrorView>),
    Call(Result<T, MethodErrorView>),
    Refresh(Result<(), SessionErrorView>),
    SignIn { ok: bool },
}

/// `step` waits for a reply of this kind.
pub open spec fn fits<T>(step: LadderStepView<T>, reply: LadderReplyView<T>) -> bool {
    match reply {
        LadderReplyView::Credentials(_) => step is Credentials,
        LadderReplyView::Call(_) => step is Call,
        LadderReplyView::Refresh(_) => step is Refresh,
        LadderReplyView::SignIn { .. } => step is SignIn,
    }
}

/// The step after `reply`.
pub open spec fn advance<T>(step: LadderStepView<T>, reply: LadderReplyView<T>) -> LadderStepView<
    T,
> {
    match reply {
        LadderReplyView::Credentials(r) => after_credentials(step->Credentials_signed_in_again, r),
        LadderReplyView::Call(r) => after_call(step->Call_signed_in_again, step->refreshed, r),
        LadderReplyView::Refresh(r) => after_refresh(step->Refresh_signed_in_again, r),
        LadderReplyView::SignIn { ok } => after_sign_in(ok),
    }
}

/// The step a climb has come to after these replies.
pub open spec fn climb<T>(replies: Seq<LadderReplyView<T>>) -> LadderStepView<T>
    decreases replies.len(),
{
    if replies.len() == 0 {
        LadderStepView::Credentials { signed_in_again: false }
    } else {
        advance(climb(replies.drop_last()), replies.last())
    }
}

/// Each reply is of the kind the climb waited for.
pub open spec fn is_climb<T>(replies: Seq<LadderReplyView<T>>) -> bool
    decreases replies.len(),
{
    replies.len() == 0 || {
        &&& is_climb(replies.drop_last())
        &&& fits(climb(replies.drop_last()), replies.last())
    }
}

/// How many fresh Sign-ins there were.
pub open spec fn sign_ins<T>(replies: Seq<LadderReplyView<T>>) -> nat
    decreases replies.len(),
{
    if replies.len() == 0 {
        0
    } else {
        sign_ins(replies.drop_last()) + if replies.last() is SignIn {
            1nat
        } else {
            0
        }
    }
}

/// How many Credentials were minted afresh.
pub open spec fn refreshes<T>(replies: Seq<LadderReplyView<T>>) -> nat
    decreases replies.len(),
{
    if replies.len() == 0 {
        0
    } else {
        refreshes(replies.drop_last()) + if replies.last() is Refresh {
            1nat
        } else {
            0
        }
    }
}

/// How many replies a climb takes at most from this step on.
pub open spec fn rank<T>(step: LadderStepView<T>) -> nat {
    match step {
        LadderStepView::Credentials { signed_in_again } => if signed_in_again {
            4
        } else {
            9
        },
        LadderStepView::Call { signed_in_again, refreshed } => (if signed_in_again {
            0nat
        } else {
            5
        }) + (if refreshed {
            1nat
        } else {
            3
        }),
        LadderStepView::Refresh { signed_in_again } => (if signed_in_again {
            0nat
        } else {
            5
        }) + 2,
        LadderStepView::SignIn => 5,
        LadderStepView::Done(_) => 0,
    }
}

/// What every step knows of the way it came.
spec fn tallies<T>(replies: Seq<LadderReplyView<T>>) -> bool {
    let s = sign_ins(replies);
    let r = refreshes(replies);
    match climb(replies) {
        LadderStepView::Credentials { signed_in_again } => {
            &&& s == (if signed_in_again {
                1nat
            } else {
                0
            })
            &&& r <= s
        },
        LadderStepView::Call { signed_in_again, refreshed } => {
            &&& s == (if signed_in_again {
                1nat
            } else {
                0
            })
            &&& r <= s + if refreshed {
                1nat
            } else {
                0
            }
        },
        LadderStepView::Refresh { signed_in_again } => {
            &&& s == (if signed_in_again {
                1nat
            } else {
                0
            })
            &&& r <= s
        },
        LadderStepView::SignIn => s == 0 && r <= 1,
        LadderStepView::Done(_) => s <= 1 && r <= s + 1,
    }
}

proof fn lemma_tallies<T>(replies: Seq<LadderReplyView<T>>)
    requires
        is_climb(replies),
    ensures
        tallies(replies),
    decreases replies.len(),
{
    if replies.len() > 0 {
        lemma_tallies(replies.drop_last());
    }
}

/// A climb opens at most one browser.
pub proof fn at_most_one_fresh_sign_in<T>(replies: Seq<LadderReplyView<T>>)
    requires
        is_climb(replies),
    ensures
        sign_ins(replies) <= 1,
{
    lemma_tallies(replies);
}

/// A climb mints afresh at most once per pass: once, and once more after a fresh
/// Sign-in.
pub proof fn at_most_one_refresh_per_pass<T>(replies: Seq<LadderReplyView<T>>)
    requires
        is_climb(replies),
    ensures
        refreshes(replies) <= sign_ins(replies) + 1,
{
    lemma_tallies(replies);
}

/// A climb ends after at most nine replies.
pub proof fn a_climb_ends<T>(replies: Seq<LadderReplyView<T>>)
    requires
        is_climb(replies),
    ensures
        replies.len() + rank(climb(replies)) <= 9,
    decreases replies.len(),
{
    if replies.len() > 0 {
        a_climb_ends(replies.drop_last());
    }
}

/// A browser is opened only for a dead token.
pub proof fn only_a_dead_token_opens_a_browser<T>(
    step: LadderStepView<T>,
    reply: LadderReplyView<T>,
)
    requires
        fits(step, reply),
        advance(step, reply) is SignIn,
    ensures
        match reply {
            LadderReplyView::Credentials(r) => r == Err::<(), SessionErrorView>(
                SessionErrorView::ReauthRequired,
            ),
            LadderReplyView::Call(r) => r == Err::<T, MethodErrorView>(
                MethodErrorView::Session(SessionErrorView::ReauthRequired),
            ),
            LadderReplyView::Refresh(r) => r == Err::<(), SessionErrorView>(
                SessionErrorView::ReauthRequired,
            ),
            LadderReplyView::SignIn { .. } => false,
        },
{
}

/// An unusable payload ends the climb at once, and as it is: trying again cannot
/// help.
pub proof fn unusable_content_is_never_retried<T>(
    step: LadderStepView<T>,
    detail: Seq<char>,
)
    requires
        step is Call,
    ensures
        advance(step, LadderReplyView::Call(Err(MethodErrorView::Content { detail })))
            == LadderStepView::<T>::Done(Err(MethodErrorView::Content { detail })),
{
}

/// A climb that ends still asking for a Sign-in does so because the Sign-in failed: a
/// token that is dead right after a fresh Sign-in is a denial.
pub proof fn a_fresh_sign_in_that_does_not_help_is_a_denial<T>(replies: Seq<LadderReplyView<T>>)
    requires
        is_climb(replies),
        replies.len() > 0,
        climb(replies) == LadderStepView::<T>::Done(
            Err(MethodErrorView::Session(SessionErrorView::ReauthRequired)),
        ),
    ensures
        replies.last() == (LadderReplyView::<T>::SignIn { ok: false }),
{
}

/// A climb succeeds exactly when its last call did, with what that call gave.
pub proof fn a_climb_answers_its_last_call<T>(replies: Seq<LadderReplyView<T>>, value: T)
    requires
        is_climb(replies),
        replies.len() > 0,
    ensures
        climb(replies) == LadderStepView::<T>::Done(Ok(value)) <==> replies.last()
            == LadderReplyView::<T>::Call(Ok(value)),
{
}

} // verus!
