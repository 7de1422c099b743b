//! Values as the contracts see them: each is seen as it is, and each list in its order.

use vstd::prelude::*;

use crate::auth::authenticator::{token_reply, SignInStep, SignInStepView};
use crate::auth::authwalk::{borrowed, StepPlanView};
use crate::auth::aws_impl::text_option;
use crate::auth::broker::{cache_key_of, mint_for, BrokerView, MintCall, MintView};
use crate::auth::climb::{mint_reply, token_of};
use crate::auth::error::{SessionError, SessionErrorView, SignInError, SignInErrorView};
use crate::auth::ladder::{call_reply, session_reply, Laddered};
use crate::auth::load::{fetch_reply, set_views};
use crate::auth::method::{MethodError, MethodErrorView};
use crate::auth::types::{Credential, SsoToken};
use crate::auth::wire::{ClientRegistration, RawSecret};
use crate::aws::discovery::{after_plan, DiscoveryView, WalkStepView};
use crate::aws::harness::is_first_entry;
use crate::aws::secret_write::{ending, read_reply, SecretWriteError, WriteStep, WriteStepView};
use crate::aws::secrets::{shape_result, SecretShape};
use crate::aws::wire::ReadSecret;
use crate::model::config::{
    application_views, mapping_views, Application, Config, Mapping, MappingView,
};
use crate::model::provider::{failure_views, Failure, Step, StepView};
use crate::model::select::{choice_views, labels, Choice, ChoiceView};
use crate::model::write::{edit_views, EnvEdit, EnvEditView, WriteOutcome};
use crate::store::{ConfigError, ConfigFailure};
use crate::text::views;
use vstd::std_specs::convert::FromSpec;

verus! {

/// A Mapping is seen field by field.
pub proof fn a_mapping_is_seen_as_it_is(m: Mapping)
    ensures
        m@.environment == m.environment@,
        m@.account_id == m.account_id@,
        m@.region == m.region@,
        m@.secret_id == m.secret_id@,
        m@.permission_set == m.permission_set@,
        m@.method == m.method,
{
}

/// A Config is seen field by field, and so is an Application.
pub proof fn a_config_is_seen_as_it_is(c: Config, a: Application)
    ensures
        c@.sso_start_url == c.sso_start_url@,
        c@.sso_region == c.sso_region@,
        c@.secret_region == c.secret_region@,
        c@.browser_command is Some <==> c.browser_command is Some,
        c.browser_command is Some ==> c@.browser_command->0 == c.browser_command->0@,
        c@.last_pick is Some <==> c.last_pick is Some,
        c.last_pick is Some ==> c@.last_pick->0 == c.last_pick->0@,
        c@.applications == application_views(c.applications@),
        a@.name == a.name@,
        a@.environments == mapping_views(a.environments@),
{
}

/// A failure, an entry of a list and an edit are seen field by field.
pub proof fn small_values_are_seen_as_they_are(f: Failure, c: Choice, e: EnvEdit)
    ensures
        f@.environment == f.environment@,
        f@.reason == f.reason,
        f@.detail == f.detail@,
        c@.key == c.key@,
        c@.label == c.label@,
        match e {
            EnvEdit::Put { key, value } => e@ == (EnvEditView::Put { key: key@, value: value@ }),
            EnvEdit::Remove { key } => e@ == (EnvEditView::Remove { key: key@ }),
        },
{
}

/// What comes from AWS is seen field by field.
pub proof fn replies_are_seen_as_they_are(
    raw: RawSecret,
    read: ReadSecret,
    registration: ClientRegistration,
)
    ensures
        raw@.secret_string is Some <==> raw.secret_string is Some,
        raw.secret_string is Some ==> raw@.secret_string->0 == raw.secret_string->0@,
        raw@.secret_binary is Some <==> raw.secret_binary is Some,
        raw.secret_binary is Some ==> raw@.secret_binary->0 == raw.secret_binary->0@,
        read@.raw == read.raw@,
        read@.version_id is Some <==> read.version_id is Some,
        read.version_id is Some ==> read@.version_id->0 == read.version_id->0@,
        registration@.client_id == registration.client_id@,
        registration@.client_secret == registration.client_secret@,
        registration@.authorization_endpoint == registration.authorization_endpoint@,
{
}

/// An error is seen as the kind it is, with its context.
pub proof fn errors_are_seen_as_they_are(s: SessionError, e: SignInError, m: MethodError)
    ensures
        s@ is ReauthRequired <==> s is ReauthRequired,
        s@ is AccessDenied <==> s is AccessDenied,
        s@ is RoleNotEntitled <==> s is RoleNotEntitled,
        s@ is NotFound <==> s is NotFound,
        s@ is Throttled <==> s is Throttled,
        s@ is Unsupported <==> s is Unsupported,
        s@ is Sdk <==> s is Sdk,
        match s {
            SessionError::RoleNotEntitled { context } => s@ == (
            SessionErrorView::RoleNotEntitled { context: context@ }),
            SessionError::Sdk { context } => s@ == (SessionErrorView::Sdk { context: context@ }),
            _ => true,
        },
        e@ is BrowserLaunch <==> e is BrowserLaunch,
        e@ is ListenerTimeout <==> e is ListenerTimeout,
        e@ is NoLoopbackPort <==> e is NoLoopbackPort,
        e@ is StateMismatch <==> e is StateMismatch,
        e@ is TokenEndpoint <==> e is TokenEndpoint,
        e@ is Network <==> e is Network,
        e is Sdk ==> e@ == (SignInErrorView::Sdk { context: e->context@ }),
        match m {
            MethodError::Session(x) => m@ == MethodErrorView::Session(x@),
            MethodError::Content { detail } => m@ == (MethodErrorView::Content {
                detail: detail@,
            }),
        },
        m.meaning() == m@,
        s.meaning() == MethodErrorView::Session(s@),
{
}

/// A list is seen entry by entry, in its order.
pub proof fn lists_are_seen_in_order(
    mappings: Seq<Mapping>,
    applications: Seq<Application>,
    edits: Seq<EnvEdit>,
    failures: Seq<Failure>,
    choices: Seq<Choice>,
    texts: Seq<String>,
)
    ensures
        mapping_views(mappings).len() == mappings.len(),
        forall|i: int|
            0 <= i < mappings.len() ==> #[trigger] mapping_views(mappings)[i] == mappings[i]@,
        application_views(applications).len() == applications.len(),
        forall|i: int|
            0 <= i < applications.len() ==> #[trigger] application_views(applications)[i]
                == applications[i]@,
        edit_views(edits).len() == edits.len(),
        forall|i: int| 0 <= i < edits.len() ==> #[trigger] edit_views(edits)[i] == edits[i]@,
        failure_views(failures).len() == failures.len(),
        forall|i: int|
            0 <= i < failures.len() ==> #[trigger] failure_views(failures)[i] == failures[i]@,
        choice_views(choices).len() == choices.len(),
        forall|i: int|
            0 <= i < choices.len() ==> #[trigger] choice_views(choices)[i] == choices[i]@,
        views(texts).len() == texts.len(),
        forall|i: int| 0 <= i < texts.len() ==> #[trigger] views(texts)[i] == texts[i]@,
{
}

/// The labels of a list are those of its entries, in order.
pub proof fn labels_are_those_of_the_entries(choices: Seq<ChoiceView>)
    ensures
        labels(choices).len() == choices.len(),
        forall|i: int|
            0 <= i < choices.len() ==> #[trigger] labels(choices)[i] == choices[i].label,
{
}

/// Sets are seen in order, each under its name.
pub proof fn sets_are_seen_in_order<S>(sets: Seq<(String, S)>)
    ensures
        set_views(sets).len() == sets.len(),
        forall|i: int|
            0 <= i < sets.len() ==> (#[trigger] set_views(sets)[i]).0 == sets[i].0@
                && set_views(sets)[i].1 == sets[i].1,
{
}

/// A step of a walk is seen as the kind it is, with all it shows.
pub proof fn a_step_is_seen_as_it_is(step: Step)
    ensures
        match step {
            Step::Ask { what, choices, default } => step@ == (StepView::Ask {
                what,
                choices: views(choices@),
                default,
            }),
            Step::Input { what, prompt, default } => step@ == (StepView::Input {
                what,
                prompt: prompt@,
                default: match default {
                    Some(d) => Some(d@),
                    None => None,
                },
            }),
            Step::Done(m) => step@ == StepView::Done(m@),
            Step::Empty(what) => step@ == StepView::Empty(what),
            Step::Failed(reason) => step@ == StepView::Failed(reason),
            Step::Reauth => step@ == StepView::Reauth,
        },
{
}

/// A reply that succeeded is seen as what it brought.
pub proof fn a_success_is_seen_as_what_it_brought<T>(
    value: T,
    credential: Credential,
    token: SsoToken,
    read: ReadSecret,
    shape: SecretShape,
    outcome: WriteOutcome,
    text: String,
)
    ensures
        call_reply(Ok::<T, MethodError>(value)) == Ok::<T, MethodErrorView>(value),
        call_reply(Ok::<T, SessionError>(value)) == Ok::<T, MethodErrorView>(value),
        fetch_reply(Ok::<T, MethodError>(value)) == Ok::<T, MethodErrorView>(value),
        session_reply(Ok::<T, SessionError>(value)) == Ok::<(), SessionErrorView>(()),
        mint_reply(Ok::<Credential, SessionError>(credential)) is Ok,
        mint_reply(Ok::<Credential, SessionError>(credential))->Ok_0 == credential@,
        token_reply(Ok::<SsoToken, SignInError>(token)) is Ok,
        token_reply(Ok::<SsoToken, SignInError>(token))->Ok_0 == token@,
        read_reply(Ok::<ReadSecret, SessionError>(read)) is Ok,
        read_reply(Ok::<ReadSecret, SessionError>(read))->Ok_0 == read@,
        shape_result(Ok::<SecretShape, SessionError>(shape)) is Ok,
        shape_result(Ok::<SecretShape, SessionError>(shape))->Ok_0 == shape@,
        ending(Ok::<WriteOutcome, SecretWriteError>(outcome)) is Ok,
        ending(Ok::<WriteOutcome, SecretWriteError>(outcome))->Ok_0 == outcome,
        text_option(Some(text)) == Some(text@),
        text_option(None) is None,
{
}

/// A reply that failed is seen as its error.
pub proof fn a_failure_is_seen_as_its_error<T>(
    m: MethodError,
    s: SessionError,
    i: SignInError,
    w: SecretWriteError,
)
    ensures
        call_reply(Err::<T, MethodError>(m)) == Err::<T, MethodErrorView>(m@),
        call_reply(Err::<T, SessionError>(s)) == Err::<T, MethodErrorView>(
            MethodErrorView::Session(s@),
        ),
        fetch_reply(Err::<T, MethodError>(m)) == Err::<T, MethodErrorView>(m@),
        session_reply(Err::<T, SessionError>(s)) == Err::<(), SessionErrorView>(s@),
        mint_reply(Err::<Credential, SessionError>(s)) is Err,
        mint_reply(Err::<Credential, SessionError>(s))->Err_0 == s@,
        token_reply(Err::<SsoToken, SignInError>(i)) is Err,
        token_reply(Err::<SsoToken, SignInError>(i))->Err_0 == i@,
        read_reply(Err::<ReadSecret, SessionError>(s)) is Err,
        read_reply(Err::<ReadSecret, SessionError>(s))->Err_0 == s@,
        shape_result(Err::<SecretShape, SessionError>(s)) is Err,
        shape_result(Err::<SecretShape, SessionError>(s))->Err_0 == s@,
        ending(Err::<WriteOutcome, SecretWriteError>(w)) is Err,
        ending(Err::<WriteOutcome, SecretWriteError>(w))->Err_0 == w@,
{
}

/// Where a write and a Sign-in have ended is seen as they ended.
pub proof fn an_end_is_seen_as_it_is(
    outcome: WriteOutcome,
    w: SecretWriteError,
    token: SsoToken,
    e: SignInError,
)
    ensures
        WriteStep::Done(Ok(outcome))@ == WriteStepView::Done(Ok(outcome)),
        WriteStep::Done(Err(w))@ == WriteStepView::Done(Err(w@)),
        SignInStep::Done(Ok(token))@ == SignInStepView::Done(Ok(token@)),
        SignInStep::Done(Err(e))@ == SignInStepView::Done(Err(e@)),
{
}

/// An optional text is seen as the text it borrows.
pub proof fn a_borrowed_text_is_seen(s: &str)
    ensures
        borrowed(Some(s)) == Some(s@),
        borrowed(None) is None,
{
}

/// A mint is made under the token of its session, for the account, the role and the region
/// it is for, and is kept under the three of them.
pub proof fn a_mint_is_called_with_what_it_is_for(
    call: MintCall,
    broker: BrokerView,
    turn: MintView,
    m: MappingView,
)
    ensures
        call.is_for(broker, turn) <==> call.token@ == broker.token && call.account_id@
            == turn.account_id && call.permission_set@ == turn.permission_set && call.region@
            == turn.region,
        mint_for(m).key == m.account_id + "|"@ + m.permission_set + "|"@ + m.region,
        cache_key_of(m) == mint_for(m).key,
{
}

/// A plan that ends a walk ends it as it says, and picks nothing.
pub proof fn an_ending_plan_ends_the_walk(walk: DiscoveryView, step: StepView, m: MappingView)
    ensures
        after_plan(walk, StepPlanView::Terminal(step)) == (WalkStepView::Rest { step, walk }),
        after_plan(walk, StepPlanView::Done(m)) == (WalkStepView::Rest {
            step: StepView::Done(m),
            walk,
        }),
{
}

/// What a masked report says of a key it says of the first entry with that name.
pub proof fn a_report_is_of_the_first_entry(
    entries: Seq<(String, usize)>,
    name: Seq<char>,
    i: int,
    j: int,
)
    ensures
        is_first_entry(entries, name, i) && is_first_entry(entries, name, j) ==> i == j,
        is_first_entry(entries, name, i) ==> 0 <= i < entries.len() && entries[i].0@ == name,
        is_first_entry(entries, name, i) && 0 <= j < entries.len() && entries[j].0@ == name ==> i
            <= j,
        0 <= i < entries.len() && entries[i].0@ == name && (forall|k: int|
            0 <= k < i ==> (#[trigger] entries[k]).0@ != name) ==> is_first_entry(
            entries,
            name,
            i,
        ),
{
}

/// A Config that could not be read or written is told as what it is: without a directory,
/// or by the message of the file layer.
pub proof fn a_config_failure_is_told_as_it_is(message: String)
    ensures
        <ConfigFailure as FromSpec<ConfigError>>::from_spec(ConfigError::NoConfigDir)
            == ConfigFailure::NoConfigDir,
        <ConfigFailure as FromSpec<ConfigError>>::from_spec((ConfigError::Other { message })) == (
        ConfigFailure::File { reason: message }),
{
}

/// The token of a Sign-in is the one it brought, and a Sign-in that failed has none.
pub proof fn a_sign_in_brings_its_token(token: SsoToken, e: SignInError)
    ensures
        token_of(Ok::<SsoToken, SignInError>(token)) == Some(token@),
        token_of(Err::<SsoToken, SignInError>(e)) is None,
{
}

} // verus!
