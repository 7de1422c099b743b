//! The guided walk to one secret: account, role, secret.
//!
//! A list of one is picked from without asking, an empty list ends the walk, and
//! among several the walk rests on a question, with the previous pick as the default.
//! The Credential to list secrets with is minted once, when the account and the role
//! are known.
//!
//! A walk is a sequence of turns. [`Discovery::start`] gives the first; each turn
//! says which call it waits for and takes the reply; a rest holds the step to show
//! and the walk to go on with.

use vstd::prelude::*;
use vstd::string::*;

use crate::auth::authwalk::{
    borrowed, call_for, front_half, front_half_accounts, front_half_mint, front_half_roles,
    list_plan, terminal_for, terminal_of, FrontCall, FrontCallView, FrontHalf, StepPlan,
    StepPlanView,
};
use crate::auth::error::{SessionError, SessionErrorView};
use crate::auth::types::{Credential, CredentialView};
use crate::auth::wire::{account_choices, role_choices, AccountSummary, RoleSummary};
use crate::aws::wire::{choices_of_secrets, secret_choices, SecretSummary};
use crate::model::config::{Mapping, MappingView, Method};
use crate::model::provider::{FetchFailReason, Step, StepView, What};
use crate::model::select::{
    choice_labels, choice_views, labels, lemma_position, plan_of, plan_selection, Choice,
    ChoiceView, SelectionPlan,
};
use crate::text::{lemma_views_push, views};

verus! {

/// A guided walk for one Environment.
#[derive(Debug)]
pub struct Discovery {
    environment: String,
    region: String,
    remembered: Option<Mapping>,
    cred: Option<Credential>,
    chosen: Vec<String>,
    pending: Vec<Choice>,
}

/// A [`Discovery`] as a mathematical value: what it maps, the previous pick, the
/// Credential once it is minted, the keys picked so far, and the list it asks about.
#[verifier::ext_equal]
pub struct DiscoveryView {
    pub environment: Seq<char>,
    pub region: Seq<char>,
    pub remembered: Option<MappingView>,
    pub cred: Option<CredentialView>,
    pub chosen: Seq<Seq<char>>,
    pub pending: Seq<ChoiceView>,
}

impl View for Discovery {
    type V = DiscoveryView;

    closed spec fn view(&self) -> DiscoveryView {
        DiscoveryView {
            environment: self.environment@,
            region: self.region@,
            remembered: match self.remembered {
                Some(m) => Some(m@),
                None => None,
            },
            cred: match self.cred {
                Some(c) => Some(c@),
                None => None,
            },
            chosen: views(self.chosen@),
            pending: choice_views(self.pending@),
        }
    }
}

/// A walk that waits for the accounts to be listed.
#[derive(Debug)]
pub struct AccountsTurn {
    walk: Discovery,
}

/// A walk that waits for the roles of an account to be listed.
#[derive(Debug)]
pub struct RolesTurn {
    walk: Discovery,
}

/// A walk that waits for a Credential to be minted.
#[derive(Debug)]
pub struct MintRoleTurn {
    walk: Discovery,
}

/// A walk that waits for the secrets of a region to be listed.
#[derive(Debug)]
pub struct SecretsTurn {
    walk: Discovery,
}

/// Where a walk stands: waiting for a call, or at rest on a step.
#[derive(Debug)]
pub enum WalkStep {
    Accounts(AccountsTurn),
    Roles(RolesTurn),
    Mint(MintRoleTurn),
    Secrets(SecretsTurn),
    Rest { step: Step, walk: Discovery },
}

/// A [`WalkStep`] as a mathematical value.
#[verifier::ext_equal]
pub enum WalkStepView {
    Accounts { walk: DiscoveryView },
    Roles { walk: DiscoveryView },
    Mint { walk: DiscoveryView },
    Secrets { walk: DiscoveryView },
    Rest { step: StepView, walk: DiscoveryView },
}

impl AccountsTurn {
    pub closed spec fn walk(&self) -> DiscoveryView {
        self.walk@
    }
}

impl RolesTurn {
    pub closed spec fn walk(&self) -> DiscoveryView {
        self.walk@
    }

    #[verifier::type_invariant]
    spec fn inv(&self) -> bool {
        self.walk.chosen@.len() >= 1
    }
}

impl MintRoleTurn {
    pub closed spec fn walk(&self) -> DiscoveryView {
        self.walk@
    }

    #[verifier::type_invariant]
    spec fn inv(&self) -> bool {
        self.walk.chosen@.len() >= 2
    }
}

impl SecretsTurn {
    pub closed spec fn walk(&self) -> DiscoveryView {
        self.walk@
    }

    #[verifier::type_invariant]
    spec fn inv(&self) -> bool {
        self.walk.cred is Some
    }
}

impl View for WalkStep {
    type V = WalkStepView;

    open spec fn view(&self) -> WalkStepView {
        match self {
            WalkStep::Accounts(t) => WalkStepView::Accounts { walk: t.walk() },
            WalkStep::Roles(t) => WalkStepView::Roles { walk: t.walk() },
            WalkStep::Mint(t) => WalkStepView::Mint { walk: t.walk() },
            WalkStep::Secrets(t) => WalkStepView::Secrets { walk: t.walk() },
            WalkStep::Rest { step, walk } => WalkStepView::Rest { step: step@, walk: walk@ },
        }
    }
}

impl DiscoveryView {
    /// The Mapping of the three keys picked: the secret by its ARN.
    pub open spec fn mapping(self) -> MappingView {
        MappingView {
            environment: self.environment,
            account_id: self.chosen[0],
            region: self.region,
            secret_id: self.chosen[2],
            permission_set: self.chosen[1],
            method: Method::SecretsManager,
        }
    }

    /// One more key is picked; nothing is asked.
    pub open spec fn picked(self, key: Seq<char>) -> DiscoveryView {
        DiscoveryView { chosen: self.chosen.push(key), pending: Seq::empty(), ..self }
    }

    /// A question about this list is asked.
    pub open spec fn asking(self, choices: Seq<ChoiceView>) -> DiscoveryView {
        DiscoveryView { pending: choices, ..self }
    }

    /// The Credential is minted.
    pub open spec fn minted(self, cred: CredentialView) -> DiscoveryView {
        DiscoveryView { cred: Some(cred), ..self }
    }

    /// The previous pick's account.
    pub open spec fn remembered_account(self) -> Option<Seq<char>> {
        match self.remembered {
            Some(m) => Some(m.account_id),
            None => None,
        }
    }

    /// The previous pick's role.
    pub open spec fn remembered_role(self) -> Option<Seq<char>> {
        match self.remembered {
            Some(m) => Some(m.permission_set),
            None => None,
        }
    }

    /// The previous pick's secret.
    pub open spec fn remembered_secret(self) -> Option<Seq<char>> {
        match self.remembered {
            Some(m) => Some(m.secret_id),
            None => None,
        }
    }
}

/// The step for the keys picked so far: accounts, roles, mint, secrets, done.
pub open spec fn next_step(walk: DiscoveryView) -> WalkStepView {
    if walk.cred is None {
        match call_for(walk.chosen, walk.region) {
            FrontCallView::ListAccounts => WalkStepView::Accounts { walk },
            FrontCallView::ListRoles { .. } => WalkStepView::Roles { walk },
            FrontCallView::Mint { .. } => WalkStepView::Mint { walk },
        }
    } else if walk.chosen.len() < 3 {
        WalkStepView::Secrets { walk }
    } else {
        WalkStepView::Rest { step: StepView::Done(walk.mapping()), walk }
    }
}

/// The step for a plan.
pub open spec fn after_plan(walk: DiscoveryView, plan: StepPlanView) -> WalkStepView {
    match plan {
        StepPlanView::Terminal(step) => WalkStepView::Rest { step, walk },
        StepPlanView::Done(m) => WalkStepView::Rest { step: StepView::Done(m), walk },
        StepPlanView::List { what, choices, remembered } => match plan_of(choices, remembered) {
            SelectionPlan::Empty => WalkStepView::Rest { step: StepView::Empty(what), walk },
            SelectionPlan::Auto(_) => next_step(walk.picked(choices[0].key)),
            SelectionPlan::Ask { default } => WalkStepView::Rest {
                step: StepView::Ask { what, choices: labels(choices), default },
                walk: walk.asking(choices),
            },
        },
    }
}

/// The step after the accounts were listed.
pub open spec fn after_accounts(
    walk: DiscoveryView,
    reply: Result<Seq<ChoiceView>, SessionErrorView>,
) -> WalkStepView {
    after_plan(walk, list_plan(What::Accounts, reply, walk.remembered_account()))
}

/// The step after the roles were listed.
pub open spec fn after_roles(
    walk: DiscoveryView,
    reply: Result<Seq<ChoiceView>, SessionErrorView>,
) -> WalkStepView {
    after_plan(walk, list_plan(What::Roles, reply, walk.remembered_role()))
}

/// The step after a Credential was minted.
pub open spec fn after_mint(
    walk: DiscoveryView,
    reply: Result<CredentialView, SessionErrorView>,
) -> WalkStepView {
    match reply {
        Ok(cred) => next_step(walk.minted(cred)),
        Err(e) => WalkStepView::Rest { step: terminal_of(e), walk },
    }
}

/// The step after the secrets were listed.
pub open spec fn after_secrets(
    walk: DiscoveryView,
    reply: Result<Seq<ChoiceView>, SessionErrorView>,
) -> WalkStepView {
    after_plan(walk, list_plan(What::Secrets, reply, walk.remembered_secret()))
}

/// The entry that a choice stands for: an index past the end is the last entry.
pub open spec fn clamped(choice: usize, count: nat) -> int {
    if choice < count {
        choice as int
    } else {
        count - 1
    }
}

/// The step after a question was answered. Where none was asked the walk fails.
pub open spec fn after_choice(walk: DiscoveryView, choice: usize) -> WalkStepView {
    if walk.pending.len() == 0 {
        WalkStepView::Rest { step: StepView::Failed(FetchFailReason::Other), walk }
    } else {
        next_step(walk.picked(walk.pending[clamped(choice, walk.pending.len())].key))
    }
}

impl Discovery {
    /// A walk for one Environment in one region, with the previous guided pick.
    pub fn new(environment: String, region: String, remembered: Option<Mapping>) -> (result:
        Discovery)
        ensures
            result@ == (DiscoveryView {
                environment: environment@,
                region: region@,
                remembered: match remembered {
                    Some(m) => Some(m@),
                    None => None,
                },
                cred: None,
                chosen: Seq::empty(),
                pending: Seq::empty(),
            }),
    {
        let result = Discovery {
            environment,
            region,
            remembered,
            cred: None,
            chosen: Vec::new(),
            pending: Vec::new(),
        };
        assert(views(result.chosen@) =~= Seq::empty());
        assert(choice_views(result.pending@) =~= Seq::empty());
        result
    }

    fn remembered_account(&self) -> (result: Option<&str>)
        ensures
            borrowed(result) == self@.remembered_account(),
    {
        match &self.remembered {
            Some(m) => Some(m.account_id.as_str()),
            None => None,
        }
    }

    fn remembered_role(&self) -> (result: Option<&str>)
        ensures
            borrowed(result) == self@.remembered_role(),
    {
        match &self.remembered {
            Some(m) => Some(m.permission_set.as_str()),
            None => None,
        }
    }

    fn remembered_secret(&self) -> (result: Option<String>)
        ensures
            self@.remembered_secret() == match result {
                Some(s) => Some(s@),
                None => None,
            },
    {
        match &self.remembered {
            Some(m) => Some(m.secret_id.clone()),
            None => None,
        }
    }

    fn build_mapping(&self) -> (result: Mapping)
        requires
            self@.chosen.len() >= 3,
        ensures
            result@ == self@.mapping(),
    {
        Mapping {
            environment: self.environment.clone(),
            account_id: self.chosen[0].clone(),
            region: self.region.clone(),
            secret_id: self.chosen[2].clone(),
            permission_set: self.chosen[1].clone(),
            method: Method::SecretsManager,
        }
    }

    fn proceed(self) -> (result: WalkStep)
        ensures
            result@ == next_step(self@),
    {
        if self.cred.is_none() {
            match front_half(&self.chosen, self.region.as_str()) {
                FrontCall::ListAccounts => WalkStep::Accounts(AccountsTurn { walk: self }),
                FrontCall::ListRoles { .. } => WalkStep::Roles(RolesTurn { walk: self }),
                FrontCall::Mint { .. } => WalkStep::Mint(MintRoleTurn { walk: self }),
            }
        } else if self.chosen.len() < 3 {
            WalkStep::Secrets(SecretsTurn { walk: self })
        } else {
            let mapping = self.build_mapping();
            WalkStep::Rest { step: Step::Done(mapping), walk: self }
        }
    }

    fn pick(self, key: String) -> (result: WalkStep)
        ensures
            result@ == next_step(self@.picked(key@)),
    {
        let mut walk = self;
        let ghost before = walk.chosen@;
        walk.chosen.push(key);
        walk.pending = Vec::new();
        proof {
            lemma_views_push(before, key);
            assert(choice_views(walk.pending@) =~= Seq::empty());
            assert(walk@ =~= self@.picked(key@));
        }
        walk.proceed()
    }

    fn resolve(self, plan: StepPlan) -> (result: WalkStep)
        ensures
            result@ == after_plan(self@, plan@),
    {
        match plan {
            StepPlan::Terminal(step) => WalkStep::Rest { step, walk: self },
            StepPlan::Done(m) => WalkStep::Rest { step: Step::Done(m), walk: self },
            StepPlan::List { what, choices, remembered } => {
                let ghost all = choice_views(choices@);
                match plan_selection(
                    &choices,
                    match &remembered {
                        Some(r) => Some(r.as_str()),
                        None => None,
                    },
                ) {
                    SelectionPlan::Empty => WalkStep::Rest { step: Step::Empty(what), walk: self },
                    SelectionPlan::Auto(_) => {
                        assert(all[0] == choices@[0]@);
                        self.pick(choices[0].key.clone())
                    },
                    SelectionPlan::Ask { default } => {
                        let shown = choice_labels(&choices);
                        let mut walk = self;
                        walk.pending = choices;
                        assert(walk@ =~= self@.asking(all));
                        WalkStep::Rest { step: Step::Ask { what, choices: shown, default }, walk }
                    },
                }
            },
        }
    }

    /// Begin the walk.
    pub fn start(self) -> (result: WalkStep)
        ensures
            result@ == next_step(self@),
    {
        self.proceed()
    }

    /// Answer the question the walk rests on. An index past the end is the last
    /// entry.
    pub fn advance(self, choice: usize) -> (result: WalkStep)
        ensures
            result@ == after_choice(self@, choice),
    {
        if self.pending.len() == 0 {
            return WalkStep::Rest { step: Step::Failed(FetchFailReason::Other), walk: self };
        }
        let i: usize = if choice < self.pending.len() {
            choice
        } else {
            self.pending.len() - 1
        };
        assert(choice_views(self.pending@)[i as int] == self.pending@[i as int]@);
        let key = self.pending[i].key.clone();
        self.pick(key)
    }

    /// Answer with a text. This walk never asks for one, so it fails.
    pub fn provide_input(self, _text: String) -> (result: WalkStep)
        ensures
            result@ == (WalkStepView::Rest {
                step: StepView::Failed(FetchFailReason::Other),
                walk: self@,
            }),
    {
        WalkStep::Rest { step: Step::Failed(FetchFailReason::Other), walk: self }
    }
}

impl AccountsTurn {
    /// Take the accounts.
    pub fn resume(self, reply: Result<Vec<AccountSummary>, SessionError>) -> (result: WalkStep)
        ensures
            result@ == after_accounts(
                self.walk(),
                match reply {
                    Ok(items) => Ok(account_choices(items@)),
                    Err(e) => Err(e@),
                },
            ),
    {
        let half = front_half_accounts(reply, self.walk.remembered_account());
        match half {
            FrontHalf::Plan(plan) => self.walk.resolve(plan),
            FrontHalf::Ready { .. } => self.walk.proceed(),
        }
    }
}

impl RolesTurn {
    /// The account whose roles to list.
    pub fn account_id(&self) -> (result: &str)
        ensures
            self.walk().chosen.len() >= 1,
            result@ == self.walk().chosen[0],
    {
        proof {
            use_type_invariant(self);
        }
        self.walk.chosen[0].as_str()
    }

    /// Take the roles.
    pub fn resume(self, reply: Result<Vec<RoleSummary>, SessionError>) -> (result: WalkStep)
        ensures
            result@ == after_roles(
                self.walk(),
                match reply {
                    Ok(items) => Ok(role_choices(items@)),
                    Err(e) => Err(e@),
                },
            ),
    {
        let half = front_half_roles(reply, self.walk.remembered_role());
        match half {
            FrontHalf::Plan(plan) => self.walk.resolve(plan),
            FrontHalf::Ready { .. } => self.walk.proceed(),
        }
    }
}

impl MintRoleTurn {
    /// The account to mint for.
    pub fn account_id(&self) -> (result: &str)
        ensures
            self.walk().chosen.len() >= 2,
            result@ == self.walk().chosen[0],
    {
        proof {
            use_type_invariant(self);
        }
        self.walk.chosen[0].as_str()
    }

    /// The role to mint for.
    pub fn role(&self) -> (result: &str)
        ensures
            self.walk().chosen.len() >= 2,
            result@ == self.walk().chosen[1],
    {
        proof {
            use_type_invariant(self);
        }
        self.walk.chosen[1].as_str()
    }

    /// The region to mint for.
    pub fn region(&self) -> (result: &str)
        ensures
            result@ == self.walk().region,
    {
        self.walk.region.as_str()
    }

    /// Take the Credential.
    pub fn resume(self, reply: Result<Credential, SessionError>) -> (result: WalkStep)
        ensures
            result@ == after_mint(
                self.walk(),
                match reply {
                    Ok(cred) => Ok(cred@),
                    Err(e) => Err(e@),
                },
            ),
    {
        let half = front_half_mint(self.account_id(), self.role(), reply);
        let mut walk = self.walk;
        match half {
            FrontHalf::Plan(plan) => walk.resolve(plan),
            FrontHalf::Ready { account_id: _, role: _, cred } => {
                let ghost before = walk@;
                walk.cred = Some(cred);
                assert(walk@ =~= before.minted(cred@));
                walk.proceed()
            },
        }
    }
}

impl SecretsTurn {
    /// The Credential to list with.
    pub fn credential(&self) -> (result: &Credential)
        ensures
            self.walk().cred == Some(result@),
    {
        proof {
            use_type_invariant(self);
        }
        self.walk.cred.as_ref().unwrap()
    }

    /// The region to list.
    pub fn region(&self) -> (result: &str)
        ensures
            result@ == self.walk().region,
    {
        self.walk.region.as_str()
    }

    /// Take the secrets.
    pub fn resume(self, reply: Result<Vec<SecretSummary>, SessionError>) -> (result: WalkStep)
        ensures
            result@ == after_secrets(
                self.walk(),
                match reply {
                    Ok(items) => Ok(secret_choices(items@)),
                    Err(e) => Err(e@),
                },
            ),
    {
        let plan = match reply {
            Ok(items) => StepPlan::List {
                what: What::Secrets,
                choices: choices_of_secrets(&items),
                remembered: self.walk.remembered_secret(),
            },
            Err(e) => StepPlan::Terminal(terminal_for(&e)),
        };
        self.walk.resolve(plan)
    }
}

// ---------------------------------------------------------------------------
// Laws
// ---------------------------------------------------------------------------

/// An event in a walk: the reply to a call, or the answer to a question.
pub enum WalkEventView {
    Accounts(Result<Seq<ChoiceView>, SessionErrorView>),
    Roles(Result<Seq<ChoiceView>, SessionErrorView>),
    Mint(Result<CredentialView, SessionErrorView>),
    Secrets(Result<Seq<ChoiceView>, SessionErrorView>),
    Choice(usize),
}

/// `step` waits for an event of this kind.
pub open spec fn fits(step: WalkStepView, event: WalkEventView) -> bool {
    match event {
        WalkEventView::Accounts(_) => step is Accounts,
        WalkEventView::Roles(_) => step is Roles,
        WalkEventView::Mint(_) => step is Mint,
        WalkEventView::Secrets(_) => step is Secrets,
        WalkEventView::Choice(_) => step is Rest && step->step is Ask,
    }
}

/// The step after an event.
pub open spec fn advance(step: WalkStepView, event: WalkEventView) -> WalkStepView {
    match event {
        WalkEventView::Accounts(r) => after_accounts(step->Accounts_walk, r),
        WalkEventView::Roles(r) => after_roles(step->Roles_walk, r),
        WalkEventView::Mint(r) => after_mint(step->Mint_walk, r),
        WalkEventView::Secrets(r) => after_secrets(step->Secrets_walk, r),
        WalkEventView::Choice(i) => after_choice(step->Rest_walk, i),
    }
}

/// The step a walk has come to after these events.
pub open spec fn run(start: DiscoveryView, events: Seq<WalkEventView>) -> WalkStepView
    decreases events.len(),
{
    if events.len() == 0 {
        next_step(start)
    } else {
        advance(run(start, events.drop_last()), events.last())
    }
}

/// Each event is of the kind the walk waited for.
pub open spec fn is_run(start: DiscoveryView, events: Seq<WalkEventView>) -> bool
    decreases events.len(),
{
    events.len() == 0 || {
        &&& is_run(start, events.drop_last())
        &&& fits(run(start, events.drop_last()), events.last())
    }
}

/// How many times a walk minted a Credential.
pub open spec fn mints(events: Seq<WalkEventView>) -> nat
    decreases events.len(),
{
    if events.len() == 0 {
        0
    } else {
        mints(events.drop_last()) + match events.last() {
            WalkEventView::Mint(Ok(_)) => 1nat,
            _ => 0,
        }
    }
}

/// The walk a step carries.
pub open spec fn walk_of(step: WalkStepView) -> DiscoveryView {
    match step {
        WalkStepView::Accounts { walk } => walk,
        WalkStepView::Roles { walk } => walk,
        WalkStepView::Mint { walk } => walk,
        WalkStepView::Secrets { walk } => walk,
        WalkStepView::Rest { step, walk } => walk,
    }
}

/// What every step of a walk keeps.
spec fn kept(start: DiscoveryView, events: Seq<WalkEventView>) -> bool {
    let step = run(start, events);
    let walk = walk_of(step);
    &&& walk.environment == start.environment
    &&& walk.region == start.region
    &&& walk.remembered == start.remembered
    &&& mints(events) == (if walk.cred is Some {
        1nat
    } else {
        0
    })
    &&& walk.chosen.len() <= 3
    &&& walk.cred is None ==> walk.chosen.len() <= 2
    &&& walk.cred is Some ==> walk.chosen.len() >= 2
    &&& step is Accounts ==> walk.cred is None && walk.chosen.len() == 0
    &&& step is Roles ==> walk.cred is None && walk.chosen.len() == 1
    &&& step is Mint ==> walk.cred is None && walk.chosen.len() == 2
    &&& step is Secrets ==> walk.cred is Some && walk.chosen.len() == 2
    &&& step is Rest && step->step is Ask ==> {
        &&& walk.pending.len() > 1
        &&& step->step->choices == labels(walk.pending)
        &&& walk.cred is None ==> walk.chosen.len() <= 1
        &&& walk.cred is Some ==> walk.chosen.len() == 2
    }
    &&& step is Rest && step->step is Done ==> {
        &&& walk.chosen.len() == 3
        &&& step->step == StepView::Done(walk.mapping())
    }
}

proof fn lemma_kept(start: DiscoveryView, events: Seq<WalkEventView>)
    requires
        is_run(start, events),
        start.cred is None,
        start.chosen.len() == 0,
    ensures
        kept(start, events),
    decreases events.len(),
{
    if events.len() > 0 {
        lemma_kept(start, events.drop_last());
    }
}

/// A Credential is minted only where a walk has none, and kept from then on.
proof fn lemma_minted(start: DiscoveryView, events: Seq<WalkEventView>)
    requires
        is_run(start, events),
        start.cred is None,
    ensures
        ({
            let step = run(start, events);
            &&& mints(events) == (if walk_of(step).cred is Some {
                1nat
            } else {
                0
            })
            &&& step is Mint ==> walk_of(step).cred is None
        }),
    decreases events.len(),
{
    if events.len() > 0 {
        lemma_minted(start, events.drop_last());
    }
}

/// A walk that begins without a Credential mints at most one.
pub proof fn a_walk_mints_once(start: DiscoveryView, events: Seq<WalkEventView>)
    requires
        is_run(start, events),
        start.cred is None,
    ensures
        mints(events) <= 1,
{
    lemma_minted(start, events);
}

/// A walk that ends with a Mapping maps the Environment and the region it was begun
/// with, to the three keys that were picked.
pub proof fn a_finished_walk_maps_what_was_picked(
    start: DiscoveryView,
    events: Seq<WalkEventView>,
)
    requires
        is_run(start, events),
        start.cred is None,
        start.chosen.len() == 0,
        run(start, events) is Rest,
        run(start, events)->step is Done,
    ensures
        ({
            let walk = walk_of(run(start, events));
            let m = run(start, events)->step->Done_0;
            &&& walk.chosen.len() == 3
            &&& m.environment == start.environment
            &&& m.region == start.region
            &&& m.account_id == walk.chosen[0]
            &&& m.permission_set == walk.chosen[1]
            &&& m.secret_id == walk.chosen[2]
            &&& m.method == Method::SecretsManager
        }),
{
    lemma_kept(start, events);
}

/// A walk asks only about a list of several, shows it by its labels, and takes the
/// key of the entry that was meant: any index picks an entry of that list.
pub proof fn a_question_is_answered_from_its_list(
    start: DiscoveryView,
    events: Seq<WalkEventView>,
    choice: usize,
)
    requires
        is_run(start, events),
        start.cred is None,
        start.chosen.len() == 0,
        run(start, events) is Rest,
        run(start, events)->step is Ask,
    ensures
        ({
            let step = run(start, events);
            let walk = walk_of(step);
            let i = clamped(choice, walk.pending.len());
            &&& walk.pending.len() > 1
            &&& step->step->choices == labels(walk.pending)
            &&& 0 <= i < walk.pending.len()
            &&& walk_of(advance(step, WalkEventView::Choice(choice))).chosen == walk.chosen.push(
                walk.pending[i].key,
            )
        }),
{
    lemma_kept(start, events);
}

/// An answer picks the entry it points at, counted from the top of the list that was asked
/// about, and one that points past the end picks the last entry. Whatever was picked
/// before stays picked.
pub proof fn an_answer_picks_the_entry_it_points_at(walk: DiscoveryView, choice: usize)
    requires
        walk.pending.len() > 0,
    ensures
        ({
            let next = walk_of(after_choice(walk, choice));
            &&& next.chosen.len() == walk.chosen.len() + 1
            &&& next.chosen.drop_last() == walk.chosen
            &&& choice < walk.pending.len() ==> next.chosen.last()
                == walk.pending[choice as int].key
            &&& choice >= walk.pending.len() ==> next.chosen.last() == walk.pending.last().key
            &&& next.environment == walk.environment
            &&& next.region == walk.region
            &&& next.remembered == walk.remembered
            &&& next.cred == walk.cred
            &&& next.pending.len() == 0
            &&& after_choice(walk, choice) == next_step(next)
        }),
{
    let key = walk.pending[clamped(choice, walk.pending.len())].key;
    assert(walk.chosen.push(key).drop_last() =~= walk.chosen);
}

/// Two answers to one question that point at entries with different keys pick different
/// keys.
pub proof fn different_answers_pick_different_keys(walk: DiscoveryView, a: usize, b: usize)
    requires
        a < walk.pending.len(),
        b < walk.pending.len(),
        walk.pending[a as int].key != walk.pending[b as int].key,
    ensures
        walk_of(after_choice(walk, a)).chosen != walk_of(after_choice(walk, b)).chosen,
{
    an_answer_picks_the_entry_it_points_at(walk, a);
    an_answer_picks_the_entry_it_points_at(walk, b);
}

/// An answer where nothing was asked fails the walk and picks nothing.
pub proof fn an_answer_without_a_question_fails(walk: DiscoveryView, choice: usize)
    requires
        walk.pending.len() == 0,
    ensures
        after_choice(walk, choice) == (WalkStepView::Rest {
            step: StepView::Failed(FetchFailReason::Other),
            walk,
        }),
{
}

/// What a walk does next is told by what is picked: nothing yet, and the accounts are
/// listed; an account, and its roles are; a role too, and a Credential is minted; with
/// the Credential, the secrets are; and with all three picked it maps them.
pub proof fn a_walk_asks_in_order(walk: DiscoveryView)
    ensures
        walk.cred is None && walk.chosen.len() == 0 ==> next_step(walk) == (
        WalkStepView::Accounts { walk }),
        walk.cred is None && walk.chosen.len() == 1 ==> next_step(walk) == (WalkStepView::Roles {
            walk,
        }),
        walk.cred is None && walk.chosen.len() == 2 ==> next_step(walk) == (WalkStepView::Mint {
            walk,
        }),
        walk.cred is Some && walk.chosen.len() == 2 ==> next_step(walk) == (
        WalkStepView::Secrets { walk }),
        walk.cred is Some && walk.chosen.len() == 3 ==> next_step(walk) == (WalkStepView::Rest {
            step: StepView::Done(
                MappingView {
                    environment: walk.environment,
                    account_id: walk.chosen[0],
                    region: walk.region,
                    secret_id: walk.chosen[2],
                    permission_set: walk.chosen[1],
                    method: Method::SecretsManager,
                },
            ),
            walk,
        }),
{
}

/// `next` is where `walk` comes to when it is handed this list of what it asked for, with
/// `remembered` as the key that was picked last time.
pub open spec fn takes_list(
    walk: DiscoveryView,
    next: WalkStepView,
    what: What,
    list: Seq<ChoiceView>,
    remembered: Option<Seq<char>>,
) -> bool {
    &&& list.len() == 0 ==> next == (WalkStepView::Rest { step: StepView::Empty(what), walk })
    &&& list.len() == 1 ==> {
        &&& walk_of(next) == (DiscoveryView {
            chosen: walk.chosen.push(list[0].key),
            pending: Seq::empty(),
            ..walk
        })
        &&& next == next_step(walk_of(next))
    }
    &&& list.len() > 1 ==> {
        &&& next is Rest
        &&& next->step is Ask
        &&& next->step->Ask_what == what
        &&& next->step->choices.len() == list.len()
        &&& forall|i: int|
            0 <= i < list.len() ==> #[trigger] next->step->choices[i] == list[i].label
        &&& walk_of(next) == (DiscoveryView { pending: list, ..walk })
        &&& match next->step->Ask_default {
            Some(d) => {
                &&& d < list.len()
                &&& remembered == Some(list[d as int].key)
                &&& forall|j: int|
                    0 <= j < d ==> Some((#[trigger] list[j]).key) != remembered
            },
            None => forall|j: int|
                0 <= j < list.len() ==> Some((#[trigger] list[j]).key) != remembered,
        }
    }
}

/// Each list is handled alike: an empty one ends the walk, the only entry is picked
/// unasked, and several are asked about, by their labels and in order, with the first
/// entry that was picked last time as the default.
pub proof fn a_list_is_picked_from(walk: DiscoveryView, list: Seq<ChoiceView>)
    requires
        list.len() <= usize::MAX,
    ensures
        takes_list(
            walk,
            after_accounts(walk, Ok(list)),
            What::Accounts,
            list,
            match walk.remembered {
                Some(m) => Some(m.account_id),
                None => None,
            },
        ),
        takes_list(
            walk,
            after_roles(walk, Ok(list)),
            What::Roles,
            list,
            match walk.remembered {
                Some(m) => Some(m.permission_set),
                None => None,
            },
        ),
        takes_list(
            walk,
            after_secrets(walk, Ok(list)),
            What::Secrets,
            list,
            match walk.remembered {
                Some(m) => Some(m.secret_id),
                None => None,
            },
        ),
{
    match walk.remembered {
        Some(m) => {
            lemma_position(list, m.account_id);
            lemma_position(list, m.permission_set);
            lemma_position(list, m.secret_id);
        },
        None => {},
    }
}

/// A call that fails ends the walk where it is: a dead token asks for a fresh Sign-in, and
/// any other error is reported by its reason.
pub proof fn a_failed_call_ends_the_walk(walk: DiscoveryView, e: SessionErrorView)
    ensures
        ({
            let end = WalkStepView::Rest {
                step: if e is ReauthRequired {
                    StepView::Reauth
                } else {
                    StepView::Failed(e.reason())
                },
                walk,
            };
            &&& after_accounts(walk, Err(e)) == end
            &&& after_roles(walk, Err(e)) == end
            &&& after_mint(walk, Err(e)) == end
            &&& after_secrets(walk, Err(e)) == end
        }),
{
}

/// A minted Credential is the one the secrets are listed with, and nothing else changes.
pub proof fn a_minted_credential_lists_the_secrets(walk: DiscoveryView, cred: CredentialView)
    requires
        walk.chosen.len() == 2,
    ensures
        after_mint(walk, Ok(cred)) is Secrets,
        walk_of(after_mint(walk, Ok(cred))) == (DiscoveryView { cred: Some(cred), ..walk }),
{
}

/// The accounts, the roles and the secrets that a walk was shown.
pub struct ShownView {
    pub accounts: Seq<ChoiceView>,
    pub roles: Seq<ChoiceView>,
    pub secrets: Seq<ChoiceView>,
}

/// What a walk was shown in the course of these events.
pub open spec fn shown(events: Seq<WalkEventView>) -> ShownView
    decreases events.len(),
{
    if events.len() == 0 {
        ShownView { accounts: Seq::empty(), roles: Seq::empty(), secrets: Seq::empty() }
    } else {
        let before = shown(events.drop_last());
        match events.last() {
            WalkEventView::Accounts(Ok(list)) => ShownView { accounts: list, ..before },
            WalkEventView::Roles(Ok(list)) => ShownView { roles: list, ..before },
            WalkEventView::Secrets(Ok(list)) => ShownView { secrets: list, ..before },
            _ => before,
        }
    }
}

/// Some entry of `list` has this key.
pub open spec fn offers(list: Seq<ChoiceView>, key: Seq<char>) -> bool {
    exists|i: int| 0 <= i < list.len() && (#[trigger] list[i]).key == key
}

/// What is picked was shown, and what is asked about was shown last.
spec fn from_shown(start: DiscoveryView, events: Seq<WalkEventView>) -> bool {
    let step = run(start, events);
    let walk = walk_of(step);
    let seen = shown(events);
    &&& walk.chosen.len() >= 1 ==> offers(seen.accounts, walk.chosen[0])
    &&& walk.chosen.len() >= 2 ==> offers(seen.roles, walk.chosen[1])
    &&& walk.chosen.len() >= 3 ==> offers(seen.secrets, walk.chosen[2])
    &&& step is Rest && step->step is Ask ==> {
        &&& walk.chosen.len() == 0 ==> walk.pending == seen.accounts
        &&& walk.chosen.len() == 1 ==> walk.pending == seen.roles
        &&& walk.chosen.len() == 2 ==> walk.pending == seen.secrets
    }
}

proof fn lemma_from_shown(start: DiscoveryView, events: Seq<WalkEventView>)
    requires
        is_run(start, events),
        start.cred is None,
        start.chosen.len() == 0,
    ensures
        from_shown(start, events),
    decreases events.len(),
{
    lemma_kept(start, events);
    if events.len() > 0 {
        let before = events.drop_last();
        lemma_from_shown(start, before);
        lemma_kept(start, before);
        let was = walk_of(run(start, before));
        let now = walk_of(run(start, events));
        let seen = shown(before);
        let list = match events.last() {
            WalkEventView::Accounts(Ok(list)) => list,
            WalkEventView::Roles(Ok(list)) => list,
            WalkEventView::Secrets(Ok(list)) => list,
            WalkEventView::Choice(_) => was.pending,
            _ => Seq::empty(),
        };
        if now.chosen.len() > was.chosen.len() {
            let i = match events.last() {
                WalkEventView::Choice(c) => clamped(c, list.len()),
                _ => 0,
            };
            assert(list[i].key == now.chosen[was.chosen.len() as int]);
            assert(offers(list, now.chosen[was.chosen.len() as int]));
        }
    }
}

/// A finished walk maps an account, a role and a secret that it was shown, each by its
/// key, and a question is about the very list that was shown.
pub proof fn a_walk_picks_from_what_it_was_shown(
    start: DiscoveryView,
    events: Seq<WalkEventView>,
)
    requires
        is_run(start, events),
        start.cred is None,
        start.chosen.len() == 0,
        run(start, events) is Rest,
    ensures
        ({
            let step = run(start, events)->step;
            let walk = walk_of(run(start, events));
            let seen = shown(events);
            &&& step is Done ==> {
                &&& offers(seen.accounts, step->Done_0.account_id)
                &&& offers(seen.roles, step->Done_0.permission_set)
                &&& offers(seen.secrets, step->Done_0.secret_id)
            }
            &&& step is Ask ==> walk.pending == (if walk.chosen.len() == 0 {
                seen.accounts
            } else if walk.chosen.len() == 1 {
                seen.roles
            } else {
                seen.secrets
            })
        }),
{
    lemma_kept(start, events);
    lemma_from_shown(start, events);
}

/// How accounts, roles and secrets stand in a list: an account by its id, shown with its
/// name, a role by its name, and a secret by its ARN, shown by its name. The list has
/// them in order.
pub proof fn lists_show_what_they_stand_for(
    accounts: Seq<AccountSummary>,
    roles: Seq<RoleSummary>,
    secrets: Seq<SecretSummary>,
)
    ensures
        account_choices(accounts).len() == accounts.len(),
        role_choices(roles).len() == roles.len(),
        secret_choices(secrets).len() == secrets.len(),
        forall|i: int|
            0 <= i < accounts.len() ==> #[trigger] account_choices(accounts)[i] == (ChoiceView {
                key: accounts[i].id@,
                label: accounts[i].name@ + " ("@ + accounts[i].id@ + ")"@,
            }),
        forall|i: int|
            0 <= i < roles.len() ==> #[trigger] role_choices(roles)[i] == (ChoiceView {
                key: roles[i].name@,
                label: roles[i].name@,
            }),
        forall|i: int|
            0 <= i < secrets.len() ==> #[trigger] secret_choices(secrets)[i] == (ChoiceView {
                key: secrets[i].arn@,
                label: secrets[i].name@,
            }),
{
}

} // verus!
