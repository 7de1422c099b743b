//! The front half of every guided walk: list the accounts, list the roles of the one
//! picked, then mint a Credential for the account, the role and the region.

use vstd::prelude::*;
use vstd::string::*;

use crate::auth::error::{SessionError, SessionErrorView};
use crate::auth::types::{Credential, CredentialView};
use crate::auth::wire::{
    account_choices, choices_of_accounts, choices_of_roles, role_choices, AccountSummary,
    RoleSummary,
};
use crate::model::config::{Mapping, MappingView};
use crate::model::provider::{FetchFailReason, Step, StepView, What};
use crate::model::select::{choice_views, Choice, ChoiceView};
use crate::text::views;

verus! {

/// The step that ends a walk on an error.
pub open spec fn terminal_of(e: SessionErrorView) -> StepView {
    match e {
        SessionErrorView::ReauthRequired => StepView::Reauth,
        _ => StepView::Failed(e.reason()),
    }
}

/// The step that ends a walk on an error: a dead token goes back to Sign-in, anything
/// else is a masked failure.
pub fn terminal_for(e: &SessionError) -> (result: Step)
    ensures
        result@ == terminal_of(e@),
{
    match e {
        SessionError::ReauthRequired => Step::Reauth,
        _ => Step::Failed(FetchFailReason::from(e)),
    }
}

/// What a stage of a walk comes to.
#[derive(Debug, PartialEq, Eq)]
pub enum StepPlan {
    /// Pick from a list.
    List { what: What, choices: Vec<Choice>, remembered: Option<String> },
    /// The Environment is mapped.
    Done(Mapping),
    /// The walk ends.
    Terminal(Step),
}

/// A [`StepPlan`] as a mathematical value.
#[verifier::ext_equal]
pub enum StepPlanView {
    List { what: What, choices: Seq<ChoiceView>, remembered: Option<Seq<char>> },
    Done(MappingView),
    Terminal(StepView),
}

/// An optional borrowed text as a mathematical value.
pub open spec fn borrowed(s: Option<&str>) -> Option<Seq<char>> {
    match s {
        Some(s) => Some(s@),
        None => None,
    }
}

impl View for StepPlan {
    type V = StepPlanView;

    open spec fn view(&self) -> StepPlanView {
        match self {
            StepPlan::List { what, choices, remembered } => StepPlanView::List {
                what: *what,
                choices: choice_views(choices@),
                remembered: match remembered {
                    Some(r) => Some(r@),
                    None => None,
                },
            },
            StepPlan::Done(m) => StepPlanView::Done(m@),
            StepPlan::Terminal(step) => StepPlanView::Terminal(step@),
        }
    }
}

/// The outcome of a stage of the front half.
#[derive(Debug)]
pub enum FrontHalf {
    /// A list to pick from, or an end.
    Plan(StepPlan),
    /// The account and the role are picked and a Credential is minted.
    Ready { account_id: String, role: String, cred: Credential },
}

/// A [`FrontHalf`] as a mathematical value.
#[verifier::ext_equal]
pub enum FrontHalfView {
    Plan(StepPlanView),
    Ready { account_id: Seq<char>, role: Seq<char>, cred: CredentialView },
}

impl View for FrontHalf {
    type V = FrontHalfView;

    open spec fn view(&self) -> FrontHalfView {
        match self {
            FrontHalf::Plan(plan) => FrontHalfView::Plan(plan@),
            FrontHalf::Ready { account_id, role, cred } => FrontHalfView::Ready {
                account_id: account_id@,
                role: role@,
                cred: cred@,
            },
        }
    }
}

/// The call a stage of the front half makes, by the keys picked so far.
#[derive(Debug, PartialEq, Eq)]
pub enum FrontCall {
    ListAccounts,
    ListRoles { account_id: String },
    Mint { account_id: String, role: String, region: String },
}

/// A [`FrontCall`] as a mathematical value.
#[verifier::ext_equal]
#[allow(inconsistent_fields)]
pub enum FrontCallView {
    ListAccounts,
    ListRoles { account_id: Seq<char> },
    Mint { account_id: Seq<char>, role: Seq<char>, region: Seq<char> },
}

impl View for FrontCall {
    type V = FrontCallView;

    open spec fn view(&self) -> FrontCallView {
        match self {
            FrontCall::ListAccounts => FrontCallView::ListAccounts,
            FrontCall::ListRoles { account_id } => FrontCallView::ListRoles {
                account_id: account_id@,
            },
            FrontCall::Mint { account_id, role, region } => FrontCallView::Mint {
                account_id: account_id@,
                role: role@,
                region: region@,
            },
        }
    }
}

/// The call for the keys picked so far: none lists the accounts, one lists the roles
/// of that account, two mint for both in the region.
pub open spec fn call_for(chosen: Seq<Seq<char>>, region: Seq<char>) -> FrontCallView {
    if chosen.len() == 0 {
        FrontCallView::ListAccounts
    } else if chosen.len() == 1 {
        FrontCallView::ListRoles { account_id: chosen[0] }
    } else {
        FrontCallView::Mint { account_id: chosen[0], role: chosen[1], region }
    }
}

/// The call that the keys picked so far ask for. It is for as long as no Credential is
/// minted.
pub fn front_half(chosen: &Vec<String>, region: &str) -> (result: FrontCall)
    ensures
        result@ == call_for(views(chosen@), region@),
{
    if chosen.len() == 0 {
        FrontCall::ListAccounts
    } else if chosen.len() == 1 {
        FrontCall::ListRoles { account_id: chosen[0].clone() }
    } else {
        FrontCall::Mint {
            account_id: chosen[0].clone(),
            role: chosen[1].clone(),
            region: region.to_owned(),
        }
    }
}

/// The plan for a listing: the list to pick from, or the end on an error.
pub open spec fn list_plan(
    what: What,
    reply: Result<Seq<ChoiceView>, SessionErrorView>,
    remembered: Option<Seq<char>>,
) -> StepPlanView {
    match reply {
        Ok(choices) => StepPlanView::List { what, choices, remembered },
        Err(e) => StepPlanView::Terminal(terminal_of(e)),
    }
}

fn owned(s: Option<&str>) -> (result: Option<String>)
    ensures
        borrowed(s) == match result {
            Some(r) => Some(r@),
            None => None,
        },
{
    match s {
        Some(s) => Some(s.to_owned()),
        None => None,
    }
}

/// Take the accounts.
pub fn front_half_accounts(
    reply: Result<Vec<AccountSummary>, SessionError>,
    remembered: Option<&str>,
) -> (result: FrontHalf)
    ensures
        result@ == FrontHalfView::Plan(
            list_plan(
                What::Accounts,
                match reply {
                    Ok(items) => Ok(account_choices(items@)),
                    Err(e) => Err(e@),
                },
                borrowed(remembered),
            ),
        ),
{
    match reply {
        Ok(items) => FrontHalf::Plan(
            StepPlan::List {
                what: What::Accounts,
                choices: choices_of_accounts(&items),
                remembered: owned(remembered),
            },
        ),
        Err(e) => FrontHalf::Plan(StepPlan::Terminal(terminal_for(&e))),
    }
}

/// Take the roles of the account that was picked.
pub fn front_half_roles(
    reply: Result<Vec<RoleSummary>, SessionError>,
    remembered: Option<&str>,
) -> (result: FrontHalf)
    ensures
        result@ == FrontHalfView::Plan(
            list_plan(
                What::Roles,
                match reply {
                    Ok(items) => Ok(role_choices(items@)),
                    Err(e) => Err(e@),
                },
                borrowed(remembered),
            ),
        ),
{
    match reply {
        Ok(items) => FrontHalf::Plan(
            StepPlan::List {
                what: What::Roles,
                choices: choices_of_roles(&items),
                remembered: owned(remembered),
            },
        ),
        Err(e) => FrontHalf::Plan(StepPlan::Terminal(terminal_for(&e))),
    }
}

/// Take the Credential for the account and the role that were picked.
pub fn front_half_mint(
    account_id: &str,
    role: &str,
    reply: Result<Credential, SessionError>,
) -> (result: FrontHalf)
    ensures
        result@ == match reply {
            Ok(cred) => FrontHalfView::Ready {
                account_id: account_id@,
                role: role@,
                cred: cred@,
            },
            Err(e) => FrontHalfView::Plan(StepPlanView::Terminal(terminal_of(e@))),
        },
{
    match reply {
        Ok(cred) => FrontHalf::Ready {
            account_id: account_id.to_owned(),
            role: role.to_owned(),
            cred,
        },
        Err(e) => FrontHalf::Plan(StepPlan::Terminal(terminal_for(&e))),
    }
}

} // verus!
