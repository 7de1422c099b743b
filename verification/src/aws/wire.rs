//! The SDK-free values the Secrets Manager tail exchanges with AWS.

use vstd::prelude::*;
use vstd::string::*;

use crate::auth::wire::{RawSecret, RawSecretView};
use crate::model::select::{choice_views, Choice, ChoiceView};

verus! {

/// One secret in a region: its stable ARN and its friendly name.
#[derive(Debug, PartialEq, Eq)]
pub struct SecretSummary {
    pub name: String,
    pub arn: String,
}

impl SecretSummary {
    /// How this secret stands in a list.
    pub open spec fn choice(&self) -> ChoiceView {
        ChoiceView { key: self.arn@, label: self.name@ }
    }

    /// The ARN.
    pub fn key(&self) -> (result: &str)
        ensures
            result@ == self.choice().key,
    {
        self.arn.as_str()
    }

    /// The name.
    pub fn label(&self) -> (result: String)
        ensures
            result@ == self.choice().label,
    {
        self.name.clone()
    }
}

/// Secrets as a list to pick from.
pub open spec fn secret_choices(items: Seq<SecretSummary>) -> Seq<ChoiceView> {
    items.map_values(|s: SecretSummary| s.choice())
}

/// The secrets as a list to pick from, in order.
pub fn choices_of_secrets(items: &Vec<SecretSummary>) -> (result: Vec<Choice>)
    ensures
        choice_views(result@) == secret_choices(items@),
{
    let mut out: Vec<Choice> = Vec::new();
    let mut i: usize = 0;
    while i < items.len()
        invariant
            i <= items@.len(),
            out@.len() == i,
            forall|j: int| 0 <= j < i ==> (#[trigger] out@[j])@ == items@[j].choice(),
        decreases items@.len() - i,
    {
        out.push(Choice { key: items[i].key().to_owned(), label: items[i].label() });
        i = i + 1;
    }
    assert(choice_views(out@) =~= secret_choices(items@));
    out
}

/// One read: the payload, and the version that held the current label.
#[derive(Debug)]
pub struct ReadSecret {
    pub raw: RawSecret,
    pub version_id: Option<String>,
}

/// A [`ReadSecret`] as a mathematical value.
#[verifier::ext_equal]
pub struct ReadSecretView {
    pub raw: RawSecretView,
    pub version_id: Option<Seq<char>>,
}

impl View for ReadSecret {
    type V = ReadSecretView;

    open spec fn view(&self) -> ReadSecretView {
        ReadSecretView {
            raw: self.raw@,
            version_id: match self.version_id {
                Some(v) => Some(v@),
                None => None,
            },
        }
    }
}

/// What became of a compare-and-swap of the current label.
#[derive(Debug, Clone, Copy, PartialEq, Eq, Structural)]
pub enum CasOutcome {
    /// The label moved to the staged version.
    Committed,
    /// The label had already moved off the version it was to be taken from.
    Mismatch,
}

} // verus!
