//! The SDK-free values the front half exchanges with AWS.

use vstd::prelude::*;
use vstd::string::*;

use crate::model::select::{choice_views, Choice, ChoiceView};
use crate::outside::secret::{PlainBytes, Plaintext};

verus! {

/// A public-client registration. The client secret is not confidential (PKCE is
/// what protects the flow), and is still never logged.
#[derive(PartialEq, Eq)]
pub struct ClientRegistration {
    pub client_id: String,
    pub client_secret: String,
    /// Where the browser is sent.
    pub authorization_endpoint: String,
}

/// A [`ClientRegistration`] as a mathematical value.
#[verifier::ext_equal]
pub struct ClientRegistrationView {
    pub client_id: Seq<char>,
    pub client_secret: Seq<char>,
    pub authorization_endpoint: Seq<char>,
}

impl View for ClientRegistration {
    type V = ClientRegistrationView;

    open spec fn view(&self) -> ClientRegistrationView {
        ClientRegistrationView {
            client_id: self.client_id@,
            client_secret: self.client_secret@,
            authorization_endpoint: self.authorization_endpoint@,
        }
    }
}

impl Clone for ClientRegistration {
    fn clone(&self) -> (result: Self)
        ensures
            result == *self,
    {
        ClientRegistration {
            client_id: self.client_id.clone(),
            client_secret: self.client_secret.clone(),
            authorization_endpoint: self.authorization_endpoint.clone(),
        }
    }
}

/// What is needed to exchange an auth code for an SSO token.
pub struct TokenExchange<'a> {
    pub registration: &'a ClientRegistration,
    pub code: &'a str,
    pub code_verifier: &'a str,
    pub redirect_uri: &'a str,
}

/// The raw payload of one secret read, wiped on drop.
#[derive(Debug)]
pub struct RawSecret {
    pub secret_string: Option<Plaintext>,
    pub secret_binary: Option<PlainBytes>,
}

/// A [`RawSecret`] as a mathematical value.
#[verifier::ext_equal]
pub struct RawSecretView {
    pub secret_string: Option<Seq<char>>,
    pub secret_binary: Option<Seq<u8>>,
}

impl View for RawSecret {
    type V = RawSecretView;

    open spec fn view(&self) -> RawSecretView {
        RawSecretView {
            secret_string: match self.secret_string {
                Some(s) => Some(s@),
                None => None,
            },
            secret_binary: match self.secret_binary {
                Some(b) => Some(b@),
                None => None,
            },
        }
    }
}

impl RawSecret {
    /// Take a payload into buffers that are wiped on drop.
    pub fn new(secret_string: Option<String>, secret_binary: Option<Vec<u8>>) -> (result: RawSecret)
        ensures
            result@ == (RawSecretView {
                secret_string: match secret_string {
                    Some(s) => Some(s@),
                    None => None,
                },
                secret_binary: match secret_binary {
                    Some(b) => Some(b@),
                    None => None,
                },
            }),
    {
        RawSecret {
            secret_string: match secret_string {
                Some(s) => Some(Plaintext::new(s)),
                None => None,
            },
            secret_binary: match secret_binary {
                Some(b) => Some(PlainBytes::new(b)),
                None => None,
            },
        }
    }
}

/// One account the signed-in user may use.
#[derive(Debug, PartialEq, Eq)]
pub struct AccountSummary {
    pub id: String,
    pub name: String,
}

impl AccountSummary {
    /// How this account stands in a list.
    pub open spec fn choice(&self) -> ChoiceView {
        ChoiceView { key: self.id@, label: self.name@ + " ("@ + self.id@ + ")"@ }
    }

    /// The account id.
    pub fn key(&self) -> (result: &str)
        ensures
            result@ == self.choice().key,
    {
        self.id.as_str()
    }

    /// The account's name, and its id in brackets.
    pub fn label(&self) -> (result: String)
        ensures
            result@ == self.choice().label,
    {
        let mut out = self.name.clone();
        out.push_str(" (");
        out.push_str(self.id.as_str());
        out.push_str(")");
        out
    }
}

/// One role available in an account.
#[derive(Debug, PartialEq, Eq)]
pub struct RoleSummary {
    pub name: String,
}

impl RoleSummary {
    /// How this role stands in a list.
    pub open spec fn choice(&self) -> ChoiceView {
        ChoiceView { key: self.name@, label: self.name@ }
    }

    /// The role's name.
    pub fn key(&self) -> (result: &str)
        ensures
            result@ == self.choice().key,
    {
        self.name.as_str()
    }

    /// The role's name.
    pub fn label(&self) -> (result: String)
        ensures
            result@ == self.choice().label,
    {
        self.name.clone()
    }
}

/// Accounts as a list to pick from.
pub open spec fn account_choices(items: Seq<AccountSummary>) -> Seq<ChoiceView> {
    items.map_values(|a: AccountSummary| a.choice())
}

/// Roles as a list to pick from.
pub open spec fn role_choices(items: Seq<RoleSummary>) -> Seq<ChoiceView> {
    items.map_values(|r: RoleSummary| r.choice())
}

/// The accounts as a list to pick from, in order.
pub fn choices_of_accounts(items: &Vec<AccountSummary>) -> (result: Vec<Choice>)
    ensures
        choice_views(result@) == account_choices(items@),
{
    let mut out: Vec<Choice> = Vec::new();
    let mut i: usize = 0;
    while i < items.len()
        invariant
            i <= items@.len(),
            out@.len() == i,
            forall|j: int| 0 <= j < i ==> (#[trigger] out@[j])@ == items@[j].choice(),
        decreases items@.len() - i,
    {
        out.push(Choice { key: items[i].key().to_owned(), label: items[i].label() });
        i = i + 1;
    }
    assert(choice_views(out@) =~= account_choices(items@));
    out
}

/// The roles as a list to pick from, in order.
pub fn choices_of_roles(items: &Vec<RoleSummary>) -> (result: Vec<Choice>)
    ensures
        choice_views(result@) == role_choices(items@),
{
    let mut out: Vec<Choice> = Vec::new();
    let mut i: usize = 0;
    while i < items.len()
        invariant
            i <= items@.len(),
            out@.len() == i,
            forall|j: int| 0 <= j < i ==> (#[trigger] out@[j])@ == items@[j].choice(),
        decreases items@.len() - i,
    {
        out.push(Choice { key: items[i].key().to_owned(), label: items[i].label() });
        i = i + 1;
    }
    assert(choice_views(out@) =~= role_choices(items@));
    out
}

} // verus!
