//! Config: the Applications, and the Environments mapped under each. It names
//! locations only and cannot hold a Value.

use vstd::prelude::*;
use vstd::string::*;

verus! {

/// How an Environment's Secret Set is reached.
#[derive(Debug, Clone, Copy, PartialEq, Eq, Structural, PartialOrd, Ord, Hash)]
pub enum Method {
    SecretsManager,
    SsmDotenv,
}

/// Every Method, in the order a picker lists them.
pub fn method_choices() -> (result: Vec<Method>)
    ensures
        result@ == seq![Method::SecretsManager, Method::SsmDotenv],
{
    let mut out: Vec<Method> = Vec::new();
    out.push(Method::SecretsManager);
    out.push(Method::SsmDotenv);
    assert(out@ =~= seq![Method::SecretsManager, Method::SsmDotenv]);
    out
}

/// One Environment: which Secret Set it is, and the role that reads it.
#[derive(Debug, PartialEq, Eq)]
pub struct Mapping {
    pub environment: String,
    pub account_id: String,
    pub region: String,
    pub secret_id: String,
    pub permission_set: String,
    pub method: Method,
}

/// A [`Mapping`] as a mathematical value.
#[verifier::ext_equal]
pub struct MappingView {
    pub environment: Seq<char>,
    pub account_id: Seq<char>,
    pub region: Seq<char>,
    pub secret_id: Seq<char>,
    pub permission_set: Seq<char>,
    pub method: Method,
}

impl View for Mapping {
    type V = MappingView;

    open spec fn view(&self) -> MappingView {
        MappingView {
            environment: self.environment@,
            account_id: self.account_id@,
            region: self.region@,
            secret_id: self.secret_id@,
            permission_set: self.permission_set@,
            method: self.method,
        }
    }
}

impl Clone for Mapping {
    fn clone(&self) -> (result: Self)
        ensures
            result == *self,
    {
        Mapping {
            environment: self.environment.clone(),
            account_id: self.account_id.clone(),
            region: self.region.clone(),
            secret_id: self.secret_id.clone(),
            permission_set: self.permission_set.clone(),
            method: self.method,
        }
    }
}

/// The views of a list of Mappings.
pub open spec fn mapping_views(v: Seq<Mapping>) -> Seq<MappingView> {
    v.map_values(|m: Mapping| m@)
}

/// A copy of a list of Mappings.
pub fn clone_mappings(v: &Vec<Mapping>) -> (result: Vec<Mapping>)
    ensures
        result@ == v@,
{
    let mut out: Vec<Mapping> = Vec::new();
    let mut i: usize = 0;
    while i < v.len()
        invariant
            i <= v@.len(),
            out@ == v@.take(i as int),
        decreases v@.len() - i,
    {
        proof {
            assert(v@.take(i as int).push(v@[i as int]) =~= v@.take(i + 1));
        }
        out.push(v[i].clone());
        i = i + 1;
    }
    assert(v@.take(v@.len() as int) =~= v@);
    out
}

/// One Application and its Environments, in column order.
#[derive(Debug, PartialEq, Eq)]
pub struct Application {
    pub name: String,
    pub environments: Vec<Mapping>,
}

impl Clone for Application {
    fn clone(&self) -> (result: Self)
        ensures
            result.name == self.name,
            result.environments@ == self.environments@,
    {
        Application { name: self.name.clone(), environments: clone_mappings(&self.environments) }
    }
}

/// An [`Application`] as a mathematical value.
#[verifier::ext_equal]
pub struct ApplicationView {
    pub name: Seq<char>,
    pub environments: Seq<MappingView>,
}

impl View for Application {
    type V = ApplicationView;

    open spec fn view(&self) -> ApplicationView {
        ApplicationView { name: self.name@, environments: mapping_views(self.environments@) }
    }
}

/// The views of a list of Applications.
pub open spec fn application_views(v: Seq<Application>) -> Seq<ApplicationView> {
    v.map_values(|a: Application| a@)
}

/// A copy of a list of Applications.
pub fn clone_applications(v: &Vec<Application>) -> (result: Vec<Application>)
    ensures
        application_views(result@) == application_views(v@),
{
    let mut out: Vec<Application> = Vec::new();
    let mut i: usize = 0;
    while i < v.len()
        invariant
            i <= v@.len(),
            out@.len() == i,
            forall|j: int| 0 <= j < i ==> (#[trigger] out@[j])@ == v@[j]@,
        decreases v@.len() - i,
    {
        out.push(v[i].clone());
        i = i + 1;
    }
    assert(application_views(out@) =~= application_views(v@));
    out
}

/// The Identity Center org: where its portal is, and which region hosts it.
#[derive(Debug, PartialEq, Eq)]
pub struct IdentityCenter {
    pub start_url: String,
    pub region: String,
}

/// The org, the browse region, the last guided pick, and the Applications.
#[derive(Debug, PartialEq, Eq)]
pub struct Config {
    pub sso_start_url: String,
    pub sso_region: String,
    pub secret_region: String,
    pub browser_command: Option<String>,
    pub last_pick: Option<Mapping>,
    pub applications: Vec<Application>,
}

/// A [`Config`] as a mathematical value.
#[verifier::ext_equal]
pub struct ConfigView {
    pub sso_start_url: Seq<char>,
    pub sso_region: Seq<char>,
    pub secret_region: Seq<char>,
    pub browser_command: Option<Seq<char>>,
    pub last_pick: Option<MappingView>,
    pub applications: Seq<ApplicationView>,
}

impl View for Config {
    type V = ConfigView;

    open spec fn view(&self) -> ConfigView {
        ConfigView {
            sso_start_url: self.sso_start_url@,
            sso_region: self.sso_region@,
            secret_region: self.secret_region@,
            browser_command: match self.browser_command {
                Some(c) => Some(c@),
                None => None,
            },
            last_pick: match self.last_pick {
                Some(m) => Some(m@),
                None => None,
            },
            applications: application_views(self.applications@),
        }
    }
}

impl Clone for Config {
    fn clone(&self) -> (result: Self)
        ensures
            result@ == self@,
    {
        Config {
            sso_start_url: self.sso_start_url.clone(),
            sso_region: self.sso_region.clone(),
            secret_region: self.secret_region.clone(),
            browser_command: match &self.browser_command {
                Some(c) => Some(c.clone()),
                None => None,
            },
            last_pick: match &self.last_pick {
                Some(m) => Some(m.clone()),
                None => None,
            },
            applications: clone_applications(&self.applications),
        }
    }
}

impl Default for Config {
    /// What a first launch sees: nothing is configured.
    fn default() -> (result: Self)
        ensures
            result@ == (ConfigView {
                sso_start_url: Seq::empty(),
                sso_region: Seq::empty(),
                secret_region: Seq::empty(),
                browser_command: None,
                last_pick: None,
                applications: Seq::empty(),
            }),
    {
        let result = Config {
            sso_start_url: String::new(),
            sso_region: String::new(),
            secret_region: String::new(),
            browser_command: None,
            last_pick: None,
            applications: Vec::new(),
        };
        assert(application_views(result.applications@) =~= Seq::empty());
        result
    }
}

impl ConfigView {
    /// The region a walk browses: the browse region, or the org's where none is set.
    pub open spec fn browse_region(self) -> Seq<char> {
        if self.secret_region.len() > 0 {
            self.secret_region
        } else {
            self.sso_region
        }
    }
}

} // verus!
