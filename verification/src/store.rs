//! The one Config of a running app: every read answers from it, and every edit runs
//! its rule and says whether the file is to be written. An edit that is refused
//! changes nothing and writes nothing.

use vstd::prelude::*;
use vstd::string::*;

use crate::model::config::{
    application_views, clone_applications, clone_mappings, mapping_views, Application,
    ApplicationView, Config, ConfigView, IdentityCenter, Mapping, MappingView,
};
use crate::model::matrix::{LoadStatus, MainPane};
use crate::text::{lemma_views_push, trim, trimmed, views};

verus! {

/// What an event sink that did not take an event answers.
#[derive(Debug, Clone, Copy, PartialEq, Eq, Structural)]
pub enum SinkError {
    /// The sink refused the event, or failed in a way it did not declare.
    Rejected,
}

impl SinkError {
    /// The message shown for this error.
    pub fn to_string(&self) -> (result: String)
        ensures
            result@ == "the event sink did not accept the event"@,
    {
        "the event sink did not accept the event".to_owned()
    }
}

/// Why a Config could not be read or written, as the file layer reports it.
#[derive(Debug, PartialEq, Eq)]
pub enum ConfigError {
    /// The config directory of the system could not be determined.
    NoConfigDir,
    /// Reading, writing, parsing or serializing failed, with this message.
    Other { message: String },
}

/// Why a Config could not be read or written, as the shell is told.
#[derive(Debug, PartialEq, Eq)]
pub enum ConfigFailure {
    /// The config directory of the system could not be determined.
    NoConfigDir,
    /// Reading, writing, parsing or serializing the file failed.
    File { reason: String },
}

impl ConfigFailure {
    /// The message shown for this failure.
    pub fn to_string(&self) -> (result: String)
        ensures
            result@ == match self {
                ConfigFailure::NoConfigDir => "could not determine the OS config directory"@,
                ConfigFailure::File { reason } => reason@,
            },
    {
        match self {
            ConfigFailure::NoConfigDir => "could not determine the OS config directory".to_owned(),
            ConfigFailure::File { reason } => reason.clone(),
        }
    }
}

impl From<ConfigError> for ConfigFailure {
    fn from(error: ConfigError) -> (result: ConfigFailure) {
        match error {
            ConfigError::NoConfigDir => ConfigFailure::NoConfigDir,
            ConfigError::Other { message } => ConfigFailure::File { reason: message },
        }
    }
}

impl vstd::std_specs::convert::FromSpecImpl<ConfigError> for ConfigFailure {
    open spec fn obeys_from_spec() -> bool {
        true
    }

    open spec fn from_spec(error: ConfigError) -> ConfigFailure {
        match error {
            ConfigError::NoConfigDir => ConfigFailure::NoConfigDir,
            ConfigError::Other { message } => ConfigFailure::File { reason: message },
        }
    }
}

/// The cell at (`row`, `col`) is the one that is revealed. Nothing is revealed where
/// the revealed cell is the negative sentinel.
pub open spec fn reveals(revealed_row: int, revealed_col: int, row: int, col: int) -> bool {
    0 <= revealed_row == row && 0 <= revealed_col == col
}

/// Whether the cell at (`row`, `col`) is the one that is revealed.
pub fn is_revealed(revealed_row: i32, revealed_col: i32, row: i32, col: i32) -> (result: bool)
    ensures
        result == reveals(revealed_row as int, revealed_col as int, row as int, col as int),
{
    0 <= revealed_row && revealed_row == row && 0 <= revealed_col && revealed_col == col
}

/// The answer to an edit, and whether the file is to be written.
#[derive(Debug, PartialEq, Eq)]
pub struct Edited<T> {
    pub answer: T,
    pub save: bool,
}

/// How an edit leaves a store: a store in memory is never saved, and where one that is
/// written asks for no save, the edit changed nothing.
pub open spec fn saved_or_same(before: StoreView, after: StoreView, save: bool) -> bool {
    &&& after.persist == before.persist
    &&& save ==> before.persist
    &&& before.persist && !save ==> after == before
}

/// The Config a shell reads and edits.
#[derive(Debug)]
pub struct ConfigStore {
    config: Config,
    persist: bool,
}

/// A [`ConfigStore`] as a mathematical value.
#[verifier::ext_equal]
pub struct StoreView {
    pub config: ConfigView,
    pub persist: bool,
}

impl View for ConfigStore {
    type V = StoreView;

    closed spec fn view(&self) -> StoreView {
        StoreView { config: self.config@, persist: self.persist }
    }
}

impl StoreView {
    /// This store with other Applications.
    pub open spec fn with_applications(self, applications: Seq<ApplicationView>) -> StoreView {
        StoreView { config: ConfigView { applications, ..self.config }, ..self }
    }

    /// This store with other Environments of one Application.
    pub open spec fn with_environments(self, index: int, environments: Seq<MappingView>) -> StoreView {
        self.with_applications(
            self.config.applications.update(
                index,
                ApplicationView { environments, ..self.config.applications[index] },
            ),
        )
    }

    /// This store with one more Application, unless its name is blank.
    pub open spec fn application_added(self, name: Seq<char>) -> StoreView {
        if trimmed(name).len() == 0 {
            self
        } else {
            self.with_applications(
                self.config.applications.push(
                    ApplicationView { name: trimmed(name), environments: Seq::empty() },
                ),
            )
        }
    }

    /// This store without one Application, where there is such a one.
    pub open spec fn application_removed(self, index: int) -> StoreView {
        if 0 <= index < self.config.applications.len() {
            self.with_applications(self.config.applications.remove(index))
        } else {
            self
        }
    }

    /// This store with one Application renamed, where there is such a one and the name is
    /// not blank.
    pub open spec fn application_renamed(self, index: int, name: Seq<char>) -> StoreView {
        if 0 <= index < self.config.applications.len() && trimmed(name).len() > 0 {
            self.with_applications(
                self.config.applications.update(
                    index,
                    ApplicationView { name: trimmed(name), ..self.config.applications[index] },
                ),
            )
        } else {
            self
        }
    }

    /// This store with one more Environment in an Application, unless its name is taken
    /// there.
    pub open spec fn environment_added(self, application: int, m: MappingView) -> StoreView {
        let apps = self.config.applications;
        if 0 <= application < apps.len() && !has_name(
            apps[application].environments,
            m.environment,
        ) {
            self.with_environments(application, apps[application].environments.push(m))
        } else {
            self
        }
    }

    /// This store without one Environment of an Application, where there is such a one.
    pub open spec fn environment_removed(self, application: int, index: int) -> StoreView {
        let apps = self.config.applications;
        if 0 <= application < apps.len() && 0 <= index < apps[application].environments.len() {
            self.with_environments(application, apps[application].environments.remove(index))
        } else {
            self
        }
    }
}

/// Two Mappings name the same Environment: the same name, account and secret.
pub open spec fn same_environment(a: MappingView, b: MappingView) -> bool {
    a.environment == b.environment && a.account_id == b.account_id && a.secret_id == b.secret_id
}

/// The first of the Environments that `m` names.
pub open spec fn first_same(environments: Seq<MappingView>, m: MappingView) -> Option<int>
    decreases environments.len(),
{
    if environments.len() == 0 {
        None
    } else if same_environment(environments[0], m) {
        Some(0)
    } else {
        match first_same(environments.skip(1), m) {
            Some(i) => Some(i + 1),
            None => None,
        }
    }
}

/// Whether `m` corrects one of the Environments: it names one that has another role.
pub open spec fn corrects(environments: Seq<MappingView>, m: MappingView) -> bool {
    match first_same(environments, m) {
        Some(i) => environments[i].permission_set != m.permission_set,
        None => false,
    }
}

/// The Environments with the role of the one `m` names corrected.
pub open spec fn corrected(environments: Seq<MappingView>, m: MappingView) -> Seq<MappingView> {
    match first_same(environments, m) {
        Some(i) => environments.update(
            i,
            MappingView { permission_set: m.permission_set, ..environments[i] },
        ),
        None => environments,
    }
}

/// The Environments with the first `n` corrections applied, in order.
pub open spec fn all_corrected(
    environments: Seq<MappingView>,
    corrections: Seq<MappingView>,
    n: int,
) -> Seq<MappingView>
    decreases n,
{
    if n <= 0 {
        environments
    } else {
        corrected(all_corrected(environments, corrections, n - 1), corrections[n - 1])
    }
}

/// How many of the first `n` corrections change an Environment.
pub open spec fn correction_count(
    environments: Seq<MappingView>,
    corrections: Seq<MappingView>,
    n: int,
) -> nat
    decreases n,
{
    if n <= 0 {
        0
    } else {
        correction_count(environments, corrections, n - 1) + if corrects(
            all_corrected(environments, corrections, n - 1),
            corrections[n - 1],
        ) {
            1nat
        } else {
            0
        }
    }
}

/// Some Environment has this name.
pub open spec fn has_name(environments: Seq<MappingView>, name: Seq<char>) -> bool {
    exists|i: int| 0 <= i < environments.len() && (#[trigger] environments[i]).environment == name
}

/// A list with one more text at its end, unless it is blank or there already.
pub open spec fn offered(list: Seq<Seq<char>>, text: Seq<char>) -> Seq<Seq<char>> {
    if text.len() == 0 || list.contains(text) {
        list
    } else {
        list.push(text)
    }
}

/// A list with the first `n` texts offered, in order.
pub open spec fn all_offered(list: Seq<Seq<char>>, texts: Seq<Seq<char>>, n: int) -> Seq<Seq<char>>
    decreases n,
{
    if n <= 0 {
        list
    } else {
        offered(all_offered(list, texts, n - 1), texts[n - 1])
    }
}

/// The regions of the Environments of the first `n` Applications.
pub open spec fn environment_regions(apps: Seq<ApplicationView>, n: int) -> Seq<Seq<char>>
    decreases n,
{
    if n <= 0 {
        Seq::empty()
    } else {
        environment_regions(apps, n - 1) + apps[n - 1].environments.map_values(
            |m: MappingView| m.region,
        )
    }
}

/// Every region a Config refers to: the browse region, the org's, and those of its
/// Environments.
pub open spec fn own_regions(config: ConfigView) -> Seq<Seq<char>> {
    seq![config.secret_region, config.sso_region] + environment_regions(
        config.applications,
        config.applications.len() as int,
    )
}

/// Which pane the main area shows.
pub open spec fn pane_for(status: LoadStatus, has_applications: bool) -> MainPane {
    match status {
        LoadStatus::Idle => MainPane::SignIn,
        LoadStatus::SigningIn => MainPane::Signing,
        LoadStatus::Loading => MainPane::Loading,
        LoadStatus::Loaded => if has_applications {
            MainPane::Matrix
        } else {
            MainPane::EmptyApps
        },
        LoadStatus::Failed => MainPane::Error,
    }
}

proof fn lemma_first_same(environments: Seq<MappingView>, m: MappingView)
    ensures
        match first_same(environments, m) {
            Some(i) => 0 <= i < environments.len() && same_environment(environments[i], m)
                && forall|j: int| 0 <= j < i ==> !same_environment(#[trigger] environments[j], m),
            None => forall|j: int|
                0 <= j < environments.len() ==> !same_environment(#[trigger] environments[j], m),
        },
    decreases environments.len(),
{
    if environments.len() > 0 && !same_environment(environments[0], m) {
        lemma_first_same(environments.skip(1), m);
        assert forall|j: int| 1 <= j < environments.len() implies #[trigger] environments[j]
            == environments.skip(1)[j - 1] by {}
    }
}

proof fn lemma_regions_prefix(apps: Seq<ApplicationView>, n: int, m: int)
    requires
        0 <= n <= m <= apps.len(),
    ensures
        environment_regions(apps, n).len() <= environment_regions(apps, m).len(),
        environment_regions(apps, n) == environment_regions(apps, m).take(
            environment_regions(apps, n).len() as int,
        ),
    decreases m,
{
    if n == m {
        assert(environment_regions(apps, n) =~= environment_regions(apps, m).take(
            environment_regions(apps, n).len() as int,
        ));
    } else {
        lemma_regions_prefix(apps, n, m - 1);
        let less = environment_regions(apps, m - 1);
        let all = environment_regions(apps, m);
        let k = environment_regions(apps, n).len() as int;
        assert(all.take(k) =~= less.take(k));
    }
}

/// Add a text to a list, unless it is blank or there already.
fn offer(list: &mut Vec<String>, text: &String)
    ensures
        views(final(list)@) == offered(views(old(list)@), text@),
{
    if text.as_str().is_empty() {
        return ;
    }
    let ghost have = views(list@);
    let mut i: usize = 0;
    while i < list.len()
        invariant
            i <= list@.len(),
            *list == *old(list),
            have == views(list@),
            text@.len() > 0,
            forall|j: int| 0 <= j < i ==> #[trigger] have[j] != text@,
        decreases list@.len() - i,
    {
        assert(have[i as int] == list@[i as int]@);
        if list[i] == *text {
            assert(have.contains(text@));
            return ;
        }
        i = i + 1;
    }
    let copy = text.clone();
    proof {
        lemma_views_push(list@, copy);
    }
    list.push(copy);
}

/// Apply one correction in place, answering whether it changed an Environment.
fn apply_corrected_role(environments: &mut Vec<Mapping>, m: &Mapping) -> (result: bool)
    ensures
        mapping_views(final(environments)@) == corrected(mapping_views(old(environments)@), m@),
        result == corrects(mapping_views(old(environments)@), m@),
{
    let ghost envs = mapping_views(environments@);
    proof {
        lemma_first_same(envs, m@);
    }
    let mut i: usize = 0;
    while i < environments.len()
        invariant
            i <= environments@.len(),
            *environments == *old(environments),
            envs == mapping_views(environments@),
            forall|j: int| 0 <= j < i ==> !same_environment(#[trigger] envs[j], m@),
            match first_same(envs, m@) {
                Some(i) => 0 <= i < envs.len() && same_environment(envs[i], m@) && forall|j: int|
                    0 <= j < i ==> !same_environment(#[trigger] envs[j], m@),
                None => forall|j: int|
                    0 <= j < envs.len() ==> !same_environment(#[trigger] envs[j], m@),
            },
        decreases environments@.len() - i,
    {
        assert(envs[i as int] == environments@[i as int]@);
        if environments[i].environment == m.environment && environments[i].account_id
            == m.account_id && environments[i].secret_id == m.secret_id {
            assert(first_same(envs, m@) == Some(i as int));
            let changed = environments[i].permission_set != m.permission_set;
            let mut patched = environments[i].clone();
            patched.permission_set = m.permission_set.clone();
            environments.set(i, patched);
            assert(mapping_views(environments@) =~= corrected(envs, m@));
            return changed;
        }
        i = i + 1;
    }
    false
}

impl ConfigStore {
    /// A store over the Config read from its file. Edits are written.
    pub fn load(config: Config) -> (result: ConfigStore)
        ensures
            result@ == (StoreView { config: config@, persist: true }),
    {
        ConfigStore { config, persist: true }
    }

    /// A store over a Config that is never written. Edits run every rule.
    pub fn in_memory(config: Config) -> (result: ConfigStore)
        ensures
            result@ == (StoreView { config: config@, persist: false }),
    {
        ConfigStore { config, persist: false }
    }

    /// The whole Config.
    pub fn snapshot(&self) -> (result: Config)
        ensures
            result@ == self@.config,
    {
        self.config.clone()
    }

    /// The Applications, in order.
    pub fn applications(&self) -> (result: Vec<Application>)
        ensures
            application_views(result@) == self@.config.applications,
    {
        clone_applications(&self.config.applications)
    }

    /// One Application's Environments, in order; none where there is no such
    /// Application.
    pub fn environments(&self, application: usize) -> (result: Vec<Mapping>)
        ensures
            mapping_views(result@) == (if application < self@.config.applications.len() {
                self@.config.applications[application as int].environments
            } else {
                Seq::empty()
            }),
    {
        if application < self.config.applications.len() {
            clone_mappings(&self.config.applications[application].environments)
        } else {
            let out: Vec<Mapping> = Vec::new();
            assert(mapping_views(out@) =~= Seq::empty());
            out
        }
    }

    /// Which pane the main area shows.
    pub fn main_pane(&self, status: LoadStatus) -> (result: MainPane)
        ensures
            result == pane_for(status, self@.config.applications.len() > 0),
    {
        match status {
            LoadStatus::Idle => MainPane::SignIn,
            LoadStatus::SigningIn => MainPane::Signing,
            LoadStatus::Loading => MainPane::Loading,
            LoadStatus::Loaded => if self.config.applications.len() > 0 {
                MainPane::Matrix
            } else {
                MainPane::EmptyApps
            },
            LoadStatus::Failed => MainPane::Error,
        }
    }

    /// Add an Application without Environments, and answer its index. The name is
    /// trimmed; a blank one is refused.
    pub fn add_application(&mut self, name: String) -> (result: Edited<Option<usize>>)
        ensures
            saved_or_same(old(self)@, final(self)@, result.save),
            ({
                let before = old(self)@;
                let kept = trimmed(name@);
                if kept.len() == 0 {
                    &&& final(self)@ == before
                    &&& result.answer is None
                    &&& !result.save
                } else {
                    &&& final(self)@ == before.with_applications(
                        before.config.applications.push(
                            ApplicationView { name: kept, environments: Seq::empty() },
                        ),
                    )
                    &&& result.answer is Some
                    &&& result.answer->0 == before.config.applications.len()
                    &&& result.save == before.persist
                }
            }),
            final(self)@ == old(self)@.application_added(name@),
    {
        let name = trim(name.as_str());
        if name.as_str().is_empty() {
            return Edited { answer: None, save: false };
        }
        let index = self.config.applications.len();
        let app = Application { name, environments: Vec::new() };
        proof {
            assert(mapping_views(app.environments@) =~= Seq::empty());
            assert(application_views(self.config.applications@.push(app)) =~= application_views(
                self.config.applications@,
            ).push(app@));
        }
        self.config.applications.push(app);
        Edited { answer: Some(index), save: self.persist }
    }

    /// Remove an Application and its Environments. It touches no Secret Set.
    pub fn remove_application(&mut self, index: usize) -> (result: Edited<()>)
        ensures
            saved_or_same(old(self)@, final(self)@, result.save),
            ({
                let before = old(self)@;
                if index < before.config.applications.len() {
                    &&& final(self)@ == before.with_applications(
                        before.config.applications.remove(index as int),
                    )
                    &&& result.save == before.persist
                } else {
                    &&& final(self)@ == before
                    &&& !result.save
                }
            }),
            final(self)@ == old(self)@.application_removed(index as int),
    {
        if index >= self.config.applications.len() {
            return Edited { answer: (), save: false };
        }
        let ghost apps = self.config.applications@;
        let _ = self.config.applications.remove(index);
        assert(application_views(self.config.applications@) =~= application_views(apps).remove(
            index as int,
        ));
        Edited { answer: (), save: self.persist }
    }

    /// Rename an Application, answering whether its name changed. The name is
    /// trimmed; a blank one is refused, and so is an index out of range.
    pub fn rename_application(&mut self, index: usize, name: String) -> (result: Edited<bool>)
        ensures
            saved_or_same(old(self)@, final(self)@, result.save),
            ({
                let before = old(self)@;
                let apps = before.config.applications;
                let kept = trimmed(name@);
                let changes = index < apps.len() && kept.len() > 0 && kept
                    != apps[index as int].name;
                &&& result.answer == changes
                &&& result.save == (changes && before.persist)
                &&& final(self)@ == (if changes {
                    before.with_applications(
                        apps.update(
                            index as int,
                            ApplicationView { name: kept, ..apps[index as int] },
                        ),
                    )
                } else {
                    before
                })
            }),
            final(self)@ == old(self)@.application_renamed(index as int, name@),
    {
        let name = trim(name.as_str());
        if index >= self.config.applications.len() || name.as_str().is_empty() || name
            == self.config.applications[index].name {
            return Edited { answer: false, save: false };
        }
        let ghost apps = self.config.applications@;
        let app = Application {
            name,
            environments: clone_mappings(&self.config.applications[index].environments),
        };
        self.config.applications.set(index, app);
        assert(application_views(self.config.applications@) =~= application_views(apps).update(
            index as int,
            app@,
        ));
        Edited { answer: true, save: self.persist }
    }

    fn put_environments(&mut self, index: usize, environments: Vec<Mapping>)
        requires
            index < old(self)@.config.applications.len(),
        ensures
            final(self)@ == old(self)@.with_environments(
                index as int,
                mapping_views(environments@),
            ),
    {
        let ghost apps = self.config.applications@;
        let app = Application {
            name: self.config.applications[index].name.clone(),
            environments,
        };
        self.config.applications.set(index, app);
        assert(application_views(self.config.applications@) =~= application_views(apps).update(
            index as int,
            app@,
        ));
    }

    /// Append an Environment, answering whether it landed. A name that is there
    /// already is refused, never overwritten.
    pub fn add_environment(&mut self, application: usize, mapping: Mapping) -> (result: Edited<
        bool,
    >)
        ensures
            saved_or_same(old(self)@, final(self)@, result.save),
            ({
                let before = old(self)@;
                let apps = before.config.applications;
                let lands = application < apps.len() && !has_name(
                    apps[application as int].environments,
                    mapping@.environment,
                );
                &&& result.answer == lands
                &&& result.save == (lands && before.persist)
                &&& final(self)@ == (if lands {
                    before.with_environments(
                        application as int,
                        apps[application as int].environments.push(mapping@),
                    )
                } else {
                    before
                })
            }),
            final(self)@ == old(self)@.environment_added(application as int, mapping@),
    {
        if application >= self.config.applications.len() {
            return Edited { answer: false, save: false };
        }
        let mut environments = clone_mappings(&self.config.applications[application].environments);
        let ghost envs = mapping_views(environments@);
        let mut i: usize = 0;
        while i < environments.len()
            invariant
                *self == *old(self),
                application < self.config.applications@.len(),
                i <= environments@.len(),
                envs == mapping_views(environments@),
                envs == self@.config.applications[application as int].environments,
                forall|j: int|
                    0 <= j < i ==> (#[trigger] envs[j]).environment != mapping@.environment,
            decreases environments@.len() - i,
        {
            assert(envs[i as int] == environments@[i as int]@);
            if environments[i].environment == mapping.environment {
                assert(has_name(envs, mapping@.environment));
                return Edited { answer: false, save: false };
            }
            i = i + 1;
        }
        assert(mapping_views(environments@.push(mapping)) =~= envs.push(mapping@));
        environments.push(mapping);
        self.put_environments(application, environments);
        Edited { answer: true, save: self.persist }
    }

    /// Remove one Environment from one Application.
    pub fn remove_environment(&mut self, application: usize, index: usize) -> (result: Edited<()>)
        ensures
            saved_or_same(old(self)@, final(self)@, result.save),
            ({
                let before = old(self)@;
                let apps = before.config.applications;
                if application < apps.len() && index < apps[application as int].environments.len() {
                    &&& final(self)@ == before.with_environments(
                        application as int,
                        apps[application as int].environments.remove(index as int),
                    )
                    &&& result.save == before.persist
                } else {
                    &&& final(self)@ == before
                    &&& !result.save
                }
            }),
            final(self)@ == old(self)@.environment_removed(application as int, index as int),
    {
        if application >= self.config.applications.len() || index
            >= self.config.applications[application].environments.len() {
            return Edited { answer: (), save: false };
        }
        let mut environments = clone_mappings(&self.config.applications[application].environments);
        let ghost envs = environments@;
        let _ = environments.remove(index);
        assert(mapping_views(environments@) =~= mapping_views(envs).remove(index as int));
        self.put_environments(application, environments);
        Edited { answer: (), save: self.persist }
    }

    /// Fold corrected roles into one Application, answering how many Environments
    /// changed. An Environment is told by its name, account and secret, and nothing
    /// but its role is touched.
    pub fn apply_corrected_roles(&mut self, application: usize, corrections: Vec<Mapping>) -> (result:
        Edited<usize>)
        ensures
            saved_or_same(old(self)@, final(self)@, result.save),
            ({
                let before = old(self)@;
                let apps = before.config.applications;
                let ms = mapping_views(corrections@);
                let n = ms.len() as int;
                if application < apps.len() {
                    let envs = apps[application as int].environments;
                    &&& result.answer == correction_count(envs, ms, n)
                    &&& result.save == (result.answer > 0 && before.persist)
                    &&& final(self)@ == before.with_environments(
                        application as int,
                        all_corrected(envs, ms, n),
                    )
                } else {
                    &&& final(self)@ == before
                    &&& result.answer == 0
                    &&& !result.save
                }
            }),
    {
        if application >= self.config.applications.len() {
            return Edited { answer: 0, save: false };
        }
        let mut environments = clone_mappings(&self.config.applications[application].environments);
        let ghost envs = mapping_views(environments@);
        let ghost ms = mapping_views(corrections@);
        let mut applied: usize = 0;
        let mut i: usize = 0;
        while i < corrections.len()
            invariant
                *self == *old(self),
                i <= corrections@.len(),
                ms == mapping_views(corrections@),
                mapping_views(environments@) == all_corrected(envs, ms, i as int),
                applied == correction_count(envs, ms, i as int),
                applied <= i,
            decreases corrections@.len() - i,
        {
            assert(ms[i as int] == corrections@[i as int]@);
            if apply_corrected_role(&mut environments, &corrections[i]) {
                applied = applied + 1;
            }
            i = i + 1;
        }
        self.put_environments(application, environments);
        proof {
            if applied == 0 {
                uncounted_corrections_change_nothing(envs, ms, ms.len() as int);
                assert(self@ =~= old(self)@);
            }
        }
        Edited { answer: applied, save: applied > 0 && self.persist }
    }

    /// The regions a picker offers: those that are known, and then every region this
    /// Config refers to, so that the operator's own is always there.
    pub fn region_choices(&self, known: Vec<String>) -> (result: Vec<String>)
        ensures
            views(result@) == all_offered(
                views(known@),
                own_regions(self@.config),
                own_regions(self@.config).len() as int,
            ),
    {
        let ghost own = own_regions(self@.config);
        let ghost apps = self@.config.applications;
        let mut out = known;
        offer(&mut out, &self.config.secret_region);
        offer(&mut out, &self.config.sso_region);
        let ghost mut done: int = 2;
        proof {
            assert(environment_regions(apps, 0) =~= Seq::empty());
            assert(own[0] == self.config.secret_region@);
            assert(own[1] == self.config.sso_region@);
            reveal_with_fuel(all_offered, 3);
        }
        let mut i: usize = 0;
        while i < self.config.applications.len()
            invariant
                i <= self.config.applications@.len(),
                apps == application_views(self.config.applications@),
                own == own_regions(self@.config),
                apps == self@.config.applications,
                done == 2 + environment_regions(apps, i as int).len(),
                views(out@) == all_offered(views(known@), own, done),
            decreases self.config.applications@.len() - i,
        {
            let app = &self.config.applications[i];
            let ghost here = environment_regions(apps, i as int).len();
            let ghost regions = apps[i as int].environments.map_values(|m: MappingView| m.region);
            assert(apps[i as int] == app@);
            proof {
                lemma_regions_prefix(apps, i as int + 1, apps.len() as int);
            }
            let mut j: usize = 0;
            while j < app.environments.len()
                invariant
                    j <= app.environments@.len(),
                    0 <= i < apps.len(),
                    apps[i as int] == app@,
                    regions == apps[i as int].environments.map_values(|m: MappingView| m.region),
                    here == environment_regions(apps, i as int).len(),
                    own == seq![own[0], own[1]] + environment_regions(apps, apps.len() as int),
                    environment_regions(apps, i + 1).len() <= environment_regions(
                        apps,
                        apps.len() as int,
                    ).len(),
                    environment_regions(apps, i + 1) == environment_regions(
                        apps,
                        apps.len() as int,
                    ).take(environment_regions(apps, i + 1).len() as int),
                    done == 2 + here + j,
                    views(out@) == all_offered(views(known@), own, done),
                decreases app.environments@.len() - j,
            {
                proof {
                    let all = environment_regions(apps, apps.len() as int);
                    let upto = environment_regions(apps, i + 1);
                    assert(upto =~= environment_regions(apps, i as int) + regions);
                    assert(upto[here + j] == regions[j as int]);
                    assert(all[here + j] == upto[here + j]);
                    assert(own[done] == all[here + j]);
                    assert(regions[j as int] == app.environments@[j as int]@.region);
                }
                offer(&mut out, &app.environments[j].region);
                proof {
                    done = done + 1;
                }
                j = j + 1;
            }
            i = i + 1;
        }
        assert(done == own.len());
        out
    }

    /// The region the next walk browses.
    pub fn browse_region(&self) -> (result: String)
        ensures
            result@ == self@.config.browse_region(),
    {
        if self.config.secret_region.as_str().is_empty() {
            self.config.sso_region.clone()
        } else {
            self.config.secret_region.clone()
        }
    }

    /// Set the region the next walk browses.
    pub fn set_browse_region(&mut self, region: String) -> (result: Edited<()>)
        ensures
            saved_or_same(old(self)@, final(self)@, result.save),
            final(self)@ == (StoreView {
                config: ConfigView { secret_region: region@, ..old(self)@.config },
                ..old(self)@
            }),
            result.save == (region@ != old(self)@.config.secret_region && old(self)@.persist),
    {
        let changed = self.config.secret_region != region;
        self.config.secret_region = region;
        Edited { answer: (), save: changed && self.persist }
    }

    /// The org's portal and the region that hosts it.
    pub fn identity_center(&self) -> (result: IdentityCenter)
        ensures
            result.start_url@ == self@.config.sso_start_url,
            result.region@ == self@.config.sso_region,
    {
        IdentityCenter {
            start_url: self.config.sso_start_url.clone(),
            region: self.config.sso_region.clone(),
        }
    }

    /// Set the org's portal and the region that hosts it.
    pub fn set_identity_center(&mut self, start_url: String, region: String) -> (result: Edited<()>)
        ensures
            saved_or_same(old(self)@, final(self)@, result.save),
            final(self)@ == (StoreView {
                config: ConfigView {
                    sso_start_url: start_url@,
                    sso_region: region@,
                    ..old(self)@.config
                },
                ..old(self)@
            }),
            result.save == ((start_url@ != old(self)@.config.sso_start_url || region@ != old(
                self,
            )@.config.sso_region) && old(self)@.persist),
    {
        let changed = self.config.sso_start_url != start_url || self.config.sso_region != region;
        self.config.sso_start_url = start_url;
        self.config.sso_region = region;
        Edited { answer: (), save: changed && self.persist }
    }
}

// ---------------------------------------------------------------------------
// Laws
// ---------------------------------------------------------------------------

/// At most one cell is revealed, and none at all behind the negative sentinel.
pub proof fn at_most_one_cell_is_revealed(
    revealed_row: int,
    revealed_col: int,
    row: int,
    col: int,
    other_row: int,
    other_col: int,
)
    ensures
        reveals(revealed_row, revealed_col, row, col) && reveals(
            revealed_row,
            revealed_col,
            other_row,
            other_col,
        ) ==> row == other_row && col == other_col,
        revealed_row < 0 || revealed_col < 0 ==> !reveals(revealed_row, revealed_col, row, col),
{
}

/// No two Environments share a name.
pub open spec fn distinct_names(environments: Seq<MappingView>) -> bool {
    forall|i: int, j: int|
        0 <= i < j < environments.len() ==> (#[trigger] environments[i]).environment != (
        #[trigger] environments[j]).environment
}

/// Adding an Environment that lands, removing one and correcting roles all keep the
/// names of an Application's Environments distinct.
pub proof fn environment_names_stay_distinct(
    environments: Seq<MappingView>,
    added: MappingView,
    index: int,
    corrections: Seq<MappingView>,
    n: int,
)
    requires
        distinct_names(environments),
        0 <= index < environments.len(),
        0 <= n <= corrections.len(),
    ensures
        !has_name(environments, added.environment) ==> distinct_names(environments.push(added)),
        distinct_names(environments.remove(index)),
        distinct_names(all_corrected(environments, corrections, n)),
{
    if !has_name(environments, added.environment) {
        let after = environments.push(added);
        assert forall|i: int, j: int| 0 <= i < j < after.len() implies (
        #[trigger] after[i]).environment != (#[trigger] after[j]).environment by {
            assert(after[i] == environments[i]);
            if j < environments.len() {
                assert(after[j] == environments[j]);
            }
        }
    }
    corrections_touch_roles_alone(environments, corrections, n);
    let after = all_corrected(environments, corrections, n);
    assert forall|i: int, j: int| 0 <= i < j < after.len() implies (
    #[trigger] after[i]).environment != (#[trigger] after[j]).environment by {
        assert(after[i].environment == environments[i].environment);
        assert(after[j].environment == environments[j].environment);
    }
}

/// Corrections change the role of an Environment and nothing else: the Environments
/// stay as many, in order, each with its name, account, region, secret and Method.
pub proof fn corrections_touch_roles_alone(
    environments: Seq<MappingView>,
    corrections: Seq<MappingView>,
    n: int,
)
    requires
        0 <= n <= corrections.len(),
    ensures
        ({
            let after = all_corrected(environments, corrections, n);
            &&& after.len() == environments.len()
            &&& forall|i: int|
                0 <= i < environments.len() ==> #[trigger] after[i] == (MappingView {
                    permission_set: after[i].permission_set,
                    ..environments[i]
                })
        }),
    decreases n,
{
    if n > 0 {
        corrections_touch_roles_alone(environments, corrections, n - 1);
        lemma_first_same(all_corrected(environments, corrections, n - 1), corrections[n - 1]);
    }
}

/// An Environment that no correction names keeps its role.
pub proof fn an_environment_not_named_keeps_its_role(
    environments: Seq<MappingView>,
    corrections: Seq<MappingView>,
    n: int,
    i: int,
)
    requires
        0 <= n <= corrections.len(),
        0 <= i < environments.len(),
        forall|k: int| 0 <= k < n ==> !same_environment(environments[i], #[trigger] corrections[k]),
    ensures
        all_corrected(environments, corrections, n)[i] == environments[i],
    decreases n,
{
    if n > 0 {
        an_environment_not_named_keeps_its_role(environments, corrections, n - 1, i);
        let before = all_corrected(environments, corrections, n - 1);
        corrections_touch_roles_alone(environments, corrections, n - 1);
        lemma_first_same(before, corrections[n - 1]);
    }
}

/// Corrections of which none is counted change nothing. So where no save is asked for,
/// there is nothing to save.
pub proof fn uncounted_corrections_change_nothing(
    environments: Seq<MappingView>,
    corrections: Seq<MappingView>,
    n: int,
)
    requires
        0 <= n <= corrections.len(),
        correction_count(environments, corrections, n) == 0,
    ensures
        all_corrected(environments, corrections, n) == environments,
    decreases n,
{
    if n > 0 {
        uncounted_corrections_change_nothing(environments, corrections, n - 1);
        lemma_first_same(environments, corrections[n - 1]);
        assert(corrected(environments, corrections[n - 1]) =~= environments);
    }
}

/// Every region a Config refers to is offered, and so is every known one.
pub proof fn an_own_region_is_always_offered(
    known: Seq<Seq<char>>,
    texts: Seq<Seq<char>>,
    n: int,
    region: Seq<char>,
)
    requires
        0 <= n <= texts.len(),
        region.len() > 0,
        known.contains(region) || texts.take(n).contains(region),
    ensures
        all_offered(known, texts, n).contains(region),
    decreases n,
{
    if n > 0 {
        let before = all_offered(known, texts, n - 1);
        if texts[n - 1] == region {
            if !before.contains(region) {
                let after = all_offered(known, texts, n);
                assert(after[after.len() - 1] == region);
            }
        } else {
            if !known.contains(region) {
                let k = choose|k: int| 0 <= k < n && texts.take(n)[k] == region;
                assert(texts.take(n - 1)[k] == region);
            }
            an_own_region_is_always_offered(known, texts, n - 1, region);
            let k = choose|k: int| 0 <= k < before.len() && before[k] == region;
            assert(all_offered(known, texts, n)[k] == region);
        }
    }
}

} // verus!
