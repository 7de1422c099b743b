//! What holds of the edits to a Config, and of what a shell shows of it.

use vstd::prelude::*;

use crate::model::config::{ApplicationView, ConfigView, MappingView};
use crate::model::matrix::{LoadStatus, MainPane};
use crate::store::{
    all_corrected, all_offered, corrected, correction_count, corrections_touch_roles_alone,
    corrects, distinct_names, environment_regions, first_same, has_name, own_regions, pane_for,
    reveals, same_environment, saved_or_same, StoreView,
};
use crate::text::trimmed;

verus! {

/// Exactly the revealed cell is shown.
pub proof fn exactly_the_revealed_cell_is_shown(
    revealed_row: int,
    revealed_col: int,
    row: int,
    col: int,
)
    ensures
        row == revealed_row && col == revealed_col && row >= 0 && col >= 0 ==> reveals(
            revealed_row,
            revealed_col,
            row,
            col,
        ),
        row != revealed_row || col != revealed_col || row < 0 || col < 0 ==> !reveals(
            revealed_row,
            revealed_col,
            row,
            col,
        ),
{
}

/// An edit of one Application's Environments leaves its name, every other Application and
/// the rest of the Config as they were.
pub proof fn an_edit_stays_in_its_application(
    store: StoreView,
    index: int,
    environments: Seq<MappingView>,
)
    requires
        0 <= index < store.config.applications.len(),
    ensures
        ({
            let before = store.config;
            let after = store.with_environments(index, environments).config;
            &&& after.applications.len() == before.applications.len()
            &&& after.applications[index].environments == environments
            &&& after.applications[index].name == before.applications[index].name
            &&& forall|i: int|
                0 <= i < before.applications.len() && i != index
                    ==> #[trigger] after.applications[i] == before.applications[i]
            &&& after.sso_start_url == before.sso_start_url
            &&& after.sso_region == before.sso_region
            &&& after.secret_region == before.secret_region
            &&& after.browser_command == before.browser_command
            &&& after.last_pick == before.last_pick
            &&& store.with_environments(index, environments).persist == store.persist
        }),
{
}

/// An edit of the Applications leaves the rest of the Config as it was.
pub proof fn an_edit_of_applications_leaves_the_rest(
    store: StoreView,
    applications: Seq<ApplicationView>,
)
    ensures
        ({
            let before = store.config;
            let after = store.with_applications(applications).config;
            &&& after.applications == applications
            &&& after.sso_start_url == before.sso_start_url
            &&& after.sso_region == before.sso_region
            &&& after.secret_region == before.secret_region
            &&& after.browser_command == before.browser_command
            &&& after.last_pick == before.last_pick
            &&& store.with_applications(applications).persist == store.persist
        }),
{
}

/// A name is taken exactly where some Environment has it, letter for letter.
pub proof fn a_name_is_taken_where_an_environment_has_it(
    environments: Seq<MappingView>,
    name: Seq<char>,
)
    ensures
        forall|i: int|
            0 <= i < environments.len() && (#[trigger] environments[i]).environment == name
                ==> has_name(environments, name),
        (forall|i: int|
            0 <= i < environments.len() ==> (#[trigger] environments[i]).environment != name)
            ==> !has_name(environments, name),
{
}

// ---------------------------------------------------------------------------
// Corrections
// ---------------------------------------------------------------------------

/// The same name, account and secret.
pub open spec fn names_it(e: MappingView, m: MappingView) -> bool {
    &&& e.environment == m.environment
    &&& e.account_id == m.account_id
    &&& e.secret_id == m.secret_id
}

proof fn lemma_first_named(environments: Seq<MappingView>, m: MappingView, i: int)
    requires
        0 <= i < environments.len(),
        names_it(environments[i], m),
        forall|j: int| 0 <= j < i ==> !names_it(#[trigger] environments[j], m),
    ensures
        first_same(environments, m) == Some(i),
    decreases environments.len(),
{
    assert(same_environment(environments[0], m) == names_it(environments[0], m));
    if i > 0 {
        let rest = environments.skip(1);
        assert(rest[i - 1] == environments[i]);
        assert forall|j: int| 0 <= j < i - 1 implies !names_it(#[trigger] rest[j], m) by {
            assert(rest[j] == environments[j + 1]);
        }
        lemma_first_named(rest, m, i - 1);
    }
}

proof fn lemma_none_named(environments: Seq<MappingView>, m: MappingView)
    requires
        forall|j: int| 0 <= j < environments.len() ==> !names_it(#[trigger] environments[j], m),
    ensures
        first_same(environments, m) is None,
    decreases environments.len(),
{
    if environments.len() > 0 {
        assert(!names_it(environments[0], m));
        let rest = environments.skip(1);
        assert forall|j: int| 0 <= j < rest.len() implies !names_it(#[trigger] rest[j], m) by {
            assert(rest[j] == environments[j + 1]);
        }
        lemma_none_named(rest, m);
    }
}

/// A correction gives its role to the first Environment with its name, account and secret,
/// and counts exactly where that had another role. Every other Environment is left, and
/// where none has them nothing is changed or counted.
pub proof fn a_correction_gives_its_role(environments: Seq<MappingView>, m: MappingView, i: int)
    ensures
        0 <= i < environments.len() && names_it(environments[i], m) && (forall|j: int|
            0 <= j < i ==> !names_it(#[trigger] environments[j], m)) ==> {
            &&& corrected(environments, m).len() == environments.len()
            &&& corrected(environments, m)[i].permission_set == m.permission_set
            &&& forall|j: int|
                0 <= j < environments.len() && j != i ==> #[trigger] corrected(environments, m)[j]
                    == environments[j]
            &&& corrects(environments, m) <==> environments[i].permission_set != m.permission_set
        },
        (forall|j: int| 0 <= j < environments.len() ==> !names_it(#[trigger] environments[j], m))
            ==> corrected(environments, m) == environments && !corrects(environments, m),
{
    if 0 <= i < environments.len() && names_it(environments[i], m) && (forall|j: int|
        0 <= j < i ==> !names_it(#[trigger] environments[j], m)) {
        lemma_first_named(environments, m, i);
    }
    if forall|j: int| 0 <= j < environments.len() ==> !names_it(#[trigger] environments[j], m) {
        lemma_none_named(environments, m);
    }
}

/// After a load's corrections an Environment has the role of the last one that names it.
pub proof fn the_last_correction_of_an_environment_stands(
    environments: Seq<MappingView>,
    corrections: Seq<MappingView>,
    n: int,
    i: int,
    last: int,
)
    requires
        distinct_names(environments),
        0 <= n <= corrections.len(),
        0 <= i < environments.len(),
        0 <= last < n,
        names_it(environments[i], corrections[last]),
        forall|k: int| last < k < n ==> !names_it(environments[i], #[trigger] corrections[k]),
    ensures
        all_corrected(environments, corrections, n)[i].permission_set
            == corrections[last].permission_set,
    decreases n,
{
    let before = all_corrected(environments, corrections, n - 1);
    let m = corrections[n - 1];
    corrections_touch_roles_alone(environments, corrections, n - 1);
    corrections_touch_roles_alone(environments, corrections, n);
    assert forall|j: int| 0 <= j < before.len() implies names_it(#[trigger] before[j], m)
        == names_it(environments[j], m) by {
        assert(before[j] == (MappingView {
            permission_set: before[j].permission_set,
            ..environments[j]
        }));
    }
    if last == n - 1 {
        assert(names_it(before[i], m));
        assert forall|j: int| 0 <= j < i implies !names_it(#[trigger] before[j], m) by {
            assert(environments[j].environment != environments[i].environment);
        }
        lemma_first_named(before, m, i);
    } else {
        the_last_correction_of_an_environment_stands(
            environments,
            corrections,
            n - 1,
            i,
            last,
        );
        assert(!names_it(environments[i], corrections[n - 1]));
        assert(!names_it(before[i], m));
        lemma_first_same_is_named(before, m);
        assert(all_corrected(environments, corrections, n)[i] == before[i]);
    }
}

proof fn lemma_first_same_is_named(environments: Seq<MappingView>, m: MappingView)
    ensures
        first_same(environments, m) is Some ==> 0 <= first_same(environments, m)->0
            < environments.len() && names_it(environments[first_same(environments, m)->0], m),
    decreases environments.len(),
{
    if environments.len() > 0 && !same_environment(environments[0], m) {
        lemma_first_same_is_named(environments.skip(1), m);
    }
}

/// A correction is counted exactly where it changed something.
pub proof fn a_correction_counts_where_it_changed_something(
    environments: Seq<MappingView>,
    corrections: Seq<MappingView>,
    n: int,
)
    requires
        0 < n <= corrections.len(),
    ensures
        ({
            let before = all_corrected(environments, corrections, n - 1);
            let after = all_corrected(environments, corrections, n);
            correction_count(environments, corrections, n) == correction_count(
                environments,
                corrections,
                n - 1,
            ) + (if after != before {
                1nat
            } else {
                0
            })
        }),
        correction_count(environments, corrections, 0) == 0,
{
    let before = all_corrected(environments, corrections, n - 1);
    let after = all_corrected(environments, corrections, n);
    let m = corrections[n - 1];
    lemma_first_same_is_named(before, m);
    match first_same(before, m) {
        Some(k) => {
            if corrects(before, m) {
                assert(after[k].permission_set != before[k].permission_set);
            } else {
                assert(after =~= before);
            }
        },
        None => {},
    }
}

// ---------------------------------------------------------------------------
// Regions
// ---------------------------------------------------------------------------

/// The regions on offer begin with the known ones, as they are; each further one is one
/// of the Config's own, is not blank, and is offered once.
pub proof fn regions_are_offered_once(known: Seq<Seq<char>>, texts: Seq<Seq<char>>, n: int)
    requires
        0 <= n <= texts.len(),
    ensures
        ({
            let all = all_offered(known, texts, n);
            &&& all.len() >= known.len()
            &&& all.take(known.len() as int) == known
            &&& forall|i: int|
                known.len() <= i < all.len() ==> (#[trigger] all[i]).len() > 0 && texts.take(
                    n,
                ).contains(all[i])
            &&& forall|i: int, j: int|
                0 <= i < j < all.len() && known.len() <= j ==> #[trigger] all[i]
                    != #[trigger] all[j]
        }),
    decreases n,
{
    let all = all_offered(known, texts, n);
    if n <= 0 {
        assert(known.take(known.len() as int) =~= known);
    } else {
        regions_are_offered_once(known, texts, n - 1);
        let before = all_offered(known, texts, n - 1);
        assert(all.take(known.len() as int) =~= before.take(known.len() as int));
        assert forall|i: int| known.len() <= i < all.len() implies (#[trigger] all[i]).len() > 0
            && texts.take(n).contains(all[i]) by {
            if i < before.len() {
                assert(all[i] == before[i]);
                let less = texts.take(n - 1);
                let k = choose|k: int| 0 <= k < less.len() && less[k] == before[i];
                assert(texts.take(n)[k] == all[i]);
            } else {
                assert(texts.take(n)[n - 1] == all[i]);
            }
        }
        assert forall|i: int, j: int|
            0 <= i < j < all.len() && known.len() <= j implies #[trigger] all[i]
            != #[trigger] all[j] by {
            if j < before.len() {
                assert(all[i] == before[i] && all[j] == before[j]);
            } else {
                assert(all[i] == before[i]);
                assert(before.contains(before[i]));
            }
        }
    }
}

proof fn lemma_environment_regions(apps: Seq<ApplicationView>, n: int, a: int, e: int)
    requires
        0 <= a < n <= apps.len(),
        0 <= e < apps[a].environments.len(),
    ensures
        environment_regions(apps, n).contains(apps[a].environments[e].region),
    decreases n,
{
    let before = environment_regions(apps, n - 1);
    let all = environment_regions(apps, n);
    let region = apps[a].environments[e].region;
    if a == n - 1 {
        assert(all[before.len() + e] == region);
    } else {
        lemma_environment_regions(apps, n - 1, a, e);
        let k = choose|k: int| 0 <= k < before.len() && before[k] == region;
        assert(all[k] == region);
    }
}

/// The regions of a Config are the browse region, the org's, and that of every
/// Environment.
pub proof fn every_region_of_a_config_is_its_own(config: ConfigView, a: int, e: int)
    ensures
        own_regions(config).contains(config.secret_region),
        own_regions(config).contains(config.sso_region),
        0 <= a < config.applications.len() && 0 <= e < config.applications[a].environments.len()
            ==> own_regions(config).contains(config.applications[a].environments[e].region),
{
    let own = own_regions(config);
    assert(own[0] == config.secret_region);
    assert(own[1] == config.sso_region);
    let apps = config.applications;
    if 0 <= a < apps.len() && 0 <= e < apps[a].environments.len() {
        let region = apps[a].environments[e].region;
        let all = environment_regions(apps, apps.len() as int);
        lemma_environment_regions(apps, apps.len() as int, a, e);
        let k = choose|k: int| 0 <= k < all.len() && all[k] == region;
        assert(own[k + 2] == region);
    }
}

/// A walk browses the region that was set for it, and the org's where none was.
pub proof fn a_walk_browses_the_region_set_for_it(config: ConfigView)
    ensures
        config.secret_region.len() > 0 ==> config.browse_region() == config.secret_region,
        config.secret_region.len() == 0 ==> config.browse_region() == config.sso_region,
{
}

/// Each state of a load has its own pane. The matrix is shown exactly where a load
/// succeeded and there are Applications.
pub proof fn each_state_has_its_pane(status: LoadStatus, has_applications: bool)
    ensures
        pane_for(status, has_applications) == MainPane::Matrix <==> status == LoadStatus::Loaded
            && has_applications,
        pane_for(status, has_applications) == MainPane::EmptyApps <==> status
            == LoadStatus::Loaded && !has_applications,
        pane_for(status, has_applications) == MainPane::SignIn <==> status == LoadStatus::Idle,
        pane_for(status, has_applications) == MainPane::Signing <==> status
            == LoadStatus::SigningIn,
        pane_for(status, has_applications) == MainPane::Loading <==> status
            == LoadStatus::Loading,
        pane_for(status, has_applications) == MainPane::Error <==> status == LoadStatus::Failed,
{
}

proof fn lemma_region_of_some(apps: Seq<ApplicationView>, n: int, k: int)
    requires
        0 <= n <= apps.len(),
        0 <= k < environment_regions(apps, n).len(),
    ensures
        exists|a: int, e: int|
            0 <= a < n && 0 <= e < apps[a].environments.len() && (
            #[trigger] apps[a].environments[e]).region == environment_regions(apps, n)[k],
    decreases n,
{
    if n > 0 {
        let before = environment_regions(apps, n - 1);
        if k < before.len() {
            lemma_region_of_some(apps, n - 1, k);
            let (a, e) = choose|a: int, e: int|
                0 <= a < n - 1 && 0 <= e < apps[a].environments.len() && (
                #[trigger] apps[a].environments[e]).region == before[k];
            assert(apps[a].environments[e].region == environment_regions(apps, n)[k]);
        } else {
            let e = k - before.len();
            assert(apps[n - 1].environments[e].region == environment_regions(apps, n)[k]);
        }
    }
}

/// A Config has no region but the browse region, the org's, and those of its Environments.
pub proof fn no_other_region_is_offered(config: ConfigView, k: int)
    requires
        0 <= k < own_regions(config).len(),
    ensures
        ({
            let region = own_regions(config)[k];
            ||| region == config.secret_region
            ||| region == config.sso_region
            ||| exists|a: int, e: int|
                0 <= a < config.applications.len() && 0 <= e
                    < config.applications[a].environments.len() && (
                #[trigger] config.applications[a].environments[e]).region == region
        }),
{
    if k >= 2 {
        lemma_region_of_some(config.applications, config.applications.len() as int, k - 2);
        assert(own_regions(config)[k] == environment_regions(
            config.applications,
            config.applications.len() as int,
        )[k - 2]);
    }
}

// ---------------------------------------------------------------------------
// Applications and Environments
// ---------------------------------------------------------------------------

/// A new Application comes last, under its name without the white space around it, and
/// without Environments; those before it stay as they are. Removing it again gives the
/// store back.
pub proof fn a_new_application_comes_last(store: StoreView, name: Seq<char>)
    requires
        trimmed(name).len() > 0,
    ensures
        ({
            let n = store.config.applications.len() as int;
            let after = store.application_added(name);
            &&& after.config.applications.len() == n + 1
            &&& after.config.applications[n].name == trimmed(name)
            &&& after.config.applications[n].environments.len() == 0
            &&& forall|i: int|
                0 <= i < n ==> #[trigger] after.config.applications[i]
                    == store.config.applications[i]
            &&& after.application_removed(n) == store
        }),
{
    let n = store.config.applications.len() as int;
    let after = store.application_added(name);
    assert(after.config.applications.remove(n) =~= store.config.applications);
    assert(after.application_removed(n) =~= store);
}

/// Removing an Application removes that one: those before it keep their places, and those
/// behind it move up by one. Where there is none nothing changes.
pub proof fn removing_an_application_removes_that_one(store: StoreView, index: int)
    ensures
        ({
            let apps = store.config.applications;
            let after = store.application_removed(index).config.applications;
            &&& 0 <= index < apps.len() ==> {
                &&& after.len() == apps.len() - 1
                &&& forall|i: int| 0 <= i < index ==> #[trigger] after[i] == apps[i]
                &&& forall|i: int| index <= i < after.len() ==> #[trigger] after[i] == apps[i + 1]
            }
            &&& !(0 <= index < apps.len()) ==> store.application_removed(index) == store
        }),
{
}

/// Renaming changes the name of one Application and nothing else; a blank name is refused,
/// and of two renamings the second stands.
pub proof fn renaming_changes_one_name(
    store: StoreView,
    index: int,
    first: Seq<char>,
    second: Seq<char>,
)
    ensures
        ({
            let apps = store.config.applications;
            let after = store.application_renamed(index, first).config.applications;
            &&& after.len() == apps.len()
            &&& forall|i: int|
                0 <= i < apps.len() && i != index ==> #[trigger] after[i] == apps[i]
            &&& 0 <= index < apps.len() ==> after[index].environments == apps[index].environments
            &&& 0 <= index < apps.len() && trimmed(first).len() > 0 ==> after[index].name
                == trimmed(first)
            &&& trimmed(first).len() == 0 ==> store.application_renamed(index, first) == store
            &&& trimmed(second).len() > 0 ==> store.application_renamed(
                index,
                first,
            ).application_renamed(index, second) == store.application_renamed(index, second)
        }),
{
    let once = store.application_renamed(index, first).application_renamed(index, second);
    let direct = store.application_renamed(index, second);
    if trimmed(second).len() > 0 {
        assert(once.config.applications =~= direct.config.applications);
        assert(once =~= direct);
    }
}

/// A new Environment comes last in its Application, as it is, unless its name is taken
/// there: then nothing is overwritten. Removing it again gives the store back.
pub proof fn a_new_environment_comes_last(store: StoreView, application: int, m: MappingView)
    requires
        0 <= application < store.config.applications.len(),
    ensures
        ({
            let envs = store.config.applications[application].environments;
            let n = envs.len() as int;
            let added = store.environment_added(application, m);
            let after = added.config.applications[application].environments;
            let taken = exists|i: int| 0 <= i < n && (#[trigger] envs[i]).environment
                == m.environment;
            &&& taken ==> added == store
            &&& !taken ==> {
                &&& after.len() == n + 1
                &&& after[n] == m
                &&& forall|i: int| 0 <= i < n ==> #[trigger] after[i] == envs[i]
                &&& added.environment_removed(application, n) == store
            }
        }),
{
    let apps = store.config.applications;
    let envs = apps[application].environments;
    let n = envs.len() as int;
    let added = store.environment_added(application, m);
    if !(exists|i: int| 0 <= i < n && (#[trigger] envs[i]).environment == m.environment) {
        assert(!has_name(envs, m.environment));
        let back = added.environment_removed(application, n);
        let now = added.config.applications[application].environments;
        assert(now.remove(n) =~= envs);
        assert(back.config.applications[application] =~= apps[application]);
        assert(back.config.applications =~= apps);
        assert(back =~= store);
    }
}

/// Removing an Environment removes that one of that Application.
pub proof fn removing_an_environment_removes_that_one(
    store: StoreView,
    application: int,
    index: int,
)
    requires
        0 <= application < store.config.applications.len(),
    ensures
        ({
            let envs = store.config.applications[application].environments;
            let removed = store.environment_removed(application, index);
            let after = removed.config.applications[application].environments;
            &&& 0 <= index < envs.len() ==> {
                &&& after.len() == envs.len() - 1
                &&& forall|i: int| 0 <= i < index ==> #[trigger] after[i] == envs[i]
                &&& forall|i: int| index <= i < after.len() ==> #[trigger] after[i] == envs[i + 1]
            }
            &&& !(0 <= index < envs.len()) ==> removed == store
            &&& forall|a: int|
                0 <= a < store.config.applications.len() && a != application
                    ==> #[trigger] removed.config.applications[a] == store.config.applications[a]
        }),
{
}

/// An edit that names no Application changes nothing.
pub proof fn an_edit_out_of_range_changes_nothing(
    store: StoreView,
    application: int,
    index: int,
    m: MappingView,
    name: Seq<char>,
)
    requires
        !(0 <= application < store.config.applications.len()),
    ensures
        store.application_renamed(application, name) == store,
        store.environment_added(application, m) == store,
        store.environment_removed(application, index) == store,
{
}

/// A store in memory is never saved, and one that is written is saved wherever an edit
/// changed it. An edit never turns the one into the other.
pub proof fn what_changed_is_saved(before: StoreView, after: StoreView, save: bool)
    requires
        saved_or_same(before, after, save),
    ensures
        !before.persist ==> !save,
        before.persist && after != before ==> save,
        after.persist == before.persist,
{
}

/// Regions are offered in order: each is looked at once, and goes to the end of the list
/// unless it is blank or there already.
pub proof fn regions_are_offered_in_order(known: Seq<Seq<char>>, texts: Seq<Seq<char>>, n: int)
    requires
        0 <= n < texts.len(),
    ensures
        ({
            let before = all_offered(known, texts, n);
            let after = all_offered(known, texts, n + 1);
            let skipped = texts[n].len() == 0 || before.contains(texts[n]);
            &&& all_offered(known, texts, 0) == known
            &&& skipped ==> after == before
            &&& !skipped ==> after == before.push(texts[n])
        }),
{
}

/// The regions of a Config come in order: the browse region, the org's, and then those of
/// the Environments, Application by Application.
pub proof fn regions_come_in_order(config: ConfigView, n: int)
    requires
        0 <= n < config.applications.len(),
    ensures
        ({
            let apps = config.applications;
            let own = own_regions(config);
            let here = environment_regions(apps, n);
            let next = environment_regions(apps, n + 1);
            &&& own.len() >= 2
            &&& own[0] == config.secret_region
            &&& own[1] == config.sso_region
            &&& own.skip(2) == environment_regions(apps, apps.len() as int)
            &&& environment_regions(apps, 0).len() == 0
            &&& next.len() == here.len() + apps[n].environments.len()
            &&& next.take(here.len() as int) == here
            &&& forall|e: int|
                0 <= e < apps[n].environments.len() ==> #[trigger] next[here.len() + e]
                    == apps[n].environments[e].region
        }),
{
    let apps = config.applications;
    let own = own_regions(config);
    assert(own.skip(2) =~= environment_regions(apps, apps.len() as int));
    let here = environment_regions(apps, n);
    let next = environment_regions(apps, n + 1);
    assert(next.take(here.len() as int) =~= here);
}

} // verus!
