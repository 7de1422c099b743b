//! How a list is picked from: nothing to pick, a singleton picked by itself, or a
//! question with a default.

use vstd::prelude::*;
use vstd::string::*;

use crate::text::{same, views};

verus! {

/// One entry of a list to pick from: the stable key, and the label shown for it.
#[derive(Debug, PartialEq, Eq)]
pub struct Choice {
    pub key: String,
    pub label: String,
}

/// A [`Choice`] as a mathematical value.
#[verifier::ext_equal]
pub struct ChoiceView {
    pub key: Seq<char>,
    pub label: Seq<char>,
}

impl View for Choice {
    type V = ChoiceView;

    open spec fn view(&self) -> ChoiceView {
        ChoiceView { key: self.key@, label: self.label@ }
    }
}

/// The views of a list of choices.
pub open spec fn choice_views(v: Seq<Choice>) -> Seq<ChoiceView> {
    v.map_values(|c: Choice| c@)
}

/// The labels of a list of choices.
pub open spec fn labels(v: Seq<ChoiceView>) -> Seq<Seq<char>> {
    v.map_values(|c: ChoiceView| c.label)
}

/// How a list is to be picked from.
#[derive(Debug, Clone, Copy, PartialEq, Eq, Structural)]
pub enum SelectionPlan {
    /// There is nothing to pick.
    Empty,
    /// There is one entry, picked without asking.
    Auto(usize),
    /// There are several: ask, and offer `default`.
    Ask { default: Option<usize> },
}

/// The index of the first choice with this key.
pub open spec fn position(choices: Seq<ChoiceView>, key: Seq<char>) -> Option<int>
    decreases choices.len(),
{
    if choices.len() == 0 {
        None
    } else if choices[0].key == key {
        Some(0)
    } else {
        match position(choices.skip(1), key) {
            Some(i) => Some(i + 1),
            None => None,
        }
    }
}

/// How a list is to be picked from: the only entry is picked, and among several the
/// remembered one is the default.
pub open spec fn plan_of(choices: Seq<ChoiceView>, remembered: Option<Seq<char>>) -> SelectionPlan {
    if choices.len() == 0 {
        SelectionPlan::Empty
    } else if choices.len() == 1 {
        SelectionPlan::Auto(0)
    } else {
        SelectionPlan::Ask {
            default: match remembered {
                Some(key) => match position(choices, key) {
                    Some(i) => Some(i as usize),
                    None => None,
                },
                None => None,
            },
        }
    }
}

pub proof fn lemma_position(choices: Seq<ChoiceView>, key: Seq<char>)
    ensures
        match position(choices, key) {
            Some(i) => 0 <= i < choices.len() && choices[i].key == key && forall|j: int|
                0 <= j < i ==> (#[trigger] choices[j]).key != key,
            None => forall|j: int| 0 <= j < choices.len() ==> (#[trigger] choices[j]).key != key,
        },
    decreases choices.len(),
{
    if choices.len() > 0 && choices[0].key != key {
        lemma_position(choices.skip(1), key);
        assert forall|j: int| 1 <= j < choices.len() implies #[trigger] choices[j]
            == choices.skip(1)[j - 1] by {}
    }
}

/// Decide how to pick from `choices`, with `remembered` as the key picked last.
pub fn plan_selection(choices: &Vec<Choice>, remembered: Option<&str>) -> (result: SelectionPlan)
    ensures
        result == plan_of(
            choice_views(choices@),
            match remembered {
                Some(r) => Some(r@),
                None => None,
            },
        ),
{
    if choices.len() == 0 {
        return SelectionPlan::Empty;
    }
    if choices.len() == 1 {
        return SelectionPlan::Auto(0);
    }
    match remembered {
        None => SelectionPlan::Ask { default: None },
        Some(key) => {
            let ghost all = choice_views(choices@);
            let mut i: usize = 0;
            proof {
                lemma_position(all, key@);
            }
            while i < choices.len()
                invariant
                    i <= choices@.len(),
                    choices@.len() > 1,
                    remembered == Some(key),
                    all == choice_views(choices@),
                    forall|j: int| 0 <= j < i ==> (#[trigger] all[j]).key != key@,
                    match position(all, key@) {
                        Some(i) => 0 <= i < all.len() && all[i].key == key@ && forall|j: int|
                            0 <= j < i ==> (#[trigger] all[j]).key != key@,
                        None => forall|j: int|
                            0 <= j < all.len() ==> (#[trigger] all[j]).key != key@,
                    },
                decreases choices@.len() - i,
            {
                if same(choices[i].key.as_str(), key) {
                    assert(all[i as int].key == key@);
                    return SelectionPlan::Ask { default: Some(i) };
                }
                assert(all[i as int].key != key@);
                i = i + 1;
            }
            SelectionPlan::Ask { default: None }
        },
    }
}

/// The labels to show for `choices`.
pub fn choice_labels(choices: &Vec<Choice>) -> (result: Vec<String>)
    ensures
        views(result@) == labels(choice_views(choices@)),
{
    let mut out: Vec<String> = Vec::new();
    let mut i: usize = 0;
    while i < choices.len()
        invariant
            i <= choices@.len(),
            out@.len() == i,
            forall|j: int| 0 <= j < i ==> (#[trigger] out@[j])@ == choices@[j].label@,
        decreases choices@.len() - i,
    {
        out.push(choices[i].label.clone());
        i = i + 1;
    }
    assert(views(out@) =~= labels(choice_views(choices@)));
    out
}

} // verus!
