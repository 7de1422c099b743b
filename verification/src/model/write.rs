//! Edits to a Secret Set, and what became of them.

use vstd::prelude::*;
use vstd::string::*;

use crate::outside::secret::Plaintext;

verus! {

/// One edit of one top-level key.
#[derive(Debug)]
pub enum EnvEdit {
    Put { key: String, value: Plaintext },
    Remove { key: String },
}

/// An [`EnvEdit`] as a mathematical value.
#[verifier::ext_equal]
pub enum EnvEditView {
    Put { key: Seq<char>, value: Seq<char> },
    Remove { key: Seq<char> },
}

impl EnvEditView {
    /// The key this edit touches.
    pub open spec fn key(self) -> Seq<char> {
        match self {
            EnvEditView::Put { key, value } => key,
            EnvEditView::Remove { key } => key,
        }
    }
}

impl View for EnvEdit {
    type V = EnvEditView;

    open spec fn view(&self) -> EnvEditView {
        match self {
            EnvEdit::Put { key, value } => EnvEditView::Put { key: key@, value: value@ },
            EnvEdit::Remove { key } => EnvEditView::Remove { key: key@ },
        }
    }
}

/// The views of a list of edits.
pub open spec fn edit_views(v: Seq<EnvEdit>) -> Seq<EnvEditView> {
    v.map_values(|e: EnvEdit| e@)
}

impl EnvEdit {
    /// The edit that puts `value` under `key`.
    pub fn put(key: String, value: String) -> (result: EnvEdit)
        ensures
            result@ == (EnvEditView::Put { key: key@, value: value@ }),
    {
        EnvEdit::Put { key, value: Plaintext::new(value) }
    }

    /// The edit that takes `key` out.
    pub fn remove(key: String) -> (result: EnvEdit)
        ensures
            result@ == (EnvEditView::Remove { key: key@ }),
    {
        EnvEdit::Remove { key }
    }

    /// The key this edit touches.
    pub fn key(&self) -> (result: &str)
        ensures
            result@ == self@.key(),
    {
        match self {
            EnvEdit::Put { key, value: _ } => key.as_str(),
            EnvEdit::Remove { key } => key.as_str(),
        }
    }
}

/// The same edits once more, each Value in a wiped buffer of its own. A write that is
/// made again takes its own.
pub fn duplicate_edits(edits: &Vec<EnvEdit>) -> (result: Vec<EnvEdit>)
    ensures
        edit_views(result@) == edit_views(edits@),
{
    let mut out: Vec<EnvEdit> = Vec::new();
    let mut i: usize = 0;
    while i < edits.len()
        invariant
            i <= edits@.len(),
            out@.len() == i,
            forall|j: int| 0 <= j < i ==> (#[trigger] out@[j])@ == edits@[j]@,
        decreases edits@.len() - i,
    {
        let copy = match &edits[i] {
            EnvEdit::Put { key, value } => EnvEdit::Put {
                key: key.clone(),
                value: value.duplicate(),
            },
            EnvEdit::Remove { key } => EnvEdit::Remove { key: key.clone() },
        };
        out.push(copy);
        i = i + 1;
    }
    assert(edit_views(out@) =~= edit_views(edits@));
    out
}

/// How a write ended.
#[derive(Debug, Clone, Copy, PartialEq, Eq, Structural)]
pub enum WriteOutcome {
    /// Every edit is in the Set.
    Applied,
    /// The Set changed under the write; nothing was overwritten.
    Conflict,
}

/// An edit that cannot be applied.
#[derive(Debug, Clone, Copy, PartialEq, Eq, Structural)]
pub enum EnvWriteError {
    /// The key cannot be written.
    InvalidKey,
}

/// What an edit does, for display.
#[derive(Debug, Clone, Copy, PartialEq, Eq, Structural)]
pub enum EditAction {
    Put,
    Remove,
}

/// One edit masked for display: its key, its action, and its Value's length.
#[derive(Debug, PartialEq, Eq)]
pub struct EditSummary {
    pub key: String,
    pub action: EditAction,
    pub value_len: Option<usize>,
}

/// An [`EditSummary`] as a mathematical value.
#[verifier::ext_equal]
pub struct EditSummaryView {
    pub key: Seq<char>,
    pub action: EditAction,
    pub value_len: Option<usize>,
}

impl View for EditSummary {
    type V = EditSummaryView;

    open spec fn view(&self) -> EditSummaryView {
        EditSummaryView { key: self.key@, action: self.action, value_len: self.value_len }
    }
}

/// The masked form of one edit. A Value counts by its length in UTF-8.
pub open spec fn masked(e: EnvEditView) -> EditSummaryView {
    match e {
        EnvEditView::Put { key, value } => EditSummaryView {
            key,
            action: EditAction::Put,
            value_len: Some(vstd::utf8::encode_utf8(value).len() as usize),
        },
        EnvEditView::Remove { key } => EditSummaryView {
            key,
            action: EditAction::Remove,
            value_len: None,
        },
    }
}

/// The edits for a confirmation dialog, in order. No Value is in them.
pub fn summarize_edits(edits: &Vec<EnvEdit>) -> (result: Vec<EditSummary>)
    ensures
        result@.map_values(|s: EditSummary| s@) == edit_views(edits@).map_values(
            |e: EnvEditView| masked(e),
        ),
{
    let mut out: Vec<EditSummary> = Vec::new();
    let mut i: usize = 0;
    while i < edits.len()
        invariant
            i <= edits@.len(),
            out@.len() == i,
            forall|j: int| 0 <= j < i ==> (#[trigger] out@[j])@ == masked(edits@[j]@),
        decreases edits@.len() - i,
    {
        let summary = match &edits[i] {
            EnvEdit::Put { key, value } => EditSummary {
                key: key.clone(),
                action: EditAction::Put,
                value_len: Some(value.expose().len()),
            },
            EnvEdit::Remove { key } => EditSummary {
                key: key.clone(),
                action: EditAction::Remove,
                value_len: None,
            },
        };
        out.push(summary);
        i = i + 1;
    }
    assert(out@.map_values(|s: EditSummary| s@) =~= edit_views(edits@).map_values(
        |e: EnvEditView| masked(e),
    ));
    out
}

} // verus!
