//! What the human-gated harness makes of the lines an operator types.

use vstd::prelude::*;
use vstd::string::*;

use crate::model::provider::What;
use crate::model::write::{EnvEdit, EnvEditView};
use crate::text::{chars_of, same, text_between};

verus! {

/// What a walk found none of.
pub fn what_word(what: What) -> (result: &'static str)
    ensures
        result@ == match what {
            What::Accounts => "accounts"@,
            What::Roles => "roles"@,
            What::Secrets => "secrets"@,
            What::Instances => "instances"@,
            What::FilePath => "paths"@,
        },
{
    match what {
        What::Accounts => "accounts",
        What::Roles => "roles",
        What::Secrets => "secrets",
        What::Instances => "instances",
        What::FilePath => "paths",
    }
}

/// A character that ends a line.
pub open spec fn is_line_end(c: char) -> bool {
    c == '\n' || c == '\r'
}

/// A line without the characters that end it. White space is kept: a Value may begin
/// or end with it.
pub open spec fn line_text(s: Seq<char>) -> Seq<char>
    decreases s.len(),
{
    if s.len() > 0 && is_line_end(s.last()) {
        line_text(s.drop_last())
    } else {
        s
    }
}

/// A line without the characters that end it.
pub fn raw_line(line: &str) -> (result: String)
    ensures
        result@ == line_text(line@),
{
    let chars = chars_of(line);
    let mut end: usize = chars.len();
    assert(line@.take(end as int) =~= line@);
    while end > 0 && (chars[end - 1] == '\n' || chars[end - 1] == '\r')
        invariant
            chars@ == line@,
            end <= chars@.len(),
            line_text(line@) == line_text(line@.take(end as int)),
        decreases end,
    {
        assert(line@.take(end as int).drop_last() =~= line@.take(end - 1));
        assert(line@.take(end as int).last() == line@[end - 1]);
        end = end - 1;
    }
    assert(end > 0 ==> line@.take(end as int).last() == line@[end - 1]);
    let result = text_between(&chars, 0, end);
    assert(result@ =~= line@.take(end as int));
    result
}

/// What a line asks for.
#[derive(Debug)]
pub enum EditLine {
    /// There are no more edits.
    Finish,
    /// This edit.
    Edit(EnvEdit),
    /// A Value for this key, which the next line holds.
    NeedsValue { key: String },
}

/// What a line asks for, as a mathematical value.
pub enum EditLineView {
    Finish,
    Edit(EnvEditView),
    NeedsValue { key: Seq<char> },
}

impl View for EditLine {
    type V = EditLineView;

    open spec fn view(&self) -> EditLineView {
        match self {
            EditLine::Finish => EditLineView::Finish,
            EditLine::Edit(e) => EditLineView::Edit(e@),
            EditLine::NeedsValue { key } => EditLineView::NeedsValue { key: key@ },
        }
    }
}

/// What a line asks for: nothing more where it is blank, to remove the key behind a
/// dash, or to put a Value under the key it is.
pub open spec fn edit_line(line: Seq<char>) -> EditLineView {
    let text = line_text(line);
    if text.len() == 0 {
        EditLineView::Finish
    } else if text[0] == '-' {
        EditLineView::Edit(EnvEditView::Remove { key: text.skip(1) })
    } else {
        EditLineView::NeedsValue { key: text }
    }
}

/// Read one line of a list of edits.
pub fn parse_edit_line(line: &str) -> (result: EditLine)
    ensures
        result@ == edit_line(line@),
{
    let text = raw_line(line);
    let chars = chars_of(text.as_str());
    if chars.len() == 0 {
        EditLine::Finish
    } else if chars[0] == '-' {
        let key = text_between(&chars, 1, chars.len());
        assert(key@ =~= text@.skip(1));
        EditLine::Edit(EnvEdit::remove(key))
    } else {
        EditLine::NeedsValue { key: text }
    }
}

/// The edit that puts the Value of the next line under `key`. The Value may be empty.
pub fn value_line(key: String, line: &str) -> (result: EnvEdit)
    ensures
        result@ == (EnvEditView::Put { key: key@, value: line_text(line@) }),
{
    EnvEdit::put(key, raw_line(line))
}

/// The entry at `i` is the first that has this name.
pub open spec fn is_first_entry(entries: Seq<(String, usize)>, name: Seq<char>, i: int) -> bool {
    &&& 0 <= i < entries.len()
    &&& entries[i].0@ == name
    &&& forall|j: int| 0 <= j < i ==> (#[trigger] entries[j]).0@ != name
}

/// What a masked report says of a key: how long its Value is, or nothing where the Set
/// has no such entry.
pub fn masked_length(entries: &Vec<(String, usize)>, key: &str) -> (result: Option<usize>)
    ensures
        match result {
            Some(len) => exists|i: int| #[trigger]
                is_first_entry(entries@, key@, i) && entries@[i].1 == len,
            None => forall|j: int| 0 <= j < entries@.len() ==> (#[trigger] entries@[j]).0@ != key@,
        },
{
    let mut i: usize = 0;
    while i < entries.len()
        invariant
            i <= entries@.len(),
            forall|j: int| 0 <= j < i ==> (#[trigger] entries@[j]).0@ != key@,
        decreases entries@.len() - i,
    {
        if same(entries[i].0.as_str(), key) {
            assert(is_first_entry(entries@, key@, i as int));
            return Some(entries[i].1);
        }
        i = i + 1;
    }
    None
}

} // verus!
