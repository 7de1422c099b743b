//! What a terminal shows of a walk and of an edit, and what a typed line means.

use vstd::prelude::*;

use crate::aws::harness::{edit_line, line_text, EditLineView};
use crate::aws::loopback::{port_uri, LOOPBACK_PORTS};
use crate::aws::presenter::{
    choice_of, input_of, input_text, menu_line, menu_lines, menu_text, title,
};
use crate::model::provider::{FetchFailReason, What};
use crate::model::select::{lemma_position, plan_of, ChoiceView, SelectionPlan};
use crate::model::write::{masked, EditAction, EnvEditView};
use crate::text::{decimal, digits_value, is_space};
use crate::text_laws::{
    a_number_is_read_from_digits_alone, is_blank, trimming_leaves_the_text_between,
};

verus! {

// ---------------------------------------------------------------------------
// Answers
// ---------------------------------------------------------------------------

/// A blank line takes the default, and picks nothing where there is none.
pub proof fn a_blank_line_takes_the_default(line: Seq<char>, n: nat, default: Option<usize>)
    requires
        is_blank(line),
    ensures
        choice_of(line, n, default) == default,
{
    let none = Seq::<char>::empty();
    assert(line + none + none =~= line);
    trimming_leaves_the_text_between(line, none, none);
}

/// A typed number picks the entry it counts to, from one, whatever white space is around
/// it and whatever the default is; a number that counts to no entry picks none.
pub proof fn a_number_picks_the_entry_it_counts_to(
    left: Seq<char>,
    digits: Seq<char>,
    right: Seq<char>,
    n: usize,
    default: Option<usize>,
)
    requires
        is_blank(left),
        is_blank(right),
        digits.len() > 0,
        forall|i: int| 0 <= i < digits.len() ==> '0' <= #[trigger] digits[i] <= '9',
    ensures
        ({
            let picked = choice_of(left + digits + right, n as nat, default);
            &&& 1 <= digits_value(digits) <= n ==> picked is Some && picked->0 + 1
                == digits_value(digits)
            &&& !(1 <= digits_value(digits) <= n) ==> picked is None
            &&& choice_of(left + (seq!['+'] + digits) + right, n as nat, default) == picked
        }),
{
    assert('0' <= digits[0] <= '9');
    assert('0' <= digits[digits.len() - 1] <= '9');
    trimming_leaves_the_text_between(left, digits, right);
    let signed = seq!['+'] + digits;
    assert(signed.last() == digits[digits.len() - 1]);
    assert(!is_space('+'));
    trimming_leaves_the_text_between(left, signed, right);
    a_number_is_read_from_digits_alone(digits, usize::MAX as nat);
}

/// A line that holds anything but a number picks nothing.
pub proof fn any_other_line_picks_nothing(
    left: Seq<char>,
    typed: Seq<char>,
    right: Seq<char>,
    n: nat,
    default: Option<usize>,
    i: int,
)
    requires
        is_blank(left),
        is_blank(right),
        typed.len() > 0,
        !is_space(typed[0]),
        !is_space(typed.last()),
        0 <= i < typed.len(),
        !('0' <= typed[i] <= '9'),
        !(i == 0 && typed[i] == '+'),
    ensures
        choice_of(left + typed + right, n, default) is None,
{
    trimming_leaves_the_text_between(left, typed, right);
    a_number_is_read_from_digits_alone(typed, usize::MAX as nat);
}

/// Where a text is asked for, a typed one is taken without the white space around it, and
/// a blank line or none takes the default.
pub proof fn a_typed_text_is_taken(
    left: Seq<char>,
    typed: Seq<char>,
    right: Seq<char>,
    default: Option<Seq<char>>,
)
    requires
        is_blank(left),
        is_blank(right),
        typed.len() > 0 ==> !is_space(typed[0]) && !is_space(typed.last()),
    ensures
        typed.len() > 0 ==> input_of(Some(left + typed + right), default) == typed,
        typed.len() == 0 && default is Some ==> input_of(Some(left + typed + right), default)
            == default->0,
        typed.len() == 0 && default is None ==> input_of(Some(left + typed + right), default).len()
            == 0,
        default is Some ==> input_of(None, default) == default->0,
        default is None ==> input_of(None, default).len() == 0,
{
    trimming_leaves_the_text_between(left, typed, right);
}

// ---------------------------------------------------------------------------
// Menus
// ---------------------------------------------------------------------------

/// A menu has a line for each entry, in order: its number from one, its label, and a mark
/// on the default alone.
pub proof fn a_menu_has_a_line_for_each_entry(
    choices: Seq<Seq<char>>,
    default: Option<usize>,
    n: int,
)
    requires
        0 <= n < choices.len(),
    ensures
        menu_lines(choices, default, 0) == Seq::<char>::empty(),
        menu_lines(choices, default, n + 1) == menu_lines(choices, default, n) + (if default
            is Some && default->0 == n {
            "  ["@ + decimal((n + 1) as nat) + "] "@ + choices[n] + " (default)"@ + "\n"@
        } else {
            "  ["@ + decimal((n + 1) as nat) + "] "@ + choices[n] + "\n"@
        }),
{
    let label = choices[n];
    if !(default is Some && default->0 == n) {
        reveal_strlit("");
        assert("  ["@ + decimal((n + 1) as nat) + "] "@ + label + ""@ =~= "  ["@ + decimal(
            (n + 1) as nat,
        ) + "] "@ + label);
    }
    assert(menu_lines(choices, default, n + 1) == menu_lines(choices, default, n) + menu_line(
        n,
        label,
        default,
    ));
}

/// A question shows its title, all its entries, how far they count, and the number of the
/// default, where there is one.
pub proof fn a_question_shows_all_its_entries(
    what: What,
    choices: Seq<Seq<char>>,
    default: Option<usize>,
)
    ensures
        ({
            let shown = "\n"@ + title(what) + "\n"@ + menu_lines(
                choices,
                default,
                choices.len() as int,
            ) + "choose 1-"@ + decimal(choices.len());
            &&& default is None ==> menu_text(what, choices, default) == shown + ": "@
            &&& default is Some ==> menu_text(what, choices, default) == shown + (" [default "@
                + decimal((default->0 + 1) as nat) + "]: "@)
        }),
{
}

/// A request for a text shows its prompt, and the default where there is one.
pub proof fn a_request_shows_its_default(prompt: Seq<char>, default: Option<Seq<char>>)
    ensures
        default is None ==> input_text(prompt, default) == "\n"@ + prompt + ": "@,
        default is Some ==> input_text(prompt, default) == "\n"@ + prompt + (" [default "@
            + default->0 + "]: "@),
{
}

/// The title of a question tells what is asked for.
pub proof fn a_title_tells_what_is_asked_for(a: What, b: What)
    ensures
        title(a) == title(b) ==> a == b,
{
    reveal_strlit("Choose an account:");
    reveal_strlit("Choose a role:");
    reveal_strlit("Choose a secret:");
    reveal_strlit("Choose an instance:");
    reveal_strlit("Enter a path:");
    assert(title(What::Accounts).len() == 18 && title(What::Roles).len() == 14 && title(
        What::Secrets,
    ).len() == 16 && title(What::Instances).len() == 19 && title(What::FilePath).len() == 13);
}

/// The phrase shown for a reason tells the reason.
pub proof fn a_phrase_tells_its_reason(a: FetchFailReason, b: FetchFailReason)
    ensures
        a.phrase() == b.phrase() ==> a == b,
{
    reveal_strlit("session expired — sign in again");
    reveal_strlit("access denied");
    reveal_strlit("secret not found");
    reveal_strlit("throttled, try again");
    reveal_strlit("unsupported secret content");
    reveal_strlit("AWS error");
    assert(FetchFailReason::NeedsSignIn.phrase().len() == 31);
    assert(FetchFailReason::AccessDenied.phrase().len() == 13);
    assert(FetchFailReason::NotFound.phrase().len() == 16);
    assert(FetchFailReason::Throttled.phrase().len() == 20);
    assert(FetchFailReason::Unsupported.phrase().len() == 26);
    assert(FetchFailReason::Other.phrase().len() == 9);
}

// ---------------------------------------------------------------------------
// Selection
// ---------------------------------------------------------------------------

/// Nothing is picked from an empty list, the only entry is picked unasked, and several are
/// asked about: the default is the first entry that was picked last time, and there is
/// none where that is gone or nothing was.
pub proof fn a_list_is_asked_about_where_it_has_several(
    choices: Seq<ChoiceView>,
    remembered: Option<Seq<char>>,
)
    requires
        choices.len() <= usize::MAX,
    ensures
        ({
            let plan = plan_of(choices, remembered);
            &&& choices.len() == 0 <==> plan == SelectionPlan::Empty
            &&& choices.len() == 1 <==> plan == SelectionPlan::Auto(0)
            &&& choices.len() > 1 <==> plan is Ask
            &&& plan is Ask ==> match plan->default {
                Some(d) => {
                    &&& d < choices.len()
                    &&& remembered == Some(choices[d as int].key)
                    &&& forall|j: int|
                        0 <= j < d ==> Some((#[trigger] choices[j]).key) != remembered
                },
                None => forall|j: int|
                    0 <= j < choices.len() ==> Some((#[trigger] choices[j]).key) != remembered,
            }
        }),
{
    match remembered {
        Some(key) => {
            lemma_position(choices, key);
        },
        None => {},
    }
}

// ---------------------------------------------------------------------------
// Edits
// ---------------------------------------------------------------------------

/// A line loses the characters that end it and nothing else: a Value may begin and end
/// with any other white space.
pub proof fn a_line_loses_its_end_alone(text: Seq<char>, end: Seq<char>)
    requires
        forall|i: int| 0 <= i < end.len() ==> (#[trigger] end[i] == '\n' || end[i] == '\r'),
        text.len() > 0 ==> text.last() != '\n' && text.last() != '\r',
    ensures
        line_text(text + end) == text,
    decreases end.len(),
{
    let line = text + end;
    if end.len() > 0 {
        assert(line.last() == end[end.len() - 1]);
        assert(line.drop_last() =~= text + end.drop_last());
        a_line_loses_its_end_alone(text, end.drop_last());
    } else {
        assert(line =~= text);
    }
}

/// A line asks for nothing more where it is empty, to remove the key behind a dash, and
/// else to put a Value under the key it is.
pub proof fn a_line_asks_for_one_edit(text: Seq<char>, end: Seq<char>)
    requires
        forall|i: int| 0 <= i < end.len() ==> (#[trigger] end[i] == '\n' || end[i] == '\r'),
        text.len() > 0 ==> text.last() != '\n' && text.last() != '\r',
    ensures
        text.len() == 0 ==> edit_line(text + end) == EditLineView::Finish,
        text.len() > 0 && text[0] == '-' ==> edit_line(text + end) == EditLineView::Edit(
            EnvEditView::Remove { key: text.skip(1) },
        ),
        text.len() > 0 && text[0] != '-' ==> edit_line(text + end) == (EditLineView::NeedsValue {
            key: text,
        }),
{
    a_line_loses_its_end_alone(text, end);
}

/// The masked form of an edit tells its key, whether it puts or removes, and how long the
/// Value is in bytes; of two edits of one key it tells no more than that.
pub proof fn a_masked_edit_tells_no_value(a: EnvEditView, b: EnvEditView)
    ensures
        masked(a).key == a.key(),
        masked(a).action == EditAction::Put <==> a is Put,
        masked(a).value_len is Some <==> a is Put,
        a is Put ==> masked(a).value_len == Some(
            vstd::utf8::encode_utf8(a->value).len() as usize,
        ),
        a is Put && b is Put && a.key() == b.key() && vstd::utf8::encode_utf8(a->value).len()
            == vstd::utf8::encode_utf8(b->value).len() ==> masked(a) == masked(b),
        a is Remove && b is Remove && a.key() == b.key() ==> masked(a) == masked(b),
{
}

/// The key of an edit is the key it puts or removes.
pub proof fn an_edit_touches_its_key(e: EnvEditView)
    ensures
        e matches EnvEditView::Put { key: k, .. } ==> e.key() == k,
        e matches EnvEditView::Remove { key: k } ==> e.key() == k,
{
}

/// The redirect URIs to register, one for each port.
pub proof fn a_redirect_uri_names_its_port(port: u16)
    ensures
        LOOPBACK_PORTS@ == seq![53690u16, 53691u16, 53692u16, 53693u16],
        port_uri(port) == "http://127.0.0.1:"@ + decimal(port as nat) + "/callback"@,
{
}

} // verus!
