//! Which browser a Config selects, and what it is run with.

use vstd::prelude::*;

use crate::auth::browser::{command_line, strategy_for, Browser, StrategyView};
use crate::text::{contains, is_space, replaced, words};
use crate::text_laws::{
    a_text_without_white_space_is_one_word, is_blank, space_free, trimming_leaves_the_text_between,
    what_does_not_occur_is_not_replaced, white_space_parts_words,
};

verus! {

/// A Config without a command, or with a blank one, opens the default browser, on every
/// system.
pub proof fn without_a_command_the_default_browser_opens(blank: Seq<char>, native: bool)
    requires
        is_blank(blank),
    ensures
        strategy_for(None, native) == StrategyView::Default,
        strategy_for(Some(blank), native) == StrategyView::Default,
{
    let none = Seq::<char>::empty();
    assert(blank + none + none =~= blank);
    trimming_leaves_the_text_between(blank, none, none);
    reveal_strlit("@native");
}

/// The sentinel, whatever white space stands around it, selects the native session where
/// there is one and the default browser where there is none. Any other command is run, as
/// it is but for the white space around it, on every system.
pub proof fn a_command_is_run_as_it_is(
    left: Seq<char>,
    command: Seq<char>,
    right: Seq<char>,
    native: bool,
)
    requires
        is_blank(left),
        is_blank(right),
        command.len() > 0,
        !is_space(command[0]),
        !is_space(command.last()),
    ensures
        command != "@native"@ ==> strategy_for(Some(left + command + right), native)
            == StrategyView::Command(command),
        command == "@native"@ ==> strategy_for(Some(left + command + right), true)
            == StrategyView::WebAuthSession,
        command == "@native"@ ==> strategy_for(Some(left + command + right), false)
            == StrategyView::Default,
{
    trimming_leaves_the_text_between(left, command, right);
}

/// Some word of a command has the place of the URL in it.
pub open spec fn has_place(command: Seq<char>) -> bool {
    exists|i: int|
        0 <= i < words(command).len() && contains(#[trigger] words(command)[i], "{url}"@)
}

/// A command is run by its words: the first is the program, and each other one an
/// argument, with the URL in every place marked for it. Where none is, the URL is one
/// more argument, at the end and whole. A command without a word runs nothing.
pub proof fn a_command_is_run_by_its_words(command: Seq<char>, url: Seq<char>)
    ensures
        command_line(command, url) is None <==> words(command).len() == 0,
        words(command).len() > 0 ==> {
            let (program, args) = command_line(command, url)->0;
            let w = words(command);
            &&& program == replaced(w[0], "{url}"@, url)
            &&& args.len() == w.len() - 1 + (if has_place(command) {
                0int
            } else {
                1
            })
            &&& forall|i: int|
                0 <= i < w.len() - 1 ==> #[trigger] args[i] == replaced(w[i + 1], "{url}"@, url)
            &&& !has_place(command) ==> args.last() == url
        },
{
}

/// A command without a place for the URL is run word for word, whatever the URL holds.
pub proof fn words_without_a_place_are_kept(command: Seq<char>, url: Seq<char>)
    requires
        words(command).len() > 0,
        !has_place(command),
    ensures
        ({
            let (program, args) = command_line(command, url)->0;
            let w = words(command);
            &&& program == w[0]
            &&& args == w.skip(1).push(url)
        }),
{
    a_command_is_run_by_its_words(command, url);
    let (program, args) = command_line(command, url)->0;
    let w = words(command);
    assert forall|i: int| 0 <= i < w.len() implies replaced(#[trigger] w[i], "{url}"@, url)
        == w[i] by {
        assert(!contains(w[i], "{url}"@));
        what_does_not_occur_is_not_replaced(w[i], "{url}"@, url);
    }
    assert(args =~= w.skip(1).push(url));
}

/// A program with one argument is run as such: white space in a command parts the two.
pub proof fn white_space_parts_a_command(
    program: Seq<char>,
    space: char,
    argument: Seq<char>,
    url: Seq<char>,
)
    requires
        program.len() > 0,
        space_free(program),
        is_space(space),
        argument.len() > 0,
        space_free(argument),
        !contains(program, "{url}"@),
        !contains(argument, "{url}"@),
    ensures
        command_line(program + seq![space] + argument, url) == Some(
            (program, seq![argument, url]),
        ),
{
    let command = program + seq![space] + argument;
    white_space_parts_words(program, space, argument);
    a_text_without_white_space_is_one_word(program);
    a_text_without_white_space_is_one_word(argument);
    assert(words(command) =~= seq![program, argument]);
    words_without_a_place_are_kept(command, url);
    assert(words(command).skip(1).push(url) =~= seq![argument, url]);
}

/// The browser that is built follows the strategy that was chosen.
pub proof fn a_browser_follows_its_strategy(b: Browser)
    ensures
        b.strategy() is Default <==> b is Default,
        b.strategy() is WebAuthSession <==> b is WebAuthSession,
        b.strategy() is Command <==> b is Command,
        b matches Browser::Command(c) ==> b.strategy() == StrategyView::Command(c.command@),
{
}

} // verus!
