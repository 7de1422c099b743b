//! A text presenter for a guided walk: what each step prints, and what a typed line
//! means.

use vstd::prelude::*;
use vstd::string::*;

use crate::auth::authwalk::borrowed;
use crate::model::provider::{Step, StepView, What};
use crate::text::{
    all_digits, decimal, is_digit, is_space, lemma_decimal_digits, lemma_decimal_reads_back,
    parse_usize, parsed_number, to_decimal, trim, trim_end, trim_start, trimmed, views,
};

verus! {

/// The title of a question.
pub open spec fn title(what: What) -> Seq<char> {
    match what {
        What::Accounts => "Choose an account:"@,
        What::Roles => "Choose a role:"@,
        What::Secrets => "Choose a secret:"@,
        What::Instances => "Choose an instance:"@,
        What::FilePath => "Enter a path:"@,
    }
}

/// The title of a question.
pub fn what_title(what: What) -> (result: &'static str)
    ensures
        result@ == title(what),
{
    match what {
        What::Accounts => "Choose an account:",
        What::Roles => "Choose a role:",
        What::Secrets => "Choose a secret:",
        What::Instances => "Choose an instance:",
        What::FilePath => "Enter a path:",
    }
}

/// The line of one entry of a menu, numbered from one.
pub open spec fn menu_line(i: int, label: Seq<char>, default: Option<usize>) -> Seq<char> {
    "  ["@ + decimal((i + 1) as nat) + "] "@ + label + (if default is Some && default->0 == i {
        " (default)"@
    } else {
        ""@
    }) + "\n"@
}

/// The lines of the first `count` entries of a menu.
pub open spec fn menu_lines(
    choices: Seq<Seq<char>>,
    default: Option<usize>,
    count: int,
) -> Seq<char>
    decreases count,
{
    if count <= 0 {
        Seq::empty()
    } else {
        menu_lines(choices, default, count - 1) + menu_line(count - 1, choices[count - 1], default)
    }
}

/// What a question prints: a blank line, its title, its entries, and the prompt.
pub open spec fn menu_text(
    what: What,
    choices: Seq<Seq<char>>,
    default: Option<usize>,
) -> Seq<char> {
    "\n"@ + title(what) + "\n"@ + menu_lines(choices, default, choices.len() as int) + "choose 1-"@
        + decimal(choices.len()) + (match default {
        Some(i) => " [default "@ + decimal((i + 1) as nat) + "]: "@,
        None => ": "@,
    })
}

/// What a request for a text prints.
pub open spec fn input_text(prompt: Seq<char>, default: Option<Seq<char>>) -> Seq<char> {
    "\n"@ + prompt + (match default {
        Some(d) => " [default "@ + d + "]: "@,
        None => ": "@,
    })
}

/// What a typed line means, out of `n` entries: a number picks that entry, and an
/// empty line takes the default. Anything else means nothing.
pub open spec fn choice_of(line: Seq<char>, n: nat, default: Option<usize>) -> Option<usize> {
    let s = trimmed(line);
    if s.len() == 0 {
        default
    } else {
        match parsed_number(s, usize::MAX as nat) {
            Some(k) => if 1 <= k <= n {
                Some((k - 1) as usize)
            } else {
                None
            },
            None => None,
        }
    }
}

/// Interpret a typed line against `n` entries and an optional default.
pub fn parse_choice(line: &str, n: usize, default: Option<usize>) -> (result: Option<usize>)
    ensures
        result == choice_of(line@, n as nat, default),
{
    let s = trim(line);
    if s.as_str().is_empty() {
        return default;
    }
    match parse_usize(s.as_str()) {
        Some(k) => if 1 <= k && k <= n {
            Some(k - 1)
        } else {
            None
        },
        None => None,
    }
}

/// What a typed line means where a text was asked for: the text, or the default for
/// an empty line or none.
pub open spec fn input_of(line: Option<Seq<char>>, default: Option<Seq<char>>) -> Seq<char> {
    let typed = match line {
        Some(line) => trimmed(line),
        None => Seq::empty(),
    };
    if typed.len() > 0 {
        typed
    } else {
        match default {
            Some(d) => d,
            None => Seq::empty(),
        }
    }
}

/// A question that waits for a line.
#[derive(Debug)]
pub struct MenuTurn {
    what: What,
    choices: Vec<String>,
    default: Option<usize>,
}

/// A request for a text that waits for a line.
#[derive(Debug)]
pub struct InputTurn {
    prompt: String,
    default: Option<String>,
}

/// How a step is presented.
#[derive(Debug)]
pub enum Presentation {
    /// Print the question's text and read a line.
    Menu(MenuTurn),
    /// Print the request's text and read a line.
    Input(InputTurn),
    /// The walk is at its end.
    End(Step),
}

/// What a line answered a question with.
#[derive(Debug)]
pub enum MenuAnswer {
    /// This entry.
    Choice(usize),
    /// Nothing: say so, and ask again.
    Again(MenuTurn),
}

impl MenuTurn {
    pub closed spec fn what(&self) -> What {
        self.what
    }

    pub closed spec fn choices(&self) -> Seq<Seq<char>> {
        views(self.choices@)
    }

    pub closed spec fn default(&self) -> Option<usize> {
        self.default
    }

    /// What to print.
    pub fn text(&self) -> (result: String)
        requires
            self.default() != Some(usize::MAX),
        ensures
            result@ == menu_text(self.what(), self.choices(), self.default()),
    {
        let ghost all = views(self.choices@);
        let mut lines = String::new();
        let mut i: usize = 0;
        while i < self.choices.len()
            invariant
                i <= self.choices@.len(),
                all == views(self.choices@),
                lines@ == menu_lines(all, self.default, i as int),
            decreases self.choices@.len() - i,
        {
            let ghost before = lines@;
            let marker = match self.default {
                Some(d) => if d == i {
                    " (default)"
                } else {
                    ""
                },
                None => "",
            };
            let mut line = "  [".to_owned();
            line.push_str(to_decimal((i + 1) as u64).as_str());
            line.push_str("] ");
            line.push_str(self.choices[i].as_str());
            line.push_str(marker);
            line.push_str("\n");
            assert(line@ =~= menu_line(i as int, all[i as int], self.default));
            lines.push_str(line.as_str());
            i = i + 1;
        }
        let mut out = "\n".to_owned();
        out.push_str(what_title(self.what));
        out.push_str("\n");
        out.push_str(lines.as_str());
        out.push_str("choose 1-");
        out.push_str(to_decimal(self.choices.len() as u64).as_str());
        let mut rest = String::new();
        match self.default {
            Some(d) => {
                rest.push_str(" [default ");
                rest.push_str(to_decimal((d + 1) as u64).as_str());
                rest.push_str("]: ");
                assert(rest@ =~= " [default "@ + decimal((d + 1) as nat) + "]: "@);
            },
            None => {
                rest.push_str(": ");
                assert(rest@ =~= ": "@);
            },
        }
        out.push_str(rest.as_str());
        out
    }

    /// What to print for a line that means nothing.
    pub fn refusal(&self) -> (result: &'static str)
        ensures
            result@ == "  invalid choice, try again\n"@,
    {
        "  invalid choice, try again\n"
    }

    /// Take a line, or the end of the input, which takes the default or the first
    /// entry.
    pub fn resume(self, line: Option<&str>) -> (result: MenuAnswer)
        ensures
            match line {
                None => result == MenuAnswer::Choice(
                    match self.default() {
                        Some(d) => d,
                        None => 0,
                    },
                ),
                Some(line) => match choice_of(line@, self.choices().len(), self.default()) {
                    Some(i) => result == MenuAnswer::Choice(i),
                    None => result == MenuAnswer::Again(self),
                },
            },
    {
        match line {
            None => MenuAnswer::Choice(
                match self.default {
                    Some(d) => d,
                    None => 0,
                },
            ),
            Some(line) => match parse_choice(line, self.choices.len(), self.default) {
                Some(i) => MenuAnswer::Choice(i),
                None => MenuAnswer::Again(self),
            },
        }
    }
}

impl InputTurn {
    pub closed spec fn prompt(&self) -> Seq<char> {
        self.prompt@
    }

    pub closed spec fn default(&self) -> Option<Seq<char>> {
        match self.default {
            Some(d) => Some(d@),
            None => None,
        }
    }

    /// What to print.
    pub fn text(&self) -> (result: String)
        ensures
            result@ == input_text(self.prompt(), self.default()),
    {
        let mut out = "\n".to_owned();
        out.push_str(self.prompt.as_str());
        let mut rest = String::new();
        match &self.default {
            Some(d) => {
                rest.push_str(" [default ");
                rest.push_str(d.as_str());
                rest.push_str("]: ");
                assert(rest@ =~= " [default "@ + d@ + "]: "@);
            },
            None => {
                rest.push_str(": ");
                assert(rest@ =~= ": "@);
            },
        }
        out.push_str(rest.as_str());
        out
    }

    /// Take a line, or the end of the input.
    pub fn resume(self, line: Option<&str>) -> (result: String)
        ensures
            result@ == input_of(borrowed(line), self.default()),
    {
        if let Some(line) = line {
            let typed = trim(line);
            if !typed.as_str().is_empty() {
                return typed;
            }
        }
        match self.default {
            Some(d) => d,
            None => String::new(),
        }
    }
}

/// Present a step: a question as a numbered menu, a request for a text as a prompt,
/// and anything else as the end.
pub fn present(step: Step) -> (result: Presentation)
    ensures
        match step {
            Step::Ask { what, choices, default } => {
                &&& result is Menu
                &&& result->Menu_0.what() == what
                &&& result->Menu_0.choices() == views(choices@)
                &&& result->Menu_0.default() == default
            },
            Step::Input { what, prompt, default } => {
                &&& result is Input
                &&& result->Input_0.prompt() == prompt@
                &&& result->Input_0.default() == match default {
                    Some(d) => Some(d@),
                    None => None,
                }
            },
            _ => result == Presentation::End(step),
        },
{
    match step {
        Step::Ask { what, choices, default } => Presentation::Menu(
            MenuTurn { what, choices, default },
        ),
        Step::Input { what: _, prompt, default } => Presentation::Input(
            InputTurn { prompt, default },
        ),
        other => Presentation::End(other),
    }
}

// ---------------------------------------------------------------------------
// Laws
// ---------------------------------------------------------------------------

/// Typing the number a menu shows for an entry picks that entry, whatever the
/// default is.
pub proof fn the_number_shown_picks_the_entry(k: usize, n: usize, default: Option<usize>)
    requires
        k < n,
    ensures
        choice_of(decimal((k + 1) as nat), n as nat, default) == Some(k),
        choice_of(decimal((k + 1) as nat) + "\n"@, n as nat, default) == Some(k),
{
    let d = decimal((k + 1) as nat);
    lemma_decimal_digits((k + 1) as nat);
    lemma_decimal_reads_back((k + 1) as nat, usize::MAX as nat);
    reveal_strlit("\n");
    assert(!is_space(d[0]) && !is_space(d.last()) && d.len() > 0) by {
        assert(all_digits(d));
        assert(is_digit(d[0]));
        assert(is_digit(d[d.len() - 1]));
    }
    assert(trimmed(d) == d);
    let typed = d + "\n"@;
    assert(typed[0] == d[0]);
    assert(trim_start(typed) == typed);
    assert(typed.last() == '\n');
    assert(typed.drop_last() =~= d);
    assert(trim_end(typed) == trim_end(d));
}

/// A line picks an entry of the menu, where the default is one.
pub proof fn a_line_picks_an_entry(line: Seq<char>, n: nat, default: Option<usize>)
    requires
        default is Some ==> default->0 < n,
    ensures
        choice_of(line, n, default) is Some ==> choice_of(line, n, default)->0 < n,
{
}

} // verus!
