//! Which browser a Sign-in opens, and how a configured command is run.

use vstd::prelude::*;
use vstd::string::*;

use crate::auth::error::{SignInError, SignInErrorView};
use crate::text::{contains, replace, replaced, same, split_words, trim, trimmed, views, words};

verus! {

/// The configured command that stands for the native ephemeral session of macOS. It
/// is no launch command.
pub const NATIVE_SENTINEL: &'static str = "@native";

/// Which Sign-in surface a Config selects.
#[derive(Debug, PartialEq, Eq)]
pub enum Strategy {
    /// The default browser of the system.
    Default,
    /// A configured launch command.
    Command(String),
    /// The native ephemeral session of macOS.
    WebAuthSession,
}

/// A [`Strategy`] as a mathematical value.
#[verifier::ext_equal]
pub enum StrategyView {
    Default,
    Command(Seq<char>),
    WebAuthSession,
}

impl View for Strategy {
    type V = StrategyView;

    open spec fn view(&self) -> StrategyView {
        match self {
            Strategy::Default => StrategyView::Default,
            Strategy::Command(command) => StrategyView::Command(command@),
            Strategy::WebAuthSession => StrategyView::WebAuthSession,
        }
    }
}

/// What a configured command selects, where `native` says whether this system has
/// the native session.
pub open spec fn strategy_for(command: Option<Seq<char>>, native: bool) -> StrategyView {
    match command {
        None => StrategyView::Default,
        Some(command) => if trimmed(command) == "@native"@ {
            if native {
                StrategyView::WebAuthSession
            } else {
                StrategyView::Default
            }
        } else if trimmed(command).len() == 0 {
            StrategyView::Default
        } else {
            StrategyView::Command(trimmed(command))
        },
    }
}

/// Decide the Sign-in surface from the configured command. A blank command is the
/// default browser, and so is the sentinel where there is no native session, so a
/// Config that came from a Mac never breaks.
pub fn choose_strategy(command: Option<&str>, native: bool) -> (result: Strategy)
    ensures
        result@ == strategy_for(
            match command {
                Some(c) => Some(c@),
                None => None,
            },
            native,
        ),
{
    match command {
        None => Strategy::Default,
        Some(command) => {
            let command = trim(command);
            if same(command.as_str(), NATIVE_SENTINEL) {
                native_or_default(native)
            } else if command.as_str().is_empty() {
                Strategy::Default
            } else {
                Strategy::Command(command)
            }
        },
    }
}

/// The native session where there is one, else the default browser.
pub fn native_or_default(native: bool) -> (result: Strategy)
    ensures
        result@ == (if native {
            StrategyView::WebAuthSession
        } else {
            StrategyView::Default
        }),
{
    if native {
        Strategy::WebAuthSession
    } else {
        Strategy::Default
    }
}

/// Opens the default browser of the system.
#[derive(Debug, PartialEq, Eq)]
pub struct DefaultBrowser;

/// Opens the native ephemeral session of macOS.
#[derive(Debug, PartialEq, Eq)]
pub struct WebAuthSessionBrowser;

/// Opens a browser by running a configured command.
#[derive(Debug, PartialEq, Eq)]
pub struct CommandBrowser {
    pub command: String,
}

/// The browser that a Config selects.
#[derive(Debug, PartialEq, Eq)]
pub enum Browser {
    Default(DefaultBrowser),
    Command(CommandBrowser),
    WebAuthSession(WebAuthSessionBrowser),
}

impl Browser {
    /// The strategy this browser follows.
    pub open spec fn strategy(&self) -> StrategyView {
        match self {
            Browser::Default(_) => StrategyView::Default,
            Browser::Command(b) => StrategyView::Command(b.command@),
            Browser::WebAuthSession(_) => StrategyView::WebAuthSession,
        }
    }
}

/// Build the Sign-in browser from the configured command.
pub fn select(command: Option<&str>, native: bool) -> (result: Browser)
    ensures
        result.strategy() == strategy_for(
            match command {
                Some(c) => Some(c@),
                None => None,
            },
            native,
        ),
{
    match choose_strategy(command, native) {
        Strategy::Default => Browser::Default(DefaultBrowser),
        Strategy::Command(command) => Browser::Command(CommandBrowser::new(command)),
        Strategy::WebAuthSession => Browser::WebAuthSession(WebAuthSessionBrowser),
    }
}

impl CommandBrowser {
    pub fn new(command: String) -> (result: Self)
        ensures
            result.command == command,
    {
        CommandBrowser { command }
    }

    /// The program and the arguments that open `url`.
    pub fn launch(&self, url: &str) -> (result: Result<(String, Vec<String>), SignInError>)
        ensures
            match command_line(self.command@, url@) {
                Some(line) => result is Ok && (result->Ok_0).0@ == line.0 && views((result->Ok_0).1@)
                    == line.1,
                None => result is Err && result->Err_0@ == SignInErrorView::BrowserLaunch,
            },
    {
        match build_browser_command(self.command.as_str(), url) {
            Some(line) => Ok(line),
            None => Err(SignInError::BrowserLaunch),
        }
    }
}

/// The place of the URL in a command.
pub open spec fn placeholder() -> Seq<char> {
    "{url}"@
}

/// Some word holds the placeholder.
pub open spec fn has_placeholder(w: Seq<Seq<char>>) -> bool {
    exists|i: int| 0 <= i < w.len() && contains(#[trigger] w[i], placeholder())
}

/// Every word with the URL in place of the placeholder.
pub open spec fn substituted(w: Seq<Seq<char>>, url: Seq<char>) -> Seq<Seq<char>> {
    w.map_values(|word: Seq<char>| replaced(word, placeholder(), url))
}

/// The program and the arguments of a command: its words, with the URL in place of
/// every placeholder, or at the end where there is none. A blank command has
/// neither.
pub open spec fn command_line(command: Seq<char>, url: Seq<char>) -> Option<
    (Seq<char>, Seq<Seq<char>>),
> {
    let w = words(command);
    if w.len() == 0 {
        None
    } else {
        let s = substituted(w, url);
        let args = s.skip(1);
        Some(
            (
                s[0],
                if has_placeholder(w) {
                    args
                } else {
                    args.push(url)
                },
            ),
        )
    }
}

/// Parse a configured command into a program and its arguments. There is no shell:
/// the command is split at white space, and the URL is one argument or a part of
/// one, whatever characters it holds.
pub fn build_browser_command(command: &str, url: &str) -> (result: Option<(String, Vec<String>)>)
    ensures
        match command_line(command@, url@) {
            Some(line) => result is Some && (result->0).0@ == line.0 && views((result->0).1@) == line.1,
            None => result is None,
        },
{
    let tokens = split_words(command);
    let ghost w = words(command@);
    if tokens.len() == 0 {
        return None;
    }
    proof {
        reveal_strlit("{url}");
        assert(w.len() == tokens@.len());
        assert(w[0] == tokens@[0]@);
    }
    let (program, found) = replace(tokens[0].as_str(), "{url}", url);
    let mut had_placeholder = found;
    let mut args: Vec<String> = Vec::new();
    let mut i: usize = 1;
    while i < tokens.len()
        invariant
            1 <= i <= tokens@.len(),
            w == views(tokens@),
            "{url}"@.len() > 0,
            args@.len() == i - 1,
            forall|j: int|
                0 <= j < i - 1 ==> (#[trigger] args@[j])@ == replaced(w[j + 1], placeholder(), url@),
            had_placeholder <==> exists|j: int|
                0 <= j < i && contains(#[trigger] w[j], placeholder()),
        decreases tokens@.len() - i,
    {
        assert(w[i as int] == tokens@[i as int]@);
        let (arg, found) = replace(tokens[i].as_str(), "{url}", url);
        args.push(arg);
        had_placeholder = had_placeholder || found;
        i = i + 1;
    }
    let ghost s = substituted(w, url@);
    assert(views(args@) =~= s.skip(1));
    if !had_placeholder {
        let ghost before = args@;
        args.push(url.to_owned());
        assert(views(args@) =~= views(before).push(url@));
    }
    Some((program, args))
}

} // verus!
