//! Reading the words the player types: the verb of a command and the choice
//! at the main menu.

use vstd::prelude::*;
use crate::text::{ascii_lowercase, same_text, to_ascii_lower};

verus! {

/// What a command verb asks for.
#[derive(Clone, Copy, Debug, PartialEq, Eq, Structural)]
pub enum Command {
    Go,
    Look,
    Talk,
    Help,
    Quit,
    Unknown,
}

/// A choice at the main menu.
#[derive(Clone, Copy, Debug, PartialEq, Eq, Structural)]
pub enum MenuChoice {
    New,
    Continue,
    Quit,
    Invalid,
}

/// The command a verb names: `go`, `move` or `walk`; `look` or `examine`;
/// `talk`, `speak` or `t`; `help` or `?`; `quit`, `exit` or `q`.
pub open spec fn command_of(verb: Seq<char>) -> Command {
    if verb == "go"@ || verb == "move"@ || verb == "walk"@ {
        Command::Go
    } else if verb == "look"@ || verb == "examine"@ {
        Command::Look
    } else if verb == "talk"@ || verb == "speak"@ || verb == "t"@ {
        Command::Talk
    } else if verb == "help"@ || verb == "?"@ {
        Command::Help
    } else if verb == "quit"@ || verb == "exit"@ || verb == "q"@ {
        Command::Quit
    } else {
        Command::Unknown
    }
}

/// The menu choice a word names, whatever its ASCII case: `new` or `n`,
/// `continue` or `c`, `quit` or `q`.
pub open spec fn menu_choice_of(word: Seq<char>) -> MenuChoice {
    let w = ascii_lowercase(word);
    if w == "new"@ || w == "n"@ {
        MenuChoice::New
    } else if w == "continue"@ || w == "c"@ {
        MenuChoice::Continue
    } else if w == "quit"@ || w == "q"@ {
        MenuChoice::Quit
    } else {
        MenuChoice::Invalid
    }
}

/// A word of input in lower case (ASCII letters only), or the empty string
/// where there is no word.
pub fn parse_input(input: Option<&str>) -> (r: String)
    ensures
        r@ == match input {
            Some(s) => ascii_lowercase(s@),
            None => Seq::empty(),
        },
{
    match input {
        Some(s) => to_ascii_lower(s),
        None => String::new(),
    }
}

/// Reads a command verb.
pub fn parse_command(verb: &str) -> (r: Command)
    ensures
        r == command_of(verb@),
{
    if same_text(verb, "go") || same_text(verb, "move") || same_text(verb, "walk") {
        Command::Go
    } else if same_text(verb, "look") || same_text(verb, "examine") {
        Command::Look
    } else if same_text(verb, "talk") || same_text(verb, "speak") || same_text(verb, "t") {
        Command::Talk
    } else if same_text(verb, "help") || same_text(verb, "?") {
        Command::Help
    } else if same_text(verb, "quit") || same_text(verb, "exit") || same_text(verb, "q") {
        Command::Quit
    } else {
        Command::Unknown
    }
}

/// Reads a choice at the main menu.
pub fn parse_menu_choice(choice: &str) -> (r: MenuChoice)
    ensures
        r == menu_choice_of(choice@),
{
    let lower = to_ascii_lower(choice);
    let w = lower.as_str();
    if same_text(w, "new") || same_text(w, "n") {
        MenuChoice::New
    } else if same_text(w, "continue") || same_text(w, "c") {
        MenuChoice::Continue
    } else if same_text(w, "quit") || same_text(w, "q") {
        MenuChoice::Quit
    } else {
        MenuChoice::Invalid
    }
}

} // verus!
