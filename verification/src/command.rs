//! The structured result of parsing one line of player input, and the
//! user-facing message a command resolves to.

use vstd::prelude::*;
use vstd::string::StringExecFns;

verus! {

/// A parsed player command: a verb, an optional object phrase, an optional
/// preposition and an optional secondary object phrase.
#[derive(Debug, Clone)]
pub struct Command {
    pub verb: Option<String>,
    pub obj: Option<String>,
    pub prep: Option<String>,
    pub obj_prep: Option<String>,
}

/// The mathematical value of a [`Command`]: each phrase as a character sequence.
#[verifier::ext_equal]
pub struct CommandV {
    pub verb: Option<Seq<char>>,
    pub obj: Option<Seq<char>>,
    pub prep: Option<Seq<char>>,
    pub obj_prep: Option<Seq<char>>,
}

impl View for Command {
    type V = CommandV;

    open spec fn view(&self) -> CommandV {
        CommandV {
            verb: self.verb.deep_view(),
            obj: self.obj.deep_view(),
            prep: self.prep.deep_view(),
            obj_prep: self.obj_prep.deep_view(),
        }
    }
}

/// What the interpreter answers to one command: a single message for the host
/// to print.
pub struct CommandResult {
    pub message: String,
}

/// The message produced by [`CommandResult::didnt_understand`].
pub open spec fn didnt_understand_msg(word: Seq<char>) -> Seq<char> {
    "I don't know what "@ + word + " means."@
}

/// The message produced by [`CommandResult::no_object`].
pub open spec fn no_object_msg(name: Seq<char>) -> Seq<char> {
    "There is no "@ + name + " here."@
}

/// The message produced by [`CommandResult::cant_do_that`].
pub open spec fn cant_do_that_msg(verb: Seq<char>) -> Seq<char> {
    "You can't "@ + verb + " that."@
}

/// The message produced by [`CommandResult::doesnt_have_that`].
pub open spec fn doesnt_have_that_msg(character_name: Seq<char>) -> Seq<char> {
    "The "@ + character_name + " doesn't have that."@
}

impl CommandResult {
    /// The reply to a verb the interpreter does not know.
    pub fn didnt_understand(word: String) -> (r: Self)
        ensures
            r.message@ == didnt_understand_msg(word@),
    {
        let message = String::from_str("I don't know what ").concat(word.as_str()).concat(
            " means.",
        );
        CommandResult { message }
    }

    /// The reply when the named entity is nowhere to be found.
    pub fn no_object(name: String) -> (r: Self)
        ensures
            r.message@ == no_object_msg(name@),
    {
        let message = String::from_str("There is no ").concat(name.as_str()).concat(" here.");
        CommandResult { message }
    }

    /// The reply when a recognized verb cannot be applied to its target.
    pub fn cant_do_that(verb: String) -> (r: Self)
        ensures
            r.message@ == cant_do_that_msg(verb@),
    {
        let message = String::from_str("You can't ").concat(verb.as_str()).concat(" that.");
        CommandResult { message }
    }

    /// The reply when a character is asked for something it does not hold.
    pub fn doesnt_have_that(character_name: String) -> (r: Self)
        ensures
            r.message@ == doesnt_have_that_msg(character_name@),
    {
        let message = String::from_str("The ").concat(character_name.as_str()).concat(
            " doesn't have that.",
        );
        CommandResult { message }
    }
}

} // verus!
