//! Recipes: the command that runs while the microcontroller is in boot mode.

use vstd::prelude::*;
use vstd::std_specs::convert::FromSpecImpl;

verus! {

/// An external command with its arguments.
#[derive(Debug, PartialEq, Eq)]
pub struct Recipe {
    pub command: String,
    pub arguments: Vec<String>,
}

/// A recipe as plain text: the command and each argument as a sequence of
/// characters.
pub struct RecipeView {
    pub command: Seq<char>,
    pub arguments: Seq<Seq<char>>,
}

impl View for Recipe {
    type V = RecipeView;

    open spec fn view(&self) -> RecipeView {
        RecipeView { command: self.command@, arguments: self.arguments.deep_view() }
    }
}

impl Recipe {
    /// The recipe that a command line spells out: the first token is the
    /// command, the others are its arguments in order. No token at all gives
    /// the empty command without arguments.
    pub open spec fn literal(tokens: Seq<Seq<char>>) -> RecipeView {
        if tokens.len() == 0 {
            RecipeView { command: Seq::empty(), arguments: Seq::empty() }
        } else {
            RecipeView { command: tokens[0], arguments: tokens.skip(1) }
        }
    }

    /// Whether a recipe that was run has failed, given how running it ended:
    /// `Ok` with the exit code where its command ran to its end, `Ok(None)`
    /// where the command ended without an exit code, `Err` where it could not
    /// be started. Everything but a command that ran and gave the exit code
    /// 0 is a failure, and one failure is like another.
    pub open spec fn spec_failed(outcome: Result<Option<i32>, ()>) -> bool {
        outcome != Ok::<Option<i32>, ()>(Some(0))
    }

    /// Whether a recipe that was run has failed, given how running it ended.
    #[verifier::when_used_as_spec(spec_failed)]
    pub fn failed(outcome: Result<Option<i32>, ()>) -> (failed: bool)
        ensures
            failed == Recipe::spec_failed(outcome),
    {
        match outcome {
            Ok(Some(code)) => code != 0,
            Ok(None) => true,
            Err(_) => true,
        }
    }

    /// Reads a command line of at least one token as a recipe: the first
    /// token is the command, the others are its arguments in order.
    pub fn from_tokens(tokens: Vec<String>) -> (recipe: Recipe)
        requires
            tokens.len() >= 1,
        ensures
            recipe@ == Recipe::literal(tokens.deep_view()),
            recipe@.command == tokens[0]@,
            recipe@.arguments == tokens.deep_view().skip(1),
    {
        let ghost read = tokens.deep_view();
        let mut arguments = tokens;
        let command = arguments.remove(0);
        proof {
            assert(arguments.deep_view() =~= read.skip(1));
        }
        Recipe::new(command, arguments)
    }

    /// The recipe that runs `command` with `arguments`.
    pub fn new(command: String, arguments: Vec<String>) -> (recipe: Self)
        ensures
            recipe.command == command,
            recipe.arguments == arguments,
            recipe@ == (RecipeView { command: command@, arguments: arguments.deep_view() }),
    {
        Self { command, arguments }
    }
}

impl Clone for Recipe {
    fn clone(&self) -> (copy: Self)
        ensures
            copy@ == self@,
    {
        let command = self.command.clone();
        let arguments = self.arguments.clone();
        proof {
            assert(arguments.deep_view() =~= self.arguments.deep_view());
        }
        Recipe { command, arguments }
    }
}

impl From<Vec<String>> for Recipe {
    /// Reads a command line as a recipe. A command line of at least one
    /// token is read by `from_tokens`; the empty one, which names no command,
    /// gives the empty command without arguments.
    fn from(value: Vec<String>) -> (recipe: Self)
        ensures
            recipe@ == Recipe::literal(value.deep_view()),
    {
        if value.is_empty() {
            let recipe = Recipe::new(String::new(), value);
            assert(recipe@.arguments =~= Seq::<Seq<char>>::empty());
            recipe
        } else {
            Recipe::from_tokens(value)
        }
    }
}

impl FromSpecImpl<Vec<String>> for Recipe {
    /// Two recipes may read alike and still be different values, so the
    /// conversion is stated over the view, on `from` itself.
    open spec fn obeys_from_spec() -> bool {
        false
    }

    open spec fn from_spec(value: Vec<String>) -> Self {
        choose|recipe: Recipe| recipe@ == Recipe::literal(value.deep_view())
    }
}

} // verus!
