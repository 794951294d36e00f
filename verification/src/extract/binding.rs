//! The binding file (`driftwatch.toml`): a capture recipe.
//!
//! A binding is the *how* half of a capture: the shell commands that build
//! and run one target's annotated code so that it emits traces. Reading the
//! file and decoding its TOML happen at the edge; this module holds the
//! recipe and its validation.

use vstd::prelude::*;
use crate::text::{is_blank, lemma_trim_blank, trim_bounds};

verus! {

/// The canonical binding file name resolved inside a target directory.
pub const BINDING_FILE_NAME: &'static str = "driftwatch.toml";

#[verifier::external_type_specification]
#[verifier::external_body]
pub struct ExTomlDeError(toml::de::Error);

#[verifier::external_type_specification]
#[verifier::external_body]
pub struct ExIoError(std::io::Error);

/// A capture recipe: the ordered shell commands that drive a target's
/// annotated code so that it emits traces. At least one is required and none
/// may be blank.
#[derive(Debug, Clone, PartialEq, Eq)]
pub struct Binding {
    /// The shell commands run, in order.
    pub commands: Vec<String>,
}

/// Why a binding file could not be resolved into a valid [`Binding`].
#[derive(Debug)]
pub enum BindingError {
    /// The binding file could not be read from disk.
    Read {
        /// The path that failed to read.
        path: String,
        /// The underlying I/O error.
        source: std::io::Error,
    },
    /// The TOML was malformed or contained unexpected fields.
    Parse(toml::de::Error),
    /// `commands` was present but empty.
    NoCommands,
    /// A command entry was empty or whitespace-only.
    BlankCommand {
        /// The zero-based index of the blank command.
        index: usize,
    },
}

/// `i` is the first command that is empty or whitespace-only.
pub open spec fn first_blank(commands: Seq<String>, i: int) -> bool {
    &&& 0 <= i < commands.len()
    &&& is_blank(commands[i]@)
    &&& forall|j: int| 0 <= j < i ==> !is_blank(#[trigger] commands[j]@)
}

impl Binding {
    /// Check the recipe: at least one command, none blank.
    ///
    /// Fails with [`BindingError::NoCommands`] when `commands` is empty and
    /// with [`BindingError::BlankCommand`] at the first empty or
    /// whitespace-only command.
    pub fn validate(&self) -> (r: Result<(), BindingError>)
        ensures
            self.commands@.len() == 0 ==> r matches Err(BindingError::NoCommands),
            self.commands@.len() > 0 ==> match r {
                Ok(()) => forall|j: int| 0 <= j < self.commands@.len() ==> !is_blank(#[trigger] self.commands@[j]@),
                Err(BindingError::BlankCommand { index }) => first_blank(self.commands@, index as int),
                Err(_) => false,
            },
    {
        if self.commands.len() == 0 {
            return Err(BindingError::NoCommands);
        }
        let mut i: usize = 0;
        while i < self.commands.len()
            invariant
                i <= self.commands.len(),
                forall|j: int| 0 <= j < i ==> !is_blank(#[trigger] self.commands@[j]@),
            decreases self.commands.len() - i,
        {
            let c = self.commands[i].as_str();
            let n = c.unicode_len();
            let (a, b) = trim_bounds(c, 0, n);
            proof {
                assert(c@.subrange(0, n as int) =~= c@);
                lemma_trim_blank(c@);
            }
            if a == b {
                return Err(BindingError::BlankCommand { index: i });
            }
            i = i + 1;
        }
        Ok(())
    }
}

} // verus!
