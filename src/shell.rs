//! The shells a suggestion can be written for: how each runs one statement
//! after another has succeeded, and how it quotes a word.
use vstd::prelude::*;
use crate::external::{shell_quote, shell_quoted_of};
use crate::text::strings_view;

verus! {

#[derive(Clone, Copy, Debug, PartialEq, Eq, Structural)]
pub enum Shell {
    Bash,
    Zsh,
    Fish,
    Tcsh,
}

/// The statements of `parts` joined by `sep`.
pub open spec fn joined(parts: Seq<Seq<char>>, sep: Seq<char>) -> Seq<char>
    decreases parts.len(),
{
    if parts.len() == 0 {
        Seq::empty()
    } else if parts.len() == 1 {
        parts[0]
    } else {
        joined(parts.drop_last(), sep) + sep + parts.last()
    }
}

impl Shell {
    /// The operator that runs the next statement only if the previous one succeeded.
    pub open spec fn and_operator(self) -> Seq<char> {
        match self {
            Shell::Fish => "; and "@,
            _ => " && "@,
        }
    }

    /// One script that runs each of `commands` in order, each only if the
    /// one before it succeeded.
    pub fn and(&self, commands: &Vec<String>) -> (r: String)
        ensures
            r@ == joined(strings_view(commands@), self.and_operator()),
    {
        let op = match self {
            Shell::Fish => "; and ",
            _ => " && ",
        };
        let ghost parts = strings_view(commands@);
        let mut r = String::new();
        let mut i: usize = 0;
        while i < commands.len()
            invariant
                op@ == self.and_operator(),
                parts == strings_view(commands@),
                i <= commands@.len(),
                r@ == joined(parts.take(i as int), op@),
            decreases commands@.len() - i,
        {
            assert(parts.take(i + 1).drop_last() =~= parts.take(i as int));
            if i > 0 {
                r.append(op);
            }
            r.append(commands[i].as_str());
            i += 1;
        }
        assert(parts.take(commands@.len() as int) =~= parts);
        r
    }

    /// `word` quoted for this shell; `None` when it holds a nul character,
    /// which no shell can be handed.
    pub fn quote(&self, word: &str) -> (r: Option<String>)
        ensures
            r is Some <==> !word@.contains('\0'),
            r matches Some(q) ==> q@ == shell_quoted_of(word@),
    {
        shell_quote(word)
    }
}

} // verus!
