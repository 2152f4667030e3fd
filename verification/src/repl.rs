//! The bulk entry point: scan a whole text at once and collect every
//! token, in the order the lexemes appear.

use vstd::prelude::*;

use crate::lexer::Lexer;
use crate::scan::lemma_step_advances;
use crate::scan::spec_tokenize;
use crate::scan::spec_tokens_from;
use crate::token::Token;
use crate::token::views_of;

verus! {

/// A stateless front end over the scanner: each call of [`Repl::evaluate`]
/// scans one text independently, and tokens never carry over between
/// calls.
pub struct Repl {}

impl Repl {
    /// A new front end.
    pub fn new() -> (repl: Repl) {
        Repl {}
    }

    /// The full token sequence of `input`: exactly what the scanning
    /// model assigns to the text, eagerly collected.
    pub fn evaluate(&self, input: &str) -> (tokens: Vec<Token>)
        ensures
            views_of(tokens@) == spec_tokenize(input@),
    {
        let mut lexer = Lexer::new(input);
        let mut tokens: Vec<Token> = Vec::new();
        let ghost text = input@;
        let mut done = false;
        proof {
            assert(views_of(tokens@) + spec_tokens_from(text, 0) =~= spec_tokens_from(text, 0));
        }
        while !done
            invariant
                lexer.wf(),
                lexer.text() == text,
                done ==> spec_tokens_from(text, lexer.cursor()) == Seq::<
                    crate::token::TokenView,
                >::empty(),
                views_of(tokens@) + spec_tokens_from(text, lexer.cursor()) == spec_tokenize(text),
            decreases text.len() - lexer.cursor() + (if done {
                0int
            } else {
                1int
            }),
        {
            let ghost at = lexer.cursor();
            let ghost seen = tokens@;
            match lexer.next() {
                Some(t) => {
                    proof {
                        lemma_step_advances(text, at);
                        assert(views_of(seen.push(t)) =~= views_of(seen).push(t@));
                        assert(views_of(seen).push(t@) + spec_tokens_from(text, lexer.cursor())
                            =~= views_of(seen) + (seq![t@] + spec_tokens_from(
                            text,
                            lexer.cursor(),
                        )));
                    }
                    tokens.push(t);
                },
                None => {
                    done = true;
                },
            }
        }
        proof {
            assert(views_of(tokens@) + spec_tokens_from(text, lexer.cursor()) =~= views_of(
                tokens@,
            ));
        }
        tokens
    }
}

} // verus!
