//! The grammar checker.
//!
//! A [`Validator`] owns a tokenizer and looks at one token at a time. Each
//! rule of the grammar is a method that takes up the tokens of the rule or
//! returns the first fault.

use vstd::prelude::*;
use crate::descent::{
    advance_outcome, array_outcome, consumes, document_outcome, eat_outcome, elements_outcome,
    members_outcome, object_outcome, pair_outcome, value_outcome, verdict,
};
use crate::fault::Fault;
use crate::lexer::{Lexer, Token, TokenType};
use crate::scan::{lemma_lex, lemma_lex_skips_whitespace, lemma_ws_end, lex, Scanned};
use crate::stream::{
    lemma_skip, lemma_stream_head, lemma_stream_skips_whitespace, stream_from, Stream,
};

verus! {

/// The outcome of a list whose first `n` tokens have been taken up: `n` if
/// the list ends there, and otherwise the outcome `rest` of what is left of
/// it, with `n` tokens more on success.
spec fn behind(n: nat, more: bool, rest: Result<nat, Fault>) -> Result<nat, Fault> {
    if more {
        match rest {
            Ok(m) => Ok(n + m),
            Err(f) => Err(f),
        }
    } else {
        Ok(n)
    }
}

/// The grammar checker: a tokenizer, the token that it returned last and the
/// position at which that token starts.
pub struct Validator {
    lexer: Lexer,
    current_token: Token,
    token_start: usize,
}

impl View for Validator {
    type V = Stream;

    /// The tokens that are left to check, the current one first.
    closed spec fn view(&self) -> Stream {
        self.stream()
    }
}

impl Validator {
    /// The stream of the text from the start of the current token on.
    #[verifier::opaque]
    closed spec fn stream(&self) -> Stream {
        stream_from(self.lexer@.text, self.token_start as int)
    }

    /// The checker's invariant: the current token is the one that the
    /// tokenizer finds at the recorded start, and the tokenizer's cursor
    /// stands behind it.
    #[verifier::opaque]
    pub closed spec fn wf(&self) -> bool {
        &&& self.lexer.wf()
        &&& self.token_start <= self.lexer@.text.len()
        &&& lex(self.lexer@.text, self.token_start as int) == Ok::<Scanned, Fault>(
            Scanned {
                kind: self.current_token.ttype,
                start: self.token_start as int,
                end: self.lexer@.pos,
            },
        )
    }

    /// A well-formed checker has a current token. It is never `NONE`, and it
    /// is `EOF` just when no token is left before the end of the text.
    pub proof fn lemma_live(&self)
        requires
            self.wf(),
        ensures
            self@.live(),
            self@.kind() != TokenType::NONE,
            self@.kind() == TokenType::EOF <==> self@.tokens.len() == 0,
    {
        reveal(Validator::wf);
        reveal(Validator::stream);
        self.lexer.lemma_cursor_in_text();
        lemma_stream_head(self.lexer@.text, self.token_start as int);
        lemma_lex(self.lexer@.text, self.token_start as int);
    }

    /// Makes a checker that reads from `lexer`, and fetches the first token.
    pub fn new(lexer: Lexer) -> (r: Result<Validator, Fault>)
        requires
            lexer.wf(),
        ensures
            match stream_from(lexer@.text, lexer@.pos).opening_fault() {
                Some(f) => r matches Err(e) && e == f,
                None => r matches Ok(v) && v.wf() && v@ == stream_from(lexer@.text, lexer@.pos),
            },
    {
        let mut lexer = lexer;
        let ghost text = lexer@.text;
        let ghost pos = lexer@.pos;
        proof {
            reveal(Validator::wf);
            reveal(Validator::stream);
            lexer.lemma_cursor_in_text();
            lemma_ws_end(text, pos);
            lemma_lex(text, pos);
            lemma_lex_skips_whitespace(text, pos);
            lemma_stream_head(text, pos);
            lemma_stream_skips_whitespace(text, pos);
        }
        lexer.skip_whitespace();
        let token_start = lexer.pos();
        match lexer.get_next_token() {
            Err(f) => Err(f),
            Ok(current_token) => Ok(Validator { lexer, current_token, token_start }),
        }
    }

    /// Returns the current token.
    pub fn current(&self) -> (t: Token)
        requires
            self.wf(),
        ensures
            t.ttype == self@.kind(),
    {
        proof {
            reveal(Validator::wf);
            reveal(Validator::stream);
            self.lexer.lemma_cursor_in_text();
            lemma_stream_head(self.lexer@.text, self.token_start as int);
        }
        self.current_token
    }

    /// Returns the position at which the current token starts.
    pub fn position(&self) -> (p: usize)
        requires
            self.wf(),
        ensures
            p == self@.start(),
    {
        proof {
            reveal(Validator::wf);
            reveal(Validator::stream);
            self.lexer.lemma_cursor_in_text();
            lemma_stream_head(self.lexer@.text, self.token_start as int);
        }
        self.token_start
    }

    /// Accepts the current token and fetches the next.
    fn fetch(&mut self) -> (r: Result<(), Fault>)
        requires
            old(self).wf(),
        ensures
            r is Ok ==> final(self).wf(),
            consumes(old(self)@, final(self)@, r, advance_outcome(old(self)@)),
    {
        let ghost text = self.lexer@.text;
        let ghost start = self.token_start as int;
        let ghost end = self.lexer@.pos;
        proof {
            reveal(Validator::wf);
            reveal(Validator::stream);
            self.lexer.lemma_cursor_in_text();
            lemma_lex(text, start);
            lemma_stream_head(text, start);
            lemma_ws_end(text, end);
            lemma_lex(text, end);
            lemma_lex_skips_whitespace(text, end);
            lemma_stream_head(text, end);
            lemma_stream_skips_whitespace(text, end);
            lemma_skip(self@, 0, 0);
        }
        self.lexer.skip_whitespace();
        let token_start = self.lexer.pos();
        match self.lexer.get_next_token() {
            Err(f) => Err(f),
            Ok(token) => {
                self.current_token = token;
                self.token_start = token_start;
                Ok(())
            },
        }
    }

    /// Requires the current token to be of type `lookahead`: accepts it and
    /// fetches the next if it is, and returns `UnexpectedToken` if not.
    pub fn eat(&mut self, lookahead: TokenType) -> (r: Result<(), Fault>)
        requires
            old(self).wf(),
        ensures
            r is Ok ==> final(self).wf(),
            consumes(old(self)@, final(self)@, r, eat_outcome(old(self)@, lookahead)),
    {
        proof {
            reveal(Validator::wf);
            reveal(Validator::stream);
            self.lexer.lemma_cursor_in_text();
            lemma_stream_head(self.lexer@.text, self.token_start as int);
        }
        if self.current_token.ttype == lookahead {
            self.fetch()
        } else {
            Err(
                Fault::UnexpectedToken {
                    expected: lookahead,
                    actual: self.current_token.ttype,
                    position: self.token_start,
                },
            )
        }
    }

    /// Checks a value: an object, an array, or a single token that is a
    /// string, a number, `true`, `false` or `null`.
    pub fn value(&mut self) -> (r: Result<(), Fault>)
        requires
            old(self).wf(),
        ensures
            r is Ok ==> final(self).wf(),
            consumes(old(self)@, final(self)@, r, value_outcome(old(self)@)),
        decreases old(self)@.tokens.len(), 2int,
    {
        proof {
            reveal(Validator::wf);
            reveal(Validator::stream);
            self.lexer.lemma_cursor_in_text();
            lemma_stream_head(self.lexer@.text, self.token_start as int);
        }
        match self.current_token.ttype {
            TokenType::OPBR => self.object(),
            TokenType::OPSQ => self.array(),
            TokenType::TRUE => self.eat(TokenType::TRUE),
            TokenType::FALSE => self.eat(TokenType::FALSE),
            TokenType::NUMBER => self.eat(TokenType::NUMBER),
            TokenType::NULL => self.eat(TokenType::NULL),
            TokenType::STRING => self.eat(TokenType::STRING),
            _ => Err(Fault::InvalidValue { position: self.token_start }),
        }
    }

    /// Checks one element of an array and what follows it: a comma, behind
    /// which another element must stand, or the closing bracket. Tells
    /// whether another element follows.
    fn element(&mut self) -> (r: Result<bool, Fault>)
        requires
            old(self).wf(),
        ensures
            match r {
                Err(f) => elements_outcome(old(self)@) == Err::<nat, Fault>(f),
                Ok(more) => {
                    &&& final(self).wf()
                    &&& value_outcome(old(self)@) is Ok
                    &&& final(self)@ == old(self)@.skip(value_outcome(old(self)@)->Ok_0 + 1)
                    &&& final(self)@.tokens.len() < old(self)@.tokens.len()
                    &&& elements_outcome(old(self)@) == behind(
                        value_outcome(old(self)@)->Ok_0 + 1,
                        more,
                        elements_outcome(final(self)@),
                    )
                },
            },
        decreases old(self)@.tokens.len(), 3int,
    {
        match self.value() {
            Err(f) => {
                return Err(f);
            },
            Ok(()) => {},
        }
        proof {
            lemma_skip(old(self)@, value_outcome(old(self)@)->Ok_0, 1);
        }
        if self.current().ttype == TokenType::COMMA {
            match self.fetch() {
                Err(f) => {
                    return Err(f);
                },
                Ok(()) => {},
            }
            if self.current().ttype == TokenType::CLSQ {
                return Err(
                    Fault::UnexpectedToken {
                        expected: TokenType::STRING,
                        actual: TokenType::CLSQ,
                        position: self.position(),
                    },
                );
            }
            Ok(true)
        } else {
            match self.eat(TokenType::CLSQ) {
                Err(f) => Err(f),
                Ok(()) => Ok(false),
            }
        }
    }

    /// Checks an array: `[`, values with a comma between each two, and `]`.
    pub fn array(&mut self) -> (r: Result<(), Fault>)
        requires
            old(self).wf(),
        ensures
            r is Ok ==> final(self).wf(),
            consumes(old(self)@, final(self)@, r, array_outcome(old(self)@)),
        decreases old(self)@.tokens.len(), 1int,
    {
        match self.eat(TokenType::OPSQ) {
            Err(f) => {
                return Err(f);
            },
            Ok(()) => {},
        }
        if self.current().ttype == TokenType::CLSQ {
            proof {
                lemma_skip(old(self)@, 1, 1);
            }
            return self.eat(TokenType::CLSQ);
        }
        let ghost inner = self@;
        let ghost mut taken: nat = 0;
        proof {
            lemma_skip(inner, 0, 0);
        }
        loop
            invariant
                self.wf(),
                inner == old(self)@.skip(1),
                self@ == inner.skip(taken),
                self@.tokens.len() < old(self)@.tokens.len(),
                array_outcome(old(self)@) == behind(1, true, elements_outcome(inner)),
                elements_outcome(inner) == behind(taken, true, elements_outcome(self@)),
            decreases self@.tokens.len(),
        {
            let ghost n = value_outcome(self@)->Ok_0 + 1;
            match self.element() {
                Err(f) => {
                    return Err(f);
                },
                Ok(more) => {
                    proof {
                        lemma_skip(inner, taken, n);
                        lemma_skip(old(self)@, 1, taken + n);
                        taken = taken + n;
                    }
                    if !more {
                        return Ok(());
                    }
                },
            }
        }
    }

    /// Checks a pair: a string, a colon and a value.
    pub fn pair(&mut self) -> (r: Result<(), Fault>)
        requires
            old(self).wf(),
        ensures
            r is Ok ==> final(self).wf(),
            consumes(old(self)@, final(self)@, r, pair_outcome(old(self)@)),
        decreases old(self)@.tokens.len(), 3int,
    {
        match self.eat(TokenType::STRING) {
            Err(f) => {
                return Err(f);
            },
            Ok(()) => {},
        }
        match self.eat(TokenType::COLON) {
            Err(f) => {
                return Err(f);
            },
            Ok(()) => {},
        }
        proof {
            lemma_skip(old(self)@, 1, 1);
            if let Ok(n) = value_outcome(old(self)@.skip(2)) {
                lemma_skip(old(self)@, 2, n);
            }
        }
        self.value()
    }

    /// Checks one pair of an object and what follows it: a comma, behind
    /// which another pair must stand, or the closing brace. Tells whether
    /// another pair follows.
    fn member(&mut self) -> (r: Result<bool, Fault>)
        requires
            old(self).wf(),
        ensures
            match r {
                Err(f) => members_outcome(old(self)@) == Err::<nat, Fault>(f),
                Ok(more) => {
                    &&& final(self).wf()
                    &&& pair_outcome(old(self)@) is Ok
                    &&& final(self)@ == old(self)@.skip(pair_outcome(old(self)@)->Ok_0 + 1)
                    &&& final(self)@.tokens.len() < old(self)@.tokens.len()
                    &&& members_outcome(old(self)@) == behind(
                        pair_outcome(old(self)@)->Ok_0 + 1,
                        more,
                        members_outcome(final(self)@),
                    )
                },
            },
        decreases old(self)@.tokens.len(), 4int,
    {
        match self.pair() {
            Err(f) => {
                return Err(f);
            },
            Ok(()) => {},
        }
        proof {
            lemma_skip(old(self)@, pair_outcome(old(self)@)->Ok_0, 1);
        }
        if self.current().ttype == TokenType::COMMA {
            match self.fetch() {
                Err(f) => Err(f),
                Ok(()) => Ok(true),
            }
        } else {
            match self.eat(TokenType::CLBR) {
                Err(f) => Err(f),
                Ok(()) => Ok(false),
            }
        }
    }

    /// Checks an object: `{`, pairs with a comma between each two, and `}`.
    pub fn object(&mut self) -> (r: Result<(), Fault>)
        requires
            old(self).wf(),
        ensures
            r is Ok ==> final(self).wf(),
            consumes(old(self)@, final(self)@, r, object_outcome(old(self)@)),
        decreases old(self)@.tokens.len(), 1int,
    {
        match self.eat(TokenType::OPBR) {
            Err(f) => {
                return Err(f);
            },
            Ok(()) => {},
        }
        if self.current().ttype == TokenType::CLBR {
            proof {
                lemma_skip(old(self)@, 1, 1);
            }
            return self.eat(TokenType::CLBR);
        }
        let ghost inner = self@;
        let ghost mut taken: nat = 0;
        proof {
            lemma_skip(inner, 0, 0);
        }
        loop
            invariant
                self.wf(),
                inner == old(self)@.skip(1),
                self@ == inner.skip(taken),
                self@.tokens.len() < old(self)@.tokens.len(),
                object_outcome(old(self)@) == behind(1, true, members_outcome(inner)),
                members_outcome(inner) == behind(taken, true, members_outcome(self@)),
            decreases self@.tokens.len(),
        {
            let ghost n = pair_outcome(self@)->Ok_0 + 1;
            match self.member() {
                Err(f) => {
                    return Err(f);
                },
                Ok(more) => {
                    proof {
                        lemma_skip(inner, taken, n);
                        lemma_skip(old(self)@, 1, taken + n);
                        taken = taken + n;
                    }
                    if !more {
                        return Ok(());
                    }
                },
            }
        }
    }

    /// Checks a document: an object or an array, with nothing behind it but
    /// the end of the text.
    pub fn validate(&mut self) -> (r: Result<(), Fault>)
        requires
            old(self).wf(),
        ensures
            r == document_outcome(old(self)@),
            r is Ok ==> final(self).wf() && final(self)@.kind() == TokenType::EOF,
    {
        let kind = self.current().ttype;
        if kind == TokenType::OPSQ || kind == TokenType::OPBR {
            match self.value() {
                Err(f) => {
                    return Err(f);
                },
                Ok(()) => {},
            }
            proof {
                self.lemma_live();
                lemma_skip(self@, 0, 0);
            }
            match self.eat(TokenType::EOF) {
                Err(f) => Err(f),
                Ok(()) => Ok(()),
            }
        } else {
            Err(Fault::InvalidValue { position: self.position() })
        }
    }
}

/// Checks whether `input` is a well-formed document, and returns the first
/// fault in it if it is not.
pub fn validate_text(input: &str) -> (r: Result<(), Fault>)
    ensures
        r == verdict(input@),
{
    match Validator::new(Lexer::over(input)) {
        Err(f) => Err(f),
        Ok(validator) => {
            let mut validator = validator;
            validator.validate()
        },
    }
}

} // verus!
