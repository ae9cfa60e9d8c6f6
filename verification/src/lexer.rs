//! The lexer: from characters to tokens, one token on demand.

use vstd::prelude::*;
use crate::text::{
    chars_of, check_digit, check_whitespace, check_word_part, check_word_start, is_digit,
    is_whitespace, is_word_part, is_word_start, string_from_chars,
};
use crate::token::{end_of_input, keyword_kind, Token, TokenType, TokenView};

verus! {

/// The character at a position; the sentinel `NUL` past the end.
pub open spec fn char_at(input: Seq<char>, position: int) -> char {
    if 0 <= position < input.len() {
        input[position]
    } else {
        '\0'
    }
}

/// The first position from `position` on that holds no blank.
pub open spec fn skip_blanks(input: Seq<char>, position: int) -> int
    decreases input.len() - position,
{
    if 0 <= position < input.len() && is_whitespace(input[position]) {
        skip_blanks(input, position + 1)
    } else {
        position
    }
}

/// The end of the longest run of word characters that starts at `position`.
pub open spec fn word_end(input: Seq<char>, position: int) -> int
    decreases input.len() - position,
{
    if 0 <= position < input.len() && is_word_part(input[position]) {
        word_end(input, position + 1)
    } else {
        position
    }
}

/// The end of the longest run of digits that starts at `position`.
pub open spec fn number_end(input: Seq<char>, position: int) -> int
    decreases input.len() - position,
{
    if 0 <= position < input.len() && is_digit(input[position]) {
        number_end(input, position + 1)
    } else {
        position
    }
}

/// The kind of a token that is one character of punctuation, whatever follows it.
pub open spec fn punctuation_kind(c: char) -> Option<TokenType> {
    if c == '+' {
        Some(TokenType::Plus)
    } else if c == '-' {
        Some(TokenType::Minus)
    } else if c == '*' {
        Some(TokenType::Star)
    } else if c == '/' {
        Some(TokenType::Slash)
    } else if c == '<' {
        Some(TokenType::Lt)
    } else if c == '>' {
        Some(TokenType::Gt)
    } else if c == ',' {
        Some(TokenType::Comma)
    } else if c == ';' {
        Some(TokenType::Semicolon)
    } else if c == '(' {
        Some(TokenType::LParen)
    } else if c == ')' {
        Some(TokenType::RParen)
    } else if c == '{' {
        Some(TokenType::LBrace)
    } else if c == '}' {
        Some(TokenType::RBrace)
    } else {
        None
    }
}

/// A token together with the position that follows it.
pub struct Lexed {
    pub token: TokenView,
    pub next: int,
}

/// The token that starts at `start`, a position that holds no blank.
///
/// But for `Eof`, the lexeme is the stretch of input that the token covers.
pub open spec fn token_at(input: Seq<char>, start: int) -> Lexed {
    if !(0 <= start < input.len()) {
        Lexed { token: end_of_input(), next: start }
    } else {
        let c = input[start];
        if c == '=' || c == '!' {
            if char_at(input, start + 1) == '=' {
                Lexed {
                    token: TokenView {
                        kind: if c == '=' {
                            TokenType::Eq
                        } else {
                            TokenType::NotEq
                        },
                        literal: input.subrange(start, start + 2),
                    },
                    next: start + 2,
                }
            } else {
                Lexed {
                    token: TokenView {
                        kind: if c == '=' {
                            TokenType::Assign
                        } else {
                            TokenType::Bang
                        },
                        literal: input.subrange(start, start + 1),
                    },
                    next: start + 1,
                }
            }
        } else if punctuation_kind(c) is Some {
            Lexed {
                token: TokenView {
                    kind: punctuation_kind(c)->0,
                    literal: input.subrange(start, start + 1),
                },
                next: start + 1,
            }
        } else if c == '\0' {
            Lexed { token: end_of_input(), next: start + 1 }
        } else if is_word_start(c) {
            let end = word_end(input, start);
            let word = input.subrange(start, end);
            Lexed { token: TokenView { kind: keyword_kind(word), literal: word }, next: end }
        } else if is_digit(c) {
            let end = number_end(input, start);
            Lexed {
                token: TokenView { kind: TokenType::Int, literal: input.subrange(start, end) },
                next: end,
            }
        } else {
            Lexed {
                token: TokenView {
                    kind: TokenType::Illegal,
                    literal: input.subrange(start, start + 1),
                },
                next: start + 1,
            }
        }
    }
}

/// The next token from `position` on: blanks are skipped, then a token is read.
pub open spec fn lex(input: Seq<char>, position: int) -> Lexed {
    token_at(input, skip_blanks(input, position))
}

/// Skipping blanks moves forward, and never past the end.
pub proof fn lemma_skip_blanks_bounds(input: Seq<char>, position: int)
    requires
        0 <= position <= input.len(),
    ensures
        position <= skip_blanks(input, position) <= input.len(),
    decreases input.len() - position,
{
    if position < input.len() && is_whitespace(input[position]) {
        lemma_skip_blanks_bounds(input, position + 1);
    }
}

/// A run of word characters ends at or after its start, and never past the end.
pub proof fn lemma_word_end_bounds(input: Seq<char>, position: int)
    requires
        0 <= position <= input.len(),
    ensures
        position <= word_end(input, position) <= input.len(),
    decreases input.len() - position,
{
    if position < input.len() && is_word_part(input[position]) {
        lemma_word_end_bounds(input, position + 1);
    }
}

/// A run of digits ends at or after its start, and never past the end.
pub proof fn lemma_number_end_bounds(input: Seq<char>, position: int)
    requires
        0 <= position <= input.len(),
    ensures
        position <= number_end(input, position) <= input.len(),
    decreases input.len() - position,
{
    if position < input.len() && is_digit(input[position]) {
        lemma_number_end_bounds(input, position + 1);
    }
}

/// Reading a token moves forward: past at least one character while any is
/// left, and never past the end. At the end of the input the token is `Eof`
/// and the position stays.
pub proof fn lemma_lex_progress(input: Seq<char>, position: int)
    requires
        0 <= position <= input.len(),
    ensures
        position <= lex(input, position).next <= input.len(),
        position < input.len() ==> position < lex(input, position).next,
        position == input.len() ==> lex(input, position).token == end_of_input(),
{
    lemma_skip_blanks_bounds(input, position);
    let start = skip_blanks(input, position);
    if start < input.len() {
        lemma_word_end_bounds(input, start + 1);
        lemma_number_end_bounds(input, start + 1);
    }
}

/// The tokens from `position` to the end of the input, one for each call
/// that moves the lexer. After them every token is `Eof`.
pub open spec fn token_stream(input: Seq<char>, position: int) -> Seq<TokenView>
    decreases input.len() - position,
{
    if 0 <= position < input.len() {
        proof {
            lemma_lex_progress(input, position);
        }
        seq![lex(input, position).token] + token_stream(input, lex(input, position).next)
    } else {
        Seq::empty()
    }
}

/// Where the lexer stands after a number of calls.
pub open spec fn position_after(input: Seq<char>, position: int, calls: nat) -> int
    decreases calls,
{
    if calls == 0 {
        position
    } else {
        lex(input, position_after(input, position, (calls - 1) as nat)).next
    }
}

/// The token that the call after `calls` calls returns.
pub open spec fn nth_token(input: Seq<char>, position: int, calls: nat) -> TokenView {
    lex(input, position_after(input, position, calls)).token
}

/// Where the lexer stands after some calls: within the input, and further on
/// by at least one character for each call, unless it has reached the end.
pub proof fn lemma_position_after_bounds(input: Seq<char>, position: int, calls: nat)
    requires
        0 <= position <= input.len(),
    ensures
        position <= position_after(input, position, calls) <= input.len(),
        position_after(input, position, calls) >= position + calls || position_after(
            input,
            position,
            calls,
        ) == input.len(),
    decreases calls,
{
    if calls > 0 {
        lemma_position_after_bounds(input, position, (calls - 1) as nat);
        lemma_lex_progress(input, position_after(input, position, (calls - 1) as nat));
    }
}

/// The lexer is total: from any position of any input, after as many calls
/// as characters are left the lexer stands at the end, and that call and
/// every later one returns `Eof`.
pub proof fn lemma_lexer_reaches_the_end(input: Seq<char>, position: int, calls: nat)
    requires
        0 <= position <= input.len(),
        calls >= input.len() - position,
    ensures
        position_after(input, position, calls) == input.len(),
        nth_token(input, position, calls) == end_of_input(),
{
    lemma_position_after_bounds(input, position, calls);
    lemma_lex_progress(input, input.len() as int);
}

/// In an input without `NUL`, `Eof` is returned at the end and nowhere else:
/// a call that returns `Eof` has moved the lexer to the end.
pub proof fn lemma_eof_only_at_the_end(input: Seq<char>, position: int)
    requires
        0 <= position <= input.len(),
        forall|i: int| position <= i < input.len() ==> input[i] != '\0',
        lex(input, position).token.kind == TokenType::Eof,
    ensures
        lex(input, position).next == input.len(),
{
    lemma_skip_blanks_bounds(input, position);
    let start = skip_blanks(input, position);
    if start < input.len() {
        let c = input[start];
        reveal_strlit("fn");
        reveal_strlit("let");
        reveal_strlit("if");
        reveal_strlit("else");
        reveal_strlit("true");
        reveal_strlit("false");
        reveal_strlit("return");
        lemma_word_end_bounds(input, start);
    }
}

/// In an input without `NUL`, once a call has returned `Eof` every later call does.
pub proof fn lemma_eof_is_final(input: Seq<char>, position: int, calls: nat, later: nat)
    requires
        0 <= position <= input.len(),
        forall|i: int| 0 <= i < input.len() ==> input[i] != '\0',
        nth_token(input, position, calls).kind == TokenType::Eof,
        later > calls,
    ensures
        nth_token(input, position, later) == end_of_input(),
        position_after(input, position, later) == input.len(),
    decreases later - calls,
{
    lemma_position_after_bounds(input, position, calls);
    lemma_eof_only_at_the_end(input, position_after(input, position, calls));
    if later == calls + 1 {
        lemma_lex_progress(input, input.len() as int);
    } else {
        lemma_eof_is_final(input, position, calls, (later - 1) as nat);
        lemma_lex_progress(input, input.len() as int);
    }
}

/// The blanks in front of the next token and the lexeme of that token, and
/// so on to the end of the input.
pub open spec fn spelling(input: Seq<char>, position: int) -> Seq<char>
    decreases input.len() - position,
{
    if 0 <= position < input.len() {
        proof {
            lemma_lex_progress(input, position);
        }
        input.subrange(position, skip_blanks(input, position)) + lex(
            input,
            position,
        ).token.literal + spelling(input, lex(input, position).next)
    } else {
        Seq::empty()
    }
}

/// What the lexer skips in front of a token is blanks and nothing else.
pub proof fn lemma_skipped_is_blank(input: Seq<char>, position: int, i: int)
    requires
        0 <= position <= i < skip_blanks(input, position),
        position <= input.len(),
    ensures
        i < input.len(),
        is_whitespace(input[i]),
    decreases input.len() - position,
{
    if position < input.len() && is_whitespace(input[position]) {
        if i > position {
            lemma_skipped_is_blank(input, position + 1, i);
        }
    }
}

/// A token that is not `Eof` is spelled as the input is: its lexeme is the
/// stretch of input from the first character that is no blank to the
/// position after the token.
pub proof fn lemma_lexeme_is_input(input: Seq<char>, position: int)
    requires
        0 <= position <= input.len(),
        lex(input, position).token.kind != TokenType::Eof,
    ensures
        skip_blanks(input, position) < lex(input, position).next <= input.len(),
        lex(input, position).token.literal == input.subrange(
            skip_blanks(input, position),
            lex(input, position).next,
        ),
{
    lemma_lex_progress(input, position);
    lemma_skip_blanks_bounds(input, position);
    let start = skip_blanks(input, position);
    if start < input.len() {
        lemma_word_end_bounds(input, start + 1);
        lemma_number_end_bounds(input, start + 1);
    }
}

/// The tokens are faithful to the input: in an input without `NUL`, the
/// lexemes of the tokens, each after the blanks that the lexer skipped in
/// front of it, spell the input from the position on.
pub proof fn lemma_tokens_spell_the_input(input: Seq<char>, position: int)
    requires
        0 <= position <= input.len(),
        forall|i: int| position <= i < input.len() ==> input[i] != '\0',
    ensures
        spelling(input, position) == input.subrange(position, input.len() as int),
    decreases input.len() - position,
{
    if position < input.len() {
        lemma_lex_progress(input, position);
        lemma_skip_blanks_bounds(input, position);
        let start = skip_blanks(input, position);
        let next = lex(input, position).next;
        lemma_tokens_spell_the_input(input, next);
        if lex(input, position).token.kind == TokenType::Eof {
            lemma_eof_only_at_the_end(input, position);
            assert(start == input.len()) by {
                if start < input.len() {
                    lemma_word_end_bounds(input, start + 1);
                    lemma_number_end_bounds(input, start + 1);
                }
            }
            assert(lex(input, position).token.literal =~= Seq::<char>::empty());
        } else {
            lemma_lexeme_is_input(input, position);
        }
        assert(spelling(input, position) =~= input.subrange(position, input.len() as int));
    } else {
        assert(spelling(input, position) =~= input.subrange(position, input.len() as int));
    }
}

/// What a lexer is, as a mathematical value: the input and the position of
/// the character under examination.
pub struct LexerView {
    pub input: Seq<char>,
    pub position: int,
}

/// A cursor over the characters of the input that hands out tokens on demand.
pub struct Lexer {
    /// The whole input.
    input: Vec<char>,
    /// The position of the character under examination.
    current_position: usize,
    /// The position of the character after it.
    next_position: usize,
    /// The character under examination, `NUL` at the end of the input.
    ch: char,
}

impl View for Lexer {
    type V = LexerView;

    closed spec fn view(&self) -> LexerView {
        LexerView { input: self.input@, position: self.current_position as int }
    }
}

impl Lexer {
    /// The invariant of the cursor: the position lies within the input or at
    /// its end, and the character held is the one at the position.
    pub closed spec fn wf(&self) -> bool {
        &&& self.current_position <= self.input.len()
        &&& self.next_position == if self.current_position < self.input.len() {
            self.current_position + 1
        } else {
            self.input.len() as int
        }
        &&& self.ch == char_at(self.input@, self.current_position as int)
    }

    /// A well-formed lexer stands within its input or at its end.
    pub proof fn lemma_position_bounds(&self)
        requires
            self.wf(),
        ensures
            0 <= self@.position <= self@.input.len(),
    {
    }

    /// A lexer at the start of `input`.
    pub fn new(input: &str) -> (lexer: Lexer)
        ensures
            lexer.wf(),
            lexer@.input == input@,
            lexer@.position == 0,
    {
        let mut lexer = Lexer {
            input: chars_of(input),
            current_position: 0,
            next_position: 0,
            ch: '\0',
        };
        lexer.read_char();
        lexer
    }

    /// Reads the next token and moves past it.
    ///
    /// While input is left, each call moves forward; at the end of the input
    /// every call returns `Eof` and leaves the lexer as it is.
    pub fn next_token(&mut self) -> (token: Token)
        requires
            old(self).wf(),
        ensures
            final(self).wf(),
            final(self)@.input == old(self)@.input,
            token@ == lex(old(self)@.input, old(self)@.position).token,
            final(self)@.position == lex(old(self)@.input, old(self)@.position).next,
            old(self)@.position <= final(self)@.position <= old(self)@.input.len(),
            old(self)@.position < old(self)@.input.len() ==> final(self)@.position > old(
                self,
            )@.position,
            old(self)@.position == old(self)@.input.len() ==> token@ == end_of_input(),
    {
        proof {
            lemma_lex_progress(self@.input, self@.position);
        }
        self.skip_whitespace();
        let c = self.ch;
        let start: usize = self.current_position;
        if start >= self.input.len() {
            return Token { kind: TokenType::Eof, literal: String::new() };
        }
        let token = if c == '=' {
            self.make_two_char_token('=', TokenType::Assign, TokenType::Eq)
        } else if c == '!' {
            self.make_two_char_token('=', TokenType::Bang, TokenType::NotEq)
        } else if c == '+' {
            self.single(TokenType::Plus)
        } else if c == '-' {
            self.single(TokenType::Minus)
        } else if c == '*' {
            self.single(TokenType::Star)
        } else if c == '/' {
            self.single(TokenType::Slash)
        } else if c == '<' {
            self.single(TokenType::Lt)
        } else if c == '>' {
            self.single(TokenType::Gt)
        } else if c == ',' {
            self.single(TokenType::Comma)
        } else if c == ';' {
            self.single(TokenType::Semicolon)
        } else if c == '(' {
            self.single(TokenType::LParen)
        } else if c == ')' {
            self.single(TokenType::RParen)
        } else if c == '{' {
            self.single(TokenType::LBrace)
        } else if c == '}' {
            self.single(TokenType::RBrace)
        } else if c == '\0' {
            Token { kind: TokenType::Eof, literal: String::new() }
        } else if check_word_start(c) {
            return Token::from_ident(self.read_identifier());
        } else if check_digit(c) {
            return Token { kind: TokenType::Int, literal: self.read_number() };
        } else {
            self.single(TokenType::Illegal)
        };
        self.read_char();
        token
    }

    /// Moves to the next character; at the end of the input, stays there.
    fn read_char(&mut self) -> (c: char)
        requires
            old(self).next_position <= old(self).input.len(),
        ensures
            final(self).wf(),
            final(self).input == old(self).input,
            final(self).current_position == old(self).next_position,
            c == final(self).ch,
    {
        if self.next_position >= self.input.len() {
            self.ch = '\0';
            self.current_position = self.next_position;
        } else {
            self.ch = self.input[self.next_position];
            self.current_position = self.next_position;
            self.next_position += 1;
        }
        self.ch
    }

    /// The character after the one under examination; `NUL` past the end.
    fn peek_char(&self) -> (c: char)
        requires
            self.wf(),
        ensures
            c == char_at(self@.input, self@.position + 1),
    {
        if self.next_position >= self.input.len() {
            '\0'
        } else {
            self.input[self.next_position]
        }
    }

    /// Moves past the blanks at the position.
    fn skip_whitespace(&mut self)
        requires
            old(self).wf(),
        ensures
            final(self).wf(),
            final(self).input == old(self).input,
            final(self)@.position == skip_blanks(old(self)@.input, old(self)@.position),
    {
        while check_whitespace(self.ch)
            invariant
                self.wf(),
                self.input == old(self).input,
                skip_blanks(self@.input, self@.position) == skip_blanks(
                    old(self)@.input,
                    old(self)@.position,
                ),
            decreases self.input.len() - self.current_position,
        {
            self.read_char();
        }
    }

    /// Reads the run of word characters at the position and moves past it.
    fn read_identifier(&mut self) -> (word: String)
        requires
            old(self).wf(),
        ensures
            final(self).wf(),
            final(self).input == old(self).input,
            final(self)@.position == word_end(old(self)@.input, old(self)@.position),
            word@ == old(self)@.input.subrange(old(self)@.position, final(self)@.position),
    {
        let position: usize = self.current_position;
        while check_word_part(self.ch)
            invariant
                self.wf(),
                self.input == old(self).input,
                position <= self.current_position,
                word_end(self@.input, self@.position) == word_end(
                    old(self)@.input,
                    old(self)@.position,
                ),
            decreases self.input.len() - self.current_position,
        {
            self.read_char();
        }
        string_from_chars(&self.input, position, self.current_position)
    }

    /// Reads the run of digits at the position and moves past it.
    fn read_number(&mut self) -> (digits: String)
        requires
            old(self).wf(),
        ensures
            final(self).wf(),
            final(self).input == old(self).input,
            final(self)@.position == number_end(old(self)@.input, old(self)@.position),
            digits@ == old(self)@.input.subrange(old(self)@.position, final(self)@.position),
    {
        let position: usize = self.current_position;
        while check_digit(self.ch)
            invariant
                self.wf(),
                self.input == old(self).input,
                position <= self.current_position,
                number_end(self@.input, self@.position) == number_end(
                    old(self)@.input,
                    old(self)@.position,
                ),
            decreases self.input.len() - self.current_position,
        {
            self.read_char();
        }
        string_from_chars(&self.input, position, self.current_position)
    }

    /// The token of one character at the position. The lexer stays.
    fn single(&self, kind: TokenType) -> (token: Token)
        requires
            self.wf(),
            self@.position < self@.input.len(),
        ensures
            token@ == (TokenView {
                kind,
                literal: self@.input.subrange(self@.position, self@.position + 1),
            }),
    {
        Token {
            kind,
            literal: string_from_chars(
                &self.input,
                self.current_position,
                self.current_position + 1,
            ),
        }
    }

    /// The token at the position where one character may be followed by
    /// `next_char` to make a token of two. Ends on the last character of the
    /// token.
    fn make_two_char_token(
        &mut self,
        next_char: char,
        single_char_type: TokenType,
        double_char_type: TokenType,
    ) -> (token: Token)
        requires
            old(self).wf(),
            old(self)@.position < old(self)@.input.len(),
            next_char != '\0',
        ensures
            final(self).wf(),
            final(self).input == old(self).input,
            final(self)@.position < final(self)@.input.len(),
            char_at(old(self)@.input, old(self)@.position + 1) == next_char ==> {
                &&& final(self)@.position == old(self)@.position + 1
                &&& token@ == (TokenView {
                    kind: double_char_type,
                    literal: old(self)@.input.subrange(
                        old(self)@.position,
                        old(self)@.position + 2,
                    ),
                })
            },
            char_at(old(self)@.input, old(self)@.position + 1) != next_char ==> {
                &&& final(self)@.position == old(self)@.position
                &&& token@ == (TokenView {
                    kind: single_char_type,
                    literal: old(self)@.input.subrange(
                        old(self)@.position,
                        old(self)@.position + 1,
                    ),
                })
            },
    {
        let position: usize = self.current_position;
        let kind = if self.peek_char() == next_char {
            self.read_char();
            double_char_type
        } else {
            single_char_type
        };
        Token {
            kind,
            literal: string_from_chars(&self.input, position, self.current_position + 1),
        }
    }
}

} // verus!
