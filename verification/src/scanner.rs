//! The scanner: from the characters of a source text to its tokens.
//!
//! What the scanner yields is defined on sequences of characters by
//! [`next_step`] and [`scan`]; [`Scanner`] computes it one element at a
//! time.

pub mod laws;

use crate::text::{blank, digit, is_blank, is_digit, continues_word, starts_word, word_part, word_start};
use crate::text::{characters_of, decimal, push_decimal, string_of};
use crate::token::{classify_word, word_kind, Token, TokenKind, TokenKindView, TokenView};
use vstd::prelude::*;

verus! {

/// What the scanner reports in place of a token.
#[derive(Debug, Clone, Copy, PartialEq, Eq)]
pub enum ScannerError {
    /// A character that begins no token.
    UnknownCharacter { character: char, line: usize },
    /// The text ended inside a string literal; `line` is the line of the end.
    UnterminatedString { line: usize },
}

/// The mathematical model of a [`ScannerError`].
pub enum ScannerErrorView {
    UnknownCharacter { character: char, line: nat },
    UnterminatedString { line: nat },
}

impl View for ScannerError {
    type V = ScannerErrorView;

    open spec fn view(&self) -> ScannerErrorView {
        match self {
            ScannerError::UnknownCharacter { character, line } => ScannerErrorView::UnknownCharacter {
                character: *character,
                line: *line as nat,
            },
            ScannerError::UnterminatedString { line } => ScannerErrorView::UnterminatedString {
                line: *line as nat,
            },
        }
    }
}

impl DeepView for ScannerError {
    type V = ScannerErrorView;

    open spec fn deep_view(&self) -> ScannerErrorView {
        self@
    }
}

/// The message of a scanner error.
pub open spec fn scanner_error_text(error: ScannerErrorView) -> Seq<char> {
    match error {
        ScannerErrorView::UnknownCharacter { character, line } => "[line "@ + decimal(line)
            + "] Error: Unexpected character: "@ + seq![character],
        ScannerErrorView::UnterminatedString { line } => "[line "@ + decimal(line)
            + "] Error: Unterminated string."@,
    }
}

impl ScannerError {
    /// The line that the error speaks of.
    pub fn line(&self) -> (line: usize)
        ensures
            line == error_line(self@),
    {
        match self {
            ScannerError::UnknownCharacter { line, .. } => *line,
            ScannerError::UnterminatedString { line } => *line,
        }
    }

    /// The message of this error.
    pub fn to_string(&self) -> (text: String)
        ensures
            text@ == scanner_error_text(self@),
    {
        let mut text = "[line ".to_owned();
        match self {
            ScannerError::UnknownCharacter { character, line } => {
                push_decimal(&mut text, *line);
                text.append("] Error: Unexpected character: ");
                text.push(*character);
            },
            ScannerError::UnterminatedString { line } => {
                push_decimal(&mut text, *line);
                text.append("] Error: Unterminated string.");
            },
        }
        text
    }
}

/// The classes of characters that a lexeme runs through.
#[derive(Debug, Clone, Copy, PartialEq, Eq)]
pub enum Class {
    /// The digits of a number.
    Digit,
    /// The letters, digits and underscores of a word.
    Word,
    /// Whatever stands in a comment: all but the newline.
    Comment,
    /// Whatever stands in a string literal: all but the double quote.
    Body,
}

impl Class {
    /// Whether `character` belongs to the class.
    pub open spec fn holds(self, character: char) -> bool {
        match self {
            Class::Digit => is_digit(character),
            Class::Word => continues_word(character),
            Class::Comment => character != '\n',
            Class::Body => character != '"',
        }
    }

    /// Whether `character` belongs to the class.
    pub fn test(&self, character: char) -> (r: bool)
        ensures
            r == self.holds(character),
    {
        match self {
            Class::Digit => digit(character),
            Class::Word => word_part(character),
            Class::Comment => character != '\n',
            Class::Body => character != '"',
        }
    }
}

/// How many characters at the start of `text` belong to `class`, up to the
/// first that does not.
pub open spec fn run(text: Seq<char>, class: Class) -> nat
    decreases text.len(),
{
    if text.len() > 0 && class.holds(text[0]) {
        1 + run(text.skip(1), class)
    } else {
        0
    }
}

/// The number of newlines in `text`.
pub open spec fn newlines(text: Seq<char>) -> nat
    decreases text.len(),
{
    if text.len() == 0 {
        0
    } else if text.last() == '\n' {
        newlines(text.drop_last()) + 1
    } else {
        newlines(text.drop_last())
    }
}

/// Whether an element is the token that marks the end of the text.
pub open spec fn is_end(element: Result<TokenView, ScannerErrorView>) -> bool {
    element matches Ok(token) && token.kind is Eof
}

/// The line that an error speaks of.
pub open spec fn error_line(error: ScannerErrorView) -> nat {
    match error {
        ScannerErrorView::UnknownCharacter { line, .. } => line,
        ScannerErrorView::UnterminatedString { line } => line,
    }
}

/// The line of an element: that of the token, or the one that the error
/// speaks of.
pub open spec fn element_line(element: Result<TokenView, ScannerErrorView>) -> nat {
    match element {
        Ok(token) => token.line,
        Err(error) => error_line(error),
    }
}

/// One step of the scanner: the element it yields, the text that is left,
/// and the line on which that text begins.
pub struct Step {
    pub element: Result<TokenView, ScannerErrorView>,
    pub rest: Seq<char>,
    pub line: nat,
}

/// The step that yields a token of `kind` found on `line`.
pub open spec fn found(kind: TokenKindView, line: nat, rest: Seq<char>) -> Step {
    Step { element: Ok(TokenView { kind, line }), rest, line }
}

/// The step for an operator of one character that an `=` may extend.
pub open spec fn operator(
    text: Seq<char>,
    line: nat,
    extended: TokenKindView,
    alone: TokenKindView,
) -> Step {
    if text.len() >= 2 && text[1] == '=' {
        found(extended, line, text.skip(2))
    } else {
        found(alone, line, text.skip(1))
    }
}

/// The length of the number literal at the start of `text`: a run of digits,
/// and a dot with the digits behind it where a digit follows the dot.
pub open spec fn number_length(text: Seq<char>) -> nat {
    let whole = run(text, Class::Digit);
    if whole + 1 < text.len() && text[whole as int] == '.' && is_digit(text[whole as int + 1]) {
        whole + 1 + run(text.skip(whole as int + 1), Class::Digit)
    } else {
        whole
    }
}

/// The step for a string literal, where `text` begins with the opening quote.
pub open spec fn string_step(text: Seq<char>, line: nat) -> Step {
    let body = run(text.skip(1), Class::Body) as int;
    if 1 + body < text.len() {
        Step {
            element: Ok(
                TokenView {
                    kind: TokenKindView::String { value: text.subrange(1, 1 + body) },
                    line,
                },
            ),
            rest: text.skip(2 + body),
            line: line + newlines(text.subrange(1, 1 + body)),
        }
    } else {
        Step {
            element: Err(
                ScannerErrorView::UnterminatedString { line: line + newlines(text.skip(1)) },
            ),
            rest: Seq::empty(),
            line: line + newlines(text.skip(1)),
        }
    }
}

/// The step for the lexeme at the start of `text`, which does not begin with
/// a blank, a newline or a comment.
pub open spec fn lexeme(text: Seq<char>, line: nat) -> Step
    recommends
        text.len() > 0,
{
    let first = text[0];
    if first == '(' {
        found(TokenKindView::LeftParenthesis, line, text.skip(1))
    } else if first == ')' {
        found(TokenKindView::RightParenthesis, line, text.skip(1))
    } else if first == '{' {
        found(TokenKindView::LeftBrace, line, text.skip(1))
    } else if first == '}' {
        found(TokenKindView::RightBrace, line, text.skip(1))
    } else if first == ',' {
        found(TokenKindView::Comma, line, text.skip(1))
    } else if first == '.' {
        found(TokenKindView::Dot, line, text.skip(1))
    } else if first == '-' {
        found(TokenKindView::Minus, line, text.skip(1))
    } else if first == '+' {
        found(TokenKindView::Plus, line, text.skip(1))
    } else if first == ';' {
        found(TokenKindView::Semicolon, line, text.skip(1))
    } else if first == '*' {
        found(TokenKindView::Star, line, text.skip(1))
    } else if first == '/' {
        found(TokenKindView::Slash, line, text.skip(1))
    } else if first == '!' {
        operator(text, line, TokenKindView::BangEqual, TokenKindView::Bang)
    } else if first == '=' {
        operator(text, line, TokenKindView::EqualEqual, TokenKindView::Equal)
    } else if first == '<' {
        operator(text, line, TokenKindView::LessEqual, TokenKindView::Less)
    } else if first == '>' {
        operator(text, line, TokenKindView::GreaterEqual, TokenKindView::Greater)
    } else if first == '"' {
        string_step(text, line)
    } else if is_digit(first) {
        let length = number_length(text);
        found(TokenKindView::Number { literal: text.take(length as int) }, line, text.skip(length as int))
    } else if starts_word(first) {
        let length = run(text, Class::Word);
        found(word_kind(text.take(length as int)), line, text.skip(length as int))
    } else {
        Step {
            element: Err(ScannerErrorView::UnknownCharacter { character: first, line }),
            rest: text.skip(1),
            line,
        }
    }
}

/// Whether `text` begins with the two slashes of a comment.
pub open spec fn starts_comment(text: Seq<char>) -> bool {
    text.len() >= 2 && text[0] == '/' && text[1] == '/'
}

/// The next step of the scanner on `text`, which begins on `line`: blanks,
/// newlines and comments are passed over, then comes the lexeme, or the end
/// of the text.
pub open spec fn next_step(text: Seq<char>, line: nat) -> Step
    decreases text.len(),
{
    if text.len() == 0 {
        found(TokenKindView::Eof, line, text)
    } else if text[0] == '\n' {
        next_step(text.skip(1), line + 1)
    } else if is_blank(text[0]) {
        next_step(text.skip(1), line)
    } else if starts_comment(text) {
        proof {
            lemma_run(text, Class::Comment);
        }
        next_step(text.skip(run(text, Class::Comment) as int), line)
    } else {
        lexeme(text, line)
    }
}

/// All that the scanner yields on `text`, which begins on `line`: tokens and
/// errors in the order of the text, up to the token that marks the end.
pub open spec fn scan(text: Seq<char>, line: nat) -> Seq<Result<TokenView, ScannerErrorView>>
    decreases text.len(),
{
    let step = next_step(text, line);
    if is_end(step.element) {
        seq![step.element]
    } else {
        proof {
            laws::lemma_step(text, line);
        }
        seq![step.element] + scan(step.rest, step.line)
    }
}

/// The tokens among `elements`, in order.
pub open spec fn tokens_of(elements: Seq<Result<TokenView, ScannerErrorView>>) -> Seq<TokenView>
    decreases elements.len(),
{
    if elements.len() == 0 {
        Seq::empty()
    } else {
        match elements.last() {
            Ok(token) => tokens_of(elements.drop_last()).push(token),
            Err(_) => tokens_of(elements.drop_last()),
        }
    }
}

/// The errors among `elements`, in order.
pub open spec fn errors_of(elements: Seq<Result<TokenView, ScannerErrorView>>) -> Seq<
    ScannerErrorView,
>
    decreases elements.len(),
{
    if elements.len() == 0 {
        Seq::empty()
    } else {
        match elements.last() {
            Ok(_) => errors_of(elements.drop_last()),
            Err(error) => errors_of(elements.drop_last()).push(error),
        }
    }
}

/// The model of an element that the scanner has yielded.
pub open spec fn element_view(element: Result<Token, ScannerError>) -> Result<
    TokenView,
    ScannerErrorView,
> {
    match element {
        Ok(token) => Ok(token@),
        Err(error) => Err(error@),
    }
}

/// A run that is known character by character.
pub proof fn lemma_run_is(text: Seq<char>, class: Class, length: nat)
    requires
        length <= text.len(),
        forall|index: int| 0 <= index < length ==> class.holds(#[trigger] text[index]),
        length == text.len() || !class.holds(text[length as int]),
    ensures
        run(text, class) == length,
    decreases length,
{
    if length > 0 {
        let tail = text.skip(1);
        assert forall|index: int| 0 <= index < length - 1 implies class.holds(
            #[trigger] tail[index],
        ) by {
            assert(tail[index] == text[index + 1]);
        }
        lemma_run_is(tail, class, (length - 1) as nat);
    }
}

/// A run stays inside its text, holds of each of its characters, and stops
/// at the first character of another class.
pub proof fn lemma_run(text: Seq<char>, class: Class)
    ensures
        run(text, class) <= text.len(),
        forall|index: int| 0 <= index < run(text, class) ==> class.holds(#[trigger] text[index]),
        run(text, class) < text.len() ==> !class.holds(text[run(text, class) as int]),
    decreases text.len(),
{
    if text.len() > 0 && class.holds(text[0]) {
        let tail = text.skip(1);
        lemma_run(tail, class);
        assert forall|index: int| 0 <= index < run(text, class) implies class.holds(
            #[trigger] text[index],
        ) by {
            if index > 0 {
                assert(text[index] == tail[index - 1]);
            }
        }
    }
}

/// The scanner: a text, and how far it has been read.
pub struct Scanner {
    characters: Vec<char>,
    position: usize,
    line: usize,
    done: bool,
}

impl Scanner {
    #[verifier::type_invariant]
    spec fn well_formed(self) -> bool {
        &&& self.position <= self.characters.len() < usize::MAX
        &&& 1 <= self.line <= self.position + 1
        &&& self.done ==> self.position == self.characters.len()
    }

    /// The text that has not been read yet.
    pub closed spec fn remaining(self) -> Seq<char> {
        self.characters@.skip(self.position as int)
    }

    /// The line on which the remaining text begins.
    pub closed spec fn line(self) -> nat {
        self.line as nat
    }

    /// Whether the token that marks the end has been yielded.
    pub closed spec fn done(self) -> bool {
        self.done
    }

    /// What is still to come from this scanner.
    pub open spec fn pending(self) -> Seq<Result<TokenView, ScannerErrorView>> {
        if self.done() {
            Seq::empty()
        } else {
            scan(self.remaining(), self.line())
        }
    }

    /// A scanner at the start of `input`, on line 1.
    pub fn new(input: &str) -> (scanner: Scanner)
        ensures
            scanner.remaining() == input@,
            scanner.line() == 1,
            !scanner.done(),
    {
        let mut characters = characters_of(input);
        // A vector that takes one more element is shorter than `usize::MAX`,
        // so the line counter, which grows with the text, stays in range.
        characters.push('\n');
        let extended: usize = characters.len();
        characters.pop();
        Scanner { characters, position: 0, line: 1, done: false }
    }

    /// Where the run of `class` that begins at `from` ends.
    fn run_end(&self, from: usize, class: Class) -> (end: usize)
        requires
            from <= self.characters.len(),
        ensures
            from <= end <= self.characters.len(),
            end - from == run(self.characters@.skip(from as int), class),
    {
        let mut end: usize = from;
        while end < self.characters.len() && class.test(self.characters[end])
            invariant
                from <= end <= self.characters.len(),
                forall|index: int| from <= index < end ==> class.holds(#[trigger] self.characters@[index]),
            decreases self.characters.len() - end,
        {
            end += 1;
        }
        proof {
            let text = self.characters@.skip(from as int);
            assert forall|index: int| 0 <= index < end - from implies class.holds(
                #[trigger] text[index],
            ) by {
                assert(text[index] == self.characters@[from + index]);
            }
            lemma_run_is(text, class, (end - from) as nat);
        }
        end
    }

    /// The number of newlines in `characters[from..to]`.
    fn count_newlines(&self, from: usize, to: usize) -> (count: usize)
        requires
            from <= to <= self.characters.len(),
        ensures
            count == newlines(self.characters@.subrange(from as int, to as int)),
            count <= to - from,
    {
        let mut count: usize = 0;
        let mut index: usize = from;
        while index < to
            invariant
                from <= index <= to <= self.characters.len(),
                count == newlines(self.characters@.subrange(from as int, index as int)),
                count <= index - from,
            decreases to - index,
        {
            assert(self.characters@.subrange(from as int, index + 1).drop_last()
                == self.characters@.subrange(from as int, index as int));
            if self.characters[index] == '\n' {
                count += 1;
            }
            index += 1;
        }
        count
    }

    /// Passes over blanks, newlines and comments. Returns whether any text
    /// is left.
    fn skip_trivia(&mut self) -> (more: bool)
        requires
            !old(self).done(),
        ensures
            !final(self).done(),
            next_step(final(self).remaining(), final(self).line()) == next_step(
                old(self).remaining(),
                old(self).line(),
            ),
            more == (final(self).remaining().len() > 0),
            more ==> next_step(final(self).remaining(), final(self).line()) == lexeme(
                final(self).remaining(),
                final(self).line(),
            ),
    {
        loop
            invariant
                !self.done(),
                next_step(self.remaining(), self.line()) == next_step(
                    old(self).remaining(),
                    old(self).line(),
                ),
            decreases self.characters.len() - self.position,
        {
            proof {
                use_type_invariant(&*self);
            }
            let length = self.characters.len();
            if self.position >= length {
                return false;
            }
            let ghost text = self.remaining();
            let character = self.characters[self.position];
            assert(text.skip(1) == self.characters@.skip(self.position + 1));
            if character == '\n' {
                self.position = self.position + 1;
                self.line = self.line + 1;
            } else if blank(character) {
                self.position = self.position + 1;
            } else if character == '/' && self.position + 1 < length && self.characters[self.position
                + 1] == '/' {
                let end = self.run_end(self.position, Class::Comment);
                proof {
                    lemma_run(text, Class::Comment);
                    assert(text.skip(end - self.position) == self.characters@.skip(end as int));
                }
                self.position = end;
            } else {
                return true;
            }
        }
    }

    /// The token or error at the start of the remaining text, which is not
    /// empty and begins with a lexeme.
    fn take_lexeme(&mut self) -> (element: Result<Token, ScannerError>)
        requires
            !old(self).done(),
            old(self).remaining().len() > 0,
        ensures
            !final(self).done(),
            element_view(element) == lexeme(old(self).remaining(), old(self).line()).element,
            final(self).remaining() == lexeme(old(self).remaining(), old(self).line()).rest,
            final(self).line() == lexeme(old(self).remaining(), old(self).line()).line,
    {
        proof {
            use_type_invariant(&*self);
        }
        let ghost text = self.remaining();
        let start = self.position;
        let line = self.line;
        let length = self.characters.len();
        let first = self.characters[start];
        assert(text.skip(1) == self.characters@.skip(start + 1));
        let extended = start + 1 < length && self.characters[start + 1] == '=';
        if first == '"' {
            let end = self.run_end(start + 1, Class::Body);
            if end < length {
                let value = string_of(&self.characters, start + 1, end);
                let breaks = self.count_newlines(start + 1, end);
                proof {
                    assert(text.subrange(1, 1 + (end - (start + 1))) == self.characters@.subrange(
                        start + 1,
                        end as int,
                    ));
                }
                self.position = end + 1;
                self.line = line + breaks;
                Ok(Token::new(TokenKind::String { value }, line))
            } else {
                let breaks = self.count_newlines(start + 1, length);
                self.position = length;
                self.line = line + breaks;
                Err(ScannerError::UnterminatedString { line: line + breaks })
            }
        } else if digit(first) {
            let whole = self.run_end(start, Class::Digit);
            let end = if whole + 1 < length && self.characters[whole] == '.' && digit(
                self.characters[whole + 1],
            ) {
                assert(text.skip(whole - start + 1) == self.characters@.skip(whole + 1));
                self.run_end(whole + 1, Class::Digit)
            } else {
                whole
            };
            proof {
                assert(text.take(end - start) == self.characters@.subrange(start as int, end as int));
            }
            let literal = string_of(&self.characters, start, end);
            self.position = end;
            Ok(Token::new(TokenKind::Number { literal }, line))
        } else if word_start(first) {
            let end = self.run_end(start, Class::Word);
            proof {
                assert(text.take(end - start) == self.characters@.subrange(start as int, end as int));
            }
            let kind = classify_word(&self.characters, start, end);
            self.position = end;
            Ok(Token::new(kind, line))
        } else if first == '!' || first == '=' || first == '<' || first == '>' {
            let kind = if first == '!' {
                if extended {
                    TokenKind::BangEqual
                } else {
                    TokenKind::Bang
                }
            } else if first == '=' {
                if extended {
                    TokenKind::EqualEqual
                } else {
                    TokenKind::Equal
                }
            } else if first == '<' {
                if extended {
                    TokenKind::LessEqual
                } else {
                    TokenKind::Less
                }
            } else {
                if extended {
                    TokenKind::GreaterEqual
                } else {
                    TokenKind::Greater
                }
            };
            if extended {
                self.position = start + 2;
            } else {
                self.position = start + 1;
            }
            Ok(Token::new(kind, line))
        } else {
            self.position = start + 1;
            if first == '(' {
                Ok(Token::new(TokenKind::LeftParenthesis, line))
            } else if first == ')' {
                Ok(Token::new(TokenKind::RightParenthesis, line))
            } else if first == '{' {
                Ok(Token::new(TokenKind::LeftBrace, line))
            } else if first == '}' {
                Ok(Token::new(TokenKind::RightBrace, line))
            } else if first == ',' {
                Ok(Token::new(TokenKind::Comma, line))
            } else if first == '.' {
                Ok(Token::new(TokenKind::Dot, line))
            } else if first == '-' {
                Ok(Token::new(TokenKind::Minus, line))
            } else if first == '+' {
                Ok(Token::new(TokenKind::Plus, line))
            } else if first == ';' {
                Ok(Token::new(TokenKind::Semicolon, line))
            } else if first == '*' {
                Ok(Token::new(TokenKind::Star, line))
            } else if first == '/' {
                Ok(Token::new(TokenKind::Slash, line))
            } else {
                Err(ScannerError::UnknownCharacter { character: first, line })
            }
        }
    }

    /// The next token or error, and `None` once the token that marks the end
    /// has been yielded.
    pub fn next(&mut self) -> (element: Option<Result<Token, ScannerError>>)
        ensures
            old(self).done() ==> element is None && final(self).done() && final(self).remaining()
                == old(self).remaining() && final(self).line() == old(self).line(),
            !old(self).done() ==> ({
                let step = next_step(old(self).remaining(), old(self).line());
                &&& element is Some
                &&& element_view(element->0) == step.element
                &&& final(self).remaining() == step.rest
                &&& final(self).line() == step.line
                &&& final(self).done() == is_end(step.element)
            }),
    {
        if self.done {
            return None;
        }
        if self.skip_trivia() {
            let element = self.take_lexeme();
            Some(element)
        } else {
            proof {
                use_type_invariant(&*self);
            }
            let line = self.line;
            self.done = true;
            Some(Ok(Token::new(TokenKind::Eof, line)))
        }
    }

    /// Reads to the end, and parts what comes into the tokens and the errors,
    /// each in the order of the text.
    pub fn split(self) -> (parts: (Vec<Token>, Vec<ScannerError>))
        ensures
            parts.0.deep_view() == tokens_of(self.pending()),
            parts.1.deep_view() == errors_of(self.pending()),
    {
        let mut scanner = self;
        let mut tokens: Vec<Token> = Vec::new();
        let mut errors: Vec<ScannerError> = Vec::new();
        let ghost mut yielded: Seq<Result<TokenView, ScannerErrorView>> = Seq::empty();
        loop
            invariant
                yielded + scanner.pending() == self.pending(),
                tokens.deep_view() == tokens_of(yielded),
                errors.deep_view() == errors_of(yielded),
            decreases
                    if scanner.done() {
                        0
                    } else {
                        scanner.remaining().len() + 1
                    },
        {
            let ghost before = scanner;
            match scanner.next() {
                None => {
                    return (tokens, errors);
                },
                Some(element) => {
                    proof {
                        let step = next_step(before.remaining(), before.line());
                        laws::lemma_step(before.remaining(), before.line());
                        assert(yielded.push(step.element).drop_last() == yielded);
                        yielded = yielded.push(step.element);
                    }
                    match element {
                        Ok(token) => {
                            tokens.push(token);
                        },
                        Err(error) => {
                            errors.push(error);
                        },
                    }
                },
            }
        }
    }

    /// The tokens that are still to come if no error is among them, and the
    /// errors if there are any.
    pub fn scan(self) -> (result: Result<Vec<Token>, Vec<ScannerError>>)
        ensures
            match result {
                Ok(tokens) => errors_of(self.pending()).len() == 0 && tokens.deep_view()
                    == tokens_of(self.pending()),
                Err(errors) => errors.len() > 0 && errors.deep_view() == errors_of(self.pending()),
            },
    {
        let (tokens, errors) = self.split();
        if errors.len() == 0 {
            Ok(tokens)
        } else {
            Err(errors)
        }
    }
}

/// The tokens of `input` if it scans without error, and its errors if not.
pub fn tokenize(input: &str) -> (result: Result<Vec<Token>, Vec<ScannerError>>)
    ensures
        match result {
            Ok(tokens) => errors_of(scan(input@, 1)).len() == 0 && tokens.deep_view() == tokens_of(
                scan(input@, 1),
            ),
            Err(errors) => errors.len() > 0 && errors.deep_view() == errors_of(scan(input@, 1)),
        },
{
    Scanner::new(input).scan()
}

} // verus!
