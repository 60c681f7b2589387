//! What holds of every scan.

use crate::scanner::{
    element_line, errors_of, is_end, lemma_run, lemma_run_is, lexeme, next_step, number_length, run,
    scan, starts_comment, string_step, tokens_of, Class, ScannerErrorView,
};
use crate::text::{continues_word, is_blank, is_digit, starts_word};
use crate::token::{keyword, word_kind, TokenKindView, TokenView};
use vstd::prelude::*;

verus! {

/// Whether `rest` is what is left of `text` after some of its characters.
pub open spec fn is_suffix(rest: Seq<char>, text: Seq<char>) -> bool {
    rest.len() <= text.len() && rest == text.skip(text.len() - rest.len())
}

/// A step that does not end the scan takes at least one character; every
/// step leaves a suffix of the text, and the line never goes back.
pub proof fn lemma_step(text: Seq<char>, line: nat)
    ensures
        ({
            let step = next_step(text, line);
            &&& is_suffix(step.rest, text)
            &&& !is_end(step.element) ==> step.rest.len() < text.len()
            &&& is_end(step.element) ==> step.rest.len() == 0
            &&& line <= element_line(step.element) <= step.line
        }),
    decreases text.len(),
{
    let step = next_step(text, line);
    if text.len() == 0 {
        assert(text.skip(0) == text);
    } else if text[0] == '\n' {
        lemma_step(text.skip(1), line + 1);
        lemma_suffix_of_skip(step.rest, text, 1);
    } else if is_blank(text[0]) {
        lemma_step(text.skip(1), line);
        lemma_suffix_of_skip(step.rest, text, 1);
    } else if starts_comment(text) {
        lemma_run(text, Class::Comment);
        let length = run(text, Class::Comment);
        lemma_step(text.skip(length as int), line);
        lemma_suffix_of_skip(step.rest, text, length);
    } else {
        lemma_lexeme(text, line);
    }
}

/// What is left of a part of a text is left of the text.
pub proof fn lemma_suffix_of_skip(rest: Seq<char>, text: Seq<char>, passed: nat)
    requires
        passed <= text.len(),
        is_suffix(rest, text.skip(passed as int)),
    ensures
        is_suffix(rest, text),
{
    let tail = text.skip(passed as int);
    assert(tail.skip(tail.len() - rest.len()) == text.skip(text.len() - rest.len()));
}

/// A lexeme takes at least one character and leaves a suffix of the text.
pub proof fn lemma_lexeme(text: Seq<char>, line: nat)
    requires
        text.len() > 0,
    ensures
        ({
            let step = lexeme(text, line);
            &&& is_suffix(step.rest, text)
            &&& step.rest.len() < text.len()
            &&& !is_end(step.element)
            &&& line <= element_line(step.element) <= step.line
        }),
{
    let first = text[0];
    if first == '"' {
        lemma_run(text.skip(1), Class::Body);
        assert(text.skip(text.len() as int) == Seq::<char>::empty());
    } else if is_digit(first) {
        lemma_run(text, Class::Digit);
        let whole = run(text, Class::Digit);
        if whole + 1 < text.len() {
            lemma_run(text.skip(whole as int + 1), Class::Digit);
        }
    } else if starts_word(first) {
        lemma_run(text, Class::Word);
        lemma_word_kind_is_not_end(text.take(run(text, Class::Word) as int));
    }
}

/// No word is the token that marks the end.
pub proof fn lemma_word_kind_is_not_end(word: Seq<char>)
    ensures
        !(word_kind(word) is Eof),
{
}

/// How a scan goes on after its first step.
pub proof fn lemma_scan_unfolds(text: Seq<char>, line: nat)
    ensures
        ({
            let step = next_step(text, line);
            scan(text, line) == if is_end(step.element) {
                seq![step.element]
            } else {
                seq![step.element] + scan(step.rest, step.line)
            }
        }),
{
    lemma_step(text, line);
}

/// The tokens of two sequences, one after the other.
pub proof fn lemma_tokens_of_concatenation(
    first: Seq<Result<TokenView, ScannerErrorView>>,
    second: Seq<Result<TokenView, ScannerErrorView>>,
)
    ensures
        tokens_of(first + second) == tokens_of(first) + tokens_of(second),
        errors_of(first + second) == errors_of(first) + errors_of(second),
    decreases second.len(),
{
    if second.len() > 0 {
        let shorter = second.drop_last();
        lemma_tokens_of_concatenation(first, shorter);
        assert((first + second).drop_last() == first + shorter);
    }
}

/// The tokens and errors of a sequence of one element.
pub proof fn lemma_tokens_of_one(element: Result<TokenView, ScannerErrorView>)
    ensures
        tokens_of(seq![element]) == match element {
            Ok(token) => seq![token],
            Err(_) => Seq::<TokenView>::empty(),
        },
        errors_of(seq![element]) == match element {
            Ok(_) => Seq::<ScannerErrorView>::empty(),
            Err(error) => seq![error],
        },
{
    reveal_with_fuel(tokens_of, 2);
    reveal_with_fuel(errors_of, 2);
}

/// Every scan yields the token that marks the end exactly once, as its last
/// element.
pub proof fn lemma_scan_ends_once(text: Seq<char>, line: nat)
    ensures
        scan(text, line).len() > 0,
        is_end(scan(text, line).last()),
        forall|index: int|
            0 <= index < scan(text, line).len() - 1 ==> !is_end(#[trigger] scan(text, line)[index]),
    decreases text.len(),
{
    lemma_step(text, line);
    let step = next_step(text, line);
    if !is_end(step.element) {
        lemma_scan_ends_once(step.rest, step.line);
    }
}

/// Among the tokens of a scan, the one that marks the end comes last, and
/// only there.
pub proof fn lemma_tokens_end_once(text: Seq<char>, line: nat)
    ensures
        ({
            let tokens = tokens_of(scan(text, line));
            &&& tokens.len() > 0
            &&& tokens.last().kind is Eof
            &&& forall|index: int| 0 <= index < tokens.len() - 1 ==> !(#[trigger] tokens[index].kind is Eof)
        }),
    decreases text.len(),
{
    lemma_step(text, line);
    let step = next_step(text, line);
    lemma_tokens_of_one(step.element);
    if !is_end(step.element) {
        lemma_tokens_end_once(step.rest, step.line);
        lemma_tokens_of_concatenation(seq![step.element], scan(step.rest, step.line));
    }
}

/// From one element of a scan to the next the line never decreases, and no
/// element stands on a line before the one on which the text begins.
pub proof fn lemma_lines_never_decrease(text: Seq<char>, line: nat)
    ensures
        forall|index: int|
            0 <= index < scan(text, line).len() ==> line <= element_line(
                #[trigger] scan(text, line)[index],
            ),
        forall|earlier: int, later: int|
            0 <= earlier <= later < scan(text, line).len() ==> element_line(
                #[trigger] scan(text, line)[earlier],
            ) <= element_line(#[trigger] scan(text, line)[later]),
    decreases text.len(),
{
    lemma_step(text, line);
    let step = next_step(text, line);
    if !is_end(step.element) {
        lemma_lines_never_decrease(step.rest, step.line);
        let rest = scan(step.rest, step.line);
        assert forall|index: int| 0 <= index < scan(text, line).len() implies line <= element_line(
            #[trigger] scan(text, line)[index],
        ) by {
            if index > 0 {
                assert(scan(text, line)[index] == rest[index - 1]);
            }
        }
        assert forall|earlier: int, later: int|
            0 <= earlier <= later < scan(text, line).len() implies element_line(
            #[trigger] scan(text, line)[earlier],
        ) <= element_line(#[trigger] scan(text, line)[later]) by {
            if later > 0 {
                assert(scan(text, line)[later] == rest[later - 1]);
            }
            if earlier > 0 {
                assert(scan(text, line)[earlier] == rest[earlier - 1]);
            }
        }
    }
}

/// From one token of a scan to the next the line never decreases.
pub proof fn lemma_token_lines_never_decrease(text: Seq<char>, line: nat)
    ensures
        ({
            let tokens = tokens_of(scan(text, line));
            &&& forall|index: int| 0 <= index < tokens.len() ==> line <= (#[trigger] tokens[index]).line
            &&& forall|earlier: int, later: int|
                0 <= earlier <= later < tokens.len() ==> (#[trigger] tokens[earlier]).line <= (
                #[trigger] tokens[later]).line
        }),
    decreases text.len(),
{
    lemma_step(text, line);
    let step = next_step(text, line);
    lemma_tokens_of_one(step.element);
    if !is_end(step.element) {
        lemma_token_lines_never_decrease(step.rest, step.line);
        lemma_tokens_of_concatenation(seq![step.element], scan(step.rest, step.line));
        let tokens = tokens_of(scan(text, line));
        let head = tokens_of(seq![step.element]);
        let rest = tokens_of(scan(step.rest, step.line));
        assert(tokens == head + rest);
        assert forall|index: int| 0 <= index < tokens.len() implies line <= (
        #[trigger] tokens[index]).line by {
            if index >= head.len() {
                assert(tokens[index] == rest[index - head.len()]);
            }
        }
        assert forall|earlier: int, later: int| 0 <= earlier <= later < tokens.len() implies (
        #[trigger] tokens[earlier]).line <= (#[trigger] tokens[later]).line by {
            if later >= head.len() {
                assert(tokens[later] == rest[later - head.len()]);
            }
            if earlier >= head.len() {
                assert(tokens[earlier] == rest[earlier - head.len()]);
            }
        }
    }
}

/// A text shaped like an identifier: a letter or an underscore, then
/// letters, digits and underscores.
pub open spec fn is_word(word: Seq<char>) -> bool {
    &&& word.len() > 0
    &&& starts_word(word[0])
    &&& forall|index: int| 0 <= index < word.len() ==> continues_word(#[trigger] word[index])
}

/// A text made of digits, and of at least one.
pub open spec fn is_digits(text: Seq<char>) -> bool {
    &&& text.len() > 0
    &&& forall|index: int| 0 <= index < text.len() ==> is_digit(#[trigger] text[index])
}

/// A number literal: digits, or digits on both sides of one dot.
pub open spec fn is_number_literal(literal: Seq<char>) -> bool {
    ||| is_digits(literal)
    ||| exists|dot: int|
        0 < dot < literal.len() - 1 && literal[dot] == '.' && #[trigger] is_digits(literal.take(dot))
            && is_digits(literal.skip(dot + 1))
}

/// Whether `part` stands somewhere in `text`, character for character.
pub open spec fn occurs_in(part: Seq<char>, text: Seq<char>) -> bool {
    exists|start: int|
        0 <= start && start + part.len() <= text.len() && #[trigger] text.subrange(
            start,
            start + part.len() as int,
        ) == part
}

/// The scan of the empty text is the token that marks the end.
pub proof fn lemma_scan_of_nothing(line: nat)
    ensures
        scan(Seq::empty(), line) == seq![
            Ok::<TokenView, ScannerErrorView>(TokenView { kind: TokenKindView::Eof, line }),
        ],
{
}

/// A reserved word scans as its own kind of token, and every other text
/// shaped like an identifier as an identifier that holds this text.
pub proof fn lemma_words_scan_by_the_table(word: Seq<char>, line: nat)
    requires
        is_word(word),
    ensures
        scan(word, line) == seq![
            Ok::<TokenView, ScannerErrorView>(TokenView { kind: word_kind(word), line }),
            Ok(TokenView { kind: TokenKindView::Eof, line }),
        ],
        keyword(word) matches Some(kind) ==> word_kind(word) == kind,
        keyword(word) is None ==> word_kind(word) == (TokenKindView::Identifier { lexeme: word }),
{
    lemma_run_is(word, Class::Word, word.len());
    assert(word.take(word.len() as int) == word);
    lemma_word_kind_is_not_end(word);
    lemma_scan_unfolds(word, line);
    lemma_scan_of_nothing(line);
}

/// A number literal scans as one number token that holds the literal as it
/// was written.
pub proof fn lemma_literals_scan_whole(literal: Seq<char>, line: nat)
    requires
        is_number_literal(literal),
    ensures
        scan(literal, line) == seq![
            Ok::<TokenView, ScannerErrorView>(
                TokenView { kind: TokenKindView::Number { literal }, line },
            ),
            Ok(TokenView { kind: TokenKindView::Eof, line }),
        ],
{
    if is_digits(literal) {
        lemma_run_is(literal, Class::Digit, literal.len());
    } else {
        let dot = choose|dot: int|
            0 < dot < literal.len() - 1 && literal[dot] == '.' && #[trigger] is_digits(
                literal.take(dot),
            ) && is_digits(literal.skip(dot + 1));
        assert forall|index: int| 0 <= index < dot implies is_digit(#[trigger] literal[index]) by {
            assert(literal[index] == literal.take(dot)[index]);
        }
        lemma_run_is(literal, Class::Digit, dot as nat);
        let fraction = literal.skip(dot + 1);
        lemma_run_is(fraction, Class::Digit, fraction.len());
    }
    assert(literal.take(literal.len() as int) == literal);
    lemma_scan_unfolds(literal, line);
    lemma_scan_of_nothing(line);
}

/// The literal of a number token is a number literal.
pub proof fn lemma_number_length(text: Seq<char>)
    requires
        text.len() > 0,
        is_digit(text[0]),
    ensures
        0 < number_length(text) <= text.len(),
        is_number_literal(text.take(number_length(text) as int)),
{
    lemma_run(text, Class::Digit);
    let whole = run(text, Class::Digit) as int;
    let length = number_length(text) as int;
    let literal = text.take(length);
    if length != whole {
        let fraction = text.skip(whole + 1);
        lemma_run(fraction, Class::Digit);
        assert(is_digits(literal.take(whole)));
        assert(is_digits(literal.skip(whole + 1))) by {
            assert forall|index: int| 0 <= index < literal.skip(whole + 1).len() implies is_digit(
                #[trigger] literal.skip(whole + 1)[index],
            ) by {
                assert(literal.skip(whole + 1)[index] == fraction[index]);
            }
        }
    }
}

/// What a step yields when it yields a number: a number literal that
/// stands in the text.
pub proof fn lemma_step_number(text: Seq<char>, line: nat)
    ensures
        next_step(text, line).element matches Ok(token) ==> (token.kind matches TokenKindView::Number {
            literal,
        } ==> is_number_literal(literal) && occurs_in(literal, text)),
    decreases text.len(),
{
    let step = next_step(text, line);
    if text.len() == 0 {
    } else if text[0] == '\n' {
        lemma_step_number(text.skip(1), line + 1);
        lemma_occurs_in_suffix(step.element, text, 1);
    } else if is_blank(text[0]) {
        lemma_step_number(text.skip(1), line);
        lemma_occurs_in_suffix(step.element, text, 1);
    } else if starts_comment(text) {
        lemma_run(text, Class::Comment);
        let length = run(text, Class::Comment);
        lemma_step_number(text.skip(length as int), line);
        lemma_occurs_in_suffix(step.element, text, length);
    } else {
        let first = text[0];
        if is_digit(first) {
            lemma_number_length(text);
            let length = number_length(text) as int;
            assert(text.subrange(0, 0 + text.take(length).len() as int) == text.take(length));
        } else if first != '"' && starts_word(first) {
            lemma_word_kind_is_not_a_number(text.take(run(text, Class::Word) as int));
        }
    }
}

/// No word is a number.
pub proof fn lemma_word_kind_is_not_a_number(word: Seq<char>)
    ensures
        !(word_kind(word) is Number),
{
}

/// A number that stands in what is left of a text stands in the text.
pub proof fn lemma_occurs_in_suffix(
    element: Result<TokenView, ScannerErrorView>,
    text: Seq<char>,
    passed: nat,
)
    requires
        passed <= text.len(),
        element matches Ok(token) ==> (token.kind matches TokenKindView::Number { literal }
            ==> occurs_in(literal, text.skip(passed as int))),
    ensures
        element matches Ok(token) ==> (token.kind matches TokenKindView::Number { literal }
            ==> occurs_in(literal, text)),
{
    if let Ok(token) = element {
        if let TokenKindView::Number { literal } = token.kind {
            let tail = text.skip(passed as int);
            let start = choose|start: int|
                0 <= start && start + literal.len() <= tail.len() && #[trigger] tail.subrange(
                    start,
                    start + literal.len() as int,
                ) == literal;
            assert(text.subrange(passed + start, passed + start + literal.len() as int)
                == tail.subrange(start, start + literal.len() as int));
        }
    }
}

/// Every number token of a scan holds a number literal, and this literal
/// stands in the text as it was written.
pub proof fn lemma_numbers_keep_their_text(text: Seq<char>, line: nat)
    ensures
        forall|index: int|
            0 <= index < scan(text, line).len() ==> (#[trigger] scan(text, line)[index] matches Ok(
                token,
            ) ==> (token.kind matches TokenKindView::Number { literal } ==> is_number_literal(literal)
                && occurs_in(literal, text))),
    decreases text.len(),
{
    lemma_step(text, line);
    lemma_step_number(text, line);
    let step = next_step(text, line);
    if !is_end(step.element) {
        lemma_numbers_keep_their_text(step.rest, step.line);
        let rest = scan(step.rest, step.line);
        assert forall|index: int| 0 <= index < scan(text, line).len() implies (#[trigger] scan(
            text,
            line,
        )[index] matches Ok(token) ==> (token.kind matches TokenKindView::Number { literal }
            ==> is_number_literal(literal) && occurs_in(literal, text))) by {
            if index > 0 {
                lemma_occurs_in_suffix(rest[index - 1], text, (text.len() - step.rest.len()) as nat);
            }
        }
    }
}

/// Text that the scanner passes over: blanks and newlines.
pub open spec fn is_padding(text: Seq<char>) -> bool {
    forall|index: int|
        0 <= index < text.len() ==> is_blank(#[trigger] text[index]) || text[index] == '\n'
}

/// The kind of the token that an element is, unless it is an error or the
/// token that marks the end.
pub open spec fn kind_of(element: Result<TokenView, ScannerErrorView>) -> Option<TokenKindView> {
    match element {
        Ok(token) => if token.kind is Eof {
            None
        } else {
            Some(token.kind)
        },
        Err(_) => None,
    }
}

/// The kinds of the tokens among `elements`, in order and without the token
/// that marks the end: the tokens without their lines.
pub open spec fn kinds_of(elements: Seq<Result<TokenView, ScannerErrorView>>) -> Seq<
    TokenKindView,
>
    decreases elements.len(),
{
    if elements.len() == 0 {
        Seq::empty()
    } else {
        match kind_of(elements[0]) {
            Some(kind) => seq![kind] + kinds_of(elements.skip(1)),
            None => kinds_of(elements.skip(1)),
        }
    }
}

/// The kinds of a scan, step by step.
pub proof fn lemma_kinds_unfold(text: Seq<char>, line: nat)
    ensures
        ({
            let step = next_step(text, line);
            kinds_of(scan(text, line)) == if is_end(step.element) {
                Seq::<TokenKindView>::empty()
            } else {
                match kind_of(step.element) {
                    Some(kind) => seq![kind] + kinds_of(scan(step.rest, step.line)),
                    None => kinds_of(scan(step.rest, step.line)),
                }
            }
        }),
{
    lemma_scan_unfolds(text, line);
    let step = next_step(text, line);
    if is_end(step.element) {
        reveal_with_fuel(kinds_of, 2);
    } else {
        assert(scan(text, line).skip(1) == scan(step.rest, step.line));
    }
}

/// The line on which a text begins changes the lines of its tokens and
/// nothing else: a step yields the same kind of token and leaves the same
/// text.
pub proof fn lemma_step_whatever_the_line(text: Seq<char>, line: nat, other: nat)
    ensures
        next_step(text, line).rest == next_step(text, other).rest,
        kind_of(next_step(text, line).element) == kind_of(next_step(text, other).element),
        is_end(next_step(text, line).element) == is_end(next_step(text, other).element),
    decreases text.len(),
{
    if text.len() == 0 {
    } else if text[0] == '\n' {
        lemma_step_whatever_the_line(text.skip(1), line + 1, other + 1);
    } else if is_blank(text[0]) {
        lemma_step_whatever_the_line(text.skip(1), line, other);
    } else if starts_comment(text) {
        lemma_run(text, Class::Comment);
        lemma_step_whatever_the_line(text.skip(run(text, Class::Comment) as int), line, other);
    }
}

/// The line on which a text begins changes no kind of token.
pub proof fn lemma_kinds_whatever_the_line(text: Seq<char>, line: nat, other: nat)
    ensures
        kinds_of(scan(text, line)) == kinds_of(scan(text, other)),
    decreases text.len(),
{
    lemma_step(text, line);
    lemma_step(text, other);
    lemma_step_whatever_the_line(text, line, other);
    lemma_kinds_unfold(text, line);
    lemma_kinds_unfold(text, other);
    let step = next_step(text, line);
    let twin = next_step(text, other);
    if !is_end(step.element) {
        lemma_kinds_whatever_the_line(step.rest, step.line, twin.line);
    }
}

/// A part of padding is padding.
pub proof fn lemma_padding_skip(text: Seq<char>, passed: int)
    requires
        is_padding(text),
        0 <= passed <= text.len(),
    ensures
        is_padding(text.skip(passed)),
{
}

/// Padding holds no token.
pub proof fn lemma_padding_ends(text: Seq<char>, line: nat)
    requires
        is_padding(text),
    ensures
        is_end(next_step(text, line).element),
    decreases text.len(),
{
    if text.len() > 0 {
        lemma_padding_skip(text, 1);
        if text[0] == '\n' {
            lemma_padding_ends(text.skip(1), line + 1);
        } else {
            lemma_padding_ends(text.skip(1), line);
        }
    }
}

/// Padding before a text changes no kind of token.
pub proof fn lemma_padding_before(before: Seq<char>, text: Seq<char>, line: nat)
    requires
        is_padding(before),
    ensures
        kinds_of(scan(before + text, line)) == kinds_of(scan(text, line)),
    decreases before.len(),
{
    if before.len() > 0 {
        let whole = before + text;
        assert(whole.skip(1) == before.skip(1) + text);
        lemma_padding_skip(before, 1);
        let next = if before[0] == '\n' {
            line + 1
        } else {
            line
        };
        lemma_kinds_unfold(whole, line);
        lemma_kinds_unfold(whole.skip(1), next as nat);
        lemma_padding_before(before.skip(1), text, next as nat);
        lemma_kinds_whatever_the_line(text, next as nat, line);
    }
}

/// How far a run goes in a text that another text follows: as far as in the
/// text alone if it stops there, and on into what follows if not.
pub proof fn lemma_run_of_two(text: Seq<char>, after: Seq<char>, class: Class)
    ensures
        run(text + after, class) == if run(text, class) < text.len() {
            run(text, class)
        } else {
            text.len() + run(after, class)
        },
        run(text, class) <= text.len(),
    decreases text.len(),
{
    if text.len() > 0 {
        assert((text + after).skip(1) == text.skip(1) + after);
        lemma_run_of_two(text.skip(1), after, class);
    }
}

/// No run of digits or of a word begins in padding, and no string ends in
/// it.
pub proof fn lemma_runs_in_padding(after: Seq<char>)
    requires
        is_padding(after),
    ensures
        run(after, Class::Digit) == 0,
        run(after, Class::Word) == 0,
        run(after, Class::Body) == after.len(),
    decreases after.len(),
{
    if after.len() > 0 {
        lemma_padding_skip(after, 1);
        lemma_runs_in_padding(after.skip(1));
    }
}

/// What padding behind a text does to one step: the step yields the same
/// kind of token, and leaves what it left of the text alone and the padding
/// behind it, unless both steps leave nothing.
pub open spec fn steps_alike(text: Seq<char>, after: Seq<char>, line: nat) -> bool {
    let alone = next_step(text, line);
    let padded = next_step(text + after, line);
    &&& is_end(alone.element) == is_end(padded.element)
    &&& kind_of(alone.element) == kind_of(padded.element)
    &&& padded.rest == alone.rest + after || (alone.rest.len() == 0 && padded.rest.len() == 0)
}

/// Padding behind a string literal.
proof fn lemma_string_before_padding(text: Seq<char>, after: Seq<char>, line: nat)
    requires
        is_padding(after),
        text.len() > 0,
        text[0] == '"',
    ensures
        ({
            let alone = string_step(text, line);
            let padded = string_step(text + after, line);
            &&& kind_of(alone.element) == kind_of(padded.element)
            &&& padded.rest == alone.rest + after || (alone.rest.len() == 0 && padded.rest.len()
                == 0)
        }),
{
    let whole = text + after;
    assert(whole.skip(1) == text.skip(1) + after);
    lemma_run_of_two(text.skip(1), after, Class::Body);
    lemma_runs_in_padding(after);
    let body = run(text.skip(1), Class::Body) as int;
    if 1 + body < text.len() {
        assert(whole.subrange(1, 1 + body) == text.subrange(1, 1 + body));
    }
}

/// Padding behind a number literal.
proof fn lemma_number_before_padding(text: Seq<char>, after: Seq<char>)
    requires
        is_padding(after),
        text.len() > 0,
        is_digit(text[0]),
    ensures
        number_length(text + after) == number_length(text),
        0 < number_length(text) <= text.len(),
{
    let whole = text + after;
    lemma_run_of_two(text, after, Class::Digit);
    lemma_runs_in_padding(after);
    lemma_run(text, Class::Digit);
    let digits = run(text, Class::Digit) as int;
    if digits + 1 < text.len() {
        assert(whole.skip(digits + 1) == text.skip(digits + 1) + after);
        lemma_run_of_two(text.skip(digits + 1), after, Class::Digit);
    }
    lemma_number_length(text);
}

/// Padding behind a lexeme.
proof fn lemma_lexeme_before_padding(text: Seq<char>, after: Seq<char>, line: nat)
    requires
        is_padding(after),
        text.len() > 0,
    ensures
        ({
            let alone = lexeme(text, line);
            let padded = lexeme(text + after, line);
            &&& kind_of(alone.element) == kind_of(padded.element)
            &&& padded.rest == alone.rest + after || (alone.rest.len() == 0 && padded.rest.len()
                == 0)
        }),
{
    let whole = text + after;
    let first = text[0];
    if first == '"' {
        lemma_string_before_padding(text, after, line);
    } else if is_digit(first) {
        lemma_number_before_padding(text, after);
        let length = number_length(text) as int;
        assert(whole.take(length) == text.take(length));
    } else if starts_word(first) {
        lemma_run_of_two(text, after, Class::Word);
        lemma_runs_in_padding(after);
        let length = run(text, Class::Word) as int;
        assert(whole.take(length) == text.take(length));
    }
}

/// Padding behind a text changes no step.
pub proof fn lemma_step_before_padding(text: Seq<char>, after: Seq<char>, line: nat)
    requires
        is_padding(after),
    ensures
        steps_alike(text, after, line),
    decreases text.len(),
{
    let whole = text + after;
    if text.len() == 0 {
        lemma_padding_ends(after, line);
        lemma_step(after, line);
    } else {
        assert(whole.skip(1) == text.skip(1) + after);
        if text[0] == '\n' {
            lemma_step_before_padding(text.skip(1), after, line + 1);
        } else if is_blank(text[0]) {
            lemma_step_before_padding(text.skip(1), after, line);
        } else if starts_comment(text) {
            lemma_run_of_two(text, after, Class::Comment);
            lemma_run(text, Class::Comment);
            let length = run(text, Class::Comment) as int;
            if length < text.len() {
                assert(whole.skip(length) == text.skip(length) + after);
                lemma_step_before_padding(text.skip(length), after, line);
            } else {
                lemma_run(after, Class::Comment);
                let further = run(after, Class::Comment) as int;
                assert(whole.skip(length + further) == after.skip(further));
                lemma_padding_skip(after, further);
                lemma_padding_ends(after.skip(further), line);
                lemma_step(after.skip(further), line);
            }
        } else {
            lemma_lexeme_before_padding(text, after, line);
            lemma_lexeme(text, line);
            lemma_lexeme(whole, line);
        }
    }
}

/// Padding behind a text changes no kind of token.
pub proof fn lemma_padding_after(text: Seq<char>, after: Seq<char>, line: nat)
    requires
        is_padding(after),
    ensures
        kinds_of(scan(text + after, line)) == kinds_of(scan(text, line)),
    decreases text.len(),
{
    let whole = text + after;
    lemma_step_before_padding(text, after, line);
    lemma_step(text, line);
    lemma_step(whole, line);
    lemma_kinds_unfold(text, line);
    lemma_kinds_unfold(whole, line);
    let alone = next_step(text, line);
    let padded = next_step(whole, line);
    if !is_end(alone.element) {
        lemma_kinds_whatever_the_line(padded.rest, padded.line, alone.line);
        if padded.rest == alone.rest + after {
            lemma_padding_after(alone.rest, after, alone.line);
        }
    }
}

/// Blanks and newlines around a text change none of its tokens but in
/// their lines: the scan of the padded text holds the same kinds of token
/// in the same order.
pub proof fn lemma_padding_changes_no_token(before: Seq<char>, text: Seq<char>, after: Seq<char>)
    requires
        is_padding(before),
        is_padding(after),
    ensures
        kinds_of(scan(before + text + after, 1)) == kinds_of(scan(text, 1)),
{
    assert(before + text + after == before + (text + after));
    lemma_padding_before(before, text + after, 1);
    lemma_padding_after(text, after, 1);
}

} // verus!
