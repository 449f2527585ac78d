//! What holds of every text: laws of the lexical analysis, proved from the
//! grammar.

use crate::chars::{
    char_is_whitespace, classified, is_decimal_digit, is_hex_digit, text_between, SourceChar,
};
use crate::error::LexErrorKind;
use crate::grammar::{
    is_hex_prefix, is_word_start, lemma_pull_at, lemma_whitespace_end, numeral_end, pull_at,
    string_body, token_at, Pull, Scanned,
};
use crate::lexer::{lex, lex_from, FaultView, LexemeView, Lexer};
use crate::numeral::{
    digits_end, digits_value, hex_digits_value, lemma_digits_end_from, NumeralView,
};
use crate::position::{lemma_line_start, line_start, position_at};
use crate::token::TokenView;
use vstd::prelude::*;

verus! {

/// A text that holds nothing but whitespace has no lexemes.
pub proof fn lemma_whitespace_only(s: Seq<SourceChar>)
    requires
        forall|k: int| 0 <= k < s.len() ==> (#[trigger] s[k]).class.whitespace,
    ensures
        lex(s) == Ok::<Seq<LexemeView>, FaultView>(Seq::empty()),
{
    lemma_whitespace_end(s, 0);
}

/// A source text all of whose characters are whitespace to the Unicode
/// tables has no lexemes.
pub proof fn lemma_whitespace_text(text: Seq<char>)
    requires
        forall|k: int| 0 <= k < text.len() ==> char_is_whitespace(#[trigger] text[k]),
    ensures
        lex(classified(text)) == Ok::<Seq<LexemeView>, FaultView>(Seq::empty()),
{
    lemma_whitespace_only(classified(text));
}

/// What an analyser has left to read depends on its text and its place
/// alone: two analysers that stand at the same place of the same text, in
/// the same state, give the same lexemes, or the same error.
pub proof fn lemma_same_text_same_lexemes(first: Lexer, second: Lexer)
    requires
        first.stream() == second.stream(),
        first.consumed() == second.consumed(),
        first.failure() == second.failure(),
    ensures
        first.remaining() == second.remaining(),
{
}

/// Two analysers fresh from the same text give the same lexemes, or the
/// same error: those of the text.
pub proof fn lemma_fresh_analysers_agree(text: Seq<char>, first: Lexer, second: Lexer)
    requires
        first.stream() == classified(text),
        first.consumed() == 0,
        first.failure() is None,
        second.stream() == classified(text),
        second.consumed() == 0,
        second.failure() is None,
    ensures
        first.remaining() == lex(classified(text)),
        second.remaining() == first.remaining(),
{
}

/// The indices below `i` at which `s` holds a line break.
pub open spec fn line_breaks_before(s: Seq<SourceChar>, i: int) -> Set<int> {
    Set::new(|k: int| 0 <= k < i && s[k].value == '\n')
}

/// The line of a position is one more than the number of line breaks
/// before it; its column is the number of characters behind the last of
/// them, none of which is a line break.
pub proof fn lemma_position_counts(s: Seq<SourceChar>, i: int)
    requires
        0 <= i <= s.len(),
    ensures
        line_breaks_before(s, i).finite(),
        position_at(s, i).line == line_breaks_before(s, i).len() + 1,
        position_at(s, i).column == i - line_start(s, i),
        0 <= line_start(s, i) <= i,
        line_start(s, i) == 0 || s[line_start(s, i) - 1].value == '\n',
        forall|k: int| line_start(s, i) <= k < i ==> (#[trigger] s[k]).value != '\n',
    decreases i,
{
    lemma_line_start(s, i);
    if i == 0 {
        assert(line_breaks_before(s, i) == Set::<int>::empty());
    } else {
        lemma_position_counts(s, i - 1);
        if s[i - 1].value == '\n' {
            assert(line_breaks_before(s, i) == line_breaks_before(s, i - 1).insert(i - 1));
        } else {
            assert(line_breaks_before(s, i) == line_breaks_before(s, i - 1));
        }
    }
}

/// The index of the first character of lexeme number `k`, counted from
/// 0, among the lexemes that are read from index `i` on.
pub open spec fn lexeme_start(s: Seq<SourceChar>, i: int, k: nat) -> int
    decreases k,
{
    match pull_at(s, i) {
        Pull::Lexeme { token, start, end } => if k == 0 {
            start
        } else {
            lexeme_start(s, end, (k - 1) as nat)
        },
        _ => i,
    }
}

/// Every lexeme of a text is the token that begins at some index of the
/// text, at a character that is no whitespace, and carries the position of
/// that index: its line is one more than the number of line breaks before
/// the token, its column the number of characters since the last of them.
pub proof fn lemma_lexeme_positions(s: Seq<SourceChar>, i: int, k: nat)
    requires
        0 <= i <= s.len(),
        lex_from(s, i) is Ok,
        k < lex_from(s, i)->Ok_0.len(),
    ensures
        i <= lexeme_start(s, i, k) < s.len(),
        !s[lexeme_start(s, i, k)].class.whitespace,
        token_at(s, lexeme_start(s, i, k)) is Done,
        lex_from(s, i)->Ok_0[k as int] == (LexemeView {
            token: token_at(s, lexeme_start(s, i, k))->Done_value,
            position: position_at(s, lexeme_start(s, i, k)),
        }),
    decreases k,
{
    lemma_pull_at(s, i);
    lemma_whitespace_end(s, i);
    match pull_at(s, i) {
        Pull::Lexeme { token, start, end } => {
            if k > 0 {
                lemma_lexeme_positions(s, end, (k - 1) as nat);
            }
        },
        _ => {},
    }
}

/// The lexemes of a text stand in the order of the text: each begins
/// behind the start of the one before it.
pub proof fn lemma_lexemes_in_order(s: Seq<SourceChar>, i: int, k: nat)
    requires
        0 <= i <= s.len(),
        lex_from(s, i) is Ok,
        k + 1 < lex_from(s, i)->Ok_0.len(),
    ensures
        lexeme_start(s, i, k) < lexeme_start(s, i, k + 1),
    decreases k,
{
    lemma_pull_at(s, i);
    match pull_at(s, i) {
        Pull::Lexeme { token, start, end } => {
            if k == 0 {
                lemma_lexeme_positions(s, end, 0);
            } else {
                lemma_lexemes_in_order(s, end, (k - 1) as nat);
            }
        },
        _ => {},
    }
}

/// A numeral of decimal digits alone is read on as far as the digits go.
proof fn lemma_numeral_digits(
    s: Seq<SourceChar>,
    i: int,
    j: int,
    fraction: bool,
    exponent: bool,
)
    requires
        0 <= i <= j <= s.len(),
        forall|k: int| i <= k < j ==> is_decimal_digit(#[trigger] s[k].value),
    ensures
        numeral_end(s, i, false, fraction, exponent) == numeral_end(
            s,
            j,
            false,
            fraction,
            exponent,
        ),
    decreases j - i,
{
    if i < j {
        lemma_numeral_digits(s, i + 1, j, fraction, exponent);
    }
}

/// Where `t` holds digits from `i` up to `e`, and `e` is its end or holds
/// no digit, the run of digits from `i` ends at `e`.
proof fn lemma_digits_end_is(t: Seq<char>, i: int, e: int)
    requires
        0 <= i <= e <= t.len(),
        forall|k: int| i <= k < e ==> is_decimal_digit(#[trigger] t[k]),
        e < t.len() ==> !is_decimal_digit(t[e]),
    ensures
        digits_end(t, i) == e,
{
    lemma_digits_end_from(t, i, e);
}

/// A character that ends a numeral of digits alone: no digit, no point and
/// no exponent mark.
pub open spec fn ends_integer(c: char) -> bool {
    !is_decimal_digit(c) && c != '.' && c != 'e' && c != 'E'
}

/// An integer literal is read as the number that its digits denote.
///
/// Where decimal digits stand from `i` up to `j`, the first of them is not
/// classed as a letter, no `0x` begins them, and they are followed by the
/// end of the text or by a character that is no digit, point or exponent
/// mark: the token at `i` is the number with those digits as its text,
/// and that number is the value of the digits, with no exponent.
pub proof fn lemma_integer_literal(s: Seq<SourceChar>, i: int, j: int)
    requires
        0 <= i < j <= s.len(),
        forall|k: int| i <= k < j ==> is_decimal_digit(#[trigger] s[k].value),
        j < s.len() ==> ends_integer(s[j].value),
        !is_word_start(s[i]),
        !is_hex_prefix(s, i),
    ensures
        token_at(s, i) == (Scanned::Done {
            value: TokenView::Number(NumeralView::Decimal(text_between(s, i, j))),
            end: j,
        }),
        NumeralView::Decimal(text_between(s, i, j)).wf(),
        NumeralView::Decimal(text_between(s, i, j)).significand() == digits_value(
            text_between(s, i, j),
        ),
        NumeralView::Decimal(text_between(s, i, j)).exponent() == 0,
{
    let t = text_between(s, i, j);
    lemma_numeral_digits(s, i, j, false, false);
    lemma_digits_end_is(t, 0, t.len() as int);
    assert(t.subrange(0, t.len() as int) == t);
}

/// An integer with an exponent is read as the number that its digits
/// denote, scaled by the power of ten that the exponent denotes.
///
/// Where decimal digits stand from `i` up to `m`, an exponent mark at `m`,
/// then a minus sign or none, then decimal digits from `d` up to the end
/// of the text, at least one of them: the token at `i` is the number with
/// all of that as its text; its significand is the value of the digits
/// before the mark and its exponent the value of the digits behind it,
/// negated behind a minus sign.
pub proof fn lemma_exponent_literal(s: Seq<SourceChar>, i: int, m: int, d: int)
    requires
        0 <= i < m < d < s.len(),
        forall|k: int| i <= k < m ==> is_decimal_digit(#[trigger] s[k].value),
        s[m].value == 'e' || s[m].value == 'E',
        d == m + 1 || (d == m + 2 && s[m + 1].value == '-'),
        forall|k: int| d <= k < s.len() ==> is_decimal_digit(#[trigger] s[k].value),
        !is_word_start(s[i]),
    ensures
        token_at(s, i) == (Scanned::Done {
            value: TokenView::Number(NumeralView::Decimal(text_between(s, i, s.len() as int))),
            end: s.len() as int,
        }),
        NumeralView::Decimal(text_between(s, i, s.len() as int)).wf(),
        NumeralView::Decimal(text_between(s, i, s.len() as int)).significand() == digits_value(
            text_between(s, i, m),
        ),
        NumeralView::Decimal(text_between(s, i, s.len() as int)).exponent() == if d == m + 1 {
            digits_value(text_between(s, d, s.len() as int)) as int
        } else {
            -(digits_value(text_between(s, d, s.len() as int)) as int)
        },
{
    let n = s.len() as int;
    let t = text_between(s, i, n);
    // The numeral runs to the end of the text.
    lemma_numeral_digits(s, i, m, false, false);
    lemma_numeral_digits(s, d, n, false, true);
    // Its text follows the grammar.
    lemma_digits_end_is(t, 0, m - i);
    lemma_digits_end_is(t, d - i, t.len() as int);
    // Its parts are the digits before and behind the mark.
    assert(t.subrange(0, m - i) == text_between(s, i, m));
    assert(t.subrange(d - i, t.len() as int) == text_between(s, d, n));
}

/// A numeral with a point is read as the number that its digits denote,
/// scaled down by one power of ten for each digit behind the point.
///
/// Where decimal digits stand from `i` up to `m`, a point at `m`, then
/// decimal digits up to `j`, and then the end of the text or a character
/// that is no digit, point or exponent mark: the token at `i` is the
/// number with all of that as its text; its significand is the value of
/// the digits before and behind the point, read as one, and its exponent
/// is the number of digits behind the point, negated.
pub proof fn lemma_fraction_literal(s: Seq<SourceChar>, i: int, m: int, j: int)
    requires
        0 <= i < m < j <= s.len(),
        forall|k: int| i <= k < m ==> is_decimal_digit(#[trigger] s[k].value),
        s[m].value == '.',
        forall|k: int| m < k < j ==> is_decimal_digit(#[trigger] s[k].value),
        j < s.len() ==> ends_integer(s[j].value),
        !is_word_start(s[i]),
    ensures
        token_at(s, i) == (Scanned::Done {
            value: TokenView::Number(NumeralView::Decimal(text_between(s, i, j))),
            end: j,
        }),
        NumeralView::Decimal(text_between(s, i, j)).wf(),
        NumeralView::Decimal(text_between(s, i, j)).significand() == digits_value(
            text_between(s, i, m) + text_between(s, m + 1, j),
        ),
        NumeralView::Decimal(text_between(s, i, j)).exponent() == -(j - m - 1),
{
    let t = text_between(s, i, j);
    // The numeral runs up to `j`.
    lemma_numeral_digits(s, i, m, false, false);
    assert forall|k: int| m + 1 <= k < j implies is_decimal_digit(#[trigger] s[k].value) by {}
    lemma_numeral_digits(s, m + 1, j, true, false);
    // Its text follows the grammar.
    lemma_digits_end_is(t, 0, m - i);
    lemma_digits_end_is(t, m - i + 1, t.len() as int);
    // Its parts are the digits before and behind the point.
    assert(t.subrange(0, m - i) == text_between(s, i, m));
    assert(t.subrange(m - i + 1, t.len() as int) == text_between(s, m + 1, j));
}

/// A second point in a numeral is an error, found at that point.
///
/// Where decimal digits stand from `i` up to `m`, a point at `m`, then
/// decimal digits up to `p`, and a point at `p`: the token at `i` is a
/// malformed number, and the analysis stands at `p`.
pub proof fn lemma_second_point(s: Seq<SourceChar>, i: int, m: int, p: int)
    requires
        0 <= i < m < p < s.len(),
        forall|k: int| i <= k < m ==> is_decimal_digit(#[trigger] s[k].value),
        s[m].value == '.',
        forall|k: int| m < k < p ==> is_decimal_digit(#[trigger] s[k].value),
        s[p].value == '.',
        !is_word_start(s[i]),
    ensures
        token_at(s, i) == (Scanned::<TokenView>::Fault {
            kind: LexErrorKind::MalformedNumber,
            at: p,
        }),
{
    lemma_numeral_digits(s, i, m, false, false);
    assert forall|k: int| m + 1 <= k < p implies is_decimal_digit(#[trigger] s[k].value) by {}
    lemma_numeral_digits(s, m + 1, p, true, false);
}

/// A numeral of hexadecimal digits alone is read on as far as the digits
/// go.
proof fn lemma_numeral_hex_digits(s: Seq<SourceChar>, i: int, j: int, fraction: bool)
    requires
        0 <= i <= j <= s.len(),
        forall|k: int| i <= k < j ==> is_hex_digit(#[trigger] s[k].value),
    ensures
        numeral_end(s, i, true, fraction, false) == numeral_end(s, j, true, fraction, false),
    decreases j - i,
{
    if i < j {
        lemma_numeral_hex_digits(s, i + 1, j, fraction);
    }
}

/// A hexadecimal literal is read as the number that its digits denote.
///
/// Where `0x` or `0X` stands at `i`, hexadecimal digits behind it up to
/// `j`, at least one of them, and then the end of the text or a character
/// that is no hexadecimal digit and no point: the token at `i` is the
/// number that the digits denote, provided that it fits in an `i64`, and a
/// malformed number found at `j` otherwise.
pub proof fn lemma_hex_literal(s: Seq<SourceChar>, i: int, j: int)
    requires
        0 <= i,
        i + 2 < j <= s.len(),
        s[i].value == '0',
        s[i + 1].value == 'x' || s[i + 1].value == 'X',
        forall|k: int| i + 2 <= k < j ==> is_hex_digit(#[trigger] s[k].value),
        j < s.len() ==> !is_hex_digit(s[j].value) && s[j].value != '.',
        !is_word_start(s[i]),
    ensures
        token_at(s, i) == if hex_digits_value(text_between(s, i + 2, j)) <= i64::MAX {
            Scanned::Done {
                value: TokenView::Number(
                    NumeralView::Hexadecimal(hex_digits_value(text_between(s, i + 2, j)) as int),
                ),
                end: j,
            }
        } else {
            Scanned::Fault { kind: LexErrorKind::MalformedNumber, at: j }
        },
{
    lemma_numeral_hex_digits(s, i + 2, j, false);
}

/// A string literal without a backslash holds the characters between its
/// quotes.
///
/// Where a quote stands at `i`, the same quote at `q`, and between them
/// neither that quote nor a backslash: the token at `i` is the string
/// literal with the characters between the two quotes as its text, and it
/// ends behind the closing quote.
pub proof fn lemma_plain_string(s: Seq<SourceChar>, i: int, q: int)
    requires
        0 <= i < q < s.len(),
        s[i].value == '"' || s[i].value == '\'',
        s[q].value == s[i].value,
        forall|k: int|
            i < k < q ==> (#[trigger] s[k]).value != s[i].value && s[k].value != '\\',
    ensures
        token_at(s, i) == (Scanned::Done {
            value: TokenView::StaticString(text_between(s, i + 1, q)),
            end: q + 1,
        }),
{
    lemma_plain_string_body(s, s[i].value, i + 1, q);
}

/// The rest of a string literal from `j` on, where neither the delimiter
/// nor a backslash stands before the delimiter at `q`, is the characters
/// from `j` up to `q`.
proof fn lemma_plain_string_body(s: Seq<SourceChar>, delimiter: char, j: int, q: int)
    requires
        0 <= j <= q < s.len(),
        delimiter != '\\',
        s[q].value == delimiter,
        forall|k: int| j <= k < q ==> (#[trigger] s[k]).value != delimiter && s[k].value != '\\',
    ensures
        string_body(s, delimiter, j) == (Scanned::Done {
            value: text_between(s, j, q),
            end: q + 1,
        }),
    decreases q - j,
{
    if j < q {
        lemma_plain_string_body(s, delimiter, j + 1, q);
        assert(seq![s[j].value] + text_between(s, j + 1, q) == text_between(s, j, q));
    } else {
        assert(text_between(s, j, q) == Seq::<char>::empty());
    }
}

/// A string literal whose closing quote is missing is an error, found at
/// the end of the text.
///
/// Where a quote stands at `i` and behind it neither that quote nor a
/// backslash: the token at `i` is an unterminated string.
pub proof fn lemma_unterminated_string(s: Seq<SourceChar>, i: int)
    requires
        0 <= i < s.len(),
        s[i].value == '"' || s[i].value == '\'',
        forall|k: int|
            i < k < s.len() ==> (#[trigger] s[k]).value != s[i].value && s[k].value != '\\',
    ensures
        token_at(s, i) == (Scanned::<TokenView>::Fault {
            kind: LexErrorKind::UnterminatedString,
            at: s.len() as int,
        }),
{
    lemma_open_string_body(s, s[i].value, i + 1);
}

/// The rest of a string literal from `j` on, where neither the delimiter
/// nor a backslash follows, is unterminated.
proof fn lemma_open_string_body(s: Seq<SourceChar>, delimiter: char, j: int)
    requires
        0 <= j <= s.len(),
        forall|k: int|
            j <= k < s.len() ==> (#[trigger] s[k]).value != delimiter && s[k].value != '\\',
    ensures
        string_body(s, delimiter, j) == (Scanned::<Seq<char>>::Fault {
            kind: LexErrorKind::UnterminatedString,
            at: s.len() as int,
        }),
    decreases s.len() - j,
{
    if j < s.len() {
        lemma_open_string_body(s, delimiter, j + 1);
    }
}

} // verus!
