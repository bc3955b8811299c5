//! The scanner: source text to tokens, with lexical diagnostics.
use vstd::prelude::*;

use crate::errors::Diagnostic;
use crate::keywords::{lookup_keyword, word_type};
use crate::number::{decimal_value, is_ascii_digit, is_numeral, parse_decimal};
use crate::text::{chars_of, string_of};
use crate::tokens::{Object, Token, TokenType, TokenView, Value};

verus! {

pub open spec fn is_word_start(c: char) -> bool {
    ('a' <= c && c <= 'z') || ('A' <= c && c <= 'Z') || c == '_'
}

pub open spec fn is_word_char(c: char) -> bool {
    is_word_start(c) || is_ascii_digit(c)
}

/// The number of line breaks in `s`.
pub open spec fn newlines(s: Seq<char>) -> nat
    decreases s.len(),
{
    if s.len() == 0 {
        0
    } else {
        newlines(s.drop_last()) + if s.last() == '\n' {
            1nat
        } else {
            0nat
        }
    }
}

/// The line that position `p` of `s` stands on: one more than the line
/// breaks before it.
pub open spec fn line_at(s: Seq<char>, p: int) -> u64 {
    (1 + newlines(s.subrange(0, p))) as u64
}

/// The end of the run of digits that starts at `i`.
pub open spec fn digits_end(s: Seq<char>, i: int) -> int
    decreases s.len() - i,
{
    if 0 <= i < s.len() && is_ascii_digit(s[i]) {
        digits_end(s, i + 1)
    } else {
        i
    }
}

/// The end of the run of word characters that starts at `i`.
pub open spec fn word_end(s: Seq<char>, i: int) -> int
    decreases s.len() - i,
{
    if 0 <= i < s.len() && is_word_char(s[i]) {
        word_end(s, i + 1)
    } else {
        i
    }
}

/// The first position at or after `i` that holds `stop`, or the end.
pub open spec fn find_from(s: Seq<char>, i: int, stop: char) -> int
    decreases s.len() - i,
{
    if 0 <= i < s.len() && s[i] != stop {
        find_from(s, i + 1, stop)
    } else {
        i
    }
}

/// The end of a block comment whose body starts at `i`, inside `depth`
/// open comments; the end of the text if it never closes.
pub open spec fn comment_end(s: Seq<char>, i: int, depth: nat) -> int
    decreases s.len() - i,
{
    if i < 0 || i >= s.len() {
        s.len() as int
    } else if s[i] == '/' && i + 1 < s.len() && s[i + 1] == '*' {
        comment_end(s, i + 2, depth + 1)
    } else if s[i] == '*' && i + 1 < s.len() && s[i + 1] == '/' {
        if depth <= 1 {
            i + 2
        } else {
            comment_end(s, i + 2, (depth - 1) as nat)
        }
    } else {
        comment_end(s, i + 1, depth)
    }
}

/// The end of a numeral that starts with the digit at `i`: digits, then a
/// dot and digits only when a digit follows the dot.
pub open spec fn number_end(s: Seq<char>, i: int) -> int {
    let e = digits_end(s, i + 1);
    if e + 1 < s.len() && s[e] == '.' && is_ascii_digit(s[e + 1]) {
        digits_end(s, e + 2)
    } else {
        e
    }
}

/// What one lexeme is.
#[derive(PartialEq, Eq, Structural, Clone, Copy)]
pub enum Lexeme {
    /// A token of a fixed type.
    Fixed(TokenType),
    /// An identifier or reserved word.
    Word,
    /// A numeral.
    Numeral,
    /// A string literal with both quotes.
    Text,
    /// White space or a comment.
    Skip,
    /// A character that begins no lexeme.
    Unexpected(char),
    /// A string literal that the text ends inside.
    Unterminated,
}

pub open spec fn one_or_two(s: Seq<char>, i: int, one: TokenType, two: TokenType) -> (
    Lexeme,
    int,
) {
    let n = s.len();
    if i + 1 < n && s[i + 1] == '=' {
        (Lexeme::Fixed(two), i + 2)
    } else {
        (Lexeme::Fixed(one), i + 1)
    }
}

/// The lexeme that starts at `i` and where it ends.
pub open spec fn lexeme_at(s: Seq<char>, i: int) -> (Lexeme, int)
    recommends
        0 <= i < s.len(),
{
    let c = s[i];
    if c == '(' {
        (Lexeme::Fixed(TokenType::LeftParen), i + 1)
    } else if c == ')' {
        (Lexeme::Fixed(TokenType::RightParen), i + 1)
    } else if c == '{' {
        (Lexeme::Fixed(TokenType::LeftBrace), i + 1)
    } else if c == '}' {
        (Lexeme::Fixed(TokenType::RightBrace), i + 1)
    } else if c == ',' {
        (Lexeme::Fixed(TokenType::Comma), i + 1)
    } else if c == '.' {
        (Lexeme::Fixed(TokenType::Dot), i + 1)
    } else if c == '-' {
        (Lexeme::Fixed(TokenType::Minus), i + 1)
    } else if c == '+' {
        (Lexeme::Fixed(TokenType::Plus), i + 1)
    } else if c == ';' {
        (Lexeme::Fixed(TokenType::Semicolon), i + 1)
    } else if c == '*' {
        (Lexeme::Fixed(TokenType::Star), i + 1)
    } else if c == '!' {
        one_or_two(s, i, TokenType::Bang, TokenType::BangEqual)
    } else if c == '=' {
        one_or_two(s, i, TokenType::Equal, TokenType::EqualEqual)
    } else if c == '<' {
        one_or_two(s, i, TokenType::Less, TokenType::LessEqual)
    } else if c == '>' {
        one_or_two(s, i, TokenType::Greater, TokenType::GreaterEqual)
    } else if c == '/' {
        if i + 1 < s.len() && s[i + 1] == '*' {
            (Lexeme::Skip, comment_end(s, i + 2, 1))
        } else if i + 1 < s.len() && s[i + 1] == '/' {
            (Lexeme::Skip, find_from(s, i + 2, '\n'))
        } else {
            (Lexeme::Fixed(TokenType::Slash), i + 1)
        }
    } else if c == ' ' || c == '\r' || c == '\t' || c == '\n' {
        (Lexeme::Skip, i + 1)
    } else if c == '"' {
        let q = find_from(s, i + 1, '"');
        if q < s.len() {
            (Lexeme::Text, q + 1)
        } else {
            (Lexeme::Unterminated, s.len() as int)
        }
    } else if is_ascii_digit(c) {
        (Lexeme::Numeral, number_end(s, i))
    } else if is_word_start(c) {
        (Lexeme::Word, word_end(s, i + 1))
    } else {
        (Lexeme::Unexpected(c), i + 1)
    }
}

/// The token that a lexeme `s[i..e]` gives, if any.
pub open spec fn token_of(s: Seq<char>, lx: Lexeme, i: int, e: int) -> Option<TokenView> {
    let text = s.subrange(i, e);
    let line = line_at(s, e);
    match lx {
        Lexeme::Fixed(t) => Some(TokenView { token_type: t, lexeme: text, literal: None, line }),
        Lexeme::Word => Some(
            TokenView { token_type: word_type(text), lexeme: text, literal: None, line },
        ),
        Lexeme::Numeral => Some(
            TokenView {
                token_type: TokenType::Number,
                lexeme: text,
                literal: Some(Value::Number(decimal_value(text))),
                line,
            },
        ),
        Lexeme::Text => Some(
            TokenView {
                token_type: TokenType::String,
                lexeme: text,
                literal: Some(Value::Str(s.subrange(i + 1, e - 1))),
                line,
            },
        ),
        _ => None,
    }
}

/// The diagnostic that a lexeme ending at `e` gives, if any.
pub open spec fn diagnostic_of(s: Seq<char>, lx: Lexeme, e: int) -> Option<(u64, Seq<char>)> {
    match lx {
        Lexeme::Unexpected(c) => Some((line_at(s, e), "Unexpected character "@.push(c))),
        Lexeme::Unterminated => Some((line_at(s, e), "Unterminated string."@)),
        _ => None,
    }
}

pub open spec fn option_seq<A>(o: Option<A>) -> Seq<A> {
    match o {
        Some(a) => seq![a],
        None => Seq::empty(),
    }
}

/// The tokens of `s` from position `i` on, ending with the end-of-file token.
pub open spec fn tokens_from(s: Seq<char>, i: int) -> Seq<TokenView>
    decreases s.len() - i,
{
    if i < 0 || i >= s.len() {
        seq![
            TokenView {
                token_type: TokenType::Eof,
                lexeme: Seq::empty(),
                literal: None,
                line: line_at(s, s.len() as int),
            },
        ]
    } else {
        let (lx, e) = lexeme_at(s, i);
        proof {
            lemma_lexeme_advances(s, i);
        }
        option_seq(token_of(s, lx, i, e)) + tokens_from(s, e)
    }
}

/// The lexical diagnostics of `s` from position `i` on.
pub open spec fn diagnostics_from(s: Seq<char>, i: int) -> Seq<(u64, Seq<char>)>
    decreases s.len() - i,
{
    if i < 0 || i >= s.len() {
        Seq::empty()
    } else {
        let (lx, e) = lexeme_at(s, i);
        proof {
            lemma_lexeme_advances(s, i);
        }
        option_seq(diagnostic_of(s, lx, e)) + diagnostics_from(s, e)
    }
}

pub proof fn lemma_digits_end(s: Seq<char>, i: int)
    requires
        0 <= i <= s.len(),
    ensures
        i <= digits_end(s, i) <= s.len(),
        forall|j: int| i <= j < digits_end(s, i) ==> is_ascii_digit(s[j]),
        digits_end(s, i) < s.len() ==> !is_ascii_digit(s[digits_end(s, i)]),
    decreases s.len() - i,
{
    if i < s.len() && is_ascii_digit(s[i]) {
        lemma_digits_end(s, i + 1);
    }
}

pub proof fn lemma_word_end(s: Seq<char>, i: int)
    requires
        0 <= i <= s.len(),
    ensures
        i <= word_end(s, i) <= s.len(),
        forall|j: int| i <= j < word_end(s, i) ==> is_word_char(s[j]),
        word_end(s, i) < s.len() ==> !is_word_char(s[word_end(s, i)]),
    decreases s.len() - i,
{
    if i < s.len() && is_word_char(s[i]) {
        lemma_word_end(s, i + 1);
    }
}

pub proof fn lemma_find_from(s: Seq<char>, i: int, stop: char)
    requires
        0 <= i <= s.len(),
    ensures
        i <= find_from(s, i, stop) <= s.len(),
        forall|j: int| i <= j < find_from(s, i, stop) ==> s[j] != stop,
        find_from(s, i, stop) < s.len() ==> s[find_from(s, i, stop)] == stop,
    decreases s.len() - i,
{
    if i < s.len() && s[i] != stop {
        lemma_find_from(s, i + 1, stop);
    }
}

pub proof fn lemma_comment_end(s: Seq<char>, i: int, depth: nat)
    requires
        0 <= i <= s.len(),
    ensures
        i <= comment_end(s, i, depth) <= s.len(),
    decreases s.len() - i,
{
    if i < s.len() {
        if s[i] == '/' && i + 1 < s.len() && s[i + 1] == '*' {
            lemma_comment_end(s, i + 2, depth + 1);
        } else if s[i] == '*' && i + 1 < s.len() && s[i + 1] == '/' {
            if depth > 1 {
                lemma_comment_end(s, i + 2, (depth - 1) as nat);
            }
        } else {
            lemma_comment_end(s, i + 1, depth);
        }
    }
}

/// Every lexeme is at least one character long and ends within the text.
pub proof fn lemma_lexeme_advances(s: Seq<char>, i: int)
    requires
        0 <= i < s.len(),
    ensures
        i < lexeme_at(s, i).1 <= s.len(),
{
    lemma_digits_end(s, i + 1);
    lemma_word_end(s, i + 1);
    lemma_find_from(s, i + 1, '"');
    if i + 2 <= s.len() {
        lemma_comment_end(s, i + 2, 1);
        lemma_find_from(s, i + 2, '\n');
    }
    let e = digits_end(s, i + 1);
    if e + 1 < s.len() {
        lemma_digits_end(s, e + 2);
    }
}

/// The scanned tokens end with the end-of-file token, and no other token is
/// an end-of-file token.
pub proof fn lemma_single_eof(s: Seq<char>, i: int)
    ensures
        tokens_from(s, i).len() >= 1,
        tokens_from(s, i).last().token_type == TokenType::Eof,
        forall|j: int|
            0 <= j < tokens_from(s, i).len() - 1 ==> #[trigger] tokens_from(s, i)[j].token_type
                != TokenType::Eof,
    decreases s.len() - i,
{
    if 0 <= i < s.len() {
        let (lx, e) = lexeme_at(s, i);
        lemma_lexeme_advances(s, i);
        lemma_single_eof(s, e);
        let head = option_seq(token_of(s, lx, i, e));
        let text = s.subrange(i, e);
        assert(word_type(text) != TokenType::Eof);
        assert(forall|j: int| 0 <= j < head.len() ==> head[j].token_type != TokenType::Eof);
        let rest = tokens_from(s, e);
        assert(tokens_from(s, i) == head + rest);
        assert forall|j: int| 0 <= j < tokens_from(s, i).len() - 1 implies #[trigger] tokens_from(
            s,
            i,
        )[j].token_type != TokenType::Eof by {
            if j >= head.len() {
                assert(tokens_from(s, i)[j] == rest[j - head.len()]);
            }
        }
    }
}

/// Every scanned number or string token carries its value.
pub proof fn lemma_literals_present(s: Seq<char>, i: int)
    ensures
        forall|j: int|
            0 <= j < tokens_from(s, i).len() && (tokens_from(s, i)[j].token_type
                == TokenType::Number || tokens_from(s, i)[j].token_type == TokenType::String)
                ==> #[trigger] tokens_from(s, i)[j].literal is Some,
    decreases s.len() - i,
{
    if 0 <= i < s.len() {
        let (lx, e) = lexeme_at(s, i);
        lemma_lexeme_advances(s, i);
        lemma_literals_present(s, e);
        let head = option_seq(token_of(s, lx, i, e));
        let text = s.subrange(i, e);
        assert(word_type(text) != TokenType::Number && word_type(text) != TokenType::String);
        let rest = tokens_from(s, e);
        assert(tokens_from(s, i) == head + rest);
        assert forall|j: int|
            0 <= j < tokens_from(s, i).len() && (tokens_from(s, i)[j].token_type
                == TokenType::Number || tokens_from(s, i)[j].token_type == TokenType::String)
                implies #[trigger] tokens_from(s, i)[j].literal is Some by {
            if j >= head.len() {
                assert(tokens_from(s, i)[j] == rest[j - head.len()]);
            }
        }
    }
}

pub proof fn lemma_line_step(s: Seq<char>, p: int)
    requires
        0 <= p < s.len(),
    ensures
        newlines(s.subrange(0, p + 1)) == newlines(s.subrange(0, p)) + if s[p] == '\n' {
            1nat
        } else {
            0nat
        },
{
    assert(s.subrange(0, p + 1).drop_last() =~= s.subrange(0, p));
}

pub proof fn lemma_newlines_bound(s: Seq<char>)
    ensures
        newlines(s) <= s.len(),
    decreases s.len(),
{
    if s.len() > 0 {
        lemma_newlines_bound(s.drop_last());
    }
}

/// A numeral lexeme is a numeral in the sense of the number parser.
pub proof fn lemma_numeral(s: Seq<char>, i: int)
    requires
        0 <= i < s.len(),
        is_ascii_digit(s[i]),
    ensures
        is_numeral(s.subrange(i, number_end(s, i))),
{
    let e = digits_end(s, i + 1);
    lemma_digits_end(s, i + 1);
    let t = s.subrange(i, number_end(s, i));
    if e + 1 < s.len() && s[e] == '.' && is_ascii_digit(s[e + 1]) {
        lemma_digits_end(s, e + 2);
        let f = digits_end(s, e + 2);
        assert(forall|k: int| 0 <= k < t.len() ==> t[k] == s[i + k]);
        assert forall|a: int, b: int| 0 <= a < b < t.len() && t[a] == '.' implies t[b] != '.' by {
            assert(i + a == e);
        }
        assert(t.last() == s[f - 1]);
    } else {
        assert(forall|k: int| 0 <= k < t.len() ==> t[k] == s[i + k]);
    }
}

fn digits_end_of(s: &Vec<char>, i: usize) -> (r: usize)
    requires
        i <= s@.len(),
    ensures
        r == digits_end(s@, i as int),
{
    let mut j = i;
    while j < s.len() && is_digit_char(s[j])
        invariant
            i <= j <= s@.len(),
            digits_end(s@, j as int) == digits_end(s@, i as int),
        decreases s@.len() - j,
    {
        j += 1;
    }
    j
}

fn word_end_of(s: &Vec<char>, i: usize) -> (r: usize)
    requires
        i <= s@.len(),
    ensures
        r == word_end(s@, i as int),
{
    let mut j = i;
    while j < s.len() && is_word_character(s[j])
        invariant
            i <= j <= s@.len(),
            word_end(s@, j as int) == word_end(s@, i as int),
        decreases s@.len() - j,
    {
        j += 1;
    }
    j
}

fn find_from_of(s: &Vec<char>, i: usize, stop: char) -> (r: usize)
    requires
        i <= s@.len(),
    ensures
        r == find_from(s@, i as int, stop),
{
    let mut j = i;
    while j < s.len() && s[j] != stop
        invariant
            i <= j <= s@.len(),
            find_from(s@, j as int, stop) == find_from(s@, i as int, stop),
        decreases s@.len() - j,
    {
        j += 1;
    }
    j
}

fn comment_end_of(s: &Vec<char>, i: usize) -> (r: usize)
    requires
        i <= s@.len(),
    ensures
        r == comment_end(s@, i as int, 1),
{
    let mut j = i;
    let mut depth: usize = 1;
    while j < s.len()
        invariant
            i <= j <= s@.len(),
            1 <= depth <= j + 1,
            comment_end(s@, j as int, depth as nat) == comment_end(s@, i as int, 1),
        decreases s@.len() - j,
    {
        if s[j] == '/' && j + 1 < s.len() && s[j + 1] == '*' {
            j += 2;
            depth += 1;
        } else if s[j] == '*' && j + 1 < s.len() && s[j + 1] == '/' {
            if depth <= 1 {
                return j + 2;
            }
            j += 2;
            depth -= 1;
        } else {
            j += 1;
        }
    }
    s.len()
}

fn is_digit_char(c: char) -> (r: bool)
    ensures
        r == is_ascii_digit(c),
{
    '0' <= c && c <= '9'
}

fn is_word_character(c: char) -> (r: bool)
    ensures
        r == is_word_char(c),
{
    ('a' <= c && c <= 'z') || ('A' <= c && c <= 'Z') || c == '_' || is_digit_char(c)
}

fn one_or_two_of(s: &Vec<char>, i: usize, one: TokenType, two: TokenType) -> (r: (Lexeme, usize))
    requires
        i < s@.len(),
    ensures
        r.0 == one_or_two(s@, i as int, one, two).0,
        r.1 == one_or_two(s@, i as int, one, two).1,
{
    let n = s.len();
    if i + 1 < n && s[i + 1] == '=' {
        (Lexeme::Fixed(two), i + 2)
    } else {
        (Lexeme::Fixed(one), i + 1)
    }
}

/// Classifies the lexeme that starts at `i`.
fn lexeme_of(s: &Vec<char>, i: usize) -> (r: (Lexeme, usize))
    requires
        i < s@.len(),
    ensures
        r.0 == lexeme_at(s@, i as int).0,
        r.1 == lexeme_at(s@, i as int).1,
{
    let c = s[i];
    let n = s.len();
    if c == '(' {
        (Lexeme::Fixed(TokenType::LeftParen), i + 1)
    } else if c == ')' {
        (Lexeme::Fixed(TokenType::RightParen), i + 1)
    } else if c == '{' {
        (Lexeme::Fixed(TokenType::LeftBrace), i + 1)
    } else if c == '}' {
        (Lexeme::Fixed(TokenType::RightBrace), i + 1)
    } else if c == ',' {
        (Lexeme::Fixed(TokenType::Comma), i + 1)
    } else if c == '.' {
        (Lexeme::Fixed(TokenType::Dot), i + 1)
    } else if c == '-' {
        (Lexeme::Fixed(TokenType::Minus), i + 1)
    } else if c == '+' {
        (Lexeme::Fixed(TokenType::Plus), i + 1)
    } else if c == ';' {
        (Lexeme::Fixed(TokenType::Semicolon), i + 1)
    } else if c == '*' {
        (Lexeme::Fixed(TokenType::Star), i + 1)
    } else if c == '!' {
        one_or_two_of(s, i, TokenType::Bang, TokenType::BangEqual)
    } else if c == '=' {
        one_or_two_of(s, i, TokenType::Equal, TokenType::EqualEqual)
    } else if c == '<' {
        one_or_two_of(s, i, TokenType::Less, TokenType::LessEqual)
    } else if c == '>' {
        one_or_two_of(s, i, TokenType::Greater, TokenType::GreaterEqual)
    } else if c == '/' {
        if i + 1 < n && s[i + 1] == '*' {
            (Lexeme::Skip, comment_end_of(s, i + 2))
        } else if i + 1 < n && s[i + 1] == '/' {
            (Lexeme::Skip, find_from_of(s, i + 2, '\n'))
        } else {
            (Lexeme::Fixed(TokenType::Slash), i + 1)
        }
    } else if c == ' ' || c == '\r' || c == '\t' || c == '\n' {
        (Lexeme::Skip, i + 1)
    } else if c == '"' {
        let q = find_from_of(s, i + 1, '"');
        if q < n {
            (Lexeme::Text, q + 1)
        } else {
            (Lexeme::Unterminated, n)
        }
    } else if is_digit_char(c) {
        let e = digits_end_of(s, i + 1);
        proof {
            lemma_digits_end(s@, i + 1);
        }
        if e < n && n - e > 1 && s[e] == '.' && is_digit_char(s[e + 1]) {
            (Lexeme::Numeral, digits_end_of(s, e + 2))
        } else {
            (Lexeme::Numeral, e)
        }
    } else if ('a' <= c && c <= 'z') || ('A' <= c && c <= 'Z') || c == '_' {
        (Lexeme::Word, word_end_of(s, i + 1))
    } else {
        (Lexeme::Unexpected(c), i + 1)
    }
}

/// A scanner over one source text. `tokens` and `diagnostics` hold what
/// has been scanned so far.
pub struct Scanner {
    pub source: Vec<char>,
    pub current: usize,
    pub line: u64,
    pub tokens: Vec<Token>,
    pub diagnostics: Vec<Diagnostic>,
}

pub open spec fn token_views(ts: Seq<Token>) -> Seq<TokenView> {
    ts.map_values(|t: Token| t@)
}

pub open spec fn diagnostic_views(ds: Seq<Diagnostic>) -> Seq<(u64, Seq<char>)> {
    ds.map_values(|d: Diagnostic| (d.line, d.message@))
}

impl Scanner {
    /// A scanner at the start of `source`, with nothing scanned.
    pub fn new(source: String) -> (r: Scanner)
        ensures
            r.source@ == source@,
            r.is_fresh(),
    {
        Scanner {
            source: chars_of(source.as_str()),
            current: 0,
            line: 1,
            tokens: Vec::new(),
            diagnostics: Vec::new(),
        }
    }

    pub open spec fn is_fresh(&self) -> bool {
        &&& self.current == 0
        &&& self.line == 1
        &&& self.tokens@.len() == 0
        &&& self.diagnostics@.len() == 0
    }

    /// Moves the cursor to `e`, counting the line breaks passed.
    fn advance_to(&mut self, e: usize)
        requires
            old(self).current <= e <= old(self).source@.len() < u64::MAX,
            old(self).line == line_at(old(self).source@, old(self).current as int),
        ensures
            final(self).current == e,
            final(self).line == line_at(final(self).source@, e as int),
            final(self).source == old(self).source,
            final(self).tokens == old(self).tokens,
            final(self).diagnostics == old(self).diagnostics,
    {
        while self.current < e
            invariant
                self.current <= e <= self.source@.len() < u64::MAX,
                self.line == line_at(self.source@, self.current as int),
                self.source == old(self).source,
                self.tokens == old(self).tokens,
                self.diagnostics == old(self).diagnostics,
            decreases e - self.current,
        {
            proof {
                lemma_line_step(self.source@, self.current as int);
                lemma_newlines_bound(self.source@.subrange(0, self.current as int));
            }
            if self.source[self.current] == '\n' {
                self.line = self.line + 1;
            }
            self.current = self.current + 1;
        }
    }

    /// Scans the lexeme at the cursor.
    fn scan_token(&mut self)
        requires
            old(self).current < old(self).source@.len() < u64::MAX,
            old(self).line == line_at(old(self).source@, old(self).current as int),
        ensures
            ({
                let s = old(self).source@;
                let i = old(self).current as int;
                let (lx, e) = lexeme_at(s, i);
                &&& final(self).source == old(self).source
                &&& final(self).current == e
                &&& final(self).line == line_at(s, e)
                &&& token_views(final(self).tokens@) == token_views(old(self).tokens@)
                    + option_seq(token_of(s, lx, i, e))
                &&& diagnostic_views(final(self).diagnostics@) == diagnostic_views(
                    old(self).diagnostics@,
                ) + option_seq(diagnostic_of(s, lx, e))
            }),
    {
        let ghost s = self.source@;
        let i = self.current;
        let (lx, e) = lexeme_of(&self.source, i);
        proof {
            lemma_lexeme_advances(s, i as int);
        }
        self.advance_to(e);
        let ghost old_tokens = self.tokens@;
        let ghost old_diagnostics = self.diagnostics@;
        match lx {
            Lexeme::Fixed(t) => {
                let lexeme = string_of(&self.source, i, e);
                self.tokens.push(Token { token_type: t, lexeme, literal: None, line: self.line });
            },
            Lexeme::Word => {
                let lexeme = string_of(&self.source, i, e);
                let t = match lookup_keyword(&lexeme) {
                    Some(k) => k,
                    None => TokenType::Identifier,
                };
                self.tokens.push(Token { token_type: t, lexeme, literal: None, line: self.line });
            },
            Lexeme::Numeral => {
                proof {
                    lemma_numeral(s, i as int);
                }
                let lexeme = string_of(&self.source, i, e);
                let value = parse_decimal(lexeme.as_str());
                self.tokens.push(
                    Token {
                        token_type: TokenType::Number,
                        lexeme,
                        literal: Some(Object::Number(value)),
                        line: self.line,
                    },
                );
            },
            Lexeme::Text => {
                proof {
                    lemma_find_from(s, i + 1, '"');
                }
                assert(s[i as int] == '"');
                let lexeme = string_of(&self.source, i, e);
                let inner = string_of(&self.source, i + 1, e - 1);
                self.tokens.push(
                    Token {
                        token_type: TokenType::String,
                        lexeme,
                        literal: Some(Object::String(inner)),
                        line: self.line,
                    },
                );
            },
            Lexeme::Skip => {},
            Lexeme::Unexpected(c) => {
                let shown = string_of(&self.source, i, i + 1);
                let message = String::from_str("Unexpected character ").concat(shown.as_str());
                proof {
                    assert(shown@ =~= seq![c]);
                    assert(message@ =~= "Unexpected character "@.push(c));
                }
                self.diagnostics.push(Diagnostic { line: self.line, message });
            },
            Lexeme::Unterminated => {
                let message = String::from_str("Unterminated string.");
                self.diagnostics.push(Diagnostic { line: self.line, message });
            },
        }
        assert(token_views(self.tokens@) =~= token_views(old_tokens) + option_seq(
            token_of(s, lx, i as int, e as int),
        ));
        assert(diagnostic_views(self.diagnostics@) =~= diagnostic_views(old_diagnostics)
            + option_seq(diagnostic_of(s, lx, e as int)));
    }

    /// Scans the whole source: every token in order, then one end-of-file
    /// token; and a diagnostic for each lexical error, in order.
    pub fn scan_tokens(&mut self)
        requires
            old(self).is_fresh(),
            old(self).source@.len() < u64::MAX,
        ensures
            final(self).source == old(self).source,
            token_views(final(self).tokens@) == tokens_from(old(self).source@, 0),
            diagnostic_views(final(self).diagnostics@) == diagnostics_from(old(self).source@, 0),
            final(self).tokens@.len() >= 1,
            final(self).tokens@.last().token_type == TokenType::Eof,
            forall|j: int|
                0 <= j < final(self).tokens@.len() - 1 ==> #[trigger] final(self).tokens@[j].token_type
                    != TokenType::Eof,
    {
        let ghost s = self.source@;
        let ghost src = self.source;
        assert(s.subrange(0, 0) =~= Seq::<char>::empty());
        assert(token_views(self.tokens@) =~= Seq::<TokenView>::empty());
        assert(diagnostic_views(self.diagnostics@) =~= Seq::<(u64, Seq<char>)>::empty());
        while self.current < self.source.len()
            invariant
                self.source@ == s,
                self.source == src,
                src == old(self).source,
                s.len() < u64::MAX,
                self.current <= s.len(),
                self.line == line_at(s, self.current as int),
                token_views(self.tokens@) + tokens_from(s, self.current as int) == tokens_from(
                    s,
                    0,
                ),
                diagnostic_views(self.diagnostics@) + diagnostics_from(s, self.current as int)
                    == diagnostics_from(s, 0),
            decreases s.len() - self.current,
        {
            let ghost i = self.current as int;
            let ghost before_t = token_views(self.tokens@);
            let ghost before_d = diagnostic_views(self.diagnostics@);
            self.scan_token();
            proof {
                lemma_lexeme_advances(s, i);
                let (lx, e) = lexeme_at(s, i);
                assert(before_t + tokens_from(s, i) =~= before_t + option_seq(
                    token_of(s, lx, i, e),
                ) + tokens_from(s, e));
                assert(before_d + diagnostics_from(s, i) =~= before_d + option_seq(
                    diagnostic_of(s, lx, e),
                ) + diagnostics_from(s, e));
            }
        }
        let ghost before_t = token_views(self.tokens@);
        self.tokens.push(
            Token { token_type: TokenType::Eof, lexeme: String::new(), literal: None, line: self.line },
        );
        assert(token_views(self.tokens@) =~= before_t + tokens_from(s, s.len() as int));
        assert(diagnostic_views(self.diagnostics@) =~= diagnostic_views(self.diagnostics@)
            + diagnostics_from(s, s.len() as int));
        proof {
            lemma_single_eof(s, 0);
            assert forall|j: int| 0 <= j < self.tokens@.len() implies #[trigger] self.tokens@[j].token_type
                == tokens_from(s, 0)[j].token_type by {
                assert(token_views(self.tokens@)[j] == self.tokens@[j]@);
            }
        }
    }
}

} // verus!
