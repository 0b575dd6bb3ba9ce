//! Lexer for Badger source that keeps every character of the source in some token.

use crate::kinds::SyntaxKind;
use crate::text::{
    byte_len, chars_of, lemma_byte_len_append, lemma_byte_len_take_le, lemma_byte_len_take_step,
    push_char, text_between,
};
use vstd::utf8::encode_utf8;
use crate::tree::{lemma_texts_concat_append, texts_concat};
use crate::ParseError;
use vstd::prelude::*;
use vstd::string::StringExecFns;

verus! {

broadcast use vstd::slice::group_slice_axioms;

/// A token: its kind, its exact source text and the byte offset where it starts.
#[derive(Debug, Clone)]
pub struct Token {
    pub kind: SyntaxKind,
    pub text: String,
    pub offset: usize,
}

/// The mathematical value of a [`Token`].
pub struct SpecToken {
    pub kind: SyntaxKind,
    pub text: Seq<char>,
    pub offset: nat,
}

impl View for Token {
    type V = SpecToken;

    open spec fn view(&self) -> SpecToken {
        SpecToken { kind: self.kind, text: self.text@, offset: self.offset as nat }
    }
}

pub open spec fn token_views(ts: Seq<Token>) -> Seq<SpecToken> {
    Seq::new(ts.len(), |k: int| ts[k]@)
}

/// The tokens as `(raw kind, text)` pairs, as a syntax tree records them.
pub open spec fn token_pairs(ts: Seq<SpecToken>) -> Seq<(u16, Seq<char>)> {
    Seq::new(ts.len(), |k: int| (ts[k].kind.raw_of(), ts[k].text))
}

/// The characters that make up white space: space, tab, carriage return and
/// line feed.
pub open spec fn is_white_space(c: char) -> bool {
    c == ' ' || c == '\t' || c == '\r' || c == '\n'
}

pub open spec fn is_ascii_digit(c: char) -> bool {
    '0' <= c <= '9'
}

pub open spec fn is_ascii_alpha(c: char) -> bool {
    ('a' <= c <= 'z') || ('A' <= c <= 'Z')
}

pub open spec fn ident_start(c: char) -> bool {
    c == '_' || is_ascii_alpha(c)
}

pub open spec fn ident_continue(c: char) -> bool {
    c == '_' || is_ascii_alpha(c) || is_ascii_digit(c)
}

/// End of the run of white space that starts at `i`.
pub open spec fn white_space_end(s: Seq<char>, i: int) -> int
    decreases s.len() - i,
{
    if 0 <= i < s.len() && is_white_space(s[i]) {
        white_space_end(s, i + 1)
    } else {
        i
    }
}

/// End of the run of ASCII digits that starts at `i`.
pub open spec fn digits_end(s: Seq<char>, i: int) -> int
    decreases s.len() - i,
{
    if 0 <= i < s.len() && is_ascii_digit(s[i]) {
        digits_end(s, i + 1)
    } else {
        i
    }
}

/// End of the run of identifier characters that starts at `i`.
pub open spec fn ident_end(s: Seq<char>, i: int) -> int
    decreases s.len() - i,
{
    if 0 <= i < s.len() && ident_continue(s[i]) {
        ident_end(s, i + 1)
    } else {
        i
    }
}

/// Index of the first line feed or carriage return at or after `i`, or the end
/// of `s`: where a comment that runs to the end of the line stops.
pub open spec fn line_end(s: Seq<char>, i: int) -> int
    decreases s.len() - i,
{
    if 0 <= i < s.len() && s[i] != '\n' && s[i] != '\r' {
        line_end(s, i + 1)
    } else {
        i
    }
}

/// Whether `lit` occurs in `s` at `i`.
pub open spec fn starts_with(s: Seq<char>, i: int, lit: Seq<char>) -> bool {
    0 <= i && i + lit.len() <= s.len() && s.subrange(i, i + lit.len()) == lit
}

/// Whether the word `lit` occurs at `i` and no identifier character follows it.
pub open spec fn marker_at(s: Seq<char>, i: int, lit: Seq<char>) -> bool {
    starts_with(s, i, lit) && !(i + lit.len() < s.len() && ident_continue(s[i + lit.len()]))
}

/// The punctuation token at `i`, if any, with its length; longer marks first.
pub open spec fn punct_at(s: Seq<char>, i: int) -> Option<(SyntaxKind, int)> {
    if starts_with(s, i, seq!['-', '>']) {
        Some((SyntaxKind::Arrow, 2))
    } else if starts_with(s, i, seq!['=', '>']) {
        Some((SyntaxKind::FatArrow, 2))
    } else if starts_with(s, i, seq!['<', '=']) {
        Some((SyntaxKind::Le, 2))
    } else if starts_with(s, i, seq!['|', '>']) {
        Some((SyntaxKind::PipeGt, 2))
    } else if 0 <= i < s.len() {
        let c = s[i];
        if c == '(' {
            Some((SyntaxKind::LParen, 1))
        } else if c == ')' {
            Some((SyntaxKind::RParen, 1))
        } else if c == '{' {
            Some((SyntaxKind::LBrace, 1))
        } else if c == '}' {
            Some((SyntaxKind::RBrace, 1))
        } else if c == '[' {
            Some((SyntaxKind::LBracket, 1))
        } else if c == ']' {
            Some((SyntaxKind::RBracket, 1))
        } else if c == '<' {
            Some((SyntaxKind::Lt, 1))
        } else if c == '>' {
            Some((SyntaxKind::Gt, 1))
        } else if c == ',' {
            Some((SyntaxKind::Comma, 1))
        } else if c == ';' {
            Some((SyntaxKind::Semi, 1))
        } else if c == ':' {
            Some((SyntaxKind::Colon, 1))
        } else if c == '.' {
            Some((SyntaxKind::Dot, 1))
        } else if c == '=' {
            Some((SyntaxKind::Eq, 1))
        } else if c == '?' {
            Some((SyntaxKind::Question, 1))
        } else if c == '+' {
            Some((SyntaxKind::Plus, 1))
        } else if c == '*' {
            Some((SyntaxKind::Star, 1))
        } else {
            None
        }
    } else {
        None
    }
}

/// Scanning a quoted literal from `j`: the index just past the closing `quote`,
/// where a backslash escapes the character after it; `None` if it never closes.
pub open spec fn quoted_end(s: Seq<char>, j: int, quote: char, escaped: bool) -> Option<int>
    decreases s.len() - j,
{
    if j < 0 || j >= s.len() {
        None
    } else if escaped {
        quoted_end(s, j + 1, quote, false)
    } else if s[j] == '\\' {
        quoted_end(s, j + 1, quote, true)
    } else if s[j] == quote {
        Some(j + 1)
    } else {
        quoted_end(s, j + 1, quote, false)
    }
}

pub proof fn lemma_quoted_end_bounds(s: Seq<char>, j: int, quote: char, escaped: bool)
    ensures
        quoted_end(s, j, quote, escaped) matches Some(e) ==> j < e <= s.len(),
    decreases s.len() - j,
{
    if 0 <= j < s.len() {
        lemma_quoted_end_bounds(s, j + 1, quote, false);
        lemma_quoted_end_bounds(s, j + 1, quote, true);
    }
}

/// The keyword that `t` spells, if any.
pub open spec fn keyword_of(t: Seq<char>) -> Option<SyntaxKind> {
    if t == seq!['p', 'u', 'b'] {
        Some(SyntaxKind::PubKw)
    } else if t == seq!['f', 'n'] {
        Some(SyntaxKind::FnKw)
    } else if t == seq!['s', 't', 'r', 'u', 'c', 't'] {
        Some(SyntaxKind::StructKw)
    } else if t == seq!['e', 'n', 'u', 'm'] {
        Some(SyntaxKind::EnumKw)
    } else if t == seq!['i', 'n', 't', 'e', 'r', 'f', 'a', 'c', 'e'] {
        Some(SyntaxKind::InterfaceKw)
    } else if t == seq!['i', 'm', 'p', 'l', 'e', 'm', 'e', 'n', 't'] {
        Some(SyntaxKind::ImplementKw)
    } else if t == seq!['a', 's'] {
        Some(SyntaxKind::AsKw)
    } else if t == seq!['e', 'x', 't', 'e', 'n', 'd', 's'] {
        Some(SyntaxKind::ExtendsKw)
    } else if t == seq!['m', 'a', 't', 'c', 'h'] {
        Some(SyntaxKind::MatchKw)
    } else if t == seq!['t', 'y', 'p', 'e'] {
        Some(SyntaxKind::TypeKw)
    } else if t == seq!['s', 'e', 'l', 'f'] {
        Some(SyntaxKind::SelfKw)
    } else if t == seq!['S', 'e', 'l', 'f'] {
        Some(SyntaxKind::SelfTypeKw)
    } else if t == seq!['t', 'r', 'u', 'e'] {
        Some(SyntaxKind::TrueKw)
    } else if t == seq!['f', 'a', 'l', 's', 'e'] {
        Some(SyntaxKind::FalseKw)
    } else {
        None
    }
}

pub open spec fn unterminated_message(quote: char) -> Seq<char> {
    "unterminated "@ + seq![quote] + " literal"@
}

pub open spec fn unexpected_char_message(c: char) -> Seq<char> {
    "unexpected character `"@ + seq![c] + "`"@
}

/// What the lexer finds at one position: a token of a kind that ends at a
/// character index, or a failure with its message.
pub enum LexStep {
    Token(SyntaxKind, int),
    Fail(Seq<char>),
}

/// The token that starts at character `i` of `s`; rules are tried in order.
#[verifier::opaque]
pub open spec fn lex_step(s: Seq<char>, i: int) -> LexStep {
    let c = s[i];
    if is_white_space(c) {
        LexStep::Token(SyntaxKind::Whitespace, white_space_end(s, i))
    } else if starts_with(s, i, seq!['/', '/', '/']) {
        LexStep::Token(SyntaxKind::DocComment, line_end(s, i))
    } else if starts_with(s, i, seq!['/', '/']) {
        LexStep::Token(SyntaxKind::LineComment, line_end(s, i))
    } else if marker_at(s, i, seq!['@', 'i', 'm', 'p', 'o', 'r', 't']) {
        LexStep::Token(SyntaxKind::BuiltinImport, i + 7)
    } else if marker_at(s, i, seq!['@', 'r', 'e', 'c', 'u', 'r', 's', 'e']) {
        LexStep::Token(SyntaxKind::BuiltinRecurse, i + 8)
    } else if marker_at(s, i, seq!['!', 'e', 'f', 'f', 'e', 'c', 't']) {
        LexStep::Token(SyntaxKind::EffectMarker, i + 7)
    } else if marker_at(s, i, seq!['!', 'd', 'e', 'p', 'e', 'n', 'd']) {
        LexStep::Token(SyntaxKind::DependMarker, i + 7)
    } else if let Some((k, n)) = punct_at(s, i) {
        LexStep::Token(k, i + n)
    } else if c == '"' {
        match quoted_end(s, i + 1, '"', false) {
            Some(e) => LexStep::Token(SyntaxKind::String, e),
            None => LexStep::Fail(unterminated_message('"')),
        }
    } else if c == '\'' {
        match quoted_end(s, i + 1, '\'', false) {
            Some(e) => LexStep::Token(SyntaxKind::Char, e),
            None => LexStep::Fail(unterminated_message('\'')),
        }
    } else if is_ascii_digit(c) {
        LexStep::Token(SyntaxKind::Int, digits_end(s, i))
    } else if ident_start(c) {
        let e = ident_end(s, i);
        match keyword_of(s.subrange(i, e)) {
            Some(k) => LexStep::Token(k, e),
            None => LexStep::Token(SyntaxKind::Ident, e),
        }
    } else {
        LexStep::Fail(unexpected_char_message(c))
    }
}

/// The tokens of `s` from character `i` on, as `(kind, start, end)` character
/// ranges, or the character index and message of the first failure.
pub open spec fn lex_from(s: Seq<char>, i: int) -> Result<
    Seq<(SyntaxKind, int, int)>,
    (int, Seq<char>),
>
    decreases s.len() - i,
{
    if i < 0 || i >= s.len() {
        Ok(Seq::empty())
    } else {
        match lex_step(s, i) {
            LexStep::Token(k, e) => {
                if i < e <= s.len() {
                    match lex_from(s, e) {
                        Ok(rest) => Ok(seq![(k, i, e)] + rest),
                        Err(x) => Err(x),
                    }
                } else {
                    Err((i, Seq::empty()))
                }
            },
            LexStep::Fail(m) => Err((i, m)),
        }
    }
}

proof fn lemma_white_space_end(s: Seq<char>, i: int)
    requires
        0 <= i <= s.len(),
    ensures
        i <= white_space_end(s, i) <= s.len(),
    decreases s.len() - i,
{
    if i < s.len() && is_white_space(s[i]) {
        lemma_white_space_end(s, i + 1);
    }
}

proof fn lemma_digits_end(s: Seq<char>, i: int)
    requires
        0 <= i <= s.len(),
    ensures
        i <= digits_end(s, i) <= s.len(),
    decreases s.len() - i,
{
    if i < s.len() && is_ascii_digit(s[i]) {
        lemma_digits_end(s, i + 1);
    }
}

proof fn lemma_ident_end(s: Seq<char>, i: int)
    requires
        0 <= i <= s.len(),
    ensures
        i <= ident_end(s, i) <= s.len(),
    decreases s.len() - i,
{
    if i < s.len() && ident_continue(s[i]) {
        lemma_ident_end(s, i + 1);
    }
}

proof fn lemma_line_end(s: Seq<char>, i: int)
    requires
        0 <= i <= s.len(),
    ensures
        i <= line_end(s, i) <= s.len(),
    decreases s.len() - i,
{
    if i < s.len() && s[i] != '\n' && s[i] != '\r' {
        lemma_line_end(s, i + 1);
    }
}

/// A token that the lexer finds at `i` is not empty and ends within `s`.
pub proof fn lemma_lex_step_bounds(s: Seq<char>, i: int)
    requires
        0 <= i < s.len(),
    ensures
        lex_step(s, i) matches LexStep::Token(k, e) ==> i < e <= s.len(),
{
    reveal(lex_step);
    lemma_white_space_end(s, i + 1);
    lemma_digits_end(s, i + 1);
    lemma_ident_end(s, i + 1);
    lemma_line_end(s, i + 1);
    lemma_quoted_end_bounds(s, i + 1, '"', false);
    lemma_quoted_end_bounds(s, i + 1, '\'', false);
    if starts_with(s, i, seq!['/', '/']) {
        assert(s.subrange(i, i + 2)[0] == s[i]);
    }
}

/// The messages of a failure on the character `c`: it starts no token, or it
/// opens a quoted literal that never closes.
pub open spec fn failure_on(c: char, msg: Seq<char>) -> bool {
    ||| msg == unexpected_char_message(c)
    ||| (c == '"' || c == '\'') && msg == unterminated_message(c)
}

proof fn lemma_lex_from_failure(s: Seq<char>, i: int)
    requires
        0 <= i,
    ensures
        lex_from(s, i) matches Err((j, m)) ==> i <= j < s.len() && failure_on(s[j], m)
            && lex_step(s, j) == LexStep::Fail(m),
    decreases s.len() - i,
{
    if i < s.len() {
        lemma_lex_step_bounds(s, i);
        reveal(lex_step);
        if let LexStep::Token(k, e) = lex_step(s, i) {
            lemma_lex_from_failure(s, e);
        }
    }
}

proof fn lemma_white_space_end_prefix(s: Seq<char>, i: int, j: int)
    requires
        0 <= i <= j <= s.len(),
        white_space_end(s, i) <= j,
    ensures
        white_space_end(s.take(j), i) == white_space_end(s, i),
    decreases j - i,
{
    lemma_white_space_end(s, i);
    if i < j && is_white_space(s[i]) {
        lemma_white_space_end_prefix(s, i + 1, j);
    }
}

proof fn lemma_digits_end_prefix(s: Seq<char>, i: int, j: int)
    requires
        0 <= i <= j <= s.len(),
        digits_end(s, i) <= j,
    ensures
        digits_end(s.take(j), i) == digits_end(s, i),
    decreases j - i,
{
    lemma_digits_end(s, i);
    if i < j && is_ascii_digit(s[i]) {
        lemma_digits_end_prefix(s, i + 1, j);
    }
}

proof fn lemma_ident_end_prefix(s: Seq<char>, i: int, j: int)
    requires
        0 <= i <= j <= s.len(),
        ident_end(s, i) <= j,
    ensures
        ident_end(s.take(j), i) == ident_end(s, i),
    decreases j - i,
{
    lemma_ident_end(s, i);
    if i < j && ident_continue(s[i]) {
        lemma_ident_end_prefix(s, i + 1, j);
    }
}

proof fn lemma_line_end_prefix(s: Seq<char>, i: int, j: int)
    requires
        0 <= i <= j <= s.len(),
        line_end(s, i) <= j,
    ensures
        line_end(s.take(j), i) == line_end(s, i),
    decreases j - i,
{
    lemma_line_end(s, i);
    if i < j && s[i] != '\n' && s[i] != '\r' {
        lemma_line_end_prefix(s, i + 1, j);
    }
}

proof fn lemma_quoted_end_prefix(s: Seq<char>, k: int, quote: char, escaped: bool, j: int)
    requires
        0 <= k <= j <= s.len(),
        quoted_end(s, k, quote, escaped) matches Some(e) && e <= j,
    ensures
        quoted_end(s.take(j), k, quote, escaped) == quoted_end(s, k, quote, escaped),
    decreases j - k,
{
    lemma_quoted_end_bounds(s, k, quote, escaped);
    if k < j {
        if escaped {
            lemma_quoted_end_prefix(s, k + 1, quote, false, j);
        } else if s[k] == '\\' {
            lemma_quoted_end_prefix(s, k + 1, quote, true, j);
        } else if s[k] != quote {
            lemma_quoted_end_prefix(s, k + 1, quote, false, j);
        }
    }
}

proof fn lemma_starts_with_prefix(s: Seq<char>, i: int, j: int, lit: Seq<char>)
    requires
        0 <= i < j <= s.len(),
    ensures
        starts_with(s.take(j), i, lit) ==> starts_with(s, i, lit),
        starts_with(s, i, lit) && i + lit.len() <= j ==> starts_with(s.take(j), i, lit),
{
    if i + lit.len() <= j {
        assert(s.take(j).subrange(i, i + lit.len()) =~= s.subrange(i, i + lit.len()));
    }
}

/// A line runs at least past `n` characters that end no line.
proof fn lemma_line_end_past(s: Seq<char>, i: int, n: int)
    requires
        0 <= i,
        0 <= n,
        i + n <= s.len(),
        forall|k: int| i <= k < i + n ==> s[k] != '\n' && s[k] != '\r',
    ensures
        line_end(s, i) >= i + n,
    decreases n,
{
    lemma_line_end(s, i);
    if n > 0 {
        lemma_line_end_past(s, i + 1, n - 1);
    }
}

proof fn lemma_marker_prefix(s: Seq<char>, i: int, j: int, lit: Seq<char>)
    requires
        0 <= i < j < s.len(),
        lit.len() > 0,
        !ident_continue(s[j]),
    ensures
        marker_at(s.take(j), i, lit) ==> marker_at(s, i, lit),
        marker_at(s, i, lit) && i + lit.len() <= j ==> marker_at(s.take(j), i, lit),
{
    lemma_starts_with_prefix(s, i, j, lit);
    let n = i + lit.len();
    if n < j {
        assert(s.take(j)[n] == s[n]);
    }
}

proof fn lemma_punct_prefix(s: Seq<char>, i: int, j: int)
    requires
        0 <= i < j <= s.len(),
    ensures
        punct_at(s, i) matches Some((k, n)) && i + n <= j ==> punct_at(s.take(j), i) == punct_at(s, i),
        punct_at(s, i) is None ==> punct_at(s.take(j), i) is None,
{
    lemma_starts_with_prefix(s, i, j, seq!['-', '>']);
    lemma_starts_with_prefix(s, i, j, seq!['=', '>']);
    lemma_starts_with_prefix(s, i, j, seq!['<', '=']);
    lemma_starts_with_prefix(s, i, j, seq!['|', '>']);
    assert(s.take(j)[i] == s[i]);
}

/// A token that the lexer finds at `i`, ending at or before the character `j`
/// where no token starts, is found the same in the text cut off at `j`.
proof fn lemma_lex_step_prefix(s: Seq<char>, i: int, j: int)
    requires
        0 <= i < j < s.len(),
        lex_step(s, j) is Fail,
        lex_step(s, i) matches LexStep::Token(k, e) && e <= j,
    ensures
        lex_step(s.take(j), i) == lex_step(s, i),
{
    reveal(lex_step);
    let t = s.take(j);
    assert(!ident_continue(s[j]));
    lemma_starts_with_prefix(s, i, j, seq!['/', '/', '/']);
    lemma_starts_with_prefix(s, i, j, seq!['/', '/']);
    lemma_marker_prefix(s, i, j, seq!['@', 'i', 'm', 'p', 'o', 'r', 't']);
    lemma_marker_prefix(s, i, j, seq!['@', 'r', 'e', 'c', 'u', 'r', 's', 'e']);
    lemma_marker_prefix(s, i, j, seq!['!', 'e', 'f', 'f', 'e', 'c', 't']);
    lemma_marker_prefix(s, i, j, seq!['!', 'd', 'e', 'p', 'e', 'n', 'd']);
    lemma_punct_prefix(s, i, j);
    assert(t[i] == s[i]);
    lemma_white_space_end(s, i);
    lemma_digits_end(s, i);
    lemma_ident_end(s, i);
    lemma_line_end(s, i);
    if is_white_space(s[i]) {
        lemma_white_space_end_prefix(s, i, j);
    }
    if is_ascii_digit(s[i]) {
        lemma_digits_end_prefix(s, i, j);
    }
    if ident_start(s[i]) {
        lemma_ident_end_prefix(s, i, j);
        assert(t.subrange(i, ident_end(s, i)) =~= s.subrange(i, ident_end(s, i)));
    }
    if starts_with(s, i, seq!['/', '/', '/']) {
        let lit = seq!['/', '/', '/'];
        assert forall|k: int| i <= k < i + 3 implies s[k] != '\n' && s[k] != '\r' by {
            assert(s.subrange(i, i + 3)[k - i] == lit[k - i]);
        }
        lemma_line_end_past(s, i, 3);
        lemma_line_end_prefix(s, i, j);
    } else if starts_with(s, i, seq!['/', '/']) {
        let lit = seq!['/', '/'];
        assert forall|k: int| i <= k < i + 2 implies s[k] != '\n' && s[k] != '\r' by {
            assert(s.subrange(i, i + 2)[k - i] == lit[k - i]);
        }
        lemma_line_end_past(s, i, 2);
        lemma_line_end_prefix(s, i, j);
    }
    if s[i] == '"' && quoted_end(s, i + 1, '"', false) is Some {
        lemma_quoted_end_prefix(s, i + 1, '"', false, j);
    }
    if s[i] == '\'' && quoted_end(s, i + 1, '\'', false) is Some {
        lemma_quoted_end_prefix(s, i + 1, '\'', false, j);
    }
}

/// The text before the first failure lexes without error.
proof fn lemma_lex_prefix_ok(s: Seq<char>, i: int)
    requires
        0 <= i,
    ensures
        lex_from(s, i) matches Err((j, m)) ==> i <= j && lex_from(s.take(j), i) is Ok,
    decreases s.len() - i,
{
    lemma_lex_from_failure(s, i);
    if i < s.len() {
        lemma_lex_step_bounds(s, i);
        if let LexStep::Token(k, e) = lex_step(s, i) {
            lemma_lex_prefix_ok(s, e);
            lemma_lex_from_failure(s, e);
            if let Err((j, m)) = lex_from(s, e) {
                lemma_lex_step_prefix(s, i, j);
                lemma_lex_step_bounds(s.take(j), i);
            }
        }
    }
}

/// Where lexing fails: at some character of `s` that starts no token, or that
/// opens a quoted literal that never closes. The offset reported is that
/// character's byte position, so it lies on a character boundary within `s`,
/// and the text before it lexes without error.
pub proof fn lemma_lex_error_site(s: Seq<char>)
    ensures
        lex(s) matches Err((off, msg)) ==> exists|j: int|
            0 <= j < s.len() && off == byte_len(#[trigger] s.take(j)) && failure_on(s[j], msg)
                && lex(s.take(j)) is Ok,
{
    lemma_lex_from_failure(s, 0);
    lemma_lex_prefix_ok(s, 0);
}

/// The token that a character range of `s` stands for.
pub open spec fn spec_token(s: Seq<char>, r: (SyntaxKind, int, int)) -> SpecToken {
    SpecToken { kind: r.0, text: s.subrange(r.1, r.2), offset: byte_len(s.take(r.1)) }
}

pub open spec fn spec_tokens(s: Seq<char>, rs: Seq<(SyntaxKind, int, int)>) -> Seq<SpecToken> {
    Seq::new(rs.len(), |k: int| spec_token(s, rs[k]))
}

/// The tokens of the source `s`, or the byte offset and message of the first
/// character where no token can start.
pub open spec fn lex(s: Seq<char>) -> Result<Seq<SpecToken>, (nat, Seq<char>)> {
    match lex_from(s, 0) {
        Ok(rs) => Ok(spec_tokens(s, rs)),
        Err((i, m)) => Err((byte_len(s.take(i)), m)),
    }
}

pub open spec fn prepend_tokens(
    acc: Seq<(SyntaxKind, int, int)>,
    r: Result<Seq<(SyntaxKind, int, int)>, (int, Seq<char>)>,
) -> Result<Seq<(SyntaxKind, int, int)>, (int, Seq<char>)> {
    match r {
        Ok(rest) => Ok(acc + rest),
        Err(x) => Err(x),
    }
}

/// The tokens that the lexer finds from `i` on cover `s[i..]` exactly, in order:
/// each starts where the one before it ends, the first at `i`, the last ending at the end.
pub proof fn lemma_lex_from_covers(s: Seq<char>, i: int)
    requires
        0 <= i <= s.len(),
    ensures
        lex_from(s, i) matches Ok(rs) ==> texts_concat(token_pairs(spec_tokens(s, rs)))
            == s.subrange(i, s.len() as int),
        lex_from(s, i) matches Ok(rs) ==> forall|k: int|
            0 <= k < rs.len() ==> i <= #[trigger] rs[k].1 < rs[k].2 <= s.len(),
        lex_from(s, i) matches Ok(rs) ==> (rs.len() == 0 <==> i == s.len()),
        lex_from(s, i) matches Ok(rs) ==> rs.len() > 0 ==> rs[0].1 == i && rs.last().2 == s.len(),
        lex_from(s, i) matches Ok(rs) ==> forall|k: int|
            0 <= k < rs.len() - 1 ==> #[trigger] rs[k].2 == rs[k + 1].1,
    decreases s.len() - i,
{
    if i < s.len() {
        if let LexStep::Token(k, e) = lex_step(s, i) {
            if i < e <= s.len() {
                lemma_lex_from_covers(s, e);
                if let Ok(rest) = lex_from(s, e) {
                    let rs = seq![(k, i, e)] + rest;
                    let first = token_pairs(spec_tokens(s, seq![(k, i, e)]));
                    let others = token_pairs(spec_tokens(s, rest));
                    assert(token_pairs(spec_tokens(s, rs)) =~= first + others);
                    lemma_texts_concat_append(first, others);
                    assert(first.drop_last() =~= Seq::<(u16, Seq<char>)>::empty());
                    assert(texts_concat(Seq::<(u16, Seq<char>)>::empty()) =~= Seq::<char>::empty());
                    assert(first.last().1 == s.subrange(i, e));
                    assert(texts_concat(first) =~= s.subrange(i, e));
                    assert(s.subrange(i, e) + s.subrange(e, s.len() as int) =~= s.subrange(
                        i,
                        s.len() as int,
                    ));
                    assert forall|j: int| 0 <= j < rs.len() implies i <= #[trigger] rs[j].1
                        < rs[j].2 <= s.len() by {
                        if j > 0 {
                            assert(rs[j] == rest[j - 1]);
                        }
                    }
                    assert forall|j: int| 0 <= j < rs.len() - 1 implies #[trigger] rs[j].2
                        == rs[j + 1].1 by {
                        assert(rs[j + 1] == rest[j]);
                        if j > 0 {
                            assert(rs[j] == rest[j - 1]);
                        }
                    }
                    if rest.len() > 0 {
                        assert(rs.last() == rest.last());
                    }
                }
            }
        }
    } else {
        assert(s.subrange(i, s.len() as int) =~= Seq::<char>::empty());
        assert(token_pairs(spec_tokens(s, Seq::empty())) =~= Seq::<(u16, Seq<char>)>::empty());
    }
}

/// How tokens lie in a source of `total` bytes: each token's text is non-empty,
/// the first starts at byte 0, each starts where the one before it ends, and
/// the last ends at the end of the source.
pub open spec fn tokens_laid_out(ts: Seq<SpecToken>, total: nat) -> bool {
    &&& (ts.len() == 0 ==> total == 0)
    &&& (ts.len() > 0 ==> ts[0].offset == 0 && ts.last().offset + byte_len(ts.last().text) == total)
    &&& forall|k: int|
        0 <= k < ts.len() - 1 ==> #[trigger] ts[k].offset + byte_len(ts[k].text) == ts[k + 1].offset
    &&& forall|k: int| 0 <= k < ts.len() ==> #[trigger] ts[k].text.len() > 0
}

/// In a laid-out run of tokens, every token starts within the text.
pub proof fn lemma_laid_out_within(ts: Seq<SpecToken>, total: nat, k: int)
    requires
        tokens_laid_out(ts, total),
        0 <= k < ts.len(),
    ensures
        ts[k].offset <= total,
    decreases ts.len() - k,
{
    if k < ts.len() - 1 {
        lemma_laid_out_within(ts, total, k + 1);
        assert(ts[k].offset + byte_len(ts[k].text) == ts[k + 1].offset);
    }
}

/// The byte offsets of the tokens are their positions in the UTF-8 source.
pub proof fn lemma_lex_layout(s: Seq<char>)
    ensures
        lex(s) matches Ok(ts) ==> tokens_laid_out(ts, byte_len(s)),
{
    lemma_lex_from_covers(s, 0);
    if let Ok(rs) = lex_from(s, 0) {
        let ts = spec_tokens(s, rs);
        assert(s.take(0) =~= Seq::<char>::empty());
        assert(byte_len(Seq::<char>::empty()) == 0) by {
            assert(encode_utf8(Seq::<char>::empty()) =~= Seq::<u8>::empty());
        }
        assert forall|k: int| 0 <= k < ts.len() implies #[trigger] ts[k].offset + byte_len(
            ts[k].text,
        ) == byte_len(s.take(rs[k].2)) by {
            let a = rs[k].1;
            let b = rs[k].2;
            assert(s.take(b) =~= s.take(a) + s.subrange(a, b));
            lemma_byte_len_append(s.take(a), s.subrange(a, b));
        }
        assert forall|k: int| 0 <= k < ts.len() - 1 implies #[trigger] ts[k].offset + byte_len(
            ts[k].text,
        ) == ts[k + 1].offset by {
            assert(rs[k].2 == rs[k + 1].1);
        }
        assert forall|k: int| 0 <= k < ts.len() implies #[trigger] ts[k].text.len() > 0 by {
            assert(rs[k].1 < rs[k].2);
        }
        if ts.len() > 0 {
            assert(s.take(s.len() as int) =~= s);
            assert(ts.last() == spec_token(s, rs.last()));
        }
    }
}

/// Lexing loses nothing: the token texts, in order, are the source.
pub proof fn lemma_lex_roundtrip(s: Seq<char>)
    ensures
        lex(s) matches Ok(ts) ==> texts_concat(token_pairs(ts)) == s,
{
    lemma_lex_from_covers(s, 0);
    assert(s.subrange(0, s.len() as int) =~= s);
}

/// Whether `c` is white space.
pub fn is_space(c: char) -> (b: bool)
    ensures
        b == is_white_space(c),
{
    c == ' ' || c == '\t' || c == '\r' || c == '\n'
}

pub fn is_ident_start(ch: char) -> (b: bool)
    ensures
        b == ident_start(ch),
{
    ch == '_' || ('a' <= ch && ch <= 'z') || ('A' <= ch && ch <= 'Z')
}

pub fn is_ident_continue(ch: Option<char>) -> (b: bool)
    ensures
        b == (ch matches Some(c) && ident_continue(c)),
{
    match ch {
        Some(c) => c == '_' || ('a' <= c && c <= 'z') || ('A' <= c && c <= 'Z') || ('0' <= c
            && c <= '9'),
        None => false,
    }
}

fn white_space_run_end(chars: &Vec<char>, i: usize) -> (e: usize)
    requires
        i <= chars.len(),
    ensures
        e == white_space_end(chars@, i as int),
        i <= e <= chars.len(),
        i < chars.len() && is_white_space(chars@[i as int]) ==> i < e,
{
    let mut j = i;
    while j < chars.len() && is_space(chars[j])
        invariant
            i <= j <= chars.len(),
            white_space_end(chars@, i as int) == white_space_end(chars@, j as int),
        decreases chars.len() - j,
    {
        j = j + 1;
    }
    j
}

fn digit_run_end(chars: &Vec<char>, i: usize) -> (e: usize)
    requires
        i <= chars.len(),
    ensures
        e == digits_end(chars@, i as int),
        i <= e <= chars.len(),
        i < chars.len() && is_ascii_digit(chars@[i as int]) ==> i < e,
{
    let mut j = i;
    while j < chars.len() && '0' <= chars[j] && chars[j] <= '9'
        invariant
            i <= j <= chars.len(),
            digits_end(chars@, i as int) == digits_end(chars@, j as int),
        decreases chars.len() - j,
    {
        j = j + 1;
    }
    j
}

fn ident_run_end(chars: &Vec<char>, i: usize) -> (e: usize)
    requires
        i <= chars.len(),
    ensures
        e == ident_end(chars@, i as int),
        i <= e <= chars.len(),
        i < chars.len() && ident_continue(chars@[i as int]) ==> i < e,
{
    let mut j = i;
    while j < chars.len() && is_ident_continue(Some(chars[j]))
        invariant
            i <= j <= chars.len(),
            ident_end(chars@, i as int) == ident_end(chars@, j as int),
        decreases chars.len() - j,
    {
        j = j + 1;
    }
    j
}

fn line_run_end(chars: &Vec<char>, i: usize) -> (e: usize)
    requires
        i <= chars.len(),
    ensures
        e == line_end(chars@, i as int),
        i <= e <= chars.len(),
        i < chars.len() && chars@[i as int] != '\n' && chars@[i as int] != '\r' ==> i < e,
{
    let mut j = i;
    while j < chars.len() && chars[j] != '\n' && chars[j] != '\r'
        invariant
            i <= j <= chars.len(),
            line_end(chars@, i as int) == line_end(chars@, j as int),
        decreases chars.len() - j,
    {
        j = j + 1;
    }
    j
}

/// Whether `lit` occurs in `chars` at `i`.
fn starts_with_at(chars: &Vec<char>, i: usize, lit: &[char]) -> (b: bool)
    requires
        i <= chars.len(),
    ensures
        b == starts_with(chars@, i as int, lit@),
{
    if lit.len() > chars.len() - i {
        return false;
    }
    let mut k: usize = 0;
    while k < lit.len()
        invariant
            k <= lit@.len(),
            lit@.len() == lit.len(),
            i + lit.len() <= chars.len(),
            forall|j: int| 0 <= j < k ==> chars@[i + j] == lit@[j],
        decreases lit.len() - k,
    {
        if chars[i + k] != lit[k] {
            assert(chars@.subrange(i as int, i + lit@.len())[k as int] != lit@[k as int]);
            return false;
        }
        k = k + 1;
    }
    assert(chars@.subrange(i as int, i + lit@.len()) =~= lit@);
    true
}

/// Whether the word `lit` occurs at `i` with no identifier character after it.
fn marker_at_exec(chars: &Vec<char>, i: usize, lit: &[char]) -> (b: bool)
    requires
        i <= chars.len(),
    ensures
        b == marker_at(chars@, i as int, lit@),
{
    if !starts_with_at(chars, i, lit) {
        return false;
    }
    let next = if i + lit.len() < chars.len() {
        Some(chars[i + lit.len()])
    } else {
        None
    };
    !is_ident_continue(next)
}

/// The punctuation token at `i`, with its length in characters.
pub fn lex_punctuation(chars: &Vec<char>, i: usize) -> (r: Option<(SyntaxKind, usize)>)
    requires
        i <= chars.len(),
    ensures
        r matches Some(p) ==> punct_at(chars@, i as int) == Some((p.0, p.1 as int)),
        r is None ==> punct_at(chars@, i as int) is None,
{
    let arrow: [char; 2] = ['-', '>'];
    let fat_arrow: [char; 2] = ['=', '>'];
    let le: [char; 2] = ['<', '='];
    let pipe_gt: [char; 2] = ['|', '>'];
    assert(arrow@ =~= seq!['-', '>']);
    assert(fat_arrow@ =~= seq!['=', '>']);
    assert(le@ =~= seq!['<', '=']);
    assert(pipe_gt@ =~= seq!['|', '>']);
    if starts_with_at(chars, i, &arrow) {
        return Some((SyntaxKind::Arrow, 2));
    }
    if starts_with_at(chars, i, &fat_arrow) {
        return Some((SyntaxKind::FatArrow, 2));
    }
    if starts_with_at(chars, i, &le) {
        return Some((SyntaxKind::Le, 2));
    }
    if starts_with_at(chars, i, &pipe_gt) {
        return Some((SyntaxKind::PipeGt, 2));
    }
    if i >= chars.len() {
        return None;
    }
    let c = chars[i];
    let kind = if c == '(' {
        SyntaxKind::LParen
    } else if c == ')' {
        SyntaxKind::RParen
    } else if c == '{' {
        SyntaxKind::LBrace
    } else if c == '}' {
        SyntaxKind::RBrace
    } else if c == '[' {
        SyntaxKind::LBracket
    } else if c == ']' {
        SyntaxKind::RBracket
    } else if c == '<' {
        SyntaxKind::Lt
    } else if c == '>' {
        SyntaxKind::Gt
    } else if c == ',' {
        SyntaxKind::Comma
    } else if c == ';' {
        SyntaxKind::Semi
    } else if c == ':' {
        SyntaxKind::Colon
    } else if c == '.' {
        SyntaxKind::Dot
    } else if c == '=' {
        SyntaxKind::Eq
    } else if c == '?' {
        SyntaxKind::Question
    } else if c == '+' {
        SyntaxKind::Plus
    } else if c == '*' {
        SyntaxKind::Star
    } else {
        return None;
    };
    Some((kind, 1))
}

/// The end of the quoted literal that opens with `quote` at `start`; fails at the
/// literal's byte offset `offset` when it never closes.
pub fn lex_quoted(chars: &Vec<char>, start: usize, offset: usize, quote: char) -> (r: Result<
    usize,
    ParseError,
>)
    requires
        start < chars.len(),
    ensures
        match quoted_end(chars@, start + 1, quote, false) {
            Some(e) => r == Ok::<usize, ParseError>(e as usize) && start < e <= chars.len(),
            None => r matches Err(err) && err.offset == offset && err.message@
                == unterminated_message(quote),
        },
{
    let mut escaped = false;
    let mut j = start + 1;
    while j < chars.len()
        invariant
            start < j <= chars.len(),
            quoted_end(chars@, start + 1, quote, false) == quoted_end(
                chars@,
                j as int,
                quote,
                escaped,
            ),
        decreases chars.len() - j,
    {
        let c = chars[j];
        if escaped {
            escaped = false;
        } else if c == '\\' {
            escaped = true;
        } else if c == quote {
            proof {
                lemma_quoted_end_bounds(chars@, start + 1, quote, false);
            }
            return Ok(j + 1);
        }
        j = j + 1;
    }
    let mut message = String::from_str("unterminated ");
    push_char(&mut message, quote);
    message.append(" literal");
    Err(ParseError { offset, message })
}

/// Whether `chars[start..end]` spells `lit`.
fn spells(chars: &Vec<char>, start: usize, end: usize, lit: &[char]) -> (b: bool)
    requires
        start <= end <= chars.len(),
    ensures
        b == (chars@.subrange(start as int, end as int) == lit@),
{
    if end - start != lit.len() {
        assert(chars@.subrange(start as int, end as int).len() != lit@.len());
        return false;
    }
    starts_with_at(chars, start, lit)
}

/// The keyword that `chars[start..end]` spells, if any.
pub fn keyword_kind(chars: &Vec<char>, start: usize, end: usize) -> (r: Option<SyntaxKind>)
    requires
        start <= end <= chars.len(),
    ensures
        r == keyword_of(chars@.subrange(start as int, end as int)),
{
    let w_pub: [char; 3] = ['p', 'u', 'b'];
    let w_fn: [char; 2] = ['f', 'n'];
    let w_struct: [char; 6] = ['s', 't', 'r', 'u', 'c', 't'];
    let w_enum: [char; 4] = ['e', 'n', 'u', 'm'];
    let w_interface: [char; 9] = ['i', 'n', 't', 'e', 'r', 'f', 'a', 'c', 'e'];
    let w_implement: [char; 9] = ['i', 'm', 'p', 'l', 'e', 'm', 'e', 'n', 't'];
    let w_as: [char; 2] = ['a', 's'];
    let w_extends: [char; 7] = ['e', 'x', 't', 'e', 'n', 'd', 's'];
    let w_match: [char; 5] = ['m', 'a', 't', 'c', 'h'];
    let w_type: [char; 4] = ['t', 'y', 'p', 'e'];
    let w_self: [char; 4] = ['s', 'e', 'l', 'f'];
    let w_self_type: [char; 4] = ['S', 'e', 'l', 'f'];
    let w_true: [char; 4] = ['t', 'r', 'u', 'e'];
    let w_false: [char; 5] = ['f', 'a', 'l', 's', 'e'];
    assert(w_pub@ =~= seq!['p', 'u', 'b']);
    assert(w_fn@ =~= seq!['f', 'n']);
    assert(w_struct@ =~= seq!['s', 't', 'r', 'u', 'c', 't']);
    assert(w_enum@ =~= seq!['e', 'n', 'u', 'm']);
    assert(w_interface@ =~= seq!['i', 'n', 't', 'e', 'r', 'f', 'a', 'c', 'e']);
    assert(w_implement@ =~= seq!['i', 'm', 'p', 'l', 'e', 'm', 'e', 'n', 't']);
    assert(w_as@ =~= seq!['a', 's']);
    assert(w_extends@ =~= seq!['e', 'x', 't', 'e', 'n', 'd', 's']);
    assert(w_match@ =~= seq!['m', 'a', 't', 'c', 'h']);
    assert(w_type@ =~= seq!['t', 'y', 'p', 'e']);
    assert(w_self@ =~= seq!['s', 'e', 'l', 'f']);
    assert(w_self_type@ =~= seq!['S', 'e', 'l', 'f']);
    assert(w_true@ =~= seq!['t', 'r', 'u', 'e']);
    assert(w_false@ =~= seq!['f', 'a', 'l', 's', 'e']);
    if spells(chars, start, end, &w_pub) {
        Some(SyntaxKind::PubKw)
    } else if spells(chars, start, end, &w_fn) {
        Some(SyntaxKind::FnKw)
    } else if spells(chars, start, end, &w_struct) {
        Some(SyntaxKind::StructKw)
    } else if spells(chars, start, end, &w_enum) {
        Some(SyntaxKind::EnumKw)
    } else if spells(chars, start, end, &w_interface) {
        Some(SyntaxKind::InterfaceKw)
    } else if spells(chars, start, end, &w_implement) {
        Some(SyntaxKind::ImplementKw)
    } else if spells(chars, start, end, &w_as) {
        Some(SyntaxKind::AsKw)
    } else if spells(chars, start, end, &w_extends) {
        Some(SyntaxKind::ExtendsKw)
    } else if spells(chars, start, end, &w_match) {
        Some(SyntaxKind::MatchKw)
    } else if spells(chars, start, end, &w_type) {
        Some(SyntaxKind::TypeKw)
    } else if spells(chars, start, end, &w_self) {
        Some(SyntaxKind::SelfKw)
    } else if spells(chars, start, end, &w_self_type) {
        Some(SyntaxKind::SelfTypeKw)
    } else if spells(chars, start, end, &w_true) {
        Some(SyntaxKind::TrueKw)
    } else if spells(chars, start, end, &w_false) {
        Some(SyntaxKind::FalseKw)
    } else {
        None
    }
}

/// The kind and end of the token that starts at character `i`, or the failure
/// there, reported at the byte offset `offset` of that character.
fn scan_token(chars: &Vec<char>, i: usize, offset: usize) -> (r: Result<
    (SyntaxKind, usize),
    ParseError,
>)
    requires
        i < chars.len(),
    ensures
        match lex_step(chars@, i as int) {
            LexStep::Token(k, e) => r == Ok::<(SyntaxKind, usize), ParseError>((k, e as usize))
                && i < e <= chars.len(),
            LexStep::Fail(m) => r matches Err(err) && err.offset == offset && err.message@ == m,
        },
{
    proof {
        reveal(lex_step);
    }
    let c = chars[i];
    if is_space(c) {
        return Ok((SyntaxKind::Whitespace, white_space_run_end(chars, i)));
    }
    let doc: [char; 3] = ['/', '/', '/'];
    let line: [char; 2] = ['/', '/'];
    let import: [char; 7] = ['@', 'i', 'm', 'p', 'o', 'r', 't'];
    let recurse: [char; 8] = ['@', 'r', 'e', 'c', 'u', 'r', 's', 'e'];
    let effect: [char; 7] = ['!', 'e', 'f', 'f', 'e', 'c', 't'];
    let depend: [char; 7] = ['!', 'd', 'e', 'p', 'e', 'n', 'd'];
    assert(doc@ =~= seq!['/', '/', '/']);
    assert(line@ =~= seq!['/', '/']);
    assert(import@ =~= seq!['@', 'i', 'm', 'p', 'o', 'r', 't']);
    assert(recurse@ =~= seq!['@', 'r', 'e', 'c', 'u', 'r', 's', 'e']);
    assert(effect@ =~= seq!['!', 'e', 'f', 'f', 'e', 'c', 't']);
    assert(depend@ =~= seq!['!', 'd', 'e', 'p', 'e', 'n', 'd']);
    if starts_with_at(chars, i, &doc) {
        assert(chars@[i as int] == chars@.subrange(i as int, i + 3)[0]);
        return Ok((SyntaxKind::DocComment, line_run_end(chars, i)));
    }
    if starts_with_at(chars, i, &line) {
        assert(chars@[i as int] == chars@.subrange(i as int, i + 2)[0]);
        return Ok((SyntaxKind::LineComment, line_run_end(chars, i)));
    }
    if marker_at_exec(chars, i, &import) {
        return Ok((SyntaxKind::BuiltinImport, i + 7));
    }
    if marker_at_exec(chars, i, &recurse) {
        return Ok((SyntaxKind::BuiltinRecurse, i + 8));
    }
    if marker_at_exec(chars, i, &effect) {
        return Ok((SyntaxKind::EffectMarker, i + 7));
    }
    if marker_at_exec(chars, i, &depend) {
        return Ok((SyntaxKind::DependMarker, i + 7));
    }
    if let Some((kind, n)) = lex_punctuation(chars, i) {
        return Ok((kind, i + n));
    }
    if c == '"' {
        let end = lex_quoted(chars, i, offset, '"')?;
        return Ok((SyntaxKind::String, end));
    }
    if c == '\'' {
        let end = lex_quoted(chars, i, offset, '\'')?;
        return Ok((SyntaxKind::Char, end));
    }
    if '0' <= c && c <= '9' {
        return Ok((SyntaxKind::Int, digit_run_end(chars, i)));
    }
    if is_ident_start(c) {
        let end = ident_run_end(chars, i);
        let kind = match keyword_kind(chars, i, end) {
            Some(k) => k,
            None => SyntaxKind::Ident,
        };
        return Ok((kind, end));
    }
    let mut message = String::from_str("unexpected character `");
    push_char(&mut message, c);
    message.append("`");
    Err(ParseError { offset, message })
}

/// Splits `source` into tokens that cover it exactly.
pub fn tokenize(source: &str) -> (res: Result<Vec<Token>, ParseError>)
    ensures
        match lex(source@) {
            Ok(ts) => res matches Ok(toks) && token_views(toks@) == ts,
            Err((off, msg)) => res matches Err(err) && err.offset == off && err.message@ == msg,
        },
        res matches Ok(toks) ==> texts_concat(token_pairs(token_views(toks@))) == source@,
        res matches Ok(toks) ==> tokens_laid_out(token_views(toks@), byte_len(source@)),
        res matches Err(err) ==> err.offset < byte_len(source@),
        res matches Err(err) ==> exists|j: int|
            0 <= j < source@.len() && err.offset == byte_len(#[trigger] source@.take(j))
                && failure_on(source@[j], err.message@) && lex(source@.take(j)) is Ok,
        byte_len(source@) <= usize::MAX,
{
    let chars = chars_of(source);
    let ghost s = chars@;
    let mut tokens: Vec<Token> = Vec::new();
    let mut i: usize = 0;
    let mut offset: usize = 0;
    let ghost mut acc: Seq<(SyntaxKind, int, int)> = Seq::empty();
    assert(s.take(0) =~= Seq::<char>::empty());
    while i < chars.len()
        invariant
            s == chars@,
            s == source@,
            i <= chars.len(),
            offset == byte_len(s.take(i as int)),
            byte_len(s) <= usize::MAX,
            lex_from(s, 0) == prepend_tokens(acc, lex_from(s, i as int)),
            token_views(tokens@) == spec_tokens(s, acc),
        decreases chars.len() - i,
    {
        match scan_token(&chars, i, offset) {
            Ok((kind, end)) => {
                proof {
                    lemma_byte_len_take_le(s, i as int);
                }
                let (text, end_offset) = text_between(&chars, i, end, offset);
                let ghost old_tokens = tokens@;
                tokens.push(Token { kind, text, offset });
                proof {
                    let rest = lex_from(s, end as int);
                    assert(lex_from(s, i as int) == match rest {
                        Ok(r) => Ok(seq![(kind, i as int, end as int)] + r),
                        Err(x) => Err(x),
                    });
                    let old_acc = acc;
                    acc = acc.push((kind, i as int, end as int));
                    match rest {
                        Ok(r) => {
                            assert(old_acc + (seq![(kind, i as int, end as int)] + r) =~= acc + r);
                        },
                        Err(x) => {},
                    }
                    assert(tokens@.len() == old_tokens.len() + 1);
                    assert(tokens@[old_tokens.len() as int]@ == spec_token(s, (kind, i as int, end as int)));
                    assert forall|k: int| 0 <= k < old_tokens.len() implies tokens@[k] == old_tokens[k] by {}
                    assert(token_views(old_tokens) == spec_tokens(s, old_acc));
                    assert(token_views(old_tokens).len() == old_tokens.len());
                    assert(spec_tokens(s, old_acc).len() == old_acc.len());
                    assert(acc.len() == tokens@.len());
                    assert forall|k: int| 0 <= k < tokens@.len() implies #[trigger] token_views(tokens@)[k] == spec_tokens(s, acc)[k] by {
                        if k < old_tokens.len() {
                            assert(token_views(old_tokens)[k] == spec_tokens(s, old_acc)[k]);
                            assert(acc[k] == old_acc[k]);
                        } else {
                            assert(acc[k] == (kind, i as int, end as int));
                        }
                    }
                    assert(token_views(tokens@).len() == tokens@.len());
                    assert(spec_tokens(s, acc).len() == acc.len());
                    assert(token_views(tokens@) =~= spec_tokens(s, acc));
                }
                i = end;
                offset = end_offset;
            },
            Err(e) => {
                proof {
                    lemma_lex_error_site(s);
                    lemma_byte_len_take_step(s, i as int);
                    lemma_byte_len_take_le(s, i + 1);
                }
                return Err(e);
            },
        }
    }
    proof {
        assert(acc + Seq::<(SyntaxKind, int, int)>::empty() =~= acc);
        lemma_lex_roundtrip(s);
        lemma_lex_layout(s);
    }
    Ok(tokens)
}

} // verus!
