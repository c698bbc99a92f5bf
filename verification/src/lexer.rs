//! Single-pass tokenizer for the scripting language.
//!
//! Tokenization is total: every byte of the input belongs to exactly one
//! token, and bytes that fit no rule become `Unknown` tokens, so lexing
//! never fails.  The executable scanner is proved equal to the purely
//! mathematical `spec_tokens_from`, which is therefore the single source
//! of truth for every later stage (classification, completion, hover).

use vstd::prelude::*;

verus! {

/// Lexical class of one token.
#[derive(Clone, Copy, Debug, PartialEq, Eq, Structural)]
pub enum TokenKind {
    /// A run of word characters that is not a reserved keyword.
    Ident,
    /// A run of word characters that exactly matches a reserved keyword.
    Keyword,
    /// The namespace separator `::`.
    NsSep,
    /// A single punctuation byte, or the two-byte arrow `->`.
    Punct,
    /// A run of decimal digits.
    NumLit,
    /// `0x` followed by at least one hexadecimal digit.
    HexLit,
    /// A `//` line comment, a `/* ... */` block comment, or a `"..."` string.
    CommentOrString,
    /// A run of blanks, tabs, carriage returns and newlines.
    Whitespace,
    /// A byte that fits no other rule.
    Unknown,
}

/// One token: a half-open byte range `[start, end)` of the document text.
#[derive(Clone, Copy, Debug, PartialEq, Eq, Structural)]
pub struct Token {
    pub kind: TokenKind,
    pub start: usize,
    pub end: usize,
}

pub open spec fn is_ws(c: u8) -> bool {
    c == 32 || c == 9 || c == 13 || c == 10
}

pub open spec fn is_digit(c: u8) -> bool {
    48 <= c && c <= 57
}

pub open spec fn is_hex_digit(c: u8) -> bool {
    is_digit(c) || (97 <= c && c <= 102) || (65 <= c && c <= 70)
}

pub open spec fn is_ident_start(c: u8) -> bool {
    (97 <= c && c <= 122) || (65 <= c && c <= 90) || c == 95
}

pub open spec fn is_ident_cont(c: u8) -> bool {
    is_ident_start(c) || is_digit(c)
}

/// End of the maximal run of word characters starting at `i`.
pub open spec fn ident_run_end(text: Seq<u8>, i: int) -> int
    decreases text.len() - i,
{
    if i < 0 || i >= text.len() || !is_ident_cont(text[i]) {
        i
    } else {
        ident_run_end(text, i + 1)
    }
}

/// End of the maximal run of decimal digits starting at `i`.
pub open spec fn digit_run_end(text: Seq<u8>, i: int) -> int
    decreases text.len() - i,
{
    if i < 0 || i >= text.len() || !is_digit(text[i]) {
        i
    } else {
        digit_run_end(text, i + 1)
    }
}

/// End of the maximal run of hexadecimal digits starting at `i`.
pub open spec fn hex_run_end(text: Seq<u8>, i: int) -> int
    decreases text.len() - i,
{
    if i < 0 || i >= text.len() || !is_hex_digit(text[i]) {
        i
    } else {
        hex_run_end(text, i + 1)
    }
}

/// End of the maximal run of whitespace starting at `i`.
pub open spec fn ws_run_end(text: Seq<u8>, i: int) -> int
    decreases text.len() - i,
{
    if i < 0 || i >= text.len() || !is_ws(text[i]) {
        i
    } else {
        ws_run_end(text, i + 1)
    }
}

/// First newline at or after `i`, or the end of the text.
pub open spec fn line_end(text: Seq<u8>, i: int) -> int
    decreases text.len() - i,
{
    if i < 0 || i >= text.len() || text[i] == 10 {
        i
    } else {
        line_end(text, i + 1)
    }
}

/// One past the closing `*/` whose `*` sits at or after `i`, or the end of
/// the text when the block comment is unterminated.
pub open spec fn block_comment_end(text: Seq<u8>, i: int) -> int
    decreases text.len() - i,
{
    if i < 0 || i >= text.len() {
        if i < 0 {
            0
        } else {
            text.len() as int
        }
    } else if i + 1 < text.len() && text[i] == 42 && text[i + 1] == 47 {
        i + 2
    } else {
        block_comment_end(text, i + 1)
    }
}

/// One past the closing quote at or after `i`, or the end of the text when
/// the string is unterminated.
pub open spec fn string_end(text: Seq<u8>, i: int) -> int
    decreases text.len() - i,
{
    if i < 0 || i >= text.len() {
        if i < 0 {
            0
        } else {
            text.len() as int
        }
    } else if text[i] == 34 {
        i + 1
    } else {
        string_end(text, i + 1)
    }
}

/// The reserved keyword spellings of the language.
pub open spec fn is_keyword(s: Seq<u8>) -> bool {
    s =~= seq![99u8, 111u8, 110u8, 115u8, 116u8]  // const
    || s =~= seq![102u8, 110u8]  // fn
    || s =~= seq![108u8, 101u8, 116u8]  // let
    || s =~= seq![109u8, 111u8, 100u8]  // mod
    || s =~= seq![109u8, 97u8, 116u8, 99u8, 104u8]  // match
}

/// Where the token that starts at `i` ends.
pub open spec fn token_end(text: Seq<u8>, i: int) -> int
    recommends
        0 <= i < text.len(),
{
    let c = text[i];
    if is_ws(c) {
        ws_run_end(text, i + 1)
    } else if is_ident_start(c) {
        ident_run_end(text, i + 1)
    } else if c == 48 && i + 2 < text.len() && text[i + 1] == 120 && is_hex_digit(text[i + 2]) {
        hex_run_end(text, i + 3)
    } else if is_digit(c) {
        digit_run_end(text, i + 1)
    } else if c == 58 && i + 1 < text.len() && text[i + 1] == 58 {
        i + 2
    } else if c == 47 && i + 1 < text.len() && text[i + 1] == 47 {
        line_end(text, i + 2)
    } else if c == 47 && i + 1 < text.len() && text[i + 1] == 42 {
        block_comment_end(text, i + 2)
    } else if c == 34 {
        string_end(text, i + 1)
    } else if c == 45 && i + 1 < text.len() && text[i + 1] == 62 {
        i + 2
    } else {
        i + 1
    }
}

/// The kind of the token that spans `[i, token_end(text, i))`.
pub open spec fn token_kind_at(text: Seq<u8>, i: int) -> TokenKind
    recommends
        0 <= i < text.len(),
{
    let c = text[i];
    if is_ws(c) {
        TokenKind::Whitespace
    } else if is_ident_start(c) {
        if is_keyword(text.subrange(i, token_end(text, i))) {
            TokenKind::Keyword
        } else {
            TokenKind::Ident
        }
    } else if c == 48 && i + 2 < text.len() && text[i + 1] == 120 && is_hex_digit(text[i + 2]) {
        TokenKind::HexLit
    } else if is_digit(c) {
        TokenKind::NumLit
    } else if c == 58 && i + 1 < text.len() && text[i + 1] == 58 {
        TokenKind::NsSep
    } else if c == 47 && i + 1 < text.len() && (text[i + 1] == 47 || text[i + 1] == 42) {
        TokenKind::CommentOrString
    } else if c == 34 {
        TokenKind::CommentOrString
    } else if 33 <= c && c <= 126 {
        TokenKind::Punct
    } else {
        TokenKind::Unknown
    }
}

proof fn lemma_ident_run_end_bounds(text: Seq<u8>, i: int)
    requires
        0 <= i <= text.len(),
    ensures
        i <= ident_run_end(text, i) <= text.len(),
    decreases text.len() - i,
{
    if i < text.len() && is_ident_cont(text[i]) {
        lemma_ident_run_end_bounds(text, i + 1);
    }
}

proof fn lemma_digit_run_end_bounds(text: Seq<u8>, i: int)
    requires
        0 <= i <= text.len(),
    ensures
        i <= digit_run_end(text, i) <= text.len(),
    decreases text.len() - i,
{
    if i < text.len() && is_digit(text[i]) {
        lemma_digit_run_end_bounds(text, i + 1);
    }
}

proof fn lemma_hex_run_end_bounds(text: Seq<u8>, i: int)
    requires
        0 <= i <= text.len(),
    ensures
        i <= hex_run_end(text, i) <= text.len(),
    decreases text.len() - i,
{
    if i < text.len() && is_hex_digit(text[i]) {
        lemma_hex_run_end_bounds(text, i + 1);
    }
}

proof fn lemma_ws_run_end_bounds(text: Seq<u8>, i: int)
    requires
        0 <= i <= text.len(),
    ensures
        i <= ws_run_end(text, i) <= text.len(),
    decreases text.len() - i,
{
    if i < text.len() && is_ws(text[i]) {
        lemma_ws_run_end_bounds(text, i + 1);
    }
}

proof fn lemma_line_end_bounds(text: Seq<u8>, i: int)
    requires
        0 <= i <= text.len(),
    ensures
        i <= line_end(text, i) <= text.len(),
    decreases text.len() - i,
{
    if i < text.len() && text[i] != 10 {
        lemma_line_end_bounds(text, i + 1);
    }
}

proof fn lemma_block_comment_end_bounds(text: Seq<u8>, i: int)
    requires
        0 <= i <= text.len(),
    ensures
        i <= block_comment_end(text, i) <= text.len(),
    decreases text.len() - i,
{
    if i < text.len() && !(i + 1 < text.len() && text[i] == 42 && text[i + 1] == 47) {
        lemma_block_comment_end_bounds(text, i + 1);
    }
}

proof fn lemma_string_end_bounds(text: Seq<u8>, i: int)
    requires
        0 <= i <= text.len(),
    ensures
        i <= string_end(text, i) <= text.len(),
    decreases text.len() - i,
{
    if i < text.len() && text[i] != 34 {
        lemma_string_end_bounds(text, i + 1);
    }
}

/// Every token is non-empty and stays within the text.
pub proof fn lemma_token_end_bounds(text: Seq<u8>, i: int)
    requires
        0 <= i < text.len(),
    ensures
        i < token_end(text, i) <= text.len(),
{
    lemma_ident_run_end_bounds(text, i + 1);
    lemma_digit_run_end_bounds(text, i + 1);
    lemma_ws_run_end_bounds(text, i + 1);
    lemma_line_end_bounds(text, i + 1);
    lemma_string_end_bounds(text, i + 1);
    if i + 2 < text.len() {
        lemma_hex_run_end_bounds(text, i + 3);
    }
    if i + 1 < text.len() {
        lemma_block_comment_end_bounds(text, i + 2);
        lemma_line_end_bounds(text, i + 2);
    }
}

/// The token sequence of `text` from offset `i` on.
pub open spec fn spec_tokens_from(text: Seq<u8>, i: int) -> Seq<Token>
    decreases text.len() - i,
{
    if i < 0 || i >= text.len() {
        Seq::empty()
    } else {
        let e = token_end(text, i);
        if e <= i || e > text.len() {
            Seq::empty()
        } else {
            seq![
                Token { kind: token_kind_at(text, i), start: i as usize, end: e as usize },
            ] + spec_tokens_from(text, e)
        }
    }
}

/// The tokens of the whole of `text`.
pub open spec fn spec_tokens(text: Seq<u8>) -> Seq<Token> {
    spec_tokens_from(text, 0)
}

fn scan_ident_run(text: &Vec<u8>, start: usize) -> (e: usize)
    requires
        start <= text@.len(),
    ensures
        e == ident_run_end(text@, start as int),
        start <= e <= text@.len(),
{
    proof {
        lemma_ident_run_end_bounds(text@, start as int);
    }
    let mut j = start;
    while j < text.len() && ((97 <= text[j] && text[j] <= 122) || (65 <= text[j] && text[j] <= 90)
        || text[j] == 95 || (48 <= text[j] && text[j] <= 57))
        invariant
            start <= j <= text@.len(),
            ident_run_end(text@, start as int) == ident_run_end(text@, j as int),
        decreases text@.len() - j,
    {
        j = j + 1;
    }
    j
}

fn scan_digit_run(text: &Vec<u8>, start: usize) -> (e: usize)
    requires
        start <= text@.len(),
    ensures
        e == digit_run_end(text@, start as int),
        start <= e <= text@.len(),
{
    proof {
        lemma_digit_run_end_bounds(text@, start as int);
    }
    let mut j = start;
    while j < text.len() && 48 <= text[j] && text[j] <= 57
        invariant
            start <= j <= text@.len(),
            digit_run_end(text@, start as int) == digit_run_end(text@, j as int),
        decreases text@.len() - j,
    {
        j = j + 1;
    }
    j
}

fn scan_hex_run(text: &Vec<u8>, start: usize) -> (e: usize)
    requires
        start <= text@.len(),
    ensures
        e == hex_run_end(text@, start as int),
        start <= e <= text@.len(),
{
    proof {
        lemma_hex_run_end_bounds(text@, start as int);
    }
    let mut j = start;
    while j < text.len() && ((48 <= text[j] && text[j] <= 57) || (97 <= text[j] && text[j] <= 102)
        || (65 <= text[j] && text[j] <= 70))
        invariant
            start <= j <= text@.len(),
            hex_run_end(text@, start as int) == hex_run_end(text@, j as int),
        decreases text@.len() - j,
    {
        j = j + 1;
    }
    j
}

fn scan_ws_run(text: &Vec<u8>, start: usize) -> (e: usize)
    requires
        start <= text@.len(),
    ensures
        e == ws_run_end(text@, start as int),
        start <= e <= text@.len(),
{
    proof {
        lemma_ws_run_end_bounds(text@, start as int);
    }
    let mut j = start;
    while j < text.len() && (text[j] == 32 || text[j] == 9 || text[j] == 13 || text[j] == 10)
        invariant
            start <= j <= text@.len(),
            ws_run_end(text@, start as int) == ws_run_end(text@, j as int),
        decreases text@.len() - j,
    {
        j = j + 1;
    }
    j
}

fn scan_line_end(text: &Vec<u8>, start: usize) -> (e: usize)
    requires
        start <= text@.len(),
    ensures
        e == line_end(text@, start as int),
        start <= e <= text@.len(),
{
    proof {
        lemma_line_end_bounds(text@, start as int);
    }
    let mut j = start;
    while j < text.len() && text[j] != 10
        invariant
            start <= j <= text@.len(),
            line_end(text@, start as int) == line_end(text@, j as int),
        decreases text@.len() - j,
    {
        j = j + 1;
    }
    j
}

fn scan_block_comment_end(text: &Vec<u8>, start: usize) -> (e: usize)
    requires
        start <= text@.len(),
    ensures
        e == block_comment_end(text@, start as int),
        start <= e <= text@.len(),
{
    proof {
        lemma_block_comment_end_bounds(text@, start as int);
    }
    let mut j = start;
    while j < text.len() && !(j + 1 < text.len() && text[j] == 42 && text[j + 1] == 47)
        invariant
            start <= j <= text@.len(),
            block_comment_end(text@, start as int) == block_comment_end(text@, j as int),
        decreases text@.len() - j,
    {
        j = j + 1;
    }
    if j < text.len() {
        j + 2
    } else {
        j
    }
}

fn scan_string_end(text: &Vec<u8>, start: usize) -> (e: usize)
    requires
        start <= text@.len(),
    ensures
        e == string_end(text@, start as int),
        start <= e <= text@.len(),
{
    proof {
        lemma_string_end_bounds(text@, start as int);
    }
    let mut j = start;
    while j < text.len() && text[j] != 34
        invariant
            start <= j <= text@.len(),
            string_end(text@, start as int) == string_end(text@, j as int),
        decreases text@.len() - j,
    {
        j = j + 1;
    }
    if j < text.len() {
        j + 1
    } else {
        j
    }
}

/// Whether `text[start..end]` spells a reserved keyword.
fn is_keyword_range(text: &Vec<u8>, start: usize, end: usize) -> (r: bool)
    requires
        start <= end <= text@.len(),
    ensures
        r == is_keyword(text@.subrange(start as int, end as int)),
{
    let n = end - start;
    let r = (n == 5 && text[start] == 99 && text[start + 1] == 111 && text[start + 2] == 110
        && text[start + 3] == 115 && text[start + 4] == 116) || (n == 2 && text[start] == 102
        && text[start + 1] == 110) || (n == 3 && text[start] == 108 && text[start + 1] == 101
        && text[start + 2] == 116) || (n == 3 && text[start] == 109 && text[start + 1] == 111
        && text[start + 2] == 100) || (n == 5 && text[start] == 109 && text[start + 1] == 97
        && text[start + 2] == 116 && text[start + 3] == 99 && text[start + 4] == 104);
    proof {
        let s = text@.subrange(start as int, end as int);
        assert(s.len() == n);
        assert(forall|k: int| 0 <= k < s.len() ==> s[k] == text@[start + k]);
        if r {
            assert(is_keyword(s));
        } else {
            assert(!(s =~= seq![99u8, 111u8, 110u8, 115u8, 116u8]));
            assert(!(s =~= seq![102u8, 110u8]));
            assert(!(s =~= seq![108u8, 101u8, 116u8]));
            assert(!(s =~= seq![109u8, 111u8, 100u8]));
            assert(!(s =~= seq![109u8, 97u8, 116u8, 99u8, 104u8]));
        }
    }
    r
}

/// End of the token that starts at `i`.
fn token_end_exec(text: &Vec<u8>, i: usize) -> (e: usize)
    requires
        i < text@.len(),
    ensures
        e == token_end(text@, i as int),
        i < e <= text@.len(),
{
    proof {
        lemma_token_end_bounds(text@, i as int);
    }
    let n = text.len();
    let c = text[i];
    if c == 32 || c == 9 || c == 13 || c == 10 {
        scan_ws_run(text, i + 1)
    } else if (97 <= c && c <= 122) || (65 <= c && c <= 90) || c == 95 {
        scan_ident_run(text, i + 1)
    } else if c == 48 && i + 1 < n && text[i + 1] == 120 && i + 2 < n && {
        let h = text[i + 2];
        (48 <= h && h <= 57) || (97 <= h && h <= 102) || (65 <= h && h <= 70)
    } {
        scan_hex_run(text, i + 3)
    } else if 48 <= c && c <= 57 {
        scan_digit_run(text, i + 1)
    } else if c == 58 && i + 1 < n && text[i + 1] == 58 {
        i + 2
    } else if c == 47 && i + 1 < n && text[i + 1] == 47 {
        scan_line_end(text, i + 2)
    } else if c == 47 && i + 1 < n && text[i + 1] == 42 {
        scan_block_comment_end(text, i + 2)
    } else if c == 34 {
        scan_string_end(text, i + 1)
    } else if c == 45 && i + 1 < n && text[i + 1] == 62 {
        i + 2
    } else {
        i + 1
    }
}

/// Kind of the token spanning `[i, e)`, where `e` is its computed end.
fn token_kind_exec(text: &Vec<u8>, i: usize, e: usize) -> (k: TokenKind)
    requires
        i < text@.len(),
        e == token_end(text@, i as int),
        i < e <= text@.len(),
    ensures
        k == token_kind_at(text@, i as int),
{
    let n = text.len();
    let c = text[i];
    if c == 32 || c == 9 || c == 13 || c == 10 {
        TokenKind::Whitespace
    } else if (97 <= c && c <= 122) || (65 <= c && c <= 90) || c == 95 {
        if is_keyword_range(text, i, e) {
            TokenKind::Keyword
        } else {
            TokenKind::Ident
        }
    } else if c == 48 && i + 1 < n && text[i + 1] == 120 && i + 2 < n && {
        let h = text[i + 2];
        (48 <= h && h <= 57) || (97 <= h && h <= 102) || (65 <= h && h <= 70)
    } {
        TokenKind::HexLit
    } else if 48 <= c && c <= 57 {
        TokenKind::NumLit
    } else if c == 58 && i + 1 < n && text[i + 1] == 58 {
        TokenKind::NsSep
    } else if c == 47 && i + 1 < n && (text[i + 1] == 47 || text[i + 1] == 42) {
        TokenKind::CommentOrString
    } else if c == 34 {
        TokenKind::CommentOrString
    } else if 33 <= c && c <= 126 {
        TokenKind::Punct
    } else {
        TokenKind::Unknown
    }
}

/// Tokenize the whole of `text`.
pub fn tokenize(text: &Vec<u8>) -> (r: Vec<Token>)
    ensures
        r@ == spec_tokens(text@),
{
    let mut toks: Vec<Token> = Vec::new();
    let mut i: usize = 0;
    while i < text.len()
        invariant
            i <= text@.len(),
            toks@ + spec_tokens_from(text@, i as int) =~= spec_tokens(text@),
        decreases text@.len() - i,
    {
        let e = token_end_exec(text, i);
        let k = token_kind_exec(text, i, e);
        let t = Token { kind: k, start: i, end: e };
        proof {
            assert(spec_tokens_from(text@, i as int) =~= seq![t] + spec_tokens_from(
                text@,
                e as int,
            ));
        }
        toks.push(t);
        i = e;
    }
    proof {
        assert(spec_tokens_from(text@, i as int) =~= Seq::<Token>::empty());
        assert(toks@ =~= spec_tokens(text@));
    }
    toks
}

} // verus!
