//! Context classification: given the token sequence and a cursor offset,
//! decide what kind of completion is syntactically valid there and which
//! partial identifier has already been typed.
//!
//! Ambiguous boundary cases deliberately fall back to the value position,
//! the most permissive context, rather than failing.

use vstd::prelude::*;
use crate::lexer::Token;
use crate::lexer::TokenKind;
use crate::lexer::spec_tokens;

verus! {

/// The namespaces the language knows.
#[derive(Clone, Copy, Debug, PartialEq, Eq, Structural)]
pub enum Ns {
    Jet,
    Witness,
    Param,
}

/// The syntactic category of a cursor position.
#[derive(Clone, Copy, Debug, PartialEq, Eq, Structural)]
pub enum PositionKind {
    /// Start of a statement: after `;`, `{`, `}`, or at the very start.
    StatementStart,
    /// An ordinary expression position.
    ValuePos,
    /// After `->`: a type is expected.
    TypePos,
    /// Right after `ns::` for a known namespace `ns`.
    AfterNs(Ns),
    /// Inside a numeric or hex literal.
    InsideLiteral,
    /// Inside a comment or string: completions are suppressed.
    InsideCommentOrString,
}

/// A classified cursor position: the kind, and the identifier fragment
/// typed up to the cursor (possibly empty).
pub struct Ctx {
    pub kind: PositionKind,
    pub prefix: Vec<u8>,
}

/// First token index `k >= i` with `cursor <= tokens[k].end`, or `-1`.
pub open spec fn find_tok_from(toks: Seq<Token>, i: int, cursor: int) -> int
    decreases toks.len() - i,
{
    if i < 0 || i >= toks.len() {
        -1
    } else if cursor <= toks[i].end {
        i
    } else {
        find_tok_from(toks, i + 1, cursor)
    }
}

/// Largest token index `k <= i` that is neither whitespace nor a
/// comment/string, or `-1`.
pub open spec fn prev_significant(toks: Seq<Token>, i: int) -> int
    decreases i + 1,
{
    if i < 0 || i >= toks.len() {
        -1
    } else if toks[i].kind != TokenKind::Whitespace && toks[i].kind != TokenKind::CommentOrString {
        i
    } else {
        prev_significant(toks, i - 1)
    }
}

/// Does `text[start..end]` spell a known namespace name?
pub open spec fn spec_known_ns(text: Seq<u8>, start: int, end: int) -> Option<Ns> {
    if end - start == 3 && text[start] == 106 && text[start + 1] == 101 && text[start + 2] == 116 {
        Option::Some(Ns::Jet)
    } else if end - start == 7 && text[start] == 119 && text[start + 1] == 105 && text[start + 2]
        == 116 && text[start + 3] == 110 && text[start + 4] == 101 && text[start + 5] == 115
        && text[start + 6] == 115 {
        Option::Some(Ns::Witness)
    } else if end - start == 5 && text[start] == 112 && text[start + 1] == 97 && text[start + 2]
        == 114 && text[start + 3] == 97 && text[start + 4] == 109 {
        Option::Some(Ns::Param)
    } else {
        Option::None
    }
}

/// Is `text[start..end]` the two-byte arrow `->`?
pub open spec fn spec_is_arrow(text: Seq<u8>, start: int, end: int) -> bool {
    end - start == 2 && text[start] == 45 && text[start + 1] == 62
}

/// Is `text[start..end]` a statement terminator or block delimiter?
pub open spec fn spec_is_stmt_boundary(text: Seq<u8>, start: int, end: int) -> bool {
    end - start == 1 && (text[start] == 59 || text[start] == 123 || text[start] == 125)
}

/// The identifier fragment typed up to the cursor.
pub open spec fn spec_ctx_prefix(text: Seq<u8>, toks: Seq<Token>, cursor: int) -> Seq<u8> {
    if cursor <= 0 {
        Seq::empty()
    } else {
        let ti = find_tok_from(toks, 0, cursor);
        if ti < 0 {
            Seq::empty()
        } else {
            let t = toks[ti];
            if (t.kind == TokenKind::Ident || t.kind == TokenKind::Keyword) && t.start < cursor {
                text.subrange(t.start as int, cursor)
            } else {
                Seq::empty()
            }
        }
    }
}

/// The position kind at `cursor`.
pub open spec fn spec_ctx_kind(text: Seq<u8>, toks: Seq<Token>, cursor: int) -> PositionKind {
    if cursor <= 0 {
        PositionKind::StatementStart
    } else {
        let ti = find_tok_from(toks, 0, cursor);
        if ti < 0 {
            PositionKind::StatementStart
        } else {
            let t = toks[ti];
            if t.kind == TokenKind::CommentOrString {
                PositionKind::InsideCommentOrString
            } else if t.kind == TokenKind::NumLit || t.kind == TokenKind::HexLit {
                PositionKind::InsideLiteral
            } else {
                let anchor = if t.kind == TokenKind::Ident || t.kind == TokenKind::Keyword
                    || t.kind == TokenKind::Whitespace {
                    prev_significant(toks, ti - 1)
                } else {
                    ti
                };
                spec_kind_from_anchor(text, toks, anchor)
            }
        }
    }
}

/// The position kind implied by the significant token at `anchor` (the
/// token just before the identifier run the user is typing).
pub open spec fn spec_kind_from_anchor(text: Seq<u8>, toks: Seq<Token>, anchor: int) -> PositionKind {
    if anchor < 0 || anchor >= toks.len() {
        PositionKind::StatementStart
    } else {
        let p = toks[anchor];
        if p.kind == TokenKind::NsSep {
            let q = prev_significant(toks, anchor - 1);
            if q >= 0 && toks[q].kind == TokenKind::Ident && spec_known_ns(
                text,
                toks[q].start as int,
                toks[q].end as int,
            ) is Some {
                PositionKind::AfterNs(
                    spec_known_ns(text, toks[q].start as int, toks[q].end as int)->0,
                )
            } else {
                PositionKind::ValuePos
            }
        } else if p.kind == TokenKind::Punct && spec_is_arrow(text, p.start as int, p.end as int) {
            PositionKind::TypePos
        } else if p.kind == TokenKind::Punct && spec_is_stmt_boundary(
            text,
            p.start as int,
            p.end as int,
        ) {
            PositionKind::StatementStart
        } else {
            PositionKind::ValuePos
        }
    }
}

/// All tokens lie inside the text, in order, and are non-empty.
pub open spec fn tokens_wf(toks: Seq<Token>, len: int) -> bool {
    forall|k: int|
        0 <= k < toks.len() ==> (#[trigger] toks[k]).start < toks[k].end && toks[k].end <= len
}

/// The tokens a full tokenization produces are well-formed.
pub proof fn lemma_spec_tokens_wf(text: Seq<u8>, i: int)
    requires
        0 <= i,
        text.len() <= usize::MAX,
    ensures
        tokens_wf(crate::lexer::spec_tokens_from(text, i), text.len() as int),
        forall|k: int|
            0 <= k < crate::lexer::spec_tokens_from(text, i).len() ==> (
            #[trigger] crate::lexer::spec_tokens_from(text, i)[k]).start >= i,
    decreases text.len() - i,
{
    if i < text.len() {
        crate::lexer::lemma_token_end_bounds(text, i);
        let e = crate::lexer::token_end(text, i);
        lemma_spec_tokens_wf(text, e);
        let head = Token {
            kind: crate::lexer::token_kind_at(text, i),
            start: i as usize,
            end: e as usize,
        };
        let ts = crate::lexer::spec_tokens_from(text, i);
        let rest = crate::lexer::spec_tokens_from(text, e);
        assert(ts == seq![head] + rest);
        assert forall|k: int|
            0 <= k < ts.len() implies (#[trigger] ts[k]).start < ts[k].end && ts[k].end
            <= text.len() && ts[k].start >= i by {
            if k == 0 {
                assert(ts[k] == head);
            } else {
                assert(ts[k] == rest[k - 1]);
                assert((#[trigger] rest[k - 1]).start >= e);
            }
        }
    }
}


/// Consecutive tokens meet exactly: each token ends where the next one
/// starts, and the first token starts at the scan position.
pub proof fn lemma_spec_tokens_contiguous(text: Seq<u8>, i: int)
    requires
        0 <= i,
        text.len() <= usize::MAX,
    ensures
        forall|k: int|
            0 <= k && k + 1 < crate::lexer::spec_tokens_from(text, i).len() ==> (
            #[trigger] crate::lexer::spec_tokens_from(text, i)[k]).end == crate::lexer::spec_tokens_from(
                text,
                i,
            )[k + 1].start,
        crate::lexer::spec_tokens_from(text, i).len() > 0 ==> crate::lexer::spec_tokens_from(
            text,
            i,
        )[0].start == i,
    decreases text.len() - i,
{
    if i < text.len() {
        crate::lexer::lemma_token_end_bounds(text, i);
        let e = crate::lexer::token_end(text, i);
        lemma_spec_tokens_contiguous(text, e);
        let head = Token {
            kind: crate::lexer::token_kind_at(text, i),
            start: i as usize,
            end: e as usize,
        };
        let ts = crate::lexer::spec_tokens_from(text, i);
        let rest = crate::lexer::spec_tokens_from(text, e);
        assert(ts == seq![head] + rest);
        assert forall|k: int|
            0 <= k && k + 1 < ts.len() implies (#[trigger] ts[k]).end == ts[k + 1].start by {
            if k == 0 {
                assert(ts[0] == head);
                assert(ts[1] == rest[0]);
            } else {
                assert(ts[k] == rest[k - 1]);
                assert(ts[k + 1] == rest[k]);
            }
        }
    }
}

fn find_tok(toks: &Vec<Token>, cursor: usize) -> (r: Option<usize>)
    ensures
        match r {
            Option::Some(k) => k < toks@.len() && find_tok_from(toks@, 0, cursor as int) == k,
            Option::None => find_tok_from(toks@, 0, cursor as int) < 0,
        },
{
    let mut i: usize = 0;
    while i < toks.len()
        invariant
            i <= toks@.len(),
            find_tok_from(toks@, 0, cursor as int) == find_tok_from(toks@, i as int, cursor as int),
        decreases toks@.len() - i,
    {
        if cursor <= toks[i].end {
            return Option::Some(i);
        }
        i = i + 1;
    }
    Option::None
}

fn prev_significant_exec(toks: &Vec<Token>, i: usize) -> (r: Option<usize>)
    requires
        i <= toks@.len(),
    ensures
        match r {
            Option::Some(k) => k < toks@.len() && prev_significant(toks@, i as int - 1) == k,
            Option::None => prev_significant(toks@, i as int - 1) < 0,
        },
{
    let mut j: usize = i;
    while j > 0
        invariant
            j <= i <= toks@.len(),
            prev_significant(toks@, i as int - 1) == prev_significant(toks@, j as int - 1),
        decreases j,
    {
        let k = toks[j - 1].kind;
        if k != TokenKind::Whitespace && k != TokenKind::CommentOrString {
            return Option::Some(j - 1);
        }
        j = j - 1;
    }
    Option::None
}

fn known_ns(text: &Vec<u8>, start: usize, end: usize) -> (r: Option<Ns>)
    requires
        start <= end <= text@.len(),
    ensures
        r == spec_known_ns(text@, start as int, end as int),
{
    let n = end - start;
    if n == 3 && text[start] == 106 && text[start + 1] == 101 && text[start + 2] == 116 {
        Option::Some(Ns::Jet)
    } else if n == 7 && text[start] == 119 && text[start + 1] == 105 && text[start + 2] == 116
        && text[start + 3] == 110 && text[start + 4] == 101 && text[start + 5] == 115 && text[start
        + 6] == 115 {
        Option::Some(Ns::Witness)
    } else if n == 5 && text[start] == 112 && text[start + 1] == 97 && text[start + 2] == 114
        && text[start + 3] == 97 && text[start + 4] == 109 {
        Option::Some(Ns::Param)
    } else {
        Option::None
    }
}

/// Classify the cursor position in `text`, whose tokens are `toks`.
pub fn classify(text: &Vec<u8>, toks: &Vec<Token>, cursor: usize) -> (r: Ctx)
    requires
        toks@ == spec_tokens(text@),
        cursor <= text@.len(),
    ensures
        r.kind == spec_ctx_kind(text@, toks@, cursor as int),
        r.prefix@ == spec_ctx_prefix(text@, toks@, cursor as int),
{
    let n = text.len();
    proof {
        lemma_spec_tokens_wf(text@, 0);
    }
    if cursor == 0 {
        return Ctx { kind: PositionKind::StatementStart, prefix: Vec::new() };
    }
    let ti_opt = find_tok(toks, cursor);
    match ti_opt {
        Option::None => Ctx { kind: PositionKind::StatementStart, prefix: Vec::new() },
        Option::Some(ti) => {
            let t = toks[ti];
            if t.kind == TokenKind::CommentOrString {
                return Ctx { kind: PositionKind::InsideCommentOrString, prefix: Vec::new() };
            }
            if t.kind == TokenKind::NumLit || t.kind == TokenKind::HexLit {
                return Ctx { kind: PositionKind::InsideLiteral, prefix: Vec::new() };
            }
            let prefix: Vec<u8> = if (t.kind == TokenKind::Ident || t.kind == TokenKind::Keyword)
                && t.start < cursor {
                crate::bytestr::copy_range(text, t.start, cursor)
            } else {
                Vec::new()
            };
            let anchor_opt: Option<usize> = if t.kind == TokenKind::Ident || t.kind
                == TokenKind::Keyword || t.kind == TokenKind::Whitespace {
                prev_significant_exec(toks, ti)
            } else {
                Option::Some(ti)
            };
            let kind = kind_from_anchor(text, toks, anchor_opt);
            Ctx { kind, prefix }
        },
    }
}

fn kind_from_anchor(text: &Vec<u8>, toks: &Vec<Token>, anchor_opt: Option<usize>) -> (r:
    PositionKind)
    requires
        tokens_wf(toks@, text@.len() as int),
        match anchor_opt {
            Option::Some(k) => k < toks@.len(),
            Option::None => true,
        },
    ensures
        r == match anchor_opt {
            Option::Some(k) => spec_kind_from_anchor(text@, toks@, k as int),
            Option::None => PositionKind::StatementStart,
        },
{
    match anchor_opt {
        Option::None => PositionKind::StatementStart,
        Option::Some(anchor) => {
            let p = toks[anchor];
            if p.kind == TokenKind::NsSep {
                let q_opt = prev_significant_exec(toks, anchor);
                match q_opt {
                    Option::Some(q) => {
                        if toks[q].kind == TokenKind::Ident {
                            match known_ns(text, toks[q].start, toks[q].end) {
                                Option::Some(ns) => PositionKind::AfterNs(ns),
                                Option::None => PositionKind::ValuePos,
                            }
                        } else {
                            PositionKind::ValuePos
                        }
                    },
                    Option::None => PositionKind::ValuePos,
                }
            } else if p.kind == TokenKind::Punct && p.end - p.start == 2 && text[p.start] == 45
                && text[p.start + 1] == 62 {
                PositionKind::TypePos
            } else if p.kind == TokenKind::Punct && p.end - p.start == 1 && (text[p.start] == 59
                || text[p.start] == 123 || text[p.start] == 125) {
                PositionKind::StatementStart
            } else {
                PositionKind::ValuePos
            }
        },
    }
}

} // verus!
