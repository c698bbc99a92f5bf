//! Completion engine and hover resolver.
//!
//! A completion result is a list of references into the frozen catalog,
//! filtered by the classified cursor context and the typed prefix, and
//! ordered by (category priority, name).  The executable pipeline is
//! proved equal to the purely mathematical `spec_complete_list`, so two
//! queries against the same state provably return the same list.

use vstd::prelude::*;
use vstd::string::StringSliceAdditionalSpecFns;
use crate::Error;
use crate::bytestr::is_prefix;
use crate::bytestr::lex_le;
use crate::bytestr::lex_le_exec;
use crate::bytestr::spec_is_prefix;
use crate::classify::Ctx;
use crate::classify::Ns;
use crate::classify::PositionKind;
use crate::classify::classify;
use crate::classify::spec_ctx_kind;
use crate::classify::spec_ctx_prefix;
use crate::lexer::Token;
use crate::lexer::spec_tokens;
use crate::store::DocStore;
use crate::store::find_doc;
use crate::symbols::Catalog;
use crate::symbols::Category;
use crate::symbols::Symbol;
use crate::symbols::priority;
use crate::symbols::spec_priority;

verus! {

/// One completion candidate: a reference into the catalog and a numeric
/// score.  Higher scores rank first; the score is derived from the
/// category priority alone.
#[derive(Clone, Copy, Debug, PartialEq, Eq, Structural)]
pub struct Candidate {
    /// Index of the referenced symbol in the catalog.
    pub sym: usize,
    /// `5 - category priority`: keywords score 5, common identifiers 0.
    pub rank: u64,
}

/// Which categories may be offered in a given cursor context.
pub open spec fn spec_eligible(cat: Category, k: PositionKind) -> bool {
    match k {
        PositionKind::StatementStart => cat == Category::Keyword || cat == Category::Snippet
            || cat == Category::CommonIdent,
        PositionKind::ValuePos => cat != Category::Keyword,
        PositionKind::TypePos => cat == Category::TypeName,
        PositionKind::AfterNs(ns) => ns == Ns::Jet && cat == Category::JetFunction,
        PositionKind::InsideLiteral => false,
        PositionKind::InsideCommentOrString => false,
    }
}

/// Executable twin of [`spec_eligible`].
fn eligible(cat: Category, k: PositionKind) -> (r: bool)
    ensures
        r == spec_eligible(cat, k),
{
    match k {
        PositionKind::StatementStart => cat == Category::Keyword || cat == Category::Snippet
            || cat == Category::CommonIdent,
        PositionKind::ValuePos => !(cat == Category::Keyword),
        PositionKind::TypePos => cat == Category::TypeName,
        PositionKind::AfterNs(ns) => ns == Ns::Jet && cat == Category::JetFunction,
        PositionKind::InsideLiteral => false,
        PositionKind::InsideCommentOrString => false,
    }
}

/// The bytes of `jet::`.
pub open spec fn jet_ns_bytes() -> Seq<u8> {
    seq![106u8, 101u8, 116u8, 58u8, 58u8]
}

/// `jet::` + `p`: the namespace-qualified form of a typed prefix.
pub open spec fn jet_qualified(p: Seq<u8>) -> Seq<u8> {
    jet_ns_bytes() + p
}

/// The prefix a symbol name must extend: after `jet::` the typed prefix
/// is matched against the jet-local part of the qualified name.
pub open spec fn spec_effective_prefix(k: PositionKind, p: Seq<u8>) -> Seq<u8> {
    if k == PositionKind::AfterNs(Ns::Jet) {
        jet_qualified(p)
    } else {
        p
    }
}

/// Does entry `i` belong in the completion list for context `(k, prefix)`?
/// With `all_cats` the category filter is disabled (plain prefix search).
pub open spec fn spec_match(
    entries: Seq<Symbol>,
    i: int,
    k: PositionKind,
    prefix: Seq<u8>,
    all_cats: bool,
) -> bool {
    (all_cats || spec_eligible(entries[i].category, k)) && spec_is_prefix(
        spec_effective_prefix(k, prefix),
        entries[i].name@,
    )
}

/// The candidate a matching entry `i` turns into.
pub open spec fn spec_candidate(entries: Seq<Symbol>, i: int) -> Candidate {
    Candidate { sym: i as usize, rank: (5 - spec_priority(entries[i].category)) as u64 }
}

/// The unsorted candidates among the entries from index `i` on.
pub open spec fn spec_matching_from(
    entries: Seq<Symbol>,
    k: PositionKind,
    prefix: Seq<u8>,
    all_cats: bool,
    i: int,
) -> Seq<Candidate>
    decreases entries.len() - i,
{
    if i < 0 || i >= entries.len() {
        Seq::empty()
    } else {
        let rest = spec_matching_from(entries, k, prefix, all_cats, i + 1);
        if spec_match(entries, i, k, prefix, all_cats) {
            seq![spec_candidate(entries, i)] + rest
        } else {
            rest
        }
    }
}

/// Candidate order: category priority first, then name, lexicographically.
pub open spec fn cand_le(entries: Seq<Symbol>, a: Candidate, b: Candidate) -> bool {
    let pa = spec_priority(entries[a.sym as int].category);
    let pb = spec_priority(entries[b.sym as int].category);
    pa < pb || (pa == pb && lex_le(entries[a.sym as int].name@, entries[b.sym as int].name@))
}

/// Strictly before: `b` does not sort at or before `a`.
pub open spec fn cand_lt(entries: Seq<Symbol>, a: Candidate, b: Candidate) -> bool {
    !cand_le(entries, b, a)
}

/// `x` placed at its position in an already sorted candidate list; a
/// candidate that ties goes after the existing one (stability).
pub open spec fn insert_sorted(entries: Seq<Symbol>, x: Candidate, s: Seq<Candidate>) -> Seq<
    Candidate,
>
    decreases s.len(),
{
    if s.len() == 0 {
        seq![x]
    } else if cand_lt(entries, x, s[0]) {
        seq![x] + s
    } else {
        seq![s[0]] + insert_sorted(entries, x, s.drop_first())
    }
}

/// Stable insertion sort by [`cand_le`].
pub open spec fn sort_cands(entries: Seq<Symbol>, s: Seq<Candidate>) -> Seq<Candidate>
    decreases s.len(),
{
    if s.len() == 0 {
        Seq::empty()
    } else {
        insert_sorted(entries, s[0], sort_cands(entries, s.drop_first()))
    }
}

/// Adjacent pairs are in order.
pub open spec fn sorted_cands(entries: Seq<Symbol>, s: Seq<Candidate>) -> bool {
    forall|k: int| 0 <= k && k + 1 < s.len() ==> cand_le(entries, #[trigger] s[k], s[k + 1])
}

/// The full completion pipeline at the specification level: tokenize,
/// classify, filter, sort.
pub open spec fn spec_complete_list(entries: Seq<Symbol>, text: Seq<u8>, cursor: int) -> Seq<
    Candidate,
> {
    let toks = spec_tokens(text);
    let k = spec_ctx_kind(text, toks, cursor);
    let p = spec_ctx_prefix(text, toks, cursor);
    sort_cands(entries, spec_matching_from(entries, k, p, false, 0))
}

/// The result of a plain prefix search over the whole catalog.
pub open spec fn spec_prefix_search(entries: Seq<Symbol>, prefix: Seq<u8>) -> Seq<Candidate> {
    sort_cands(
        entries,
        spec_matching_from(entries, PositionKind::ValuePos, prefix, true, 0),
    )
}

proof fn lemma_cand_le_total(entries: Seq<Symbol>, a: Candidate, b: Candidate)
    ensures
        cand_le(entries, a, b) || cand_le(entries, b, a),
{
    crate::bytestr::lemma_lex_le_total(
        entries[a.sym as int].name@,
        entries[b.sym as int].name@,
    );
}

/// Inserting into a sorted list keeps it sorted, grows it by one, and the
/// new head is either the new element or the old head.
proof fn lemma_insert_sorted_props(entries: Seq<Symbol>, x: Candidate, s: Seq<Candidate>)
    requires
        sorted_cands(entries, s),
    ensures
        sorted_cands(entries, insert_sorted(entries, x, s)),
        insert_sorted(entries, x, s).len() == s.len() + 1,
        insert_sorted(entries, x, s)[0] == x || (s.len() > 0 && insert_sorted(entries, x, s)[0]
            == s[0]),
    decreases s.len(),
{
    let r = insert_sorted(entries, x, s);
    if s.len() == 0 {
    } else if cand_lt(entries, x, s[0]) {
        lemma_cand_le_total(entries, x, s[0]);
        assert(r == seq![x] + s);
        assert forall|k: int| 0 <= k && k + 1 < r.len() implies cand_le(
            entries,
            #[trigger] r[k],
            r[k + 1],
        ) by {
            if k == 0 {
                assert(cand_le(entries, x, s[0]));
            } else {
                assert(r[k] == s[k - 1] && r[k + 1] == s[k]);
            }
        }
    } else {
        let rest = s.drop_first();
        assert forall|k: int| 0 <= k && k + 1 < rest.len() implies cand_le(
            entries,
            #[trigger] rest[k],
            rest[k + 1],
        ) by {
            assert(rest[k] == s[k + 1]);
            assert(rest[k + 1] == s[k + 2]);
        }
        lemma_insert_sorted_props(entries, x, rest);
        let inner = insert_sorted(entries, x, rest);
        assert(r == seq![s[0]] + inner);
        assert(cand_le(entries, s[0], inner[0])) by {
            if inner[0] == x {
                assert(cand_le(entries, s[0], x));
            } else {
                assert(inner[0] == rest[0]);
                assert(cand_le(entries, s[0], s[1]));
            }
        }
        assert forall|k: int| 0 <= k && k + 1 < r.len() implies cand_le(
            entries,
            #[trigger] r[k],
            r[k + 1],
        ) by {
            if k == 0 {
                assert(r[0] == s[0] && r[1] == inner[0]);
            } else {
                assert(r[k] == inner[k - 1] && r[k + 1] == inner[k]);
            }
        }
    }
}

/// The sort output is sorted.
pub proof fn lemma_sort_cands_sorted(entries: Seq<Symbol>, s: Seq<Candidate>)
    ensures
        sorted_cands(entries, sort_cands(entries, s)),
        sort_cands(entries, s).len() == s.len(),
    decreases s.len(),
{
    if s.len() > 0 {
        lemma_sort_cands_sorted(entries, s.drop_first());
        lemma_insert_sorted_props(entries, s[0], sort_cands(entries, s.drop_first()));
    }
}

/// A property that holds of every element before an insertion still holds
/// of every element afterwards.
proof fn lemma_insert_sorted_all(
    entries: Seq<Symbol>,
    x: Candidate,
    s: Seq<Candidate>,
    p: spec_fn(Candidate) -> bool,
)
    requires
        p(x),
        forall|k: int| 0 <= k < s.len() ==> p(#[trigger] s[k]),
    ensures
        forall|k: int|
            0 <= k < insert_sorted(entries, x, s).len() ==> p(
                #[trigger] insert_sorted(entries, x, s)[k],
            ),
    decreases s.len(),
{
    let r = insert_sorted(entries, x, s);
    if s.len() == 0 {
    } else if cand_lt(entries, x, s[0]) {
        assert(forall|k: int| 1 <= k < r.len() ==> r[k] == s[k - 1]);
    } else {
        let rest = s.drop_first();
        assert(forall|k: int| 0 <= k < rest.len() ==> rest[k] == s[k + 1]);
        lemma_insert_sorted_all(entries, x, rest, p);
        let inner = insert_sorted(entries, x, rest);
        assert(forall|k: int| 1 <= k < r.len() ==> r[k] == inner[k - 1]);
    }
}

/// A property of every input element is a property of every output
/// element of the sort.
proof fn lemma_sort_all(entries: Seq<Symbol>, s: Seq<Candidate>, p: spec_fn(Candidate) -> bool)
    requires
        forall|k: int| 0 <= k < s.len() ==> p(#[trigger] s[k]),
    ensures
        forall|k: int|
            0 <= k < sort_cands(entries, s).len() ==> p(#[trigger] sort_cands(entries, s)[k]),
    decreases s.len(),
{
    if s.len() > 0 {
        let rest = s.drop_first();
        assert(forall|k: int| 0 <= k < rest.len() ==> rest[k] == s[k + 1]);
        lemma_sort_all(entries, rest, p);
        lemma_insert_sorted_all(entries, s[0], sort_cands(entries, rest), p);
    }
}

/// Every unsorted candidate refers to a matching entry at or past `i`.
proof fn lemma_matching_from_all(
    entries: Seq<Symbol>,
    k: PositionKind,
    prefix: Seq<u8>,
    all_cats: bool,
    i: int,
)
    requires
        entries.len() <= usize::MAX,
    ensures
        forall|j: int|
            0 <= j < spec_matching_from(entries, k, prefix, all_cats, i).len() ==> ({
                let c = #[trigger] spec_matching_from(entries, k, prefix, all_cats, i)[j];
                &&& i <= c.sym < entries.len()
                &&& spec_match(entries, c.sym as int, k, prefix, all_cats)
                &&& c == spec_candidate(entries, c.sym as int)
            }),
    decreases entries.len() - i,
{
    if 0 <= i < entries.len() {
        lemma_matching_from_all(entries, k, prefix, all_cats, i + 1);
        let m = spec_matching_from(entries, k, prefix, all_cats, i);
        let rest = spec_matching_from(entries, k, prefix, all_cats, i + 1);
        if spec_match(entries, i, k, prefix, all_cats) {
            assert(m == seq![spec_candidate(entries, i)] + rest);
            assert forall|j: int|
                0 <= j < m.len() implies ({
                let c = #[trigger] m[j];
                &&& i <= c.sym < entries.len()
                &&& spec_match(entries, c.sym as int, k, prefix, all_cats)
                &&& c == spec_candidate(entries, c.sym as int)
            }) by {
                if j == 0 {
                    assert(m[0] == spec_candidate(entries, i));
                    assert(m[0].sym == i as usize);
                } else {
                    assert(m[j] == rest[j - 1]);
                }
            }
        } else {
            assert(m == rest);
        }
    }
}

/// Namespace filtering law: when the cursor stands after `jet::`, every
/// candidate the completion list holds is a jet function whose qualified
/// name extends `jet::` followed by the typed prefix; in particular no
/// keyword or type symbol is ever offered there.
pub proof fn lemma_complete_jet_filtered(entries: Seq<Symbol>, text: Seq<u8>, cursor: int)
    requires
        entries.len() <= usize::MAX,
        spec_ctx_kind(text, spec_tokens(text), cursor) == PositionKind::AfterNs(Ns::Jet),
    ensures
        forall|j: int|
            0 <= j < spec_complete_list(entries, text, cursor).len() ==> ({
                let c = #[trigger] spec_complete_list(entries, text, cursor)[j];
                &&& 0 <= c.sym < entries.len()
                &&& entries[c.sym as int].category == Category::JetFunction
                &&& spec_is_prefix(
                    jet_qualified(spec_ctx_prefix(text, spec_tokens(text), cursor)),
                    entries[c.sym as int].name@,
                )
            }),
{
    let toks = spec_tokens(text);
    let k = spec_ctx_kind(text, toks, cursor);
    let p = spec_ctx_prefix(text, toks, cursor);
    let matching = spec_matching_from(entries, k, p, false, 0);
    lemma_matching_from_all(entries, k, p, false, 0);
    let good = |c: Candidate|
        0 <= c.sym < entries.len() && entries[c.sym as int].category == Category::JetFunction
            && spec_is_prefix(jet_qualified(p), entries[c.sym as int].name@);
    assert forall|j: int| 0 <= j < matching.len() implies good(#[trigger] matching[j]) by {
        assert(spec_match(entries, matching[j].sym as int, k, p, false));
    }
    lemma_sort_all(entries, matching, good);
}

proof fn lemma_insert_sorted_contains(
    entries: Seq<Symbol>,
    x: Candidate,
    s: Seq<Candidate>,
    y: Candidate,
)
    requires
        s.contains(y) || y == x,
    ensures
        insert_sorted(entries, x, s).contains(y),
    decreases s.len(),
{
    let r = insert_sorted(entries, x, s);
    if s.len() == 0 {
        assert(r[0] == y);
    } else if cand_lt(entries, x, s[0]) {
        if y == x {
            assert(r[0] == y);
        } else {
            let idx = choose|idx: int| 0 <= idx < s.len() && s[idx] == y;
            assert(r[idx + 1] == y);
        }
    } else {
        let rest = s.drop_first();
        let inner = insert_sorted(entries, x, rest);
        if s.contains(y) && y != x {
            let idx = choose|idx: int| 0 <= idx < s.len() && s[idx] == y;
            if idx == 0 {
                assert(r[0] == y);
                return ;
            }
            assert(rest[idx - 1] == y);
            lemma_insert_sorted_contains(entries, x, rest, y);
        } else {
            lemma_insert_sorted_contains(entries, x, rest, y);
        }
        if inner.contains(y) {
            let j = choose|j: int| 0 <= j < inner.len() && inner[j] == y;
            assert(r[j + 1] == y);
        }
    }
}

proof fn lemma_sort_contains(entries: Seq<Symbol>, s: Seq<Candidate>, y: Candidate)
    requires
        s.contains(y),
    ensures
        sort_cands(entries, s).contains(y),
    decreases s.len(),
{
    let idx = choose|idx: int| 0 <= idx < s.len() && s[idx] == y;
    let rest = s.drop_first();
    if idx == 0 {
        lemma_insert_sorted_contains(entries, s[0], sort_cands(entries, rest), y);
    } else {
        assert(rest[idx - 1] == y);
        lemma_sort_contains(entries, rest, y);
        lemma_insert_sorted_contains(entries, s[0], sort_cands(entries, rest), y);
    }
}

proof fn lemma_matching_contains(
    entries: Seq<Symbol>,
    k: PositionKind,
    prefix: Seq<u8>,
    all_cats: bool,
    j: int,
    i: int,
)
    requires
        entries.len() <= usize::MAX,
        0 <= j <= i < entries.len(),
        spec_match(entries, i, k, prefix, all_cats),
    ensures
        spec_matching_from(entries, k, prefix, all_cats, j).contains(spec_candidate(entries, i)),
    decreases i - j,
{
    let m = spec_matching_from(entries, k, prefix, all_cats, j);
    let rest = spec_matching_from(entries, k, prefix, all_cats, j + 1);
    if j == i {
        assert(m[0] == spec_candidate(entries, i));
    } else {
        lemma_matching_contains(entries, k, prefix, all_cats, j + 1, i);
        let y = spec_candidate(entries, i);
        let idx = choose|idx: int| 0 <= idx < rest.len() && rest[idx] == y;
        if spec_match(entries, j, k, prefix, all_cats) {
            assert(m[idx + 1] == y);
        } else {
            assert(m == rest);
        }
    }
}

/// Completion exhaustiveness after `jet::`: every jet function whose
/// qualified name extends `jet::` followed by the typed prefix appears
/// in the completion list.
pub proof fn lemma_complete_jet_exhaustive(
    entries: Seq<Symbol>,
    text: Seq<u8>,
    cursor: int,
    i: int,
)
    requires
        entries.len() <= usize::MAX,
        spec_ctx_kind(text, spec_tokens(text), cursor) == PositionKind::AfterNs(Ns::Jet),
        0 <= i < entries.len(),
        entries[i].category == Category::JetFunction,
        spec_is_prefix(
            jet_qualified(spec_ctx_prefix(text, spec_tokens(text), cursor)),
            entries[i].name@,
        ),
    ensures
        spec_complete_list(entries, text, cursor).contains(spec_candidate(entries, i)),
{
    let toks = spec_tokens(text);
    let k = spec_ctx_kind(text, toks, cursor);
    let p = spec_ctx_prefix(text, toks, cursor);
    assert(spec_match(entries, i, k, p, false));
    lemma_matching_contains(entries, k, p, false, 0, i);
    lemma_sort_contains(entries, spec_matching_from(entries, k, p, false, 0), spec_candidate(entries, i));
}

/// Ranking law: a completion list is ordered by category priority first
/// and name second.
pub proof fn lemma_complete_ranked(entries: Seq<Symbol>, text: Seq<u8>, cursor: int)
    ensures
        sorted_cands(entries, spec_complete_list(entries, text, cursor)),
{
    let toks = spec_tokens(text);
    let k = spec_ctx_kind(text, toks, cursor);
    let p = spec_ctx_prefix(text, toks, cursor);
    lemma_sort_cands_sorted(entries, spec_matching_from(entries, k, p, false, 0));
}

fn cand_lt_exec(cat: &Catalog, a: Candidate, b: Candidate) -> (r: bool)
    requires
        a.sym < cat@.len(),
        b.sym < cat@.len(),
    ensures
        r == cand_lt(cat@, a, b),
{
    let pa = priority(cat.get(a.sym).category);
    let pb = priority(cat.get(b.sym).category);
    if pb < pa {
        false
    } else if pa < pb {
        true
    } else {
        !lex_le_exec(&cat.get(b.sym).name, &cat.get(a.sym).name)
    }
}

proof fn lemma_insert_at(entries: Seq<Symbol>, x: Candidate, s: Seq<Candidate>, idx: int)
    requires
        0 <= idx <= s.len(),
        forall|k: int| 0 <= k < idx ==> !cand_lt(entries, x, #[trigger] s[k]),
        idx < s.len() ==> cand_lt(entries, x, s[idx]),
    ensures
        insert_sorted(entries, x, s) =~= s.insert(idx, x),
    decreases s.len(),
{
    if s.len() == 0 {
    } else if cand_lt(entries, x, s[0]) {
        assert(idx == 0);
    } else {
        assert(idx > 0);
        let rest = s.drop_first();
        assert(forall|k: int| 0 <= k < rest.len() ==> rest[k] == s[k + 1]);
        lemma_insert_at(entries, x, rest, idx - 1);
        assert(seq![s[0]] + rest.insert(idx - 1, x) =~= s.insert(idx, x));
    }
}

fn insert_candidate(cat: &Catalog, v: Vec<Candidate>, x: Candidate) -> (r: Vec<Candidate>)
    requires
        x.sym < cat@.len(),
        forall|k: int| 0 <= k < v@.len() ==> (#[trigger] v@[k]).sym < cat@.len(),
    ensures
        r@ == insert_sorted(cat@, x, v@),
        forall|k: int| 0 <= k < r@.len() ==> (#[trigger] r@[k]).sym < cat@.len(),
{
    let mut pos: usize = 0;
    while pos < v.len() && !cand_lt_exec(cat, x, v[pos])
        invariant
            pos <= v@.len(),
            x.sym < cat@.len(),
            forall|k: int| 0 <= k < v@.len() ==> (#[trigger] v@[k]).sym < cat@.len(),
            forall|k: int| 0 <= k < pos ==> !cand_lt(cat@, x, #[trigger] v@[k]),
        decreases v@.len() - pos,
    {
        pos = pos + 1;
    }
    let ghost v0 = v@;
    proof {
        lemma_insert_at(cat@, x, v0, pos as int);
    }
    let mut v = v;
    v.insert(pos, x);
    proof {
        assert(v@ =~= insert_sorted(cat@, x, v0));
    }
    v
}

fn sort_candidates(cat: &Catalog, v: &Vec<Candidate>) -> (r: Vec<Candidate>)
    requires
        forall|k: int| 0 <= k < v@.len() ==> (#[trigger] v@[k]).sym < cat@.len(),
    ensures
        r@ == sort_cands(cat@, v@),
{
    let mut out: Vec<Candidate> = Vec::new();
    let mut i: usize = v.len();
    proof {
        assert(v@.skip(v@.len() as int) =~= Seq::<Candidate>::empty());
    }
    while i > 0
        invariant
            i <= v@.len(),
            forall|k: int| 0 <= k < v@.len() ==> (#[trigger] v@[k]).sym < cat@.len(),
            forall|k: int| 0 <= k < out@.len() ==> (#[trigger] out@[k]).sym < cat@.len(),
            out@ == sort_cands(cat@, v@.skip(i as int)),
        decreases i,
    {
        i = i - 1;
        proof {
            let suffix = v@.skip(i as int);
            assert(suffix[0] == v@[i as int]);
            assert(suffix.drop_first() =~= v@.skip(i as int + 1));
        }
        out = insert_candidate(cat, out, v[i]);
    }
    proof {
        assert(v@.skip(0) =~= v@);
    }
    out
}

/// The unsorted matching candidates for a context.
fn matching_candidates(cat: &Catalog, k: PositionKind, prefix: &Vec<u8>, all_cats: bool) -> (r: Vec<
    Candidate,
>)
    ensures
        r@ == spec_matching_from(cat@, k, prefix@, all_cats, 0),
        forall|j: int| 0 <= j < r@.len() ==> (#[trigger] r@[j]).sym < cat@.len(),
{
    let mut eff: Vec<u8> = Vec::new();
    if k == PositionKind::AfterNs(Ns::Jet) {
        eff.push(106);
        eff.push(101);
        eff.push(116);
        eff.push(58);
        eff.push(58);
    }
    let mut i: usize = 0;
    while i < prefix.len()
        invariant
            i <= prefix@.len(),
            eff@ =~= spec_effective_prefix(k, prefix@.subrange(0, i as int)),
        decreases prefix@.len() - i,
    {
        eff.push(prefix[i]);
        proof {
            assert(eff@ =~= spec_effective_prefix(k, prefix@.subrange(0, i + 1)));
        }
        i = i + 1;
    }
    proof {
        assert(prefix@.subrange(0, prefix@.len() as int) =~= prefix@);
    }
    let mut out: Vec<Candidate> = Vec::new();
    let n = cat.len();
    let mut j: usize = 0;
    while j < n
        invariant
            j <= n,
            n == cat@.len(),
            eff@ == spec_effective_prefix(k, prefix@),
            out@ + spec_matching_from(cat@, k, prefix@, all_cats, j as int) =~= spec_matching_from(
                cat@,
                k,
                prefix@,
                all_cats,
                0,
            ),
            forall|m: int| 0 <= m < out@.len() ==> (#[trigger] out@[m]).sym < cat@.len(),
        decreases n - j,
    {
        let el = all_cats || eligible(cat.get(j).category, k);
        let pm = is_prefix(&eff, &cat.get(j).name);
        if el && pm {
            let p = priority(cat.get(j).category);
            let c = Candidate { sym: j, rank: 5 - p };
            proof {
                assert(c == spec_candidate(cat@, j as int));
                assert(spec_matching_from(cat@, k, prefix@, all_cats, j as int) =~= seq![c]
                    + spec_matching_from(cat@, k, prefix@, all_cats, j as int + 1));
            }
            out.push(c);
        } else {
            proof {
                assert(spec_matching_from(cat@, k, prefix@, all_cats, j as int)
                    =~= spec_matching_from(cat@, k, prefix@, all_cats, j as int + 1));
            }
        }
        j = j + 1;
    }
    proof {
        assert(spec_matching_from(cat@, k, prefix@, all_cats, n as int) =~= Seq::<
            Candidate,
        >::empty());
        assert(out@ =~= spec_matching_from(cat@, k, prefix@, all_cats, 0));
    }
    out
}

impl Catalog {
    /// All symbols whose name extends `prefix`, regardless of category,
    /// sorted by (category priority, name).
    pub fn prefix_search(&self, prefix: &Vec<u8>) -> (r: Vec<Candidate>)
        ensures
            r@ == spec_prefix_search(self@, prefix@),
    {
        let m = matching_candidates(self, PositionKind::ValuePos, prefix, true);
        sort_candidates(self, &m)
    }
}

/// Completion over an already classified context.
fn candidates_for(cat: &Catalog, ctx: &Ctx) -> (r: Vec<Candidate>)
    ensures
        r@ == sort_cands(cat@, spec_matching_from(cat@, ctx.kind, ctx.prefix@, false, 0)),
{
    let m = matching_candidates(cat, ctx.kind, &ctx.prefix, false);
    sort_candidates(cat, &m)
}

/// The ranked completion list for a cursor position in `text`.
pub fn complete_in_text(cat: &Catalog, text: &Vec<u8>, toks: &Vec<Token>, cursor: usize) -> (r: Vec<
    Candidate,
>)
    requires
        toks@ == spec_tokens(text@),
        cursor <= text@.len(),
    ensures
        r@ == spec_complete_list(cat@, text@, cursor as int),
{
    let ctx = classify(text, toks, cursor);
    candidates_for(cat, &ctx)
}

/// Serve a completion request against the store.
///
/// Fails with `NotFound` for an untracked uri and with `MalformedInput`
/// for a cursor offset beyond the end of the text; an empty candidate
/// list is a successful, ordinary outcome.  The result is a function of
/// the store, the catalog, the uri and the cursor alone, so repeating the
/// query without an intervening mutation provably returns the same list.
pub fn complete(store: &DocStore, cat: &Catalog, uri: &Vec<u8>, cursor: usize) -> (r: Result<
    Vec<Candidate>,
    Error,
>)
    requires
        store.wf(),
    ensures
        match r {
            Result::Ok(cs) => ({
                let i = find_doc(store@, uri@);
                &&& i >= 0
                &&& cursor <= store@[i].text.len()
                &&& cs@ == spec_complete_list(cat@, store@[i].text, cursor as int)
            }),
            Result::Err(e) => ({
                let i = find_doc(store@, uri@);
                if i < 0 {
                    e == Error::NotFound
                } else {
                    e == Error::MalformedInput && cursor > store@[i].text.len()
                }
            }),
        },
{
    match store.get(uri) {
        Option::None => Result::Err(Error::NotFound),
        Option::Some(d) => {
            if cursor > d.text().len() {
                return Result::Err(Error::MalformedInput);
            }
            match store.doc_tokens(uri) {
                Option::Some(toks) => Result::Ok(complete_in_text(cat, d.text(), &toks, cursor)),
                Option::None => {
                    proof {
                        assert(false);
                    }
                    Result::Err(Error::NotFound)
                },
            }
        },
    }
}

/// The description the hover resolver shows at `cursor`, if any.
///
/// The token under the cursor must be an identifier or keyword; a
/// namespace-qualified spelling (`ns::name`, with the three tokens
/// adjacent) is looked up whole first, the bare name second.  Literals,
/// punctuation and whitespace never resolve: the miss is an ordinary
/// empty result.
pub open spec fn spec_hover(entries: Seq<Symbol>, text: Seq<u8>, cursor: int) -> Option<Seq<u8>> {
    let toks = spec_tokens(text);
    let ti = crate::classify::find_tok_from(toks, 0, cursor + 1);
    if ti < 0 {
        Option::None
    } else {
        let t = toks[ti];
        if t.kind != crate::lexer::TokenKind::Ident && t.kind != crate::lexer::TokenKind::Keyword {
            Option::None
        } else {
            let qi = if ti >= 2 && toks[ti - 1].kind == crate::lexer::TokenKind::NsSep && toks[ti
                - 2].kind == crate::lexer::TokenKind::Ident {
                crate::symbols::spec_find_index(
                    entries,
                    text.subrange(toks[ti - 2].start as int, t.end as int),
                )
            } else {
                -1
            };
            if qi >= 0 {
                Option::Some(entries[qi].description@)
            } else {
                let bi = crate::symbols::spec_find_index(
                    entries,
                    text.subrange(t.start as int, t.end as int),
                );
                if bi >= 0 {
                    Option::Some(entries[bi].description@)
                } else {
                    Option::None
                }
            }
        }
    }
}

/// Keyword hover law: hovering a token that spells the keyword `fn`,
/// not namespace-qualified, in any document, yields the catalog
/// description of `fn` -- `function keyword`.
pub proof fn lemma_hover_fn_keyword(entries: Seq<Symbol>, text: Seq<u8>, cursor: int)
    requires
        crate::symbols::is_spec_catalog(entries),
        ({
            let toks = spec_tokens(text);
            let ti = crate::classify::find_tok_from(toks, 0, cursor + 1);
            &&& ti >= 0
            &&& toks[ti].kind == crate::lexer::TokenKind::Keyword
            &&& text.subrange(toks[ti].start as int, toks[ti].end as int) =~= "fn".spec_bytes()
            &&& !(ti >= 2 && toks[ti - 1].kind == crate::lexer::TokenKind::NsSep && toks[ti
                - 2].kind == crate::lexer::TokenKind::Ident)
        }),
    ensures
        spec_hover(entries, text, cursor) == Option::Some("function keyword".spec_bytes()),
{
    crate::symbols::lemma_catalog_keywords(entries);
    let toks = spec_tokens(text);
    let ti = crate::classify::find_tok_from(toks, 0, cursor + 1);
    let name = text.subrange(toks[ti].start as int, toks[ti].end as int);
    assert(crate::symbols::spec_find_index(entries, name) == 1);
    assert(entries[1].description@ == crate::symbols::spec_catalog()[1].description);
    assert(crate::symbols::spec_catalog()[1].description == "function keyword".spec_bytes());
}

/// Literal hover law: when the token under the cursor is not an
/// identifier or keyword -- a numeric or hex literal, punctuation,
/// whitespace -- or no token is under it, the hover is an ordinary miss.
pub proof fn lemma_hover_literal_misses(entries: Seq<Symbol>, text: Seq<u8>, cursor: int)
    requires
        ({
            let toks = spec_tokens(text);
            let ti = crate::classify::find_tok_from(toks, 0, cursor + 1);
            ti >= 0 ==> !(toks[ti].kind == crate::lexer::TokenKind::Ident || toks[ti].kind
                == crate::lexer::TokenKind::Keyword)
        }),
    ensures
        spec_hover(entries, text, cursor) is None,
{
}

fn find_tok_strict(toks: &Vec<Token>, cursor: usize) -> (r: Option<usize>)
    ensures
        match r {
            Option::Some(k) => k < toks@.len() && crate::classify::find_tok_from(
                toks@,
                0,
                cursor as int + 1,
            ) == k,
            Option::None => crate::classify::find_tok_from(toks@, 0, cursor as int + 1) < 0,
        },
{
    let mut i: usize = 0;
    while i < toks.len()
        invariant
            i <= toks@.len(),
            crate::classify::find_tok_from(toks@, 0, cursor as int + 1)
                == crate::classify::find_tok_from(toks@, i as int, cursor as int + 1),
        decreases toks@.len() - i,
    {
        if cursor < toks[i].end {
            return Option::Some(i);
        }
        i = i + 1;
    }
    Option::None
}

/// Exact-name lookup that hands back a copy of the description.
fn lookup_description(cat: &Catalog, name: &Vec<u8>) -> (r: Option<Vec<u8>>)
    ensures
        match r {
            Option::Some(d) => ({
                let i = crate::symbols::spec_find_index(cat@, name@);
                i >= 0 && d@ == cat@[i].description@
            }),
            Option::None => crate::symbols::spec_find_index(cat@, name@) < 0,
        },
{
    match cat.lookup_by_name(name) {
        Option::Some(s) => {
            let d = crate::bytestr::copy_range(&s.description, 0, s.description.len());
            proof {
                assert(d@ =~= s.description@);
            }
            Option::Some(d)
        },
        Option::None => Option::None,
    }
}

/// The rendered hover description at a cursor position in `text`.
#[verifier::rlimit(100)]
#[verifier::spinoff_prover]
pub fn hover_in_text(cat: &Catalog, text: &Vec<u8>, toks: &Vec<Token>, cursor: usize) -> (r: Option<
    Vec<u8>,
>)
    requires
        toks@ == spec_tokens(text@),
    ensures
        match r {
            Option::Some(d) => spec_hover(cat@, text@, cursor as int) == Option::Some(d@),
            Option::None => spec_hover(cat@, text@, cursor as int) is None,
        },
{
    let n = text.len();
    proof {
        crate::classify::lemma_spec_tokens_wf(text@, 0);
        crate::classify::lemma_spec_tokens_contiguous(text@, 0);
    }
    let ghost goal = spec_hover(cat@, text@, cursor as int);
    match find_tok_strict(toks, cursor) {
        Option::None => {
            proof {
                assert(goal is None);
            }
            Option::None
        },
        Option::Some(ti) => {
            let t = toks[ti];
            if !(t.kind == crate::lexer::TokenKind::Ident || t.kind
                == crate::lexer::TokenKind::Keyword) {
                proof {
                    assert(goal is None);
                }
                return Option::None;
            }
            let qualified = ti >= 2 && toks[ti - 1].kind == crate::lexer::TokenKind::NsSep
                && toks[ti - 2].kind == crate::lexer::TokenKind::Ident;
            if qualified {
                proof {
                    assert(toks@[ti - 2].end == toks@[ti - 1].start);
                    assert(toks@[ti - 1].end == toks@[ti as int].start);
                }
                let full = crate::bytestr::copy_range(text, toks[ti - 2].start, t.end);
                match lookup_description(cat, &full) {
                    Option::Some(d) => {
                        proof {
                            assert(goal == Option::Some(d@));
                        }
                        return Option::Some(d);
                    },
                    Option::None => {},
                }
            }
            let bare = crate::bytestr::copy_range(text, t.start, t.end);
            match lookup_description(cat, &bare) {
                Option::Some(d) => {
                    proof {
                        assert(goal == Option::Some(d@));
                    }
                    Option::Some(d)
                },
                Option::None => {
                    proof {
                        assert(goal is None);
                    }
                    Option::None
                },
            }
        },
    }
}

/// Serve a hover request against the store.
///
/// Fails with `NotFound` for an untracked uri and with `MalformedInput`
/// for a cursor offset beyond the end of the text; a hover miss is the
/// successful `Ok(None)`, never an error.
pub fn hover(store: &DocStore, cat: &Catalog, uri: &Vec<u8>, cursor: usize) -> (r: Result<
    Option<Vec<u8>>,
    Error,
>)
    requires
        store.wf(),
    ensures
        match r {
            Result::Ok(h) => ({
                let i = find_doc(store@, uri@);
                &&& i >= 0
                &&& cursor <= store@[i].text.len()
                &&& match h {
                    Option::Some(d) => spec_hover(cat@, store@[i].text, cursor as int)
                        == Option::Some(d@),
                    Option::None => spec_hover(cat@, store@[i].text, cursor as int) is None,
                }
            }),
            Result::Err(e) => ({
                let i = find_doc(store@, uri@);
                if i < 0 {
                    e == Error::NotFound
                } else {
                    e == Error::MalformedInput && cursor > store@[i].text.len()
                }
            }),
        },
{
    match store.get(uri) {
        Option::None => Result::Err(Error::NotFound),
        Option::Some(d) => {
            if cursor > d.text().len() {
                return Result::Err(Error::MalformedInput);
            }
            match store.doc_tokens(uri) {
                Option::Some(toks) => Result::Ok(hover_in_text(cat, d.text(), &toks, cursor)),
                Option::None => {
                    proof {
                        assert(false);
                    }
                    Result::Err(Error::NotFound)
                },
            }
        },
    }
}

} // verus!
