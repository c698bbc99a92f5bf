//! The document store: one [`Doc`] per open uri, mutated only by the four
//! synchronization events (open, full replace, incremental edit, close).
//!
//! The store's well-formedness invariant ties the cached token sequence of
//! every document to a full tokenization of its current text, so a query
//! served from the cache is provably identical to one served by lexing
//! from scratch.

use vstd::prelude::*;
use crate::Error;
use crate::lexer::Token;
use crate::lexer::spec_tokens;
use crate::lexer::tokenize;

verus! {

/// Abstract state of one tracked document.
pub struct DocView {
    pub uri: Seq<u8>,
    pub version: u64,
    pub text: Seq<u8>,
}

/// One tracked document.
pub struct Doc {
    pub uri: Vec<u8>,
    pub version: u64,
    pub text: Vec<u8>,
    /// Derived token sequence, rebuilt or dropped on every mutation.
    pub(crate) cache: Option<Vec<Token>>,
}

impl View for Doc {
    type V = DocView;

    closed spec fn view(&self) -> DocView {
        DocView { uri: self.uri@, version: self.version, text: self.text@ }
    }
}

impl Doc {
    /// The current text.
    pub fn text(&self) -> (t: &Vec<u8>)
        ensures
            t@ == self@.text,
    {
        &self.text
    }

    /// The current version.
    pub fn version(&self) -> (v: u64)
        ensures
            v == self@.version,
    {
        self.version
    }

    /// The cache, when present, holds exactly the tokens of the text.
    pub closed spec fn cache_ok(&self) -> bool {
        match self.cache {
            Option::Some(c) => c@ == spec_tokens(self.text@),
            Option::None => true,
        }
    }
}

/// Index of the document tracking `uri`, or `-1`.
pub open spec fn find_doc(docs: Seq<DocView>, uri: Seq<u8>) -> int
    decreases docs.len(),
{
    if docs.len() == 0 {
        -1
    } else if docs[0].uri =~= uri {
        0
    } else {
        let r = find_doc(docs.drop_first(), uri);
        if r < 0 {
            -1
        } else {
            1 + r
        }
    }
}

proof fn lemma_find_doc_found(docs: Seq<DocView>, uri: Seq<u8>, i: int)
    requires
        0 <= i < docs.len(),
        docs[i].uri =~= uri,
        forall|k: int| 0 <= k < i ==> !(#[trigger] docs[k].uri =~= uri),
    ensures
        find_doc(docs, uri) == i,
    decreases i,
{
    if i > 0 {
        assert(!(docs[0].uri =~= uri));
        lemma_find_doc_found(docs.drop_first(), uri, i - 1);
    }
}

proof fn lemma_find_doc_none(docs: Seq<DocView>, uri: Seq<u8>)
    requires
        forall|k: int| 0 <= k < docs.len() ==> !(#[trigger] docs[k].uri =~= uri),
    ensures
        find_doc(docs, uri) < 0,
    decreases docs.len(),
{
    if docs.len() > 0 {
        assert(!(docs[0].uri =~= uri));
        lemma_find_doc_none(docs.drop_first(), uri);
    }
}

/// The next version after an accepted mutation.  The counter saturates at
/// `u64::MAX` instead of wrapping, so it never decreases.
pub open spec fn spec_bump(v: u64) -> u64 {
    if v < u64::MAX {
        (v + 1) as u64
    } else {
        v
    }
}

/// The document after one accepted full replace: same uri, the new
/// text, the bumped version.
pub open spec fn spec_apply_full(d: DocView, t: Seq<u8>) -> DocView {
    DocView { uri: d.uri, version: spec_bump(d.version), text: t }
}

/// The document after a whole sequence of accepted full replaces.
pub open spec fn spec_apply_fulls(d: DocView, ts: Seq<Seq<u8>>) -> DocView
    decreases ts.len(),
{
    if ts.len() == 0 {
        d
    } else {
        spec_apply_fulls(spec_apply_full(d, ts[0]), ts.drop_first())
    }
}

/// Synchronization law: after any sequence of accepted full replaces the
/// text is exactly the last text applied, the version has grown by
/// exactly one per change, and the uri is untouched.  (A document whose
/// version counter would pass `u64::MAX` saturates instead and is left
/// out here.)
pub proof fn lemma_full_changes(d: DocView, ts: Seq<Seq<u8>>)
    requires
        ts.len() >= 1,
        d.version + ts.len() <= u64::MAX,
    ensures
        spec_apply_fulls(d, ts).text =~= ts.last(),
        spec_apply_fulls(d, ts).version == d.version + ts.len(),
        spec_apply_fulls(d, ts).uri =~= d.uri,
    decreases ts.len(),
{
    if ts.len() == 1 {
        assert(ts.drop_first().len() == 0);
        assert(spec_apply_fulls(d, ts) == spec_apply_fulls(spec_apply_full(d, ts[0]), ts.drop_first()));
        assert(spec_apply_fulls(d, ts) == spec_apply_full(d, ts[0]));
        assert(ts.last() == ts[0]);
    } else {
        lemma_full_changes(spec_apply_full(d, ts[0]), ts.drop_first());
        assert(ts.drop_first().last() == ts.last());
    }
}

/// The version counter never decreases, whatever the length of the
/// change sequence; below the saturation point [`lemma_full_changes`]
/// sharpens this to exactly one step per accepted change.
pub proof fn lemma_version_never_decreases(d: DocView, ts: Seq<Seq<u8>>)
    ensures
        spec_apply_fulls(d, ts).version >= d.version,
    decreases ts.len(),
{
    if ts.len() > 0 {
        lemma_version_never_decreases(spec_apply_full(d, ts[0]), ts.drop_first());
    }
}

/// `text` with the byte range `[start, end)` replaced by `patch`.
pub open spec fn spec_splice(text: Seq<u8>, start: int, end: int, patch: Seq<u8>) -> Seq<u8> {
    text.subrange(0, start) + patch + text.subrange(end, text.len() as int)
}

/// The document store.
pub struct DocStore {
    docs: Vec<Doc>,
}

impl View for DocStore {
    type V = Seq<DocView>;

    closed spec fn view(&self) -> Seq<DocView> {
        Seq::new(self.docs@.len(), |i: int| self.docs@[i]@)
    }
}

impl DocStore {
    /// Tracked uris are pairwise distinct and every token cache is honest.
    pub closed spec fn wf(&self) -> bool {
        &&& forall|i: int, j: int|
            0 <= i < j < self.docs@.len() ==> !(#[trigger] self.docs@[i].uri@
                =~= #[trigger] self.docs@[j].uri@)
        &&& forall|i: int| 0 <= i < self.docs@.len() ==> (#[trigger] self.docs@[i]).cache_ok()
    }

    /// An empty store: no document is tracked.
    pub fn new() -> (s: DocStore)
        ensures
            s.wf(),
            s@ =~= Seq::<DocView>::empty(),
    {
        DocStore { docs: Vec::new() }
    }

    /// How many documents are tracked.
    pub fn doc_count(&self) -> (n: usize)
        ensures
            n == self@.len(),
    {
        self.docs.len()
    }

    fn find_index(&self, uri: &Vec<u8>) -> (r: Option<usize>)
        ensures
            match r {
                Option::Some(i) => i < self@.len() && find_doc(self@, uri@) == i,
                Option::None => find_doc(self@, uri@) < 0 && forall|k: int|
                    0 <= k < self@.len() ==> !(#[trigger] self@[k].uri =~= uri@),
            },
    {
        let mut i: usize = 0;
        while i < self.docs.len()
            invariant
                i <= self@.len(),
                self@.len() == self.docs@.len(),
                forall|k: int| 0 <= k < i ==> !(#[trigger] self@[k].uri =~= uri@),
            decreases self@.len() - i,
        {
            if crate::bytestr::bytes_eq(&self.docs[i].uri, uri) {
                proof {
                    lemma_find_doc_found(self@, uri@, i as int);
                }
                return Option::Some(i);
            }
            i = i + 1;
        }
        proof {
            lemma_find_doc_none(self@, uri@);
        }
        Option::None
    }

    /// Start tracking `uri` with `text` at version 1.
    ///
    /// Fails with `AlreadyOpen`, leaving the store unchanged, when the uri
    /// is already tracked.
    pub fn open(&mut self, uri: Vec<u8>, text: Vec<u8>) -> (r: Result<(), Error>)
        requires
            old(self).wf(),
        ensures
            final(self).wf(),
            match r {
                Result::Ok(()) => find_doc(old(self)@, uri@) < 0 && final(self)@ =~= old(self)@.push(
                    DocView { uri: uri@, version: 1, text: text@ },
                ),
                Result::Err(e) => e == Error::AlreadyOpen && find_doc(old(self)@, uri@) >= 0
                    && final(self)@ =~= old(self)@,
            },
    {
        match self.find_index(&uri) {
            Option::Some(_) => Result::Err(Error::AlreadyOpen),
            Option::None => {
                let ghost u = uri@;
                let ghost t = text@;
                self.docs.push(Doc { uri, version: 1, text, cache: Option::None });
                proof {
                    let docs = self.docs@;
                    let n = docs.len() as int;
                    assert(docs[n - 1].cache_ok());
                    assert(self@ =~= old(self)@.push(DocView { uri: u, version: 1, text: t }));
                    assert forall|i: int, j: int|
                        0 <= i < j < n implies !(docs[i].uri@ =~= docs[j].uri@) by {
                        if j == n - 1 {
                            assert(!(old(self)@[i].uri =~= u));
                            assert(old(self)@[i].uri == docs[i].uri@);
                        } else {
                            assert(old(self).docs@[i] == docs[i]);
                            assert(old(self).docs@[j] == docs[j]);
                        }
                    }
                }
                Result::Ok(())
            },
        }
    }

    /// Replace the whole text of `uri`, drop its token cache, and bump the
    /// version.  Fails with `NotFound`, leaving the store unchanged, when
    /// the uri is not tracked.
    pub fn apply_full_change(&mut self, uri: &Vec<u8>, new_text: Vec<u8>) -> (r: Result<u64, Error>)
        requires
            old(self).wf(),
        ensures
            final(self).wf(),
            match r {
                Result::Ok(v) => ({
                    let i = find_doc(old(self)@, uri@);
                    &&& i >= 0
                    &&& v == spec_bump(old(self)@[i].version)
                    &&& final(self)@ =~= old(self)@.update(
                        i,
                        spec_apply_full(old(self)@[i], new_text@),
                    )
                }),
                Result::Err(e) => e == Error::NotFound && find_doc(old(self)@, uri@) < 0 && final(self)@
                    =~= old(self)@,
            },
    {
        match self.find_index(uri) {
            Option::None => Result::Err(Error::NotFound),
            Option::Some(i) => {
                let mut d = self.docs.remove(i);
                let v = if d.version < u64::MAX {
                    d.version + 1
                } else {
                    d.version
                };
                d.version = v;
                d.text = new_text;
                d.cache = Option::None;
                self.docs.insert(i, d);
                Result::Ok(v)
            },
        }
    }

    /// Splice `patch` into the byte range `[start, end)` of the text of
    /// `uri`, re-tokenize, and bump the version.
    ///
    /// Fails with `NotFound` when the uri is not tracked and with
    /// `InvalidRange` when the range does not lie within the current text;
    /// either way the store is unchanged.  On success the refreshed token
    /// cache provably equals a full tokenization of the new text (see
    /// [`DocStore::wf`]), so the incremental path cannot drift from a
    /// from-scratch one.
    pub fn apply_incremental_change(
        &mut self,
        uri: &Vec<u8>,
        start: usize,
        end: usize,
        patch: &Vec<u8>,
    ) -> (r: Result<u64, Error>)
        requires
            old(self).wf(),
        ensures
            final(self).wf(),
            match r {
                Result::Ok(v) => ({
                    let i = find_doc(old(self)@, uri@);
                    &&& i >= 0
                    &&& start <= end <= old(self)@[i].text.len()
                    &&& v == spec_bump(old(self)@[i].version)
                    &&& final(self)@ =~= old(self)@.update(
                        i,
                        DocView {
                            uri: old(self)@[i].uri,
                            version: v,
                            text: spec_splice(old(self)@[i].text, start as int, end as int, patch@),
                        },
                    )
                }),
                Result::Err(e) => final(self)@ =~= old(self)@ && ({
                    let i = find_doc(old(self)@, uri@);
                    if i < 0 {
                        e == Error::NotFound
                    } else {
                        e == Error::InvalidRange && !(start <= end <= old(self)@[i].text.len())
                    }
                }),
            },
    {
        match self.find_index(uri) {
            Option::None => Result::Err(Error::NotFound),
            Option::Some(i) => {
                if !(start <= end && end <= self.docs[i].text.len()) {
                    return Result::Err(Error::InvalidRange);
                }
                let mut d = self.docs.remove(i);
                let new_text = splice(&d.text, start, end, patch);
                let toks = tokenize(&new_text);
                let v = if d.version < u64::MAX {
                    d.version + 1
                } else {
                    d.version
                };
                d.version = v;
                d.text = new_text;
                d.cache = Option::Some(toks);
                self.docs.insert(i, d);
                Result::Ok(v)
            },
        }
    }

    /// Stop tracking `uri` and drop all its state.  Fails with `NotFound`,
    /// leaving the store unchanged, when the uri is not tracked.
    pub fn close(&mut self, uri: &Vec<u8>) -> (r: Result<(), Error>)
        requires
            old(self).wf(),
        ensures
            final(self).wf(),
            match r {
                Result::Ok(()) => ({
                    let i = find_doc(old(self)@, uri@);
                    i >= 0 && final(self)@ =~= old(self)@.remove(i)
                }),
                Result::Err(e) => e == Error::NotFound && find_doc(old(self)@, uri@) < 0 && final(self)@
                    =~= old(self)@,
            },
    {
        match self.find_index(uri) {
            Option::None => Result::Err(Error::NotFound),
            Option::Some(i) => {
                let _ = self.docs.remove(i);
                Result::Ok(())
            },
        }
    }

    /// Read-only snapshot of the document tracking `uri`.
    pub fn get(&self, uri: &Vec<u8>) -> (r: Option<&Doc>)
        ensures
            match r {
                Option::Some(d) => ({
                    let i = find_doc(self@, uri@);
                    i >= 0 && d@ == self@[i]
                }),
                Option::None => find_doc(self@, uri@) < 0,
            },
    {
        match self.find_index(uri) {
            Option::None => Option::None,
            Option::Some(i) => Option::Some(&self.docs[i]),
        }
    }

    /// The tokens of the document tracking `uri`: the cached sequence when
    /// one is present, otherwise a fresh tokenization — provably the same
    /// thing.
    pub fn doc_tokens(&self, uri: &Vec<u8>) -> (r: Option<Vec<Token>>)
        requires
            self.wf(),
        ensures
            match r {
                Option::Some(toks) => ({
                    let i = find_doc(self@, uri@);
                    i >= 0 && toks@ == spec_tokens(self@[i].text)
                }),
                Option::None => find_doc(self@, uri@) < 0,
            },
    {
        match self.find_index(uri) {
            Option::None => Option::None,
            Option::Some(i) => {
                match &self.docs[i].cache {
                    Option::Some(c) => Option::Some(copied_tokens(c)),
                    Option::None => Option::Some(tokenize(&self.docs[i].text)),
                }
            },
        }
    }
}

/// `text` with `[start, end)` replaced by `patch`, as a fresh vector.
pub fn splice(text: &Vec<u8>, start: usize, end: usize, patch: &Vec<u8>) -> (r: Vec<u8>)
    requires
        start <= end <= text@.len(),
    ensures
        r@ == spec_splice(text@, start as int, end as int, patch@),
{
    let mut r = crate::bytestr::copy_range(text, 0, start);
    let mut i: usize = 0;
    while i < patch.len()
        invariant
            start <= end <= text@.len(),
            i <= patch@.len(),
            r@ =~= text@.subrange(0, start as int) + patch@.subrange(0, i as int),
        decreases patch@.len() - i,
    {
        r.push(patch[i]);
        proof {
            assert(r@ =~= text@.subrange(0, start as int) + patch@.subrange(0, i + 1));
        }
        i = i + 1;
    }
    let mut j: usize = end;
    while j < text.len()
        invariant
            start <= end <= j <= text@.len(),
            i == patch@.len(),
            r@ =~= text@.subrange(0, start as int) + patch@ + text@.subrange(end as int, j as int),
        decreases text@.len() - j,
    {
        r.push(text[j]);
        proof {
            assert(r@ =~= text@.subrange(0, start as int) + patch@ + text@.subrange(
                end as int,
                j + 1,
            ));
        }
        j = j + 1;
    }
    proof {
        assert(patch@.subrange(0, patch@.len() as int) =~= patch@);
        assert(r@ =~= spec_splice(text@, start as int, end as int, patch@));
    }
    r
}

fn copied_tokens(c: &Vec<Token>) -> (r: Vec<Token>)
    ensures
        r@ == c@,
{
    let mut r: Vec<Token> = Vec::new();
    let mut i: usize = 0;
    while i < c.len()
        invariant
            i <= c@.len(),
            r@ =~= c@.subrange(0, i as int),
        decreases c@.len() - i,
    {
        r.push(c[i]);
        proof {
            assert(r@ =~= c@.subrange(0, i + 1));
        }
        i = i + 1;
    }
    proof {
        assert(r@ =~= c@);
    }
    r
}

} // verus!
