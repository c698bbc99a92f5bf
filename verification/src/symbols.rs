//! The frozen symbol catalog: every keyword, built-in type, jet function,
//! literal pattern, snippet and common identifier of the language, each
//! with a category and a human-readable description.
//!
//! The catalog is built once, deterministically, and never changes
//! afterwards: no method takes `&mut self`.

use vstd::prelude::*;
use vstd::string::StrSliceExecFns;
use vstd::string::StringSliceAdditionalSpecFns;
use vstd::string::is_ascii;

verus! {

/// What kind of symbol a catalog entry is.  The category decides in which
/// cursor contexts the symbol may be offered and its rank among matches.
#[derive(Clone, Copy, Debug, PartialEq, Eq, Structural)]
pub enum Category {
    Keyword,
    TypeName,
    JetFunction,
    LiteralPattern,
    Snippet,
    CommonIdent,
}

/// Ranking priority of a category: lower ranks first when prefixes tie.
pub open spec fn spec_priority(c: Category) -> u64 {
    match c {
        Category::Keyword => 0,
        Category::TypeName => 1,
        Category::JetFunction => 2,
        Category::LiteralPattern => 3,
        Category::Snippet => 4,
        Category::CommonIdent => 5,
    }
}

/// Executable twin of [`spec_priority`].
pub fn priority(c: Category) -> (r: u64)
    ensures
        r == spec_priority(c),
{
    match c {
        Category::Keyword => 0,
        Category::TypeName => 1,
        Category::JetFunction => 2,
        Category::LiteralPattern => 3,
        Category::Snippet => 4,
        Category::CommonIdent => 5,
    }
}

/// One catalog entry.
#[derive(Debug)]
pub struct Symbol {
    /// Unique name within the category (jet functions carry their
    /// namespace-qualified `jet::...` spelling).
    pub name: Vec<u8>,
    pub category: Category,
    /// Short human-readable description, rendered on hover.
    pub description: Vec<u8>,
}

/// Index of the first entry whose name is exactly `name`, or `-1`.
pub open spec fn spec_find_index(entries: Seq<Symbol>, name: Seq<u8>) -> int
    decreases entries.len(),
{
    if entries.len() == 0 {
        -1
    } else if entries[0].name@ =~= name {
        0
    } else {
        let r = spec_find_index(entries.drop_first(), name);
        if r < 0 {
            -1
        } else {
            1 + r
        }
    }
}

/// One row of the catalog's specification-level table.
pub struct SymbolData {
    pub name: Seq<u8>,
    pub category: Category,
    pub description: Seq<u8>,
}

/// An executable catalog entry carries exactly the data of a table row.
pub open spec fn symbol_matches(s: Symbol, d: SymbolData) -> bool {
    s.name@ == d.name && s.category == d.category && s.description@ == d.description
}

/// The catalog holds exactly the rows of [`spec_catalog`], in order.
pub open spec fn is_spec_catalog(entries: Seq<Symbol>) -> bool {
    &&& entries.len() == spec_catalog().len()
    &&& forall|i: int| 0 <= i < entries.len() ==> symbol_matches(#[trigger] entries[i], spec_catalog()[i])
}

/// Row `i` of the catalog's specification-level table.
pub open spec fn spec_catalog_row(i: int) -> SymbolData {
    if i == 0 {
        SymbolData {
            name: "const".spec_bytes(),
            category: Category::Keyword,
            description: "variable keyword".spec_bytes(),
        }
    } else if i == 1 {
        SymbolData {
            name: "fn".spec_bytes(),
            category: Category::Keyword,
            description: "function keyword".spec_bytes(),
        }
    } else if i == 2 {
        SymbolData {
            name: "let".spec_bytes(),
            category: Category::Keyword,
            description: "variable keyword".spec_bytes(),
        }
    } else if i == 3 {
        SymbolData {
            name: "mod".spec_bytes(),
            category: Category::Keyword,
            description: "module keyword".spec_bytes(),
        }
    } else if i == 4 {
        SymbolData {
            name: "match".spec_bytes(),
            category: Category::Keyword,
            description: "pattern matching keyword".spec_bytes(),
        }
    } else if i == 5 {
        SymbolData {
            name: "assert!".spec_bytes(),
            category: Category::Snippet,
            description: "assertion macro".spec_bytes(),
        }
    } else if i == 6 {
        SymbolData {
            name: "main".spec_bytes(),
            category: Category::CommonIdent,
            description: "main function".spec_bytes(),
        }
    } else if i == 7 {
        SymbolData {
            name: "Left".spec_bytes(),
            category: Category::LiteralPattern,
            description: "Either left variant".spec_bytes(),
        }
    } else if i == 8 {
        SymbolData {
            name: "Right".spec_bytes(),
            category: Category::LiteralPattern,
            description: "Either right variant".spec_bytes(),
        }
    } else if i == 9 {
        SymbolData {
            name: "Some".spec_bytes(),
            category: Category::LiteralPattern,
            description: "Option some variant".spec_bytes(),
        }
    } else if i == 10 {
        SymbolData {
            name: "None".spec_bytes(),
            category: Category::LiteralPattern,
            description: "Option none variant".spec_bytes(),
        }
    } else if i == 11 {
        SymbolData {
            name: "u256".spec_bytes(),
            category: Category::TypeName,
            description: "256-bit unsigned integer type".spec_bytes(),
        }
    } else if i == 12 {
        SymbolData {
            name: "u128".spec_bytes(),
            category: Category::TypeName,
            description: "128-bit unsigned integer type".spec_bytes(),
        }
    } else if i == 13 {
        SymbolData {
            name: "u64".spec_bytes(),
            category: Category::TypeName,
            description: "64-bit unsigned integer type".spec_bytes(),
        }
    } else if i == 14 {
        SymbolData {
            name: "u32".spec_bytes(),
            category: Category::TypeName,
            description: "32-bit unsigned integer type".spec_bytes(),
        }
    } else if i == 15 {
        SymbolData {
            name: "u16".spec_bytes(),
            category: Category::TypeName,
            description: "16-bit unsigned integer type".spec_bytes(),
        }
    } else if i == 16 {
        SymbolData {
            name: "u8".spec_bytes(),
            category: Category::TypeName,
            description: "8-bit unsigned integer type".spec_bytes(),
        }
    } else if i == 17 {
        SymbolData {
            name: "Either".spec_bytes(),
            category: Category::TypeName,
            description: "Either type for sum types".spec_bytes(),
        }
    } else if i == 18 {
        SymbolData {
            name: "Option".spec_bytes(),
            category: Category::TypeName,
            description: "Option type for nullable values".spec_bytes(),
        }
    } else if i == 19 {
        SymbolData {
            name: "Pubkey".spec_bytes(),
            category: Category::TypeName,
            description: "Bitcoin public key type".spec_bytes(),
        }
    } else if i == 20 {
        SymbolData {
            name: "Signature".spec_bytes(),
            category: Category::TypeName,
            description: "Digital signature type".spec_bytes(),
        }
    } else if i == 21 {
        SymbolData {
            name: "Ctx8".spec_bytes(),
            category: Category::TypeName,
            description: "SHA-256 context type".spec_bytes(),
        }
    } else if i == 22 {
        SymbolData {
            name: "Height".spec_bytes(),
            category: Category::TypeName,
            description: "Block height type".spec_bytes(),
        }
    } else if i == 23 {
        SymbolData {
            name: "jet::sha_256_ctx_8_init".spec_bytes(),
            category: Category::JetFunction,
            description: "Initialize SHA-256 context".spec_bytes(),
        }
    } else if i == 24 {
        SymbolData {
            name: "jet::sha_256_ctx_8_add_32".spec_bytes(),
            category: Category::JetFunction,
            description: "Add 32 bytes to SHA-256 context".spec_bytes(),
        }
    } else if i == 25 {
        SymbolData {
            name: "jet::sha_256_ctx_8_finalize".spec_bytes(),
            category: Category::JetFunction,
            description: "Finalize SHA-256 hash".spec_bytes(),
        }
    } else if i == 26 {
        SymbolData {
            name: "jet::bip_0340_verify".spec_bytes(),
            category: Category::JetFunction,
            description: "Verify BIP-340 Schnorr signature".spec_bytes(),
        }
    } else if i == 27 {
        SymbolData {
            name: "jet::sig_all_hash".spec_bytes(),
            category: Category::JetFunction,
            description: "Get signature hash for all inputs".spec_bytes(),
        }
    } else if i == 28 {
        SymbolData {
            name: "jet::eq_256".spec_bytes(),
            category: Category::JetFunction,
            description: "Compare two 256-bit values for equality".spec_bytes(),
        }
    } else if i == 29 {
        SymbolData {
            name: "jet::eq_128".spec_bytes(),
            category: Category::JetFunction,
            description: "Compare two 128-bit values for equality".spec_bytes(),
        }
    } else if i == 30 {
        SymbolData {
            name: "jet::eq_64".spec_bytes(),
            category: Category::JetFunction,
            description: "Compare two 64-bit values for equality".spec_bytes(),
        }
    } else if i == 31 {
        SymbolData {
            name: "jet::eq_32".spec_bytes(),
            category: Category::JetFunction,
            description: "Compare two 32-bit values for equality".spec_bytes(),
        }
    } else if i == 32 {
        SymbolData {
            name: "jet::eq_16".spec_bytes(),
            category: Category::JetFunction,
            description: "Compare two 16-bit values for equality".spec_bytes(),
        }
    } else if i == 33 {
        SymbolData {
            name: "jet::eq_8".spec_bytes(),
            category: Category::JetFunction,
            description: "Compare two 8-bit values for equality".spec_bytes(),
        }
    } else if i == 34 {
        SymbolData {
            name: "jet::check_lock_height".spec_bytes(),
            category: Category::JetFunction,
            description: "Check if height lock is satisfied".spec_bytes(),
        }
    } else if i == 35 {
        SymbolData {
            name: "jet::check_lock_time".spec_bytes(),
            category: Category::JetFunction,
            description: "Check if time lock is satisfied".spec_bytes(),
        }
    } else if i == 36 {
        SymbolData {
            name: "jet::current_index".spec_bytes(),
            category: Category::JetFunction,
            description: "Get current input index".spec_bytes(),
        }
    } else if i == 37 {
        SymbolData {
            name: "jet::current_amount".spec_bytes(),
            category: Category::JetFunction,
            description: "Get current input amount".spec_bytes(),
        }
    } else if i == 38 {
        SymbolData {
            name: "jet::current_asset".spec_bytes(),
            category: Category::JetFunction,
            description: "Get current input asset".spec_bytes(),
        }
    } else if i == 39 {
        SymbolData {
            name: "jet::current_script_hash".spec_bytes(),
            category: Category::JetFunction,
            description: "Get current script hash".spec_bytes(),
        }
    } else if i == 40 {
        SymbolData {
            name: "jet::add_256".spec_bytes(),
            category: Category::JetFunction,
            description: "Add two 256-bit values".spec_bytes(),
        }
    } else if i == 41 {
        SymbolData {
            name: "jet::add_128".spec_bytes(),
            category: Category::JetFunction,
            description: "Add two 128-bit values".spec_bytes(),
        }
    } else if i == 42 {
        SymbolData {
            name: "jet::add_64".spec_bytes(),
            category: Category::JetFunction,
            description: "Add two 64-bit values".spec_bytes(),
        }
    } else if i == 43 {
        SymbolData {
            name: "jet::add_32".spec_bytes(),
            category: Category::JetFunction,
            description: "Add two 32-bit values".spec_bytes(),
        }
    } else if i == 44 {
        SymbolData {
            name: "jet::add_16".spec_bytes(),
            category: Category::JetFunction,
            description: "Add two 16-bit values".spec_bytes(),
        }
    } else if i == 45 {
        SymbolData {
            name: "jet::add_8".spec_bytes(),
            category: Category::JetFunction,
            description: "Add two 8-bit values".spec_bytes(),
        }
    } else if i == 46 {
        SymbolData {
            name: "jet::subtract_256".spec_bytes(),
            category: Category::JetFunction,
            description: "Subtract two 256-bit values".spec_bytes(),
        }
    } else if i == 47 {
        SymbolData {
            name: "jet::subtract_128".spec_bytes(),
            category: Category::JetFunction,
            description: "Subtract two 128-bit values".spec_bytes(),
        }
    } else if i == 48 {
        SymbolData {
            name: "jet::subtract_64".spec_bytes(),
            category: Category::JetFunction,
            description: "Subtract two 64-bit values".spec_bytes(),
        }
    } else if i == 49 {
        SymbolData {
            name: "jet::subtract_32".spec_bytes(),
            category: Category::JetFunction,
            description: "Subtract two 32-bit values".spec_bytes(),
        }
    } else if i == 50 {
        SymbolData {
            name: "jet::subtract_16".spec_bytes(),
            category: Category::JetFunction,
            description: "Subtract two 16-bit values".spec_bytes(),
        }
    } else if i == 51 {
        SymbolData {
            name: "jet::subtract_8".spec_bytes(),
            category: Category::JetFunction,
            description: "Subtract two 8-bit values".spec_bytes(),
        }
    } else if i == 52 {
        SymbolData {
            name: "jet::and_256".spec_bytes(),
            category: Category::JetFunction,
            description: "Bitwise AND on 256-bit values".spec_bytes(),
        }
    } else if i == 53 {
        SymbolData {
            name: "jet::or_256".spec_bytes(),
            category: Category::JetFunction,
            description: "Bitwise OR on 256-bit values".spec_bytes(),
        }
    } else if i == 54 {
        SymbolData {
            name: "jet::xor_256".spec_bytes(),
            category: Category::JetFunction,
            description: "Bitwise XOR on 256-bit values".spec_bytes(),
        }
    } else if i == 55 {
        SymbolData {
            name: "jet::not_256".spec_bytes(),
            category: Category::JetFunction,
            description: "Bitwise NOT on 256-bit value".spec_bytes(),
        }
    } else if i == 56 {
        SymbolData {
            name: "jet::shift_left_256".spec_bytes(),
            category: Category::JetFunction,
            description: "Left shift 256-bit value".spec_bytes(),
        }
    } else if i == 57 {
        SymbolData {
            name: "jet::shift_right_256".spec_bytes(),
            category: Category::JetFunction,
            description: "Right shift 256-bit value".spec_bytes(),
        }
    } else if i == 58 {
        SymbolData {
            name: "witness::".spec_bytes(),
            category: Category::Snippet,
            description: "Access witness module".spec_bytes(),
        }
    } else if i == 59 {
        SymbolData {
            name: "param::".spec_bytes(),
            category: Category::Snippet,
            description: "Access parameter module".spec_bytes(),
        }
    } else if i == 60 {
        SymbolData {
            name: "0x".spec_bytes(),
            category: Category::LiteralPattern,
            description: "Hexadecimal number prefix".spec_bytes(),
        }
    } else if i == 61 {
        SymbolData {
            name: "[u8; 32]".spec_bytes(),
            category: Category::TypeName,
            description: "32-byte array type".spec_bytes(),
        }
    } else if i == 62 {
        SymbolData {
            name: "[u8; 64]".spec_bytes(),
            category: Category::TypeName,
            description: "64-byte array type".spec_bytes(),
        }
    } else if i == 63 {
        SymbolData {
            name: "[u8; 16]".spec_bytes(),
            category: Category::TypeName,
            description: "16-byte array type".spec_bytes(),
        }
    } else if i == 64 {
        SymbolData {
            name: "pubkey".spec_bytes(),
            category: Category::CommonIdent,
            description: "Public key variable".spec_bytes(),
        }
    } else if i == 65 {
        SymbolData {
            name: "signature".spec_bytes(),
            category: Category::CommonIdent,
            description: "Signature variable".spec_bytes(),
        }
    } else if i == 66 {
        SymbolData {
            name: "hash".spec_bytes(),
            category: Category::CommonIdent,
            description: "Hash variable".spec_bytes(),
        }
    } else if i == 67 {
        SymbolData {
            name: "preimage".spec_bytes(),
            category: Category::CommonIdent,
            description: "Hash preimage variable".spec_bytes(),
        }
    } else if i == 68 {
        SymbolData {
            name: "timeout".spec_bytes(),
            category: Category::CommonIdent,
            description: "Timeout variable".spec_bytes(),
        }
    } else if i == 69 {
        SymbolData {
            name: "amount".spec_bytes(),
            category: Category::CommonIdent,
            description: "Amount variable".spec_bytes(),
        }
    } else if i == 70 {
        SymbolData {
            name: "-> u256".spec_bytes(),
            category: Category::Snippet,
            description: "Return type: 256-bit unsigned integer".spec_bytes(),
        }
    } else if i == 71 {
        SymbolData {
            name: "-> bool".spec_bytes(),
            category: Category::Snippet,
            description: "Return type: boolean".spec_bytes(),
        }
    } else {
        SymbolData {
            name: "-> ()".spec_bytes(),
            category: Category::Snippet,
            description: "Return type: unit (void)".spec_bytes(),
        }
    }
}

/// The whole catalog as mathematical data: the name bytes, category and
/// description bytes of every entry, in insertion order.
pub open spec fn spec_catalog() -> Seq<SymbolData> {
    Seq::new(73, |i: int| spec_catalog_row(i))
}

/// In a catalog holding the spec table, each of the five keyword
/// spellings resolves by exact-name lookup to its own row, whose
/// description `is_spec_catalog` already pins (the row for `fn` carries
/// `function keyword`, and so on).
pub proof fn lemma_catalog_keywords(entries: Seq<Symbol>)
    requires
        is_spec_catalog(entries),
    ensures
        spec_find_index(entries, "const".spec_bytes()) == 0,
        spec_find_index(entries, "fn".spec_bytes()) == 1,
        spec_find_index(entries, "let".spec_bytes()) == 2,
        spec_find_index(entries, "mod".spec_bytes()) == 3,
        spec_find_index(entries, "match".spec_bytes()) == 4,
{
    broadcast use vstd::string::is_ascii_spec_bytes;

    reveal_strlit("const");
    reveal_strlit("fn");
    reveal_strlit("let");
    reveal_strlit("mod");
    reveal_strlit("match");
    assert(is_ascii("const"));
    assert(is_ascii("fn"));
    assert(is_ascii("let"));
    assert(is_ascii("mod"));
    assert(is_ascii("match"));
    assert("const".spec_bytes() =~= seq![99u8, 111u8, 110u8, 115u8, 116u8]);
    assert("fn".spec_bytes() =~= seq![102u8, 110u8]);
    assert("let".spec_bytes() =~= seq![108u8, 101u8, 116u8]);
    assert("mod".spec_bytes() =~= seq![109u8, 111u8, 100u8]);
    assert("match".spec_bytes() =~= seq![109u8, 97u8, 116u8, 99u8, 104u8]);
    lemma_find_found(entries, "const".spec_bytes(), 0);
    lemma_find_found(entries, "fn".spec_bytes(), 1);
    lemma_find_found(entries, "let".spec_bytes(), 2);
    lemma_find_found(entries, "mod".spec_bytes(), 3);
    lemma_find_found(entries, "match".spec_bytes(), 4);
}

/// The catalog: an append-only build phase, then frozen.
pub struct Catalog {
    entries: Vec<Symbol>,
}

impl View for Catalog {
    type V = Seq<Symbol>;

    closed spec fn view(&self) -> Seq<Symbol> {
        self.entries@
    }
}

fn sym(name: &str, category: Category, description: &str) -> (s: Symbol)
    ensures
        s.name@ == name.spec_bytes(),
        s.category == category,
        s.description@ == description.spec_bytes(),
{
    Symbol { name: name.as_bytes_vec(), category, description: description.as_bytes_vec() }
}

impl Catalog {
    /// How many symbols the catalog holds.
    pub fn len(&self) -> (n: usize)
        ensures
            n == self@.len(),
    {
        self.entries.len()
    }

    /// Read-only access to the entry at `i`.
    pub fn get(&self, i: usize) -> (s: &Symbol)
        requires
            i < self@.len(),
        ensures
            *s == self@[i as int],
    {
        &self.entries[i]
    }

    /// Exact-name lookup; the first (and, by construction, only) entry of
    /// that spelling.
    pub fn lookup_by_name(&self, name: &Vec<u8>) -> (r: Option<&Symbol>)
        ensures
            match r {
                Option::Some(s) => ({
                    let i = spec_find_index(self@, name@);
                    i >= 0 && *s == self@[i]
                }),
                Option::None => spec_find_index(self@, name@) < 0,
            },
    {
        let mut i: usize = 0;
        while i < self.entries.len()
            invariant
                i <= self@.len(),
                forall|k: int| 0 <= k < i ==> !(#[trigger] self@[k].name@ =~= name@),
            decreases self@.len() - i,
        {
            if crate::bytestr::bytes_eq(&self.entries[i].name, name) {
                proof {
                    lemma_find_found(self@, name@, i as int);
                }
                return Option::Some(&self.entries[i]);
            }
            i = i + 1;
        }
        proof {
            lemma_find_not_yet(self@, name@, self@.len() as int);
        }
        Option::None
    }

    /// All entries of one category, in insertion order.
    pub fn all_in_category(&self, c: Category) -> (r: Vec<usize>)
        ensures
            r@ == spec_in_category(self@, c),
    {
        let mut out: Vec<usize> = Vec::new();
        let mut i: usize = 0;
        while i < self.entries.len()
            invariant
                i <= self@.len(),
                out@ =~= spec_in_category_upto(self@, c, i as int),
            decreases self@.len() - i,
        {
            if self.entries[i].category == c {
                out.push(i);
            }
            proof {
                assert(out@ =~= spec_in_category_upto(self@, c, i + 1));
            }
            i = i + 1;
        }
        proof {
            assert(out@ =~= spec_in_category(self@, c));
        }
        out
    }

    /// Build the frozen catalog.  Deterministic and side-effect-free:
    /// the result holds exactly the rows of [`spec_catalog`], in order.
    pub fn new() -> (c: Catalog)
        ensures
            is_spec_catalog(c@),
    {
        let mut e: Vec<Symbol> = Vec::new();
        catalog_part_0(&mut e);
        proof {
            assert(forall|i: int|
                0 <= i < 10 ==> symbol_matches(#[trigger] e@[i], spec_catalog()[i]));
        }
        catalog_part_1(&mut e);
        proof {
            assert(forall|i: int|
                0 <= i < 20 ==> symbol_matches(#[trigger] e@[i], spec_catalog()[i]));
        }
        catalog_part_2(&mut e);
        proof {
            assert(forall|i: int|
                0 <= i < 30 ==> symbol_matches(#[trigger] e@[i], spec_catalog()[i]));
        }
        catalog_part_3(&mut e);
        proof {
            assert(forall|i: int|
                0 <= i < 40 ==> symbol_matches(#[trigger] e@[i], spec_catalog()[i]));
        }
        catalog_part_4(&mut e);
        proof {
            assert(forall|i: int|
                0 <= i < 50 ==> symbol_matches(#[trigger] e@[i], spec_catalog()[i]));
        }
        catalog_part_5(&mut e);
        proof {
            assert(forall|i: int|
                0 <= i < 60 ==> symbol_matches(#[trigger] e@[i], spec_catalog()[i]));
        }
        catalog_part_6(&mut e);
        proof {
            assert(forall|i: int|
                0 <= i < 70 ==> symbol_matches(#[trigger] e@[i], spec_catalog()[i]));
        }
        catalog_part_7(&mut e);
        proof {
            assert(forall|i: int|
                0 <= i < 73 ==> symbol_matches(#[trigger] e@[i], spec_catalog()[i]));
        }
        proof {
            assert(spec_catalog().len() == 73);
        }
        Catalog { entries: e }
    }
}

// The build is split into fixed-size runs of pushes so that each
// function's proof obligation (its run of rows matches the spec table)
// stays small.
fn catalog_part_0(e: &mut Vec<Symbol>)
    requires
        old(e)@.len() == 0,
    ensures
        final(e)@.len() == 10,
        forall|i: int| 0 <= i < 0 ==> final(e)@[i] == old(e)@[i],
        forall|i: int|
            0 <= i < 10 ==> symbol_matches(#[trigger] final(e)@[i], spec_catalog()[i]),
{
    e.push(sym("const", Category::Keyword, "variable keyword"));
    e.push(sym("fn", Category::Keyword, "function keyword"));
    e.push(sym("let", Category::Keyword, "variable keyword"));
    e.push(sym("mod", Category::Keyword, "module keyword"));
    e.push(sym("match", Category::Keyword, "pattern matching keyword"));
    e.push(sym("assert!", Category::Snippet, "assertion macro"));
    e.push(sym("main", Category::CommonIdent, "main function"));
    e.push(sym("Left", Category::LiteralPattern, "Either left variant"));
    e.push(sym("Right", Category::LiteralPattern, "Either right variant"));
    e.push(sym("Some", Category::LiteralPattern, "Option some variant"));
}

fn catalog_part_1(e: &mut Vec<Symbol>)
    requires
        old(e)@.len() == 10,
    ensures
        final(e)@.len() == 20,
        forall|i: int| 0 <= i < 10 ==> final(e)@[i] == old(e)@[i],
        forall|i: int|
            10 <= i < 20 ==> symbol_matches(#[trigger] final(e)@[i], spec_catalog()[i]),
{
    e.push(sym("None", Category::LiteralPattern, "Option none variant"));
    e.push(sym("u256", Category::TypeName, "256-bit unsigned integer type"));
    e.push(sym("u128", Category::TypeName, "128-bit unsigned integer type"));
    e.push(sym("u64", Category::TypeName, "64-bit unsigned integer type"));
    e.push(sym("u32", Category::TypeName, "32-bit unsigned integer type"));
    e.push(sym("u16", Category::TypeName, "16-bit unsigned integer type"));
    e.push(sym("u8", Category::TypeName, "8-bit unsigned integer type"));
    e.push(sym("Either", Category::TypeName, "Either type for sum types"));
    e.push(sym("Option", Category::TypeName, "Option type for nullable values"));
    e.push(sym("Pubkey", Category::TypeName, "Bitcoin public key type"));
}

fn catalog_part_2(e: &mut Vec<Symbol>)
    requires
        old(e)@.len() == 20,
    ensures
        final(e)@.len() == 30,
        forall|i: int| 0 <= i < 20 ==> final(e)@[i] == old(e)@[i],
        forall|i: int|
            20 <= i < 30 ==> symbol_matches(#[trigger] final(e)@[i], spec_catalog()[i]),
{
    e.push(sym("Signature", Category::TypeName, "Digital signature type"));
    e.push(sym("Ctx8", Category::TypeName, "SHA-256 context type"));
    e.push(sym("Height", Category::TypeName, "Block height type"));
    e.push(sym("jet::sha_256_ctx_8_init", Category::JetFunction, "Initialize SHA-256 context"));
    e.push(sym("jet::sha_256_ctx_8_add_32", Category::JetFunction, "Add 32 bytes to SHA-256 context"));
    e.push(sym("jet::sha_256_ctx_8_finalize", Category::JetFunction, "Finalize SHA-256 hash"));
    e.push(sym("jet::bip_0340_verify", Category::JetFunction, "Verify BIP-340 Schnorr signature"));
    e.push(sym("jet::sig_all_hash", Category::JetFunction, "Get signature hash for all inputs"));
    e.push(sym("jet::eq_256", Category::JetFunction, "Compare two 256-bit values for equality"));
    e.push(sym("jet::eq_128", Category::JetFunction, "Compare two 128-bit values for equality"));
}

fn catalog_part_3(e: &mut Vec<Symbol>)
    requires
        old(e)@.len() == 30,
    ensures
        final(e)@.len() == 40,
        forall|i: int| 0 <= i < 30 ==> final(e)@[i] == old(e)@[i],
        forall|i: int|
            30 <= i < 40 ==> symbol_matches(#[trigger] final(e)@[i], spec_catalog()[i]),
{
    e.push(sym("jet::eq_64", Category::JetFunction, "Compare two 64-bit values for equality"));
    e.push(sym("jet::eq_32", Category::JetFunction, "Compare two 32-bit values for equality"));
    e.push(sym("jet::eq_16", Category::JetFunction, "Compare two 16-bit values for equality"));
    e.push(sym("jet::eq_8", Category::JetFunction, "Compare two 8-bit values for equality"));
    e.push(sym("jet::check_lock_height", Category::JetFunction, "Check if height lock is satisfied"));
    e.push(sym("jet::check_lock_time", Category::JetFunction, "Check if time lock is satisfied"));
    e.push(sym("jet::current_index", Category::JetFunction, "Get current input index"));
    e.push(sym("jet::current_amount", Category::JetFunction, "Get current input amount"));
    e.push(sym("jet::current_asset", Category::JetFunction, "Get current input asset"));
    e.push(sym("jet::current_script_hash", Category::JetFunction, "Get current script hash"));
}

fn catalog_part_4(e: &mut Vec<Symbol>)
    requires
        old(e)@.len() == 40,
    ensures
        final(e)@.len() == 50,
        forall|i: int| 0 <= i < 40 ==> final(e)@[i] == old(e)@[i],
        forall|i: int|
            40 <= i < 50 ==> symbol_matches(#[trigger] final(e)@[i], spec_catalog()[i]),
{
    e.push(sym("jet::add_256", Category::JetFunction, "Add two 256-bit values"));
    e.push(sym("jet::add_128", Category::JetFunction, "Add two 128-bit values"));
    e.push(sym("jet::add_64", Category::JetFunction, "Add two 64-bit values"));
    e.push(sym("jet::add_32", Category::JetFunction, "Add two 32-bit values"));
    e.push(sym("jet::add_16", Category::JetFunction, "Add two 16-bit values"));
    e.push(sym("jet::add_8", Category::JetFunction, "Add two 8-bit values"));
    e.push(sym("jet::subtract_256", Category::JetFunction, "Subtract two 256-bit values"));
    e.push(sym("jet::subtract_128", Category::JetFunction, "Subtract two 128-bit values"));
    e.push(sym("jet::subtract_64", Category::JetFunction, "Subtract two 64-bit values"));
    e.push(sym("jet::subtract_32", Category::JetFunction, "Subtract two 32-bit values"));
}

fn catalog_part_5(e: &mut Vec<Symbol>)
    requires
        old(e)@.len() == 50,
    ensures
        final(e)@.len() == 60,
        forall|i: int| 0 <= i < 50 ==> final(e)@[i] == old(e)@[i],
        forall|i: int|
            50 <= i < 60 ==> symbol_matches(#[trigger] final(e)@[i], spec_catalog()[i]),
{
    e.push(sym("jet::subtract_16", Category::JetFunction, "Subtract two 16-bit values"));
    e.push(sym("jet::subtract_8", Category::JetFunction, "Subtract two 8-bit values"));
    e.push(sym("jet::and_256", Category::JetFunction, "Bitwise AND on 256-bit values"));
    e.push(sym("jet::or_256", Category::JetFunction, "Bitwise OR on 256-bit values"));
    e.push(sym("jet::xor_256", Category::JetFunction, "Bitwise XOR on 256-bit values"));
    e.push(sym("jet::not_256", Category::JetFunction, "Bitwise NOT on 256-bit value"));
    e.push(sym("jet::shift_left_256", Category::JetFunction, "Left shift 256-bit value"));
    e.push(sym("jet::shift_right_256", Category::JetFunction, "Right shift 256-bit value"));
    e.push(sym("witness::", Category::Snippet, "Access witness module"));
    e.push(sym("param::", Category::Snippet, "Access parameter module"));
}

fn catalog_part_6(e: &mut Vec<Symbol>)
    requires
        old(e)@.len() == 60,
    ensures
        final(e)@.len() == 70,
        forall|i: int| 0 <= i < 60 ==> final(e)@[i] == old(e)@[i],
        forall|i: int|
            60 <= i < 70 ==> symbol_matches(#[trigger] final(e)@[i], spec_catalog()[i]),
{
    e.push(sym("0x", Category::LiteralPattern, "Hexadecimal number prefix"));
    e.push(sym("[u8; 32]", Category::TypeName, "32-byte array type"));
    e.push(sym("[u8; 64]", Category::TypeName, "64-byte array type"));
    e.push(sym("[u8; 16]", Category::TypeName, "16-byte array type"));
    e.push(sym("pubkey", Category::CommonIdent, "Public key variable"));
    e.push(sym("signature", Category::CommonIdent, "Signature variable"));
    e.push(sym("hash", Category::CommonIdent, "Hash variable"));
    e.push(sym("preimage", Category::CommonIdent, "Hash preimage variable"));
    e.push(sym("timeout", Category::CommonIdent, "Timeout variable"));
    e.push(sym("amount", Category::CommonIdent, "Amount variable"));
}

fn catalog_part_7(e: &mut Vec<Symbol>)
    requires
        old(e)@.len() == 70,
    ensures
        final(e)@.len() == 73,
        forall|i: int| 0 <= i < 70 ==> final(e)@[i] == old(e)@[i],
        forall|i: int|
            70 <= i < 73 ==> symbol_matches(#[trigger] final(e)@[i], spec_catalog()[i]),
{
    e.push(sym("-> u256", Category::Snippet, "Return type: 256-bit unsigned integer"));
    e.push(sym("-> bool", Category::Snippet, "Return type: boolean"));
    e.push(sym("-> ()", Category::Snippet, "Return type: unit (void)"));
}

/// Indices of the entries of category `c` among the first `n` entries.
pub open spec fn spec_in_category_upto(entries: Seq<Symbol>, c: Category, n: int) -> Seq<usize>
    decreases n,
{
    if n <= 0 {
        Seq::empty()
    } else {
        let rest = spec_in_category_upto(entries, c, n - 1);
        if entries[n - 1].category == c {
            rest.push((n - 1) as usize)
        } else {
            rest
        }
    }
}

/// Indices of all entries of category `c`, in insertion order.
pub open spec fn spec_in_category(entries: Seq<Symbol>, c: Category) -> Seq<usize> {
    spec_in_category_upto(entries, c, entries.len() as int)
}

proof fn lemma_find_found(entries: Seq<Symbol>, name: Seq<u8>, i: int)
    requires
        0 <= i < entries.len(),
        entries[i].name@ =~= name,
        forall|k: int| 0 <= k < i ==> !(entries[k].name@ =~= name),
    ensures
        spec_find_index(entries, name) == i,
    decreases i,
{
    if i > 0 {
        assert(!(entries[0].name@ =~= name));
        lemma_find_found(entries.drop_first(), name, i - 1);
    }
}

proof fn lemma_find_not_yet(entries: Seq<Symbol>, name: Seq<u8>, i: int)
    requires
        0 <= i <= entries.len(),
        forall|k: int| 0 <= k < i ==> !(entries[k].name@ =~= name),
    ensures
        i == entries.len() ==> spec_find_index(entries, name) < 0,
    decreases i,
{
    if i == entries.len() && i > 0 {
        assert(!(entries[0].name@ =~= name));
        lemma_find_not_yet(entries.drop_first(), name, i - 1);
    }
}

} // verus!
