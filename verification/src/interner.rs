//! Interned strings: identifiers and string contents are stored once and
//! referred to by dense integer handles.

use vstd::prelude::*;
use string_interner::DefaultStringInterner;
use string_interner::Sym;

verus! {

/// A handle for an interned string: its index in the order of first
/// interning.
#[derive(Clone, Copy, Debug, PartialEq, Eq, Structural, Hash)]
pub struct Symbol(pub usize);

impl View for Symbol {
    type V = Symbol;

    open spec fn view(&self) -> Symbol {
        *self
    }
}

/// A string that is held keeps its place when another is appended.
pub proof fn lemma_position_of_push(names: Seq<Seq<char>>, held: Seq<char>, text: Seq<char>)
    requires
        names.contains(held),
    ensures
        position_of(names.push(text), held) == position_of(names, held),
    decreases names.len(),
{
    if names.first() != held {
        let rest = names.drop_first();
        let j = choose|j: int| 0 <= j < names.len() && names[j] == held;
        assert(rest[j - 1] == held);
        lemma_position_of_push(rest, held, text);
        assert(names.push(text).drop_first() =~= rest.push(text));
    }
}

/// The same text gives the same symbol: interning a string a second time
/// stores nothing and gives the symbol of the first time.
pub proof fn law_same_text_same_symbol(names: Seq<Seq<char>>, text: Seq<char>)
    ensures
        intern_names(intern_names(names, text), text) == intern_names(names, text),
        intern_symbol(intern_names(names, text), text) == intern_symbol(names, text),
{
    lemma_position_of(names, text);
    lemma_position_of(names.push(text), text);
    if !names.contains(text) {
        assert(names.push(text)[names.len() as int] == text);
    }
}

/// Interning leaves the symbols of the strings held as they are.
pub proof fn law_symbols_are_stable(names: Seq<Seq<char>>, held: Seq<char>, text: Seq<char>)
    requires
        names.contains(held),
    ensures
        intern_names(names, text).contains(held),
        intern_symbol(intern_names(names, text), held) == intern_symbol(names, held),
{
    lemma_position_of_push(names, held, text);
    let j = choose|j: int| 0 <= j < names.len() && names[j] == held;
    assert(names.push(text)[j] == held);
}

/// Symbols tell texts apart: two strings held have the same symbol only if
/// they are the same string.
pub proof fn law_symbols_tell_texts_apart(names: Seq<Seq<char>>, a: Seq<char>, b: Seq<char>)
    requires
        names.len() <= MAX_SYMBOLS,
        names.contains(a),
        names.contains(b),
    ensures
        intern_symbol(names, a) == intern_symbol(names, b) <==> a == b,
{
    lemma_position_of(names, a);
    lemma_position_of(names, b);
}

/// A string interner. No string is held twice, and `names()[i]` is the
/// string of symbol `i`.
///
/// The strings are kept in a `string_interner::StringInterner`, which the
/// verifier does not look into: what it holds is known by [`interned`].
#[verifier::external_body]
pub struct Interner {
    table: DefaultStringInterner,
}

/// The strings that an interner holds, in the order in which they were first
/// interned. The string at index `i` is the one that symbol `i` stands for.
pub uninterp spec fn interned(table: Interner) -> Seq<Seq<char>>;

/// The largest number of strings an interner can hold: its symbols are
/// 32-bit and one value is reserved.
pub const MAX_SYMBOLS: usize = 0xFFFF_FFFF;

/// Calls `StringInterner::new`. Trusted: the new interner holds no string.
#[verifier::external_body]
fn table_new() -> (table: Interner)
    ensures
        interned(table) == Seq::<Seq<char>>::empty(),
{
    Interner { table: DefaultStringInterner::new() }
}

/// Calls `StringInterner::len`. Trusted: it is the number of strings held.
#[verifier::external_body]
fn table_len(table: &Interner) -> (n: usize)
    ensures
        n == interned(*table).len(),
{
    table.table.len()
}

/// Calls `StringInterner::get_or_intern` and turns the symbol into its index
/// with `Symbol::to_usize`. Trusted: a string that is held keeps its index
/// and nothing changes; a new string is appended and gets the next index.
/// The call panics when a new symbol would not fit in 32 bits, which the
/// precondition leaves out.
#[verifier::external_body]
fn table_get_or_intern(table: &mut Interner, text: &str) -> (index: usize)
    requires
        interned(*old(table)).contains(text@) || interned(*old(table)).len() < MAX_SYMBOLS,
    ensures
        interned(*old(table)).contains(text@) ==> interned(*final(table)) == interned(*old(table)),
        !interned(*old(table)).contains(text@) ==> interned(*final(table)) == interned(
            *old(table),
        ).push(text@),
        0 <= index < interned(*final(table)).len(),
        interned(*final(table))[index as int] == text@,
        !interned(*old(table)).contains(text@) ==> index == interned(*old(table)).len(),
{
    string_interner::Symbol::to_usize(table.table.get_or_intern(text))
}

/// Calls `StringInterner::get` and turns the symbol, if any, into its index
/// with `Symbol::to_usize`. Trusted: the result is the index at which the
/// string is held, and `None` where it is not held.
#[verifier::external_body]
fn table_get(table: &Interner, text: &str) -> (index: Option<usize>)
    ensures
        index is Some <==> interned(*table).contains(text@),
        index is Some ==> index->0 < interned(*table).len() && interned(*table)[index->0 as int]
            == text@,
{
    table.table.get(text).map(string_interner::Symbol::to_usize)
}

/// Calls `StringInterner::resolve` on the symbol with the given index, made
/// with `Symbol::from_usize`, and copies the string. Trusted: the result is
/// the string at that index, if there is one. `from_usize` panics on an
/// index that does not fit, which the precondition leaves out.
#[verifier::external_body]
fn table_resolve(table: &Interner, index: usize) -> (text: Option<String>)
    requires
        index < MAX_SYMBOLS,
    ensures
        index < interned(*table).len() ==> text.is_some() && text.unwrap()@ == interned(
            *table,
        )[index as int],
        index >= interned(*table).len() ==> text.is_none(),
{
    table.table.resolve(<Sym as string_interner::Symbol>::from_usize(index)).map(|s| s.to_owned())
}

/// The index of the first occurrence of `text` in `names`, or `names.len()`
/// where there is none.
pub open spec fn position_of(names: Seq<Seq<char>>, text: Seq<char>) -> nat
    decreases names.len(),
{
    if names.len() == 0 {
        0
    } else if names.first() == text {
        0
    } else {
        1 + position_of(names.drop_first(), text)
    }
}

/// The names held after interning `text` into `names`.
pub open spec fn intern_names(names: Seq<Seq<char>>, text: Seq<char>) -> Seq<Seq<char>> {
    if names.contains(text) {
        names
    } else {
        names.push(text)
    }
}

/// The symbol that interning `text` into `names` gives.
pub open spec fn intern_symbol(names: Seq<Seq<char>>, text: Seq<char>) -> Symbol {
    Symbol(position_of(names, text) as usize)
}

/// Where a string is found: at its first occurrence, and nowhere if the
/// result is the length.
pub proof fn lemma_position_of(names: Seq<Seq<char>>, text: Seq<char>)
    ensures
        position_of(names, text) <= names.len(),
        names.contains(text) <==> position_of(names, text) < names.len(),
        names.contains(text) ==> names[position_of(names, text) as int] == text,
        forall|i: int| 0 <= i < position_of(names, text) ==> names[i] != text,
    decreases names.len(),
{
    if names.len() == 0 {
    } else if names.first() == text {
        assert(names[0] == text);
    } else {
        let rest = names.drop_first();
        lemma_position_of(rest, text);
        let p = position_of(rest, text);
        if rest.contains(text) {
            let j = choose|j: int| 0 <= j < rest.len() && rest[j] == text;
            assert(names[j + 1] == text);
            assert(names[(p + 1) as int] == rest[p as int]);
        }
        if names.contains(text) {
            let j = choose|j: int| 0 <= j < names.len() && names[j] == text;
            assert(rest[j - 1] == text);
        }
        assert forall|i: int| 0 <= i < p + 1 implies names[i] != text by {
            if i > 0 {
                assert(names[i] == rest[i - 1]);
            }
        }
    }
}

impl Interner {
    /// The strings held, in the order of their symbols.
    pub open spec fn names(&self) -> Seq<Seq<char>> {
        interned(*self)
    }

    /// No string occurs twice, and every index fits a symbol.
    pub open spec fn wf(&self) -> bool {
        &&& self.names().no_duplicates()
        &&& self.names().len() <= MAX_SYMBOLS
    }

    /// An interner that holds nothing.
    pub fn new() -> (r: Interner)
        ensures
            r.wf(),
            r.names() == Seq::<Seq<char>>::empty(),
    {
        table_new()
    }

    /// The number of strings held.
    pub fn len(&self) -> (n: usize)
        ensures
            n == self.names().len(),
    {
        table_len(self)
    }

    /// The symbol of `text`, which is stored if it was not held before.
    /// With the table full and `text` new, nothing is stored and the result
    /// is `None`.
    pub fn intern(&mut self, text: &str) -> (r: Option<Symbol>)
        requires
            old(self).wf(),
        ensures
            final(self).wf(),
            r is None <==> !old(self).names().contains(text@) && old(self).names().len()
                >= MAX_SYMBOLS,
            r is None ==> final(self).names() == old(self).names(),
            r is Some ==> final(self).names() == intern_names(old(self).names(), text@),
            r is Some ==> r->0 == intern_symbol(old(self).names(), text@),
    {
        let ghost before = self.names();
        proof {
            lemma_position_of(before, text@);
        }
        if table_len(self) >= MAX_SYMBOLS {
            // A full table can still give the symbol of a string it holds.
            return self.lookup(text);
        }
        let index = table_get_or_intern(self, text);
        proof {
            let after = self.names();
            if before.contains(text@) {
                assert(before[index as int] == text@);
                assert(before[position_of(before, text@) as int] == text@);
            } else {
                assert forall|i: int, j: int|
                    0 <= i < after.len() && 0 <= j < after.len() && i != j implies after[i]
                    != after[j] by {
                    if i == before.len() {
                        assert(before[j] == after[j]);
                    } else if j == before.len() {
                        assert(before[i] == after[i]);
                    }
                }
            }
        }
        Some(Symbol(index))
    }

    /// The symbol of `text` if it is held.
    pub fn lookup(&self, text: &str) -> (r: Option<Symbol>)
        requires
            self.wf(),
        ensures
            r is Some <==> self.names().contains(text@),
            r is Some ==> r->0 == intern_symbol(self.names(), text@),
    {
        let found = table_get(self, text);
        proof {
            lemma_position_of(self.names(), text@);
        }
        match found {
            Some(index) => Some(Symbol(index)),
            None => None,
        }
    }

    /// The string that a symbol stands for, if it is one of this interner's.
    pub fn resolve(&self, symbol: Symbol) -> (r: Option<String>)
        requires
            self.wf(),
        ensures
            r is Some <==> symbol.0 < self.names().len(),
            r is Some ==> r->0@ == self.names()[symbol.0 as int],
    {
        if symbol.0 >= MAX_SYMBOLS {
            return None;
        }
        table_resolve(self, symbol.0)
    }
}

} // verus!
