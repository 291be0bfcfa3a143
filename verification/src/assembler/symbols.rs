//! The symbol table: which byte offset each label stands for.

use vstd::prelude::*;

verus! {

/// The kinds of symbol.
#[derive(Debug, PartialEq, Eq, Structural, Clone, Copy)]
pub enum SymbolType {
    Label,
}

/// A named byte offset.
#[derive(Debug)]
pub struct Symbol {
    name: String,
    symbol_type: SymbolType,
    offset: u8,
}

/// A symbol as a mathematical value.
pub struct SymbolView {
    pub name: Seq<char>,
    pub offset: u8,
}

impl View for Symbol {
    type V = SymbolView;

    closed spec fn view(&self) -> SymbolView {
        SymbolView { name: self.name@, offset: self.offset }
    }
}

impl Symbol {
    /// A symbol of the given name, at offset 0.
    pub fn new(name: String, symbol_type: SymbolType) -> (s: Symbol)
        ensures
            s@ == (SymbolView { name: name@, offset: 0 }),
    {
        Symbol { name, symbol_type, offset: 0 }
    }

    /// Moves the symbol to `offset`.
    pub fn set_offset(&mut self, offset: u8)
        ensures
            final(self)@ == (SymbolView { name: old(self)@.name, offset }),
    {
        self.offset = offset;
    }
}

/// The position of the first symbol of `table` at or after `i` that is
/// named `name`.
pub open spec fn index_from(table: Seq<SymbolView>, name: Seq<char>, i: int) -> Option<int>
    decreases table.len() - i,
{
    if 0 <= i < table.len() {
        if table[i].name == name {
            Some(i)
        } else {
            index_from(table, name, i + 1)
        }
    } else {
        None
    }
}

/// The position of the first symbol of `table` that is named `name`.
pub open spec fn index_of(table: Seq<SymbolView>, name: Seq<char>) -> Option<int> {
    index_from(table, name, 0)
}

/// The offset of the first symbol of `table` that is named `name`.
pub open spec fn lookup(table: Seq<SymbolView>, name: Seq<char>) -> Option<u8> {
    match index_of(table, name) {
        Some(i) => Some(table[i].offset),
        None => None,
    }
}

/// `table` after the first symbol named `name`, if there is one, has moved
/// to `offset`.
pub open spec fn with_offset(table: Seq<SymbolView>, name: Seq<char>, offset: u8) -> Seq<
    SymbolView,
> {
    match index_of(table, name) {
        Some(i) => table.update(i, SymbolView { name, offset }),
        None => table,
    }
}

/// Whether no two symbols of `table` have the same name.
pub open spec fn names_unique(table: Seq<SymbolView>) -> bool {
    forall|i: int, j: int|
        0 <= i < j < table.len() ==> (#[trigger] table[i]).name != (#[trigger] table[j]).name
}

/// The search finds a symbol of the name, and none of that name stands
/// before it; it finds none only if the table holds none.
pub proof fn lemma_index_from(table: Seq<SymbolView>, name: Seq<char>, i: int)
    requires
        0 <= i <= table.len(),
    ensures
        match index_from(table, name, i) {
            Some(k) => i <= k < table.len() && table[k].name == name && forall|j: int|
                i <= j < k ==> (#[trigger] table[j]).name != name,
            None => forall|j: int| i <= j < table.len() ==> (#[trigger] table[j]).name != name,
        },
    decreases table.len() - i,
{
    if i < table.len() && table[i].name != name {
        lemma_index_from(table, name, i + 1);
    }
}

/// A symbol pushed onto a table is found under its name exactly if the
/// table held none of that name; other names are found as before.
pub proof fn lemma_lookup_push(table: Seq<SymbolView>, symbol: SymbolView, name: Seq<char>)
    ensures
        lookup(table.push(symbol), name) == (if lookup(table, name) is Some {
            lookup(table, name)
        } else if symbol.name == name {
            Some(symbol.offset)
        } else {
            None
        }),
{
    lemma_index_from_push(table, symbol, name, 0);
    lemma_index_from(table, name, 0);
    let pushed = table.push(symbol);
    match index_of(table, name) {
        Some(k) => {
            assert(pushed[k] == table[k]);
        },
        None => {
            assert(pushed[table.len() as int] == symbol);
        },
    }
}

proof fn lemma_index_from_push(table: Seq<SymbolView>, symbol: SymbolView, name: Seq<char>, i: int)
    requires
        0 <= i <= table.len(),
    ensures
        index_from(table.push(symbol), name, i) == (if index_from(table, name, i) is Some {
            index_from(table, name, i)
        } else if symbol.name == name {
            Some(table.len() as int)
        } else {
            None
        }),
    decreases table.len() - i,
{
    let pushed = table.push(symbol);
    if i < table.len() {
        assert(pushed[i] == table[i]);
        if table[i].name != name {
            lemma_index_from_push(table, symbol, name, i + 1);
        }
    } else {
        assert(pushed[i] == symbol);
        assert(index_from(pushed, name, i + 1) is None);
    }
}

/// The labels of a program and their offsets, in the order in which they
/// were declared.
#[derive(Debug)]
pub struct SymbolTable {
    symbols: Vec<Symbol>,
}

impl View for SymbolTable {
    type V = Seq<SymbolView>;

    closed spec fn view(&self) -> Seq<SymbolView> {
        Seq::new(self.symbols@.len(), |i: int| self.symbols@[i]@)
    }
}

impl SymbolTable {
    /// A table without symbols.
    pub fn new() -> (t: SymbolTable)
        ensures
            t@ == Seq::<SymbolView>::empty(),
    {
        let t = SymbolTable { symbols: Vec::new() };
        assert(t@ =~= Seq::<SymbolView>::empty());
        t
    }

    /// Adds `s` at the end of the table.
    pub fn add_symbol(&mut self, s: Symbol)
        ensures
            final(self)@ == old(self)@.push(s@),
    {
        self.symbols.push(s);
        assert(self@ =~= old(self)@.push(s@));
    }

    /// The number of symbols in the table.
    pub fn len(&self) -> (n: usize)
        ensures
            n == self@.len(),
    {
        self.symbols.len()
    }

    /// Where the first symbol named `name` stands.
    fn position(&self, name: &String) -> (r: Option<usize>)
        ensures
            match r {
                Some(i) => index_of(self@, name@) == Some(i as int) && i < self.symbols@.len(),
                None => index_of(self@, name@) is None,
            },
    {
        let mut i: usize = 0;
        while i < self.symbols.len()
            invariant
                i <= self.symbols@.len(),
                index_of(self@, name@) == index_from(self@, name@, i as int),
            decreases self.symbols@.len() - i,
        {
            if self.symbols[i].name == *name {
                return Some(i);
            }
            i += 1;
        }
        None
    }

    /// Whether the table holds a symbol named `name`.
    pub fn has_symbol(&mut self, name: &String) -> (found: bool)
        ensures
            found == (lookup(old(self)@, name@) is Some),
            *final(self) == *old(self),
    {
        self.position(name).is_some()
    }

    /// The offset of the first symbol named `s`, if there is one.
    pub fn symbol_value(&self, s: &str) -> (offset: Option<u8>)
        ensures
            offset == lookup(self@, s@),
    {
        let name = s.to_owned();
        match self.position(&name) {
            Some(i) => Some(self.symbols[i].offset),
            None => None,
        }
    }

    /// Moves the first symbol named `name` to `offset`; a table that holds
    /// no such symbol stays as it is.
    pub fn set_symbol_offset(&mut self, name: String, offset: u8)
        ensures
            final(self)@ == with_offset(old(self)@, name@, offset),
    {
        match self.position(&name) {
            Some(index) => {
                let symbol = Symbol {
                    name,
                    symbol_type: self.symbols[index].symbol_type,
                    offset,
                };
                self.symbols.set(index, symbol);
                assert(self@ =~= with_offset(old(self)@, name@, offset));
            },
            None => {},
        }
    }
}

} // verus!
