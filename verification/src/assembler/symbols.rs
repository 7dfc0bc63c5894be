//! The symbol table: the labels that a program declares and the offsets they
//! resolve to.

use vstd::prelude::*;
use crate::text::str_eq;

verus! {

/// What a symbol names.
#[derive(Debug, Clone, Copy, PartialEq, Eq, Structural)]
pub enum SymbolType {
    Label,
    Integer,
}

/// A name, what it names, and the offset it resolves to once that is known.
#[derive(Debug)]
pub struct Symbol {
    name: String,
    offset: Option<u32>,
    symbol_type: SymbolType,
}

/// A symbol as a mathematical value.
pub struct SymbolView {
    pub name: Seq<char>,
    pub offset: Option<u32>,
    pub symbol_type: SymbolType,
}

impl View for Symbol {
    type V = SymbolView;

    closed spec fn view(&self) -> SymbolView {
        SymbolView { name: self.name@, offset: self.offset, symbol_type: self.symbol_type }
    }
}

impl Symbol {
    /// A symbol whose offset is not known yet.
    pub fn new(name: String, symbol_type: SymbolType) -> (s: Symbol)
        ensures
            s@ == (SymbolView { name: name@, offset: None, symbol_type }),
    {
        Symbol { name, offset: None, symbol_type }
    }

    /// A symbol that resolves to `offset`.
    pub fn new_with_offset(name: String, symbol_type: SymbolType, offset: u32) -> (s: Symbol)
        ensures
            s@ == (SymbolView { name: name@, offset: Some(offset), symbol_type }),
    {
        Symbol { name, offset: Some(offset), symbol_type }
    }
}

/// Whether entry `i` of `table` carries `name`.
pub open spec fn holds_name_at(table: Seq<SymbolView>, name: Seq<char>, i: int) -> bool {
    0 <= i < table.len() && table[i].name == name
}

/// Whether some entry of `table` carries `name`.
pub open spec fn has_name(table: Seq<SymbolView>, name: Seq<char>) -> bool {
    exists|i: int| holds_name_at(table, name, i)
}

/// The number of the first entry of `table` that carries `name`.
pub open spec fn index_of_name(table: Seq<SymbolView>, name: Seq<char>) -> int {
    choose|i: int|
        holds_name_at(table, name, i) && forall|j: int| 0 <= j < i ==> !holds_name_at(
            table,
            name,
            j,
        )
}

/// The offset that `name` resolves to: none if the table has no such symbol,
/// or if its offset is not known yet.
pub open spec fn offset_of_name(table: Seq<SymbolView>, name: Seq<char>) -> Option<u32> {
    if has_name(table, name) {
        table[index_of_name(table, name)].offset
    } else {
        None
    }
}

/// The table after `symbol` is added: a name that is already there is not
/// added again.
pub open spec fn with_symbol(table: Seq<SymbolView>, symbol: SymbolView) -> Seq<SymbolView> {
    if has_name(table, symbol.name) {
        table
    } else {
        table.push(symbol)
    }
}

/// The table after the offset of `name` is set: unchanged if the table has
/// no such symbol.
pub open spec fn with_offset(table: Seq<SymbolView>, name: Seq<char>, offset: u32) -> Seq<
    SymbolView,
> {
    if has_name(table, name) {
        let i = index_of_name(table, name);
        table.update(i, SymbolView { offset: Some(offset), ..table[i] })
    } else {
        table
    }
}

/// No two entries carry the same name.
pub open spec fn names_are_distinct(table: Seq<SymbolView>) -> bool {
    forall|i: int, j: int|
        0 <= i < j < table.len() ==> #[trigger] table[i].name != #[trigger] table[j].name
}

/// The symbols of one program. No name occurs twice.
#[derive(Debug)]
pub struct SymbolTable {
    symbols: Vec<Symbol>,
}

impl View for SymbolTable {
    type V = Seq<SymbolView>;

    closed spec fn view(&self) -> Seq<SymbolView> {
        self.symbols@.map_values(|s: Symbol| s@)
    }
}

impl SymbolTable {
    #[verifier::type_invariant]
    spec fn names_stay_distinct(&self) -> bool {
        names_are_distinct(self@)
    }

    /// An empty table.
    pub fn new() -> (table: SymbolTable)
        ensures
            table@ == Seq::<SymbolView>::empty(),
    {
        let table = SymbolTable { symbols: Vec::new() };
        assert(table@ =~= Seq::<SymbolView>::empty());
        table
    }

    /// The number of symbols in the table.
    pub fn len(&self) -> (n: usize)
        ensures
            n == self@.len(),
            names_are_distinct(self@),
    {
        proof {
            use_type_invariant(self);
        }
        self.symbols.len()
    }

    /// The number of the first symbol named `s`, if there is one.
    fn find(&self, s: &str) -> (found: Option<usize>)
        ensures
            found is Some <==> has_name(self@, s@),
            found is Some ==> found.unwrap() == index_of_name(self@, s@),
            found is Some ==> found.unwrap() < self.symbols.len(),
    {
        let mut i: usize = 0;
        while i < self.symbols.len()
            invariant
                i <= self.symbols.len(),
                self@.len() == self.symbols.len(),
                forall|j: int| 0 <= j < i ==> !holds_name_at(self@, s@, j),
            decreases self.symbols.len() - i,
        {
            if str_eq(self.symbols[i].name.as_str(), s) {
                assert(holds_name_at(self@, s@, i as int));
                return Some(i);
            }
            i += 1;
        }
        None
    }

    /// Takes the symbols out and leaves the table empty.
    fn take(&mut self) -> (symbols: Vec<Symbol>)
        ensures
            symbols@.map_values(|s: Symbol| s@) == old(self)@,
            names_are_distinct(old(self)@),
            final(self)@ == Seq::<SymbolView>::empty(),
    {
        proof {
            use_type_invariant(&*self);
        }
        let mut other = SymbolTable::new();
        core::mem::swap(self, &mut other);
        other.symbols
    }

    /// Adds a symbol, unless the table already has one of that name.
    pub fn add_symbol(&mut self, s: Symbol)
        ensures
            final(self)@ == with_symbol(old(self)@, s@),
            names_are_distinct(final(self)@),
    {
        let found = self.find(s.name.as_str());
        let mut symbols = self.take();
        if found.is_none() {
            proof {
                let before = old(self)@;
                assert(before.push(s@) =~= symbols@.push(s).map_values(|s: Symbol| s@));
                let after = before.push(s@);
                assert forall|i: int, j: int| 0 <= i < j < after.len() implies after[i].name
                    != after[j].name by {
                    if j == before.len() {
                        assert(!holds_name_at(before, s@.name, i));
                    }
                }
            }
            symbols.push(s);
        }
        *self = SymbolTable { symbols };
    }

    /// Whether the table has a symbol named `s`.
    pub fn has_symbol(&self, s: &str) -> (has: bool)
        ensures
            has == has_name(self@, s@),
            names_are_distinct(self@),
    {
        proof {
            use_type_invariant(self);
        }
        self.find(s).is_some()
    }

    /// Sets the offset of the symbol named `s`. Returns `false`, and changes
    /// nothing, if the table has no such symbol.
    pub fn set_symbol_offset(&mut self, s: &str, offset: u32) -> (done: bool)
        ensures
            done == has_name(old(self)@, s@),
            final(self)@ == with_offset(old(self)@, s@, offset),
            names_are_distinct(final(self)@),
    {
        let found = self.find(s);
        let mut symbols = self.take();
        let done = match found {
            Some(i) => {
                symbols[i].offset = Some(offset);
                proof {
                    assert(symbols@.map_values(|s: Symbol| s@) =~= with_offset(
                        old(self)@,
                        s@,
                        offset,
                    ));
                }
                true
            },
            None => false,
        };
        *self = SymbolTable { symbols };
        done
    }

    /// The offset of the symbol named `s`: `None` if the table has no such
    /// symbol, or if its offset is not known yet.
    pub fn symbol_value(&self, s: &str) -> (value: Option<u32>)
        ensures
            value == offset_of_name(self@, s@),
            names_are_distinct(self@),
    {
        proof {
            use_type_invariant(self);
        }
        match self.find(s) {
            Some(i) => self.symbols[i].offset,
            None => None,
        }
    }
}

impl Default for SymbolTable {
    fn default() -> (table: SymbolTable)
        ensures
            table@ == Seq::<SymbolView>::empty(),
    {
        SymbolTable::new()
    }
}

} // verus!
