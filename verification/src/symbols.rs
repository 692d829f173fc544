use vstd::prelude::*;
use crate::table::NameTable;

verus! {

/// What a front end records about one name: its type annotation and the
/// scope it was declared in.
#[derive(Debug)]
pub struct Symbol {
    pub type_: String,
    pub scope: String,
}

impl DeepView for Symbol {
    type V = (Seq<char>, Seq<char>);

    open spec fn deep_view(&self) -> (Seq<char>, Seq<char>) {
        (self.type_@, self.scope@)
    }
}

impl Symbol {
    /// A symbol with the given type annotation and scope.
    pub fn new(type_: String, scope: String) -> (r: Symbol)
        ensures
            r.deep_view() == (type_@, scope@),
    {
        Symbol { type_, scope }
    }
}

/// A name-to-symbol record kept by a front end while it walks declarations.
/// A later record for a name shadows the earlier one.
#[derive(Debug)]
pub struct SymbolTable {
    pub symbols: NameTable<Symbol>,
}

impl SymbolTable {
    /// The map this table currently represents.
    pub open spec fn model(self) -> Map<Seq<char>, (Seq<char>, Seq<char>)> {
        self.symbols.model()
    }

    /// An empty table.
    pub fn new() -> (r: SymbolTable)
        ensures
            r.model() == Map::<Seq<char>, (Seq<char>, Seq<char>)>::empty(),
    {
        SymbolTable { symbols: NameTable::new() }
    }

    /// Records `symbol` under `name`, shadowing any earlier record, and
    /// reports success as zero.
    pub fn insert(&mut self, name: String, symbol: Symbol) -> (r: i32)
        ensures
            r == 0,
            final(self).model() == old(self).model().insert(name@, symbol.deep_view()),
    {
        self.symbols.insert(name, symbol);
        0
    }

    /// The symbol recorded under `name`, if any, as a fresh copy.
    pub fn _lookup(&mut self, name: String) -> (r: Option<Symbol>)
        ensures
            *final(self) == *old(self),
            match r {
                Some(s) => final(self).model().contains_key(name@)
                    && s.deep_view() == final(self).model()[name@],
                None => !final(self).model().contains_key(name@),
            },
    {
        match self.symbols.get(&name) {
            Some(s) => Some(Symbol { type_: s.type_.clone(), scope: s.scope.clone() }),
            None => None,
        }
    }
}

} // verus!
