//! The symbol table: a value-copyable map from identifier names to
//! symbols, plus the three monotonic counters that code generation
//! draws temporaries and label numbers from.

use vstd::prelude::*;

use crate::code_generation::{Address, AddressV};

verus! {

/// A data type of the source language, as recorded for a symbol.
#[derive(Debug, Clone, Copy, PartialEq, Eq, Structural)]
pub enum DataType {
    Boolean,
    Number,
}

/// What the table records for one identifier: its type, and — during
/// code generation only — its storage address.
#[derive(Debug, Clone, PartialEq)]
pub struct Symbol {
    pub location: Option<Address>,
    pub data_type: DataType,
}

/// The mathematical value of a `Symbol`.
pub ghost struct SymbolV {
    pub location: Option<AddressV>,
    pub data_type: DataType,
}

impl View for Symbol {
    type V = SymbolV;

    open spec fn view(&self) -> SymbolV {
        SymbolV {
            location: match &self.location {
                Some(a) => Some(a@),
                None => None,
            },
            data_type: self.data_type,
        }
    }
}

/// A structurally equal copy of a symbol.
pub fn symbol_clone(s: &Symbol) -> (r: Symbol)
    ensures
        r@ == s@,
{
    Symbol {
        location: match &s.location {
            Some(a) => Some(crate::code_generation::address_clone(a)),
            None => None,
        },
        data_type: s.data_type,
    }
}

/// The map that a list of entries stands for; a later entry for the
/// same name wins.
pub open spec fn map_of(entries: Seq<(String, Symbol)>) -> Map<Seq<char>, SymbolV>
    decreases entries,
{
    if entries.len() == 0 {
        Map::empty()
    } else {
        map_of(entries.drop_last()).insert(entries.last().0@, entries.last().1@)
    }
}

/// An entry list with no entry for `key` stands for a map without it.
proof fn lemma_map_of_absent(entries: Seq<(String, Symbol)>, key: Seq<char>)
    requires
        forall|j: int| 0 <= j < entries.len() ==> (#[trigger] entries[j].0)@ != key,
    ensures
        !map_of(entries).contains_key(key),
    decreases entries.len(),
{
    if entries.len() > 0 {
        assert(entries.last() == entries[entries.len() - 1]);
        assert forall|j: int| 0 <= j < entries.drop_last().len() implies (#[trigger] entries
            .drop_last()[j].0)@ != key by {
            assert(entries.drop_last()[j] == entries[j]);
        }
        lemma_map_of_absent(entries.drop_last(), key);
    }
}

/// The latest entry for `key` gives its value in the map.
proof fn lemma_map_of_found(entries: Seq<(String, Symbol)>, key: Seq<char>, i: int)
    requires
        0 <= i < entries.len(),
        entries[i].0@ == key,
        forall|j: int| i < j < entries.len() ==> (#[trigger] entries[j].0)@ != key,
    ensures
        map_of(entries).contains_key(key),
        map_of(entries)[key] == entries[i].1@,
    decreases entries.len(),
{
    assert(entries.last() == entries[entries.len() - 1]);
    if i == entries.len() - 1 {
    } else {
        assert forall|j: int| i < j < entries.drop_last().len() implies (#[trigger] entries
            .drop_last()[j].0)@ != key by {
            assert(entries.drop_last()[j] == entries[j]);
        }
        assert(entries.drop_last()[i] == entries[i]);
        lemma_map_of_found(entries.drop_last(), key, i);
    }
}

/// The mathematical value of a symbol table: the map it stands for and
/// the three counters.
#[verifier::ext_equal]
pub ghost struct TableV {
    pub map: Map<Seq<char>, SymbolV>,
    pub temp_count: nat,
    pub if_count: nat,
    pub for_count: nat,
}

/// A scoped symbol table. Entering a block copies the table, so that
/// the block's declarations die with the copy; the counters, in
/// contrast, are adopted back so that they stay monotonic over a whole
/// compilation.
#[derive(Debug)]
pub struct SymbolTable {
    entries: Vec<(String, Symbol)>,
    temp_count: u32,
    if_count: u32,
    for_count: u32,
}

impl View for SymbolTable {
    type V = TableV;

    closed spec fn view(&self) -> TableV {
        TableV {
            map: map_of(self.entries@),
            temp_count: self.temp_count as nat,
            if_count: self.if_count as nat,
            for_count: self.for_count as nat,
        }
    }
}

impl SymbolTable {
    /// An empty table with all three counters at zero.
    pub fn new() -> (t: Self)
        ensures
            t@ == (TableV { map: Map::empty(), temp_count: 0, if_count: 0, for_count: 0 }),
    {
        let table = Self { entries: Vec::new(), temp_count: 0, if_count: 0, for_count: 0 };
        proof {
            assert(table@ =~~= (TableV {
                map: Map::empty(),
                temp_count: 0,
                if_count: 0,
                for_count: 0,
            }));
        }
        table
    }

    /// The symbol recorded for a name, if any.
    pub fn get(&self, key: &String) -> (r: Option<Symbol>)
        ensures
            match r {
                Some(symbol) => self@.map.contains_key(key@) && symbol@ == self@.map[key@],
                None => !self@.map.contains_key(key@),
            },
    {
        let n = self.entries.len();
        let mut i: usize = n;
        while i > 0
            invariant
                i <= n,
                n == self.entries@.len(),
                forall|j: int| i <= j < n ==> (#[trigger] self.entries@[j].0)@ != key@,
            decreases i,
        {
            i = i - 1;
            if self.entries[i].0 == *key {
                proof {
                    lemma_map_of_found(self.entries@, key@, i as int);
                }
                return Some(symbol_clone(&self.entries[i].1));
            }
        }
        proof {
            lemma_map_of_absent(self.entries@, key@);
        }
        None
    }

    /// Records a symbol for a name and returns the one it replaces, if
    /// any.
    pub fn insert(&mut self, key: String, value: Symbol) -> (r: Option<Symbol>)
        ensures
            final(self)@.map == old(self)@.map.insert(key@, value@),
            final(self)@.temp_count == old(self)@.temp_count,
            final(self)@.if_count == old(self)@.if_count,
            final(self)@.for_count == old(self)@.for_count,
            match r {
                Some(symbol) => old(self)@.map.contains_key(key@) && symbol@ == old(
                    self,
                )@.map[key@],
                None => !old(self)@.map.contains_key(key@),
            },
    {
        let previous = self.get(&key);
        let ghost before = self.entries@;
        self.entries.push((key, value));
        proof {
            assert(self.entries@.drop_last() =~= before);
        }
        previous
    }

    /// Draws a fresh temporary number; the counter is monotonic.
    pub fn new_temp(&mut self) -> (r: u32)
        requires
            old(self)@.temp_count < u32::MAX,
        ensures
            final(self)@ == (TableV { temp_count: old(self)@.temp_count + 1, ..old(self)@ }),
            r as nat == final(self)@.temp_count,
    {
        self.temp_count = self.temp_count + 1;
        proof {
            assert(self@ =~~= (TableV { temp_count: old(self)@.temp_count + 1, ..old(self)@ }));
        }
        self.temp_count
    }

    /// Draws a fresh `if` label number; the counter is monotonic.
    pub fn new_if(&mut self) -> (r: u32)
        requires
            old(self)@.if_count < u32::MAX,
        ensures
            final(self)@ == (TableV { if_count: old(self)@.if_count + 1, ..old(self)@ }),
            r as nat == final(self)@.if_count,
    {
        self.if_count = self.if_count + 1;
        proof {
            assert(self@ =~~= (TableV { if_count: old(self)@.if_count + 1, ..old(self)@ }));
        }
        self.if_count
    }

    /// Draws a fresh `for` label number; the counter is monotonic.
    pub fn new_for(&mut self) -> (r: u32)
        requires
            old(self)@.for_count < u32::MAX,
        ensures
            final(self)@ == (TableV { for_count: old(self)@.for_count + 1, ..old(self)@ }),
            r as nat == final(self)@.for_count,
    {
        self.for_count = self.for_count + 1;
        proof {
            assert(self@ =~~= (TableV { for_count: old(self)@.for_count + 1, ..old(self)@ }));
        }
        self.for_count
    }

    /// A table standing for the same map, with the same counters: the
    /// copy taken on entering a block.
    pub fn duplicate(&self) -> (t: Self)
        ensures
            t@ == self@,
    {
        let n = self.entries.len();
        let mut entries: Vec<(String, Symbol)> = Vec::new();
        let mut i: usize = 0;
        while i < n
            invariant
                i <= n,
                n == self.entries@.len(),
                entries@.len() == i,
                forall|j: int|
                    0 <= j < i ==> (#[trigger] entries@[j].0)@ == self.entries@[j].0@
                        && entries@[j].1@ == self.entries@[j].1@,
            decreases n - i,
        {
            let (name, symbol) = &self.entries[i];
            entries.push((name.clone(), symbol_clone(symbol)));
            i = i + 1;
        }
        proof {
            lemma_map_of_views(entries@, self.entries@);
        }
        let t = Self {
            entries,
            temp_count: self.temp_count,
            if_count: self.if_count,
            for_count: self.for_count,
        };
        proof {
            assert(t@ =~~= self@);
        }
        t
    }

    /// Adopts another table's counters, typically after a block copy
    /// has drawn names from them; the map is untouched.
    pub fn adopt_counters(&mut self, other: &SymbolTable)
        ensures
            final(self)@ == (TableV {
                map: old(self)@.map,
                temp_count: other@.temp_count,
                if_count: other@.if_count,
                for_count: other@.for_count,
            }),
    {
        self.temp_count = other.temp_count;
        self.if_count = other.if_count;
        self.for_count = other.for_count;
        proof {
            assert(self@ =~~= (TableV {
                map: old(self)@.map,
                temp_count: other@.temp_count,
                if_count: other@.if_count,
                for_count: other@.for_count,
            }));
        }
    }
}

/// Entry lists equal view for view stand for the same map.
proof fn lemma_map_of_views(a: Seq<(String, Symbol)>, b: Seq<(String, Symbol)>)
    requires
        a.len() == b.len(),
        forall|j: int|
            0 <= j < a.len() ==> (#[trigger] a[j].0)@ == b[j].0@ && a[j].1@ == b[j].1@,
    ensures
        map_of(a) == map_of(b),
    decreases a.len(),
{
    if a.len() > 0 {
        assert forall|j: int| 0 <= j < a.drop_last().len() implies (#[trigger] a.drop_last()[
            j
        ].0)@ == b.drop_last()[j].0@ && a.drop_last()[j].1@ == b.drop_last()[j].1@ by {
            assert(a.drop_last()[j] == a[j]);
            assert(b.drop_last()[j] == b[j]);
        }
        lemma_map_of_views(a.drop_last(), b.drop_last());
        assert(a.last() == a[a.len() - 1]);
        assert(b.last() == b[b.len() - 1]);
    }
}

} // verus!
