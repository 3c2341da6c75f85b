//! The environment store: a name-keyed registry of declarations.
//!
//! Variable declarations are stored under their plain name; function
//! declarations are stored under an arity-disambiguating key (the name with
//! `()` appended), so a variable and a function may share a base name.  The
//! store is modelled as a `Map<Seq<char>, SpecStmt>`; re-inserting a key
//! overwrites the prior entry, last write wins.

use vstd::prelude::*;

use crate::ast::clone_stmt;
use crate::ast::SpecStmt;
use crate::ast::Stmt;

verus! {

/// The registry of declarations shared by one interpretation session.
#[derive(Debug)]
pub struct SymbolTable {
    entries: Vec<(String, Stmt)>,
}

/// The map an entry list denotes: entries are folded in order, so a later
/// entry for a key overwrites an earlier one.
pub open spec fn entries_map(s: Seq<(String, Stmt)>) -> Map<Seq<char>, SpecStmt>
    decreases s.len(),
{
    if s.len() == 0 {
        Map::empty()
    } else {
        entries_map(s.drop_last()).insert(s.last().0.view(), s.last().1.view())
    }
}

impl View for SymbolTable {
    type V = Map<Seq<char>, SpecStmt>;

    closed spec fn view(&self) -> Map<Seq<char>, SpecStmt> {
        entries_map(self.entries.view())
    }
}

/// If an entry's key matches and no later entry's key does, the map holds
/// that entry's declaration under the key.
proof fn lemma_entries_map_found(s: Seq<(String, Stmt)>, key: Seq<char>, i: int)
    requires
        0 <= i < s.len(),
        s[i].0.view() == key,
        forall|j: int| i < j < s.len() ==> (#[trigger] s[j]).0.view() != key,
    ensures
        entries_map(s).contains_key(key),
        entries_map(s)[key] == s[i].1.view(),
    decreases s.len(),
{
    if i < s.len() - 1 {
        lemma_entries_map_found(s.drop_last(), key, i);
    }
}

/// If no entry's key matches, the map has no binding for the key.
proof fn lemma_entries_map_missing(s: Seq<(String, Stmt)>, key: Seq<char>)
    requires
        forall|j: int| 0 <= j < s.len() ==> (#[trigger] s[j]).0.view() != key,
    ensures
        !entries_map(s).contains_key(key),
    decreases s.len(),
{
    if s.len() > 0 {
        lemma_entries_map_missing(s.drop_last(), key);
    }
}

impl SymbolTable {
    /// An empty store.
    pub fn new() -> (r: SymbolTable)
        ensures
            r@ == Map::<Seq<char>, SpecStmt>::empty(),
    {
        SymbolTable { entries: Vec::new() }
    }

    /// Registers a declaration under a key, overwriting any prior entry.
    pub fn insert(&mut self, key: &String, value: Stmt)
        ensures
            final(self)@ == old(self)@.insert(key@, value@),
    {
        self.entries.push((key.clone(), value));
        proof {
            assert(self.entries@.drop_last() =~= old(self).entries@);
        }
    }

    /// Looks up a key, returning a copy of the stored declaration.
    pub fn get(&self, key: &String) -> (r: Option<Stmt>)
        ensures
            match r {
                Some(s) => self@.contains_key(key@) && s@ == self@[key@],
                None => !self@.contains_key(key@),
            },
    {
        let n = self.entries.len();
        let mut i = n;
        while i > 0
            invariant
                i <= n,
                n == self.entries@.len(),
                forall|j: int| i <= j < n ==> (#[trigger] self.entries@[j]).0.view() != key@,
            decreases i,
        {
            i = i - 1;
            if self.entries[i].0 == *key {
                let found = clone_stmt(&self.entries[i].1);
                proof {
                    lemma_entries_map_found(self.entries@, key@, i as int);
                }
                return Some(found);
            }
        }
        proof {
            lemma_entries_map_missing(self.entries@, key@);
        }
        None
    }
}

} // verus!
