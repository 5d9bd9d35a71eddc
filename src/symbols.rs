//! The symbol table: label names and their 12-bit addresses.
use vstd::prelude::*;

verus! {

#[derive(Clone, Debug, PartialEq)]
pub struct Symbol {
    pub name: String,
    pub address: u16,
}

/// The address of the first entry with the given name.
pub open spec fn lookup(entries: Seq<Symbol>, name: Seq<char>) -> Option<u16>
    decreases entries.len(),
{
    if entries.len() == 0 {
        None
    } else if entries[0].name@ == name {
        Some(entries[0].address)
    } else {
        lookup(entries.drop_first(), name)
    }
}

pub proof fn lemma_lookup_push(entries: Seq<Symbol>, e: Symbol, name: Seq<char>)
    ensures
        lookup(entries.push(e), name) == (match lookup(entries, name) {
            Some(a) => Some(a),
            None => if e.name@ == name { Some(e.address) } else { None },
        }),
    decreases entries.len(),
{
    if entries.len() > 0 {
        assert(entries.push(e).drop_first() =~= entries.drop_first().push(e));
        assert(entries.push(e)[0] == entries[0]);
        lemma_lookup_push(entries.drop_first(), e, name);
    } else {
        assert(entries.push(e).drop_first() =~= Seq::<Symbol>::empty());
        assert(entries.push(e)[0] == e);
        assert(lookup(Seq::<Symbol>::empty(), name) is None);
    }
}

pub proof fn lemma_lookup_suffix(entries: Seq<Symbol>, i: int, name: Seq<char>)
    requires
        0 <= i < entries.len(),
    ensures
        lookup(entries.subrange(i, entries.len() as int), name) == (if entries[i].name@ == name {
            Some(entries[i].address)
        } else {
            lookup(entries.subrange(i + 1, entries.len() as int), name)
        }),
{
    assert(entries.subrange(i, entries.len() as int).drop_first() =~= entries.subrange(i + 1, entries.len() as int));
}

pub proof fn lemma_lookup_absent(entries: Seq<Symbol>, name: Seq<char>, i: int)
    requires
        lookup(entries, name) is None,
        0 <= i < entries.len(),
    ensures
        entries[i].name@ != name,
    decreases entries.len(),
{
    if i > 0 {
        assert(entries.drop_first()[i - 1] == entries[i]);
        lemma_lookup_absent(entries.drop_first(), name, i - 1);
    }
}

pub proof fn lemma_lookup_found(entries: Seq<Symbol>, name: Seq<char>)
    ensures
        lookup(entries, name) matches Some(a) ==> exists|i: int| 0 <= i < entries.len() && entries[i].name@ == name && entries[i].address == a,
    decreases entries.len(),
{
    if entries.len() > 0 && entries[0].name@ != name {
        lemma_lookup_found(entries.drop_first(), name);
        if let Some(a) = lookup(entries, name) {
            let i = choose|i: int| 0 <= i < entries.drop_first().len() && entries.drop_first()[i].name@ == name && entries.drop_first()[i].address == a;
            assert(entries[i + 1] == entries.drop_first()[i]);
        }
    }
}

/// Label names with their addresses; no name appears twice.
#[derive(Clone, Debug)]
pub struct SymbolTable {
    entries: Vec<Symbol>,
}

impl SymbolTable {
    pub closed spec fn entries(&self) -> Seq<Symbol> {
        self.entries@
    }

    /// The address recorded for a name.
    pub open spec fn get_spec(&self, name: Seq<char>) -> Option<u16> {
        lookup(self.entries(), name)
    }

    /// Every recorded address fits in twelve bits, and no name is recorded twice.
    pub open spec fn wf(&self) -> bool {
        &&& forall|n: Seq<char>| #[trigger] self.get_spec(n) matches Some(a) ==> a < 4096
        &&& forall|i: int, j: int| 0 <= i < j < self.entries().len()
            ==> (#[trigger] self.entries()[i]).name@ != (#[trigger] self.entries()[j]).name@
    }

    pub fn new() -> (r: SymbolTable)
        ensures
            r.wf(),
            forall|n: Seq<char>| #[trigger] r.get_spec(n) is None,
    {
        SymbolTable { entries: Vec::new() }
    }

    pub fn len(&self) -> (r: usize)
        ensures
            r == self.entries().len(),
    {
        self.entries.len()
    }

    /// The address of a name, looked up by its text.
    pub fn lookup(&self, name: &String) -> (r: Option<u16>)
        ensures
            r == self.get_spec(name@),
    {
        let mut i: usize = 0;
        assert(self.entries@.subrange(0, self.entries@.len() as int) =~= self.entries@);
        while i < self.entries.len()
            invariant
                i <= self.entries@.len(),
                lookup(self.entries@.subrange(i as int, self.entries@.len() as int), name@) == self.get_spec(name@),
            decreases self.entries@.len() - i,
        {
            proof {
                lemma_lookup_suffix(self.entries@, i as int, name@);
            }
            if self.entries[i].name == *name {
                return Some(self.entries[i].address);
            }
            i = i + 1;
        }
        assert(self.entries@.subrange(i as int, self.entries@.len() as int) =~= Seq::<Symbol>::empty());
        None
    }

    /// The address of a name.
    pub fn get(&self, name: &str) -> (r: Option<u16>)
        ensures
            r == self.get_spec(name@),
    {
        let owned = name.to_owned();
        self.lookup(&owned)
    }

    /// Records a name that is not in the table yet.
    pub fn insert(&mut self, name: String, address: u16)
        requires
            old(self).get_spec(name@) is None,
        ensures
            old(self).wf() && address < 4096 ==> final(self).wf(),
            forall|n: Seq<char>| #[trigger] final(self).get_spec(n)
                == (if n == name@ { Some(address) } else { old(self).get_spec(n) }),
    {
        let ghost old_entries = self.entries@;
        let ghost nm = name@;
        let e = Symbol { name, address };
        self.entries.push(e);
        proof {
            assert forall|n: Seq<char>| #[trigger] self.get_spec(n)
                == (if n == nm { Some(address) } else { old(self).get_spec(n) }) by {
                lemma_lookup_push(old_entries, e, n);
            }
            assert forall|i: int| 0 <= i < old_entries.len() implies old_entries[i].name@ != nm by {
                lemma_lookup_absent(old_entries, nm, i);
            }
        }
    }
}

} // verus!
