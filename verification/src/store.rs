use vstd::prelude::*;

use crate::strutil::str_eq;
use crate::value::{clone_value, Value, ValueV, value_rep};

verus! {

/// The run's named-value environment: name to JSON-shaped value, last write
/// wins. Kept as an association list; viewed as a map from character
/// sequences to value shapes.
#[derive(Debug)]
pub struct VarStore {
    entries: Vec<(String, Value)>,
}

/// The map an association list denotes when its later entries win.
pub open spec fn store_map(entries: Seq<(String, Value)>) -> Map<Seq<char>, ValueV>
    decreases entries,
{
    if entries.len() == 0 {
        Map::empty()
    } else {
        store_map(entries.drop_last()).insert(entries.last().0@, value_rep(entries.last().1))
    }
}

proof fn lemma_store_absent(entries: Seq<(String, Value)>, k: Seq<char>)
    requires
        forall|i: int| 0 <= i < entries.len() ==> entries[i].0@ != k,
    ensures
        !store_map(entries).contains_key(k),
    decreases entries,
{
    if entries.len() > 0 {
        lemma_store_absent(entries.drop_last(), k);
    }
}

proof fn lemma_store_get_last(entries: Seq<(String, Value)>, i: int, k: Seq<char>)
    requires
        0 <= i < entries.len(),
        entries[i].0@ == k,
        forall|j: int| i < j < entries.len() ==> entries[j].0@ != k,
    ensures
        store_map(entries).contains_key(k),
        store_map(entries)[k] == value_rep(entries[i].1),
    decreases entries,
{
    if i == entries.len() - 1 {
    } else {
        assert(entries.drop_last()[i] == entries[i]);
        lemma_store_get_last(entries.drop_last(), i, k);
    }
}

impl VarStore {
    pub closed spec fn view(&self) -> Map<Seq<char>, ValueV> {
        store_map(self.entries@)
    }

    /// An empty store.
    pub fn new() -> (r: VarStore)
        ensures
            r@ == Map::<Seq<char>, ValueV>::empty(),
    {
        VarStore { entries: Vec::new() }
    }

    /// Drop every entry bound to the name, handing back the value that won.
    fn purge(&mut self, var: &str) -> (r: Option<Value>)
        ensures
            final(self)@ == old(self)@.remove(var@),
            match r {
                Some(v) => old(self)@.contains_key(var@) && v@ == old(self)@[var@],
                None => !old(self)@.contains_key(var@),
            },
    {
        let ghost orig = self.entries@;
        let ghost k = var@;
        let mut kept: Vec<(String, Value)> = Vec::new();
        let mut found: Option<Value> = None;
        let mut i: usize = 0;
        while i < self.entries.len()
            invariant
                self.entries@ == orig,
                i <= orig.len(),
                store_map(kept@) == store_map(orig.take(i as int)).remove(k),
                k == var@,
                match found {
                    Some(v) => store_map(orig.take(i as int)).contains_key(k) && v@ == store_map(
                        orig.take(i as int),
                    )[k],
                    None => !store_map(orig.take(i as int)).contains_key(k),
                },
            decreases orig.len() - i,
        {
            let entry = &self.entries[i];
            proof {
                assert(orig.take(i + 1).drop_last() =~= orig.take(i as int));
                assert(orig.take(i + 1).last() == orig[i as int]);
            }
            if str_eq(entry.0.as_str(), var) {
                found = Some(clone_value(&entry.1));
                proof {
                    assert(store_map(orig.take(i + 1)).remove(k) =~= store_map(
                        orig.take(i as int),
                    ).remove(k));
                }
            } else {
                let cloned_key = entry.0.clone();
                let cloned_val = clone_value(&entry.1);
                let ghost kept0 = kept@;
                kept.push((cloned_key, cloned_val));
                proof {
                    assert(kept@.drop_last() =~= kept0);
                    assert(kept@.last().0@ == orig[i as int].0@);
                    assert(value_rep(kept@.last().1) == value_rep(orig[i as int].1));
                    assert(store_map(kept@) == store_map(kept0).insert(
                        orig[i as int].0@,
                        value_rep(orig[i as int].1),
                    ));
                    assert(store_map(kept@) =~= store_map(orig.take(i + 1)).remove(k));
                }
            }
            i += 1;
        }
        proof {
            assert(orig.take(orig.len() as int) =~= orig);
        }
        self.entries = kept;
        found
    }

    /// Bind a name to a value; an earlier binding of the same name is gone.
    pub fn set(&mut self, var: String, value: Value)
        ensures
            final(self)@ == old(self)@.insert(var@, value@),
    {
        let ghost varv: Seq<char> = var@;
        let ghost valv: ValueV = value@;
        let _ = self.purge(var.as_str());
        let ghost mid = self.entries@;
        self.entries.push((var, value));
        proof {
            assert(self.entries@.drop_last() =~= mid);
            assert(self.entries@.last().0@ == varv && value_rep(self.entries@.last().1) == valv);
            assert(store_map(self.entries@) == store_map(mid).insert(varv, valv));
            assert(store_map(self.entries@) =~= old(self)@.insert(varv, valv));
        }
    }

    /// The value bound to a name, if any.
    pub fn get(&self, var: &str) -> (r: Option<&Value>)
        ensures
            match r {
                Some(v) => self@.contains_key(var@) && v@ == self@[var@],
                None => !self@.contains_key(var@),
            },
    {
        let mut i: usize = self.entries.len();
        while i > 0
            invariant
                i <= self.entries@.len(),
                forall|j: int| i <= j < self.entries@.len() ==> self.entries@[j].0@ != var@,
            decreases i,
        {
            i -= 1;
            if str_eq(self.entries[i].0.as_str(), var) {
                proof {
                    lemma_store_get_last(self.entries@, i as int, var@);
                }
                return Some(&self.entries[i].1);
            }
        }
        proof {
            lemma_store_absent(self.entries@, var@);
        }
        None
    }

    /// Unbind a name, handing its value back.
    pub fn take(&mut self, var: &str) -> (r: Option<Value>)
        ensures
            final(self)@ == old(self)@.remove(var@),
            match r {
                Some(v) => old(self)@.contains_key(var@) && v@ == old(self)@[var@],
                None => !old(self)@.contains_key(var@),
            },
    {
        self.purge(var)
    }
}

} // verus!
