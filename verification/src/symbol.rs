//! Symbols and the global symbol registry.
//!
//! A symbol value carries a unique identifier; the registry maps string
//! keys to symbols so that asking for the same key always yields the same
//! symbol, and asking a registered symbol for its key yields the string it
//! was registered under.

use vstd::prelude::*;

use crate::value::Value;

verus! {

/// A symbol's payload: its unique identifier and an optional description.
#[derive(Debug)]
pub struct SymbolInfo {
    pub id: usize,
    pub description: Option<String>,
}

impl SymbolInfo {
    /// The description, or the empty string when there is none.
    pub fn get_description_string<'a>(&'a self) -> (r: &'a str)
        ensures
            r@ == match self.description {
                Some(s) => s@,
                None => Seq::<char>::empty(),
            },
    {
        proof {
            reveal_strlit("");
        }
        match &self.description {
            Some(s) => s.as_str(),
            None => "",
        }
    }
}

/// The identifier the registry binds `key` to, if any: first match wins.
pub open spec fn reg_lookup_key(list: Seq<(String, usize)>, key: Seq<char>) -> Option<usize>
    decreases list.len(),
{
    if list.len() == 0 {
        None
    } else if list[0].0@ == key {
        Some(list[0].1)
    } else {
        reg_lookup_key(list.skip(1), key)
    }
}

/// The key the registry bound identifier `id` under, if any.
pub open spec fn reg_lookup_id(list: Seq<(String, usize)>, id: int) -> Option<Seq<char>>
    decreases list.len(),
{
    if list.len() == 0 {
        None
    } else if list[0].1 == id {
        Some(list[0].0@)
    } else {
        reg_lookup_id(list.skip(1), id)
    }
}

/// Registry well-formedness: every registered identifier is below the next
/// fresh one.
pub open spec fn registry_ok(list: Seq<(String, usize)>, next: int) -> bool {
    forall|i: int| 0 <= i < list.len() ==> (#[trigger] list[i]).1 < next
}

proof fn lemma_reg_id_push(list: Seq<(String, usize)>, e: (String, usize))
    requires
        forall|i: int| 0 <= i < list.len() ==> (#[trigger] list[i]).1 != e.1,
    ensures
        reg_lookup_id(list.push(e), e.1 as int) == Some(e.0@),
    decreases list.len(),
{
    let u = list.push(e);
    if list.len() == 0 {
        assert(u[0] == e);
    } else {
        assert(u[0] == list[0]);
        assert(list[0].1 != e.1);
        assert(u.skip(1) =~= list.skip(1).push(e));
        assert(forall|i: int|
            0 <= i < list.len() - 1 ==> (#[trigger] list.skip(1)[i]).1 != e.1) by {
            assert(forall|i: int| 0 <= i < list.len() - 1 ==> list.skip(1)[i] == list[i + 1]);
        }
        lemma_reg_id_push(list.skip(1), e);
    }
}

/// The global symbol registry.
#[derive(Debug)]
pub struct GlobalSymbolRegistry {
    list: Vec<(String, usize)>,
    next_id: usize,
}

impl GlobalSymbolRegistry {
    /// The registered keys and identifiers.
    pub closed spec fn entries(self) -> Seq<(String, usize)> {
        self.list@
    }

    /// The identifier the next fresh symbol will carry.
    pub closed spec fn fresh(self) -> int {
        self.next_id as int
    }

    /// Whether the registry is well-formed.
    pub open spec fn wf(self) -> bool {
        &&& 0 <= self.fresh()
        &&& registry_ok(self.entries(), self.fresh())
    }

    /// An empty registry.
    pub fn new() -> (r: Self)
        ensures
            r.entries().len() == 0,
            r.wf(),
    {
        GlobalSymbolRegistry { list: Vec::new(), next_id: 0 }
    }

    /// The symbol registered under `key`; a key seen for the first time is
    /// bound to a fresh symbol. Asking twice for one key yields one symbol.
    pub fn for_(&mut self, key: String) -> (r: Value)
        requires
            old(self).wf(),
        ensures
            final(self).wf(),
            match reg_lookup_key(old(self).entries(), key@) {
                Some(id) => {
                    &&& r == Value::Symbol(id)
                    &&& final(self).entries() == old(self).entries()
                },
                None => {
                    &&& r == Value::Symbol(old(self).fresh() as usize)
                    &&& old(self).fresh() < usize::MAX ==> {
                        &&& final(self).entries().len() == old(self).entries().len() + 1
                        &&& reg_lookup_id(final(self).entries(), old(self).fresh())
                            == Some(key@)
                        &&& (forall|k2: Seq<char>|
                            #[trigger] reg_lookup_key(final(self).entries(), k2) == if k2 == key@ {
                                Some(old(self).fresh() as usize)
                            } else {
                                reg_lookup_key(old(self).entries(), k2)
                            })
                    }
                },
            },
    {
        let n = self.list.len();
        let mut i: usize = 0;
        while i < n
            invariant
                i <= n,
                n == self.list@.len(),
                self.list@ == old(self).list@,
                self.next_id == old(self).next_id,
                registry_ok(self.list@, self.next_id as int),
                forall|j: int| 0 <= j < i ==> (#[trigger] self.list@[j]).0@ != key@,
            decreases n - i,
        {
            if self.list[i].0.eq(&key) {
                proof {
                    lemma_reg_key_skip(self.list@, i as int, key@);
                    assert(self.list@.skip(i as int)[0] == self.list@[i as int]);
                }
                return Value::Symbol(self.list[i].1);
            }
            i = i + 1;
        }
        proof {
            lemma_reg_key_skip(self.list@, n as int, key@);
            assert(self.list@.skip(n as int) =~= Seq::<(String, usize)>::empty());
        }
        let id = self.next_id;
        if self.next_id < usize::MAX {
            let entry = (key, id);
            let ghost e = entry;
            let ghost list0 = self.list@;
            self.list.push(entry);
            self.next_id = self.next_id + 1;
            proof {
                assert(self.list@ =~= list0.push(e));
                assert forall|j: int| 0 <= j < list0.len() implies (#[trigger] list0[j]).1
                    != e.1 by {
                    assert(list0[j].1 < id);
                }
                lemma_reg_id_push(list0, e);
                assert forall|k2: Seq<char>|
                    #[trigger] reg_lookup_key(self.list@, k2) == if k2 == e.0@ {
                        Some(id)
                    } else {
                        reg_lookup_key(list0, k2)
                    } by {
                    lemma_reg_key_push(list0, e, k2);
                }
            }
        }
        Value::Symbol(id)
    }

    /// The key a registered symbol was bound under, as a string value;
    /// `Undefined` for anything else.
    pub fn key_for(&self, sym: &Value) -> (r: Value)
        ensures
            match *sym {
                Value::Symbol(id) => match reg_lookup_id(self.entries(), id as int) {
                    Some(k) => r matches Value::Str(s) && s@ == k,
                    None => r == Value::Undefined,
                },
                _ => r == Value::Undefined,
            },
    {
        let id = match sym {
            Value::Symbol(i) => *i,
            _ => {
                return Value::Undefined;
            },
        };
        let n = self.list.len();
        let mut i: usize = 0;
        while i < n
            invariant
                i <= n,
                n == self.list@.len(),
                *sym == Value::Symbol(id),
                forall|j: int| 0 <= j < i ==> (#[trigger] self.list@[j]).1 != id,
            decreases n - i,
        {
            if self.list[i].1 == id {
                proof {
                    lemma_reg_id_skip(self.list@, i as int, id as int);
                    assert(self.list@.skip(i as int)[0] == self.list@[i as int]);
                }
                return Value::Str(self.list[i].0.clone());
            }
            i = i + 1;
        }
        proof {
            lemma_reg_id_skip(self.list@, n as int, id as int);
            assert(self.list@.skip(n as int) =~= Seq::<(String, usize)>::empty());
        }
        Value::Undefined
    }
}

proof fn lemma_reg_key_skip(list: Seq<(String, usize)>, i: int, key: Seq<char>)
    requires
        0 <= i <= list.len(),
        forall|j: int| 0 <= j < i ==> (#[trigger] list[j]).0@ != key,
    ensures
        reg_lookup_key(list, key) == reg_lookup_key(list.skip(i), key),
    decreases i,
{
    if i == 0 {
        assert(list.skip(0) =~= list);
    } else {
        assert(list[0].0@ != key);
        assert(forall|j: int|
            0 <= j < i - 1 ==> (#[trigger] list.skip(1)[j]).0@ != key) by {
            assert(forall|j: int| 0 <= j < i - 1 ==> list.skip(1)[j] == list[j + 1]);
        }
        lemma_reg_key_skip(list.skip(1), i - 1, key);
        assert(list.skip(1).skip(i - 1) =~= list.skip(i));
    }
}

proof fn lemma_reg_id_skip(list: Seq<(String, usize)>, i: int, id: int)
    requires
        0 <= i <= list.len(),
        forall|j: int| 0 <= j < i ==> (#[trigger] list[j]).1 != id,
    ensures
        reg_lookup_id(list, id) == reg_lookup_id(list.skip(i), id),
    decreases i,
{
    if i == 0 {
        assert(list.skip(0) =~= list);
    } else {
        assert(list[0].1 != id);
        assert(forall|j: int| 0 <= j < i - 1 ==> (#[trigger] list.skip(1)[j]).1 != id) by {
            assert(forall|j: int| 0 <= j < i - 1 ==> list.skip(1)[j] == list[j + 1]);
        }
        lemma_reg_id_skip(list.skip(1), i - 1, id);
        assert(list.skip(1).skip(i - 1) =~= list.skip(i));
    }
}

proof fn lemma_reg_key_push(list: Seq<(String, usize)>, e: (String, usize), k2: Seq<char>)
    requires
        forall|j: int| 0 <= j < list.len() ==> (#[trigger] list[j]).0@ != e.0@,
    ensures
        reg_lookup_key(list.push(e), k2) == if k2 == e.0@ {
            Some(e.1)
        } else {
            reg_lookup_key(list, k2)
        },
    decreases list.len(),
{
    let u = list.push(e);
    if list.len() == 0 {
        assert(u[0] == e);
        if k2 != e.0@ {
            assert(u.skip(1) =~= Seq::<(String, usize)>::empty());
        }
    } else {
        assert(u[0] == list[0]);
        if k2 == list[0].0@ {
        } else {
            assert(u.skip(1) =~= list.skip(1).push(e));
            assert(forall|j: int|
                0 <= j < list.len() - 1 ==> (#[trigger] list.skip(1)[j]).0@ != e.0@) by {
                assert(forall|j: int| 0 <= j < list.len() - 1 ==> list.skip(1)[j] == list[j + 1]);
            }
            lemma_reg_key_push(list.skip(1), e, k2);
        }
    }
}

} // verus!
