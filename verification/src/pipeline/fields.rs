//! Record payloads: a map from field names to string values.
use vstd::prelude::*;
use crate::text::str_eq;

verus! {

spec fn keys_distinct(s: Seq<(String, String)>) -> bool {
    forall|i: int, j: int|
        0 <= i < s.len() && 0 <= j < s.len() && i != j ==> s[i].0@ != s[j].0@
}

spec fn has_field(s: Seq<(String, String)>, k: Seq<char>) -> bool {
    exists|i: int| 0 <= i < s.len() && s[i].0@ == k
}

spec fn field_pos(s: Seq<(String, String)>, k: Seq<char>) -> int {
    choose|i: int| 0 <= i < s.len() && s[i].0@ == k
}

spec fn field_map(s: Seq<(String, String)>) -> Map<Seq<char>, Seq<char>> {
    Map::new(|k: Seq<char>| has_field(s, k), |k: Seq<char>| s[field_pos(s, k)].1@)
}

proof fn lemma_at(s: Seq<(String, String)>, i: int)
    requires
        keys_distinct(s),
        0 <= i < s.len(),
    ensures
        field_map(s).contains_key(s[i].0@),
        field_map(s)[s[i].0@] == s[i].1@,
{
    let k = s[i].0@;
    assert(has_field(s, k));
    let j = field_pos(s, k);
    assert(s[j].0@ == k);
}

proof fn lemma_push(s: Seq<(String, String)>, e: (String, String))
    requires
        keys_distinct(s),
        !field_map(s).contains_key(e.0@),
    ensures
        keys_distinct(s.push(e)),
        field_map(s.push(e)) == field_map(s).insert(e.0@, e.1@),
{
    let t = s.push(e);
    assert forall|i: int, j: int|
        0 <= i < t.len() && 0 <= j < t.len() && i != j implies t[i].0@ != t[j].0@ by {
        if i < s.len() && j < s.len() {
            assert(t[i] == s[i] && t[j] == s[j]);
        } else if i < s.len() {
            assert(t[i] == s[i]);
            assert(has_field(s, s[i].0@));
        } else {
            assert(t[j] == s[j]);
            assert(has_field(s, s[j].0@));
        }
    }
    assert forall|k: Seq<char>| has_field(t, k) == (has_field(s, k) || k == e.0@) by {
        if has_field(t, k) {
            let i = choose|i: int| 0 <= i < t.len() && t[i].0@ == k;
            if i < s.len() {
                assert(t[i] == s[i]);
            }
        }
        if has_field(s, k) {
            let i = choose|i: int| 0 <= i < s.len() && s[i].0@ == k;
            assert(t[i] == s[i]);
        }
        if k == e.0@ {
            assert(t[s.len() as int] == e);
        }
    }
    assert forall|k: Seq<char>| has_field(t, k) implies field_map(t)[k] == field_map(s).insert(
        e.0@,
        e.1@,
    )[k] by {
        let i = field_pos(t, k);
        lemma_at(t, i);
        if i < s.len() {
            assert(t[i] == s[i]);
            lemma_at(s, i);
        }
    }
    assert(field_map(t) =~= field_map(s).insert(e.0@, e.1@));
}

proof fn lemma_remove(s: Seq<(String, String)>, p: int)
    requires
        keys_distinct(s),
        0 <= p < s.len(),
    ensures
        keys_distinct(s.remove(p)),
        field_map(s.remove(p)) == field_map(s).remove(s[p].0@),
{
    let t = s.remove(p);
    let f = |i: int| if i < p { i } else { i + 1 };
    assert forall|i: int| 0 <= i < t.len() implies t[i] == s[f(i)] by {}
    assert forall|i: int, j: int|
        0 <= i < t.len() && 0 <= j < t.len() && i != j implies t[i].0@ != t[j].0@ by {
        assert(t[i] == s[f(i)] && t[j] == s[f(j)]);
    }
    assert forall|k: Seq<char>| has_field(t, k) == (has_field(s, k) && k != s[p].0@) by {
        if has_field(t, k) {
            let i = choose|i: int| 0 <= i < t.len() && t[i].0@ == k;
            assert(t[i] == s[f(i)]);
        }
        if has_field(s, k) && k != s[p].0@ {
            let i = choose|i: int| 0 <= i < s.len() && s[i].0@ == k;
            let j = if i < p { i } else { i - 1 };
            assert(t[j] == s[i]);
        }
    }
    assert forall|k: Seq<char>| has_field(t, k) implies field_map(t)[k] == field_map(s)[k] by {
        let i = field_pos(t, k);
        lemma_at(t, i);
        assert(t[i] == s[f(i)]);
        lemma_at(s, f(i));
    }
    assert(field_map(t) =~= field_map(s).remove(s[p].0@));
}

proof fn lemma_len(s: Seq<(String, String)>)
    requires
        keys_distinct(s),
    ensures
        field_map(s).dom().finite(),
        field_map(s).len() == s.len(),
    decreases s.len(),
{
    if s.len() == 0 {
        assert(field_map(s).dom() =~= Set::<Seq<char>>::empty());
    } else {
        let p = s.len() - 1;
        lemma_remove(s, p);
        lemma_len(s.remove(p));
        lemma_at(s, p);
        assert(field_map(s).dom() =~= field_map(s.remove(p)).dom().insert(s[p].0@));
    }
}

/// A set of named string fields; each name occurs at most once.
#[derive(Debug)]
pub struct Fields {
    entries: Vec<(String, String)>,
}

impl Fields {
    #[verifier::type_invariant]
    spec fn inv(self) -> bool {
        keys_distinct(self.entries@)
    }

    /// The map from field names to values.
    pub closed spec fn view(&self) -> Map<Seq<char>, Seq<char>> {
        field_map(self.entries@)
    }

    /// No fields.
    pub fn new() -> (f: Self)
        ensures
            f@ == Map::<Seq<char>, Seq<char>>::empty(),
    {
        let entries: Vec<(String, String)> = Vec::new();
        assert(entries@.len() == 0);
        let f = Fields { entries };
        assert(f@ =~= Map::<Seq<char>, Seq<char>>::empty());
        f
    }

    fn find(entries: &Vec<(String, String)>, key: &str) -> (r: Option<usize>)
        requires
            keys_distinct(entries@),
        ensures
            match r {
                Some(i) => i < entries@.len() && entries@[i as int].0@ == key@,
                None => !has_field(entries@, key@),
            },
    {
        let mut i: usize = 0;
        while i < entries.len()
            invariant
                i <= entries@.len(),
                forall|j: int| 0 <= j < i ==> entries@[j].0@ != key@,
            decreases entries@.len() - i,
        {
            if str_eq(entries[i].0.as_str(), key) {
                return Some(i);
            }
            i = i + 1;
        }
        None
    }

    /// The value of a field.
    pub fn get(&self, key: &str) -> (r: Option<&String>)
        ensures
            self@.contains_key(key@) ==> r is Some && r->0@ == self@[key@],
            !self@.contains_key(key@) ==> r is None,
    {
        proof {
            use_type_invariant(self);
        }
        match Self::find(&self.entries, key) {
            Some(i) => {
                proof {
                    lemma_at(self.entries@, i as int);
                }
                Some(&self.entries[i].1)
            },
            None => None,
        }
    }

    /// Whether a field is present.
    pub fn contains_key(&self, key: &str) -> (b: bool)
        ensures
            b == self@.contains_key(key@),
    {
        proof {
            use_type_invariant(self);
        }
        match Self::find(&self.entries, key) {
            Some(i) => {
                proof {
                    lemma_at(self.entries@, i as int);
                }
                true
            },
            None => false,
        }
    }

    /// Remove a field, returning its value.
    pub fn remove(&mut self, key: &str) -> (r: Option<String>)
        ensures
            final(self)@ == old(self)@.remove(key@),
            old(self)@.contains_key(key@) ==> r is Some && r->0@ == old(self)@[key@],
            !old(self)@.contains_key(key@) ==> r is None,
    {
        proof {
            use_type_invariant(&*self);
        }
        match Self::find(&self.entries, key) {
            Some(i) => {
                let mut entries: Vec<(String, String)> = Vec::new();
                std::mem::swap(&mut entries, &mut self.entries);
                proof {
                    lemma_at(entries@, i as int);
                    lemma_remove(entries@, i as int);
                }
                let (_k, v) = entries.remove(i);
                self.entries = entries;
                Some(v)
            },
            None => {
                assert(self@.remove(key@) =~= self@);
                None
            },
        }
    }

    /// Set a field, returning its previous value.
    pub fn insert(&mut self, key: String, value: String) -> (r: Option<String>)
        ensures
            final(self)@ == old(self)@.insert(key@, value@),
            old(self)@.contains_key(key@) ==> r is Some && r->0@ == old(self)@[key@],
            !old(self)@.contains_key(key@) ==> r is None,
    {
        let ghost k = key@;
        let old_value = self.remove(key.as_str());
        proof {
            use_type_invariant(&*self);
        }
        let mut entries: Vec<(String, String)> = Vec::new();
        std::mem::swap(&mut entries, &mut self.entries);
        proof {
            assert(!field_map(entries@).contains_key(k));
            lemma_push(entries@, (key, value));
        }
        entries.push((key, value));
        self.entries = entries;
        proof {
            assert(self@ =~= old(self)@.insert(k, value@));
        }
        old_value
    }

    /// Number of fields.
    pub fn len(&self) -> (n: usize)
        ensures
            n == self@.len(),
    {
        proof {
            use_type_invariant(self);
            lemma_len(self.entries@);
        }
        self.entries.len()
    }
}

impl Clone for Fields {
    /// A field-by-field copy.
    fn clone(&self) -> (c: Self)
        ensures
            c@ == self@,
    {
        proof {
            use_type_invariant(self);
        }
        let mut entries: Vec<(String, String)> = Vec::new();
        let mut i: usize = 0;
        while i < self.entries.len()
            invariant
                keys_distinct(self.entries@),
                i <= self.entries@.len(),
                entries@ == self.entries@.take(i as int),
            decreases self.entries@.len() - i,
        {
            let k = self.entries[i].0.clone();
            let v = self.entries[i].1.clone();
            entries.push((k, v));
            assert(self.entries@.take(i + 1) =~= self.entries@.take(i as int).push(self.entries@[i as int]));
            i = i + 1;
        }
        assert(entries@ =~= self.entries@);
        Fields { entries }
    }
}

} // verus!
