//! An insertion-ordered map from field names to values, used for the
//! custom fields of a deb `control` file.
use vstd::prelude::*;

verus! {

/// Custom `control` fields: each key occurs at most once, and the fields
/// keep the order in which their keys were first inserted.
pub struct FieldMap {
    entries: Vec<(String, String)>,
}

/// The keys of a sequence of fields are pairwise distinct.
pub open spec fn distinct_keys(s: Seq<(Seq<char>, Seq<char>)>) -> bool {
    forall|i: int, j: int| 0 <= i < j < s.len() ==> #[trigger] s[i].0 != #[trigger] s[j].0
}

/// The abstract value of a list of `(key, value)` string pairs.
pub open spec fn pairs_view(v: Seq<(String, String)>) -> Seq<(Seq<char>, Seq<char>)> {
    v.map_values(|p: (String, String)| (p.0@, p.1@))
}

/// What inserting `(k, v)` does to a field list: replace the value of an
/// existing key in place, or append a new field.
pub open spec fn insert_field(
    s: Seq<(Seq<char>, Seq<char>)>,
    k: Seq<char>,
    v: Seq<char>,
) -> Seq<(Seq<char>, Seq<char>)> {
    if exists|i: int| 0 <= i < s.len() && #[trigger] s[i].0 == k {
        let i = choose|i: int| 0 <= i < s.len() && #[trigger] s[i].0 == k;
        s.update(i, (k, v))
    } else {
        s.push((k, v))
    }
}

/// The value of key `k` in a field list: that of its first field, `None`
/// when no field has that key.
pub open spec fn field_value(s: Seq<(Seq<char>, Seq<char>)>, k: Seq<char>) -> Option<Seq<char>>
    decreases s.len(),
{
    if s.len() == 0 {
        None
    } else if s[0].0 == k {
        Some(s[0].1)
    } else {
        field_value(s.drop_first(), k)
    }
}

/// The value of a key is that of the field that holds it.
proof fn lemma_field_value_at(s: Seq<(Seq<char>, Seq<char>)>, i: int)
    requires
        distinct_keys(s),
        0 <= i < s.len(),
    ensures
        field_value(s, s[i].0) == Some(s[i].1),
    decreases s.len(),
{
    if i > 0 {
        assert(s[0].0 != s[i].0);
        assert(s.drop_first()[i - 1] == s[i]);
        lemma_field_value_at(s.drop_first(), i - 1);
    }
}

/// A key that no field holds has no value.
proof fn lemma_field_value_absent(s: Seq<(Seq<char>, Seq<char>)>, k: Seq<char>)
    requires
        forall|i: int| 0 <= i < s.len() ==> #[trigger] s[i].0 != k,
    ensures
        field_value(s, k) is None,
    decreases s.len(),
{
    if s.len() > 0 {
        assert(s[0].0 != k);
        assert forall|i: int| 0 <= i < s.drop_first().len() implies #[trigger] s.drop_first()[i].0 != k by {
            assert(s.drop_first()[i] == s[i + 1]);
        }
        lemma_field_value_absent(s.drop_first(), k);
    }
}

/// After inserting `(k, v)`, the value of `k` is `v`, every other key keeps
/// its value, and the keys stay distinct.
pub proof fn lemma_insert_field_value(s: Seq<(Seq<char>, Seq<char>)>, k: Seq<char>, v: Seq<char>, other: Seq<char>)
    requires
        distinct_keys(s),
    ensures
        distinct_keys(insert_field(s, k, v)),
        field_value(insert_field(s, k, v), k) == Some(v),
        other != k ==> field_value(insert_field(s, k, v), other) == field_value(s, other),
{
    let t = insert_field(s, k, v);
    if exists|i: int| 0 <= i < s.len() && #[trigger] s[i].0 == k {
        let i = choose|i: int| 0 <= i < s.len() && #[trigger] s[i].0 == k;
        assert(t == s.update(i, (k, v)));
        assert(distinct_keys(t)) by {
            assert forall|a: int, b: int| 0 <= a < b < t.len() implies #[trigger] t[a].0 != #[trigger] t[b].0 by {
                assert(t[a].0 == s[a].0);
                assert(t[b].0 == s[b].0);
            }
        }
        lemma_field_value_at(t, i);
        if other != k {
            if exists|j: int| 0 <= j < s.len() && #[trigger] s[j].0 == other {
                let j = choose|j: int| 0 <= j < s.len() && #[trigger] s[j].0 == other;
                lemma_field_value_at(s, j);
                lemma_field_value_at(t, j);
            } else {
                lemma_field_value_absent(s, other);
                assert forall|j: int| 0 <= j < t.len() implies #[trigger] t[j].0 != other by {
                    if j != i {
                        assert(t[j] == s[j]);
                    }
                }
                lemma_field_value_absent(t, other);
            }
        }
    } else {
        assert(t == s.push((k, v)));
        assert(distinct_keys(t)) by {
            assert forall|a: int, b: int| 0 <= a < b < t.len() implies #[trigger] t[a].0 != #[trigger] t[b].0 by {
                if b == s.len() {
                    assert(t[a] == s[a]);
                } else {
                    assert(t[a] == s[a]);
                    assert(t[b] == s[b]);
                }
            }
        }
        lemma_field_value_at(t, s.len() as int);
        if other != k {
            if exists|j: int| 0 <= j < s.len() && #[trigger] s[j].0 == other {
                let j = choose|j: int| 0 <= j < s.len() && #[trigger] s[j].0 == other;
                lemma_field_value_at(s, j);
                assert(t[j] == s[j]);
                lemma_field_value_at(t, j);
            } else {
                lemma_field_value_absent(s, other);
                assert forall|j: int| 0 <= j < t.len() implies #[trigger] t[j].0 != other by {
                    if j < s.len() {
                        assert(t[j] == s[j]);
                    }
                }
                lemma_field_value_absent(t, other);
            }
        }
    }
}

impl View for FieldMap {
    type V = Seq<(Seq<char>, Seq<char>)>;

    closed spec fn view(&self) -> Seq<(Seq<char>, Seq<char>)> {
        pairs_view(self.entries@)
    }
}

impl FieldMap {
    #[verifier::type_invariant]
    spec fn keys_distinct(self) -> bool {
        distinct_keys(pairs_view(self.entries@))
    }

    /// The value of the field with key `key`, if there is one.
    pub fn get(&self, key: &str) -> (res: Option<&String>)
        ensures
            match field_value(self@, key@) {
                Some(v) => res matches Some(r) && r@ == v,
                None => res is None,
            },
    {
        proof {
            use_type_invariant(self);
        }
        let wanted = String::from_str(key);
        let mut i: usize = 0;
        while i < self.entries.len()
            invariant
                i <= self.entries@.len(),
                wanted@ == key@,
                distinct_keys(pairs_view(self.entries@)),
                forall|j: int| 0 <= j < i ==> #[trigger] self@[j].0 != key@,
            decreases self.entries@.len() - i,
        {
            if self.entries[i].0 == wanted {
                proof {
                    assert(self@[i as int] == (self.entries@[i as int].0@, self.entries@[i as int].1@));
                    lemma_field_value_at(self@, i as int);
                }
                return Some(&self.entries[i].1);
            }
            i += 1;
        }
        proof {
            lemma_field_value_absent(self@, key@);
        }
        None
    }

    /// An empty field map.
    pub fn new() -> (res: FieldMap)
        ensures
            res@ == Seq::<(Seq<char>, Seq<char>)>::empty(),
    {
        let res = FieldMap { entries: Vec::new() };
        assert(pairs_view(res.entries@) =~= Seq::<(Seq<char>, Seq<char>)>::empty());
        assert(res@ =~= Seq::<(Seq<char>, Seq<char>)>::empty());
        res
    }

    /// Number of fields.
    pub fn len(&self) -> (res: usize)
        ensures
            res == self@.len(),
    {
        self.entries.len()
    }

    /// The `i`-th field, in insertion order.
    pub fn get_index(&self, i: usize) -> (res: (&String, &String))
        requires
            i < self@.len(),
        ensures
            (res.0@, res.1@) == self@[i as int],
    {
        let p = &self.entries[i];
        (&p.0, &p.1)
    }

    /// Set the value of `key`, keeping its position if it is already
    /// present; returns the value it had.
    pub fn insert(&mut self, key: String, value: String) -> (res: Option<String>)
        ensures
            final(self)@ == insert_field(old(self)@, key@, value@),
            distinct_keys(final(self)@),
            match field_value(old(self)@, key@) {
                Some(v) => res matches Some(r) && r@ == v,
                None => res is None,
            },
    {
        proof {
            use_type_invariant(&*self);
        }
        let ghost old_view = self@;
        let mut i: usize = 0;
        while i < self.entries.len()
            invariant
                old_view == old(self)@,
                old_view == pairs_view(self.entries@),
                distinct_keys(old_view),
                i <= self.entries@.len(),
                forall|j: int| 0 <= j < i ==> #[trigger] old_view[j].0 != key@,
            decreases self.entries@.len() - i,
        {
            if self.entries[i].0 == key {
                let mut entries: Vec<(String, String)> = Vec::new();
                std::mem::swap(&mut entries, &mut self.entries);
                let old_value = entries[i].1.clone();
                assert(old_view[i as int].1 == old_value@);
                entries.set(i, (key, value));
                proof {
                    assert(old_view[i as int].0 == key@);
                    let c = choose|j: int| 0 <= j < old_view.len() && #[trigger] old_view[j].0 == key@;
                    assert(c == i);
                    assert(pairs_view(entries@) =~= insert_field(old_view, key@, value@));
                    assert(distinct_keys(pairs_view(entries@)));
                }
                self.entries = entries;
                assert(self@ == insert_field(old_view, key@, value@));
                assert(old_view[i as int] == (key@, old_value@));
                proof {
                    lemma_field_value_at(old_view, i as int);
                }
                return Some(old_value);
            }
            i += 1;
        }
        let mut entries: Vec<(String, String)> = Vec::new();
        std::mem::swap(&mut entries, &mut self.entries);
        entries.push((key, value));
        proof {
            assert(pairs_view(entries@) =~= insert_field(old_view, key@, value@));
            assert(distinct_keys(pairs_view(entries@)));
        }
        self.entries = entries;
        proof {
            lemma_field_value_absent(old_view, key@);
        }
        None
    }
}

} // verus!
