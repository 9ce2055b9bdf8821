//! Ordered tables of typed configuration parameters.
//!
//! Override and parameter tables are ordered mappings from string keys to a
//! small closed set of value shapes (string, boolean, integer, list of
//! strings).  A table keeps its entries in insertion order and never holds a
//! key twice; replacing a value keeps the key's position.

use crate::strutil;
use crate::strutil::str_eq;
use vstd::prelude::*;
use vstd::string::StringExecFns;

verus! {

/// One configuration value.
#[derive(Debug)]
pub enum ParamValue {
    Str(String),
    Bool(bool),
    Int(i64),
    StrList(Vec<String>),
}

/// The mathematical shape of a [`ParamValue`].
#[verifier::ext_equal]
pub enum ValModel {
    Str(Seq<char>),
    Bool(bool),
    Int(int),
    StrList(Seq<Seq<char>>),
}

impl ParamValue {
    /// The value's mathematical shape.
    pub open spec fn model(self) -> ValModel {
        match self {
            ParamValue::Str(s) => ValModel::Str(s@),
            ParamValue::Bool(b) => ValModel::Bool(b),
            ParamValue::Int(i) => ValModel::Int(i as int),
            ParamValue::StrList(v) => ValModel::StrList(strutil::views(v@)),
        }
    }

    /// A copy with the same model.
    pub fn duplicate(&self) -> (r: Self)
        ensures
            r.model() == self.model(),
    {
        match self {
            ParamValue::Str(s) => ParamValue::Str(s.clone()),
            ParamValue::Bool(b) => ParamValue::Bool(*b),
            ParamValue::Int(i) => ParamValue::Int(*i),
            ParamValue::StrList(v) => {
                let mut copy: Vec<String> = Vec::new();
                let mut i: usize = 0;
                while i < v.len()
                    invariant
                        i <= v@.len(),
                        copy@.len() == i,
                        forall|j: int| 0 <= j < i ==> copy@[j]@ == v@[j]@,
                    decreases v@.len() - i,
                {
                    copy.push(v[i].clone());
                    i += 1;
                }
                proof {
                    assert(strutil::views(copy@) =~= strutil::views(v@));
                }
                ParamValue::StrList(copy)
            },
        }
    }

    /// Decides deep equality of the models.
    pub fn deep_eq(&self, other: &Self) -> (r: bool)
        ensures
            r == (self.model() == other.model()),
    {
        match (self, other) {
            (ParamValue::Str(a), ParamValue::Str(b)) => str_eq(a.as_str(), b.as_str()),
            (ParamValue::Bool(a), ParamValue::Bool(b)) => a == b,
            (ParamValue::Int(a), ParamValue::Int(b)) => a == b,
            (ParamValue::StrList(a), ParamValue::StrList(b)) => {
                if a.len() != b.len() {
                    assert(strutil::views(a@).len() != strutil::views(b@).len());
                    return false;
                }
                let mut i: usize = 0;
                while i < a.len()
                    invariant
                        self.model() == ValModel::StrList(strutil::views(a@)),
                        other.model() == ValModel::StrList(strutil::views(b@)),
                        a@.len() == b@.len(),
                        i <= a@.len(),
                        forall|j: int| 0 <= j < i ==> a@[j]@ == b@[j]@,
                    decreases a@.len() - i,
                {
                    if !str_eq(a[i].as_str(), b[i].as_str()) {
                        proof {
                            assert(strutil::views(a@)[i as int] != strutil::views(b@)[i as int]);
                            assert(strutil::views(a@) != strutil::views(b@));
                            assert(self.model() == ValModel::StrList(strutil::views(a@)));
                            assert(other.model() == ValModel::StrList(strutil::views(b@)));
                        }
                        return false;
                    }
                    i += 1;
                }
                proof {
                    assert(strutil::views(a@) =~= strutil::views(b@));
                }
                true
            },
            _ => {
                assert(self.model() != other.model());
                false
            },
        }
    }
}

/// One key/value pair of a table.
#[derive(Debug)]
pub struct ParamEntry {
    pub key: String,
    pub value: ParamValue,
}

/// The mathematical model of a table: key views paired with value models, in
/// entry order.
pub type TableModel = Seq<(Seq<char>, ValModel)>;

/// The keys of a table model, in order.
pub open spec fn model_keys(m: TableModel) -> Seq<Seq<char>> {
    m.map_values(|p: (Seq<char>, ValModel)| p.0)
}

/// The index of the first entry whose key is `k`, or a negative number when
/// no entry has it.
pub open spec fn key_index(m: TableModel, k: Seq<char>) -> int
    decreases m.len(),
{
    if m.len() == 0 {
        -1
    } else if m[0].0 == k {
        0
    } else {
        let r = key_index(m.subrange(1, m.len() as int), k);
        if r < 0 {
            -1
        } else {
            r + 1
        }
    }
}

/// What `key_index` finds: the first entry bound to `k`, or nothing at all.
pub proof fn lemma_key_index(m: TableModel, k: Seq<char>)
    ensures
        key_index(m, k) >= 0 ==> {
            &&& key_index(m, k) < m.len()
            &&& m[key_index(m, k)].0 == k
            &&& forall|j: int| 0 <= j < key_index(m, k) ==> m[j].0 != k
        },
        key_index(m, k) < 0 ==> forall|j: int| 0 <= j < m.len() ==> m[j].0 != k,
    decreases m.len(),
{
    if m.len() > 0 && m[0].0 != k {
        let m1 = m.subrange(1, m.len() as int);
        lemma_key_index(m1, k);
        assert forall|j: int| 1 <= j < m.len() implies m[j] == m1[j - 1] by {}
    }
}

/// Any first occurrence determines `key_index`.
pub proof fn lemma_key_index_is_first(m: TableModel, k: Seq<char>, i: int)
    requires
        0 <= i < m.len(),
        m[i].0 == k,
        forall|j: int| 0 <= j < i ==> m[j].0 != k,
    ensures
        key_index(m, k) == i,
    decreases i,
{
    if i > 0 {
        let m1 = m.subrange(1, m.len() as int);
        assert(m1[i - 1] == m[i]);
        assert forall|j: int| 0 <= j < i - 1 implies m1[j].0 != k by {
            assert(m1[j] == m[j + 1]);
        }
        lemma_key_index_is_first(m1, k, i - 1);
    }
}

/// The value bound to `k`, if any (first occurrence).
pub open spec fn table_get(m: TableModel, k: Seq<char>) -> Option<ValModel> {
    if key_index(m, k) < 0 {
        None
    } else {
        Some(m[key_index(m, k)].1)
    }
}

/// Whether `k` is bound in the model.
pub open spec fn table_has(m: TableModel, k: Seq<char>) -> bool {
    table_get(m, k) is Some
}

/// The model after binding `k` to `v`: replaces in place when `k` is already
/// bound, appends otherwise.
pub open spec fn table_set(m: TableModel, k: Seq<char>, v: ValModel) -> TableModel {
    if key_index(m, k) < 0 {
        m.push((k, v))
    } else {
        m.update(key_index(m, k), (k, v))
    }
}

/// Where `k` sits after a set: at its old place, or appended at the end.
pub proof fn lemma_table_set_index(m: TableModel, k: Seq<char>, v: ValModel)
    ensures
        key_index(m, k) < 0 ==> key_index(table_set(m, k, v), k) == m.len(),
        key_index(m, k) >= 0 ==> key_index(table_set(m, k, v), k) == key_index(m, k),
{
    lemma_key_index(m, k);
    let t = table_set(m, k, v);
    if key_index(m, k) < 0 {
        lemma_key_index_is_first(t, k, m.len() as int);
    } else {
        lemma_key_index_is_first(t, k, key_index(m, k));
    }
}

/// The keys after a set: unchanged when `k` was bound, extended by `k`
/// otherwise.
pub proof fn lemma_table_set_keys(m: TableModel, k: Seq<char>, v: ValModel)
    ensures
        table_has(m, k) ==> model_keys(table_set(m, k, v)) == model_keys(m),
        !table_has(m, k) ==> model_keys(table_set(m, k, v)) == model_keys(m).push(k),
{
    lemma_key_index(m, k);
    let t = table_set(m, k, v);
    if key_index(m, k) < 0 {
        assert(model_keys(t) =~= model_keys(m).push(k));
    } else {
        assert(model_keys(t) =~= model_keys(m));
    }
}

/// An ordered table of parameters with pairwise distinct keys.
#[derive(Debug)]
pub struct ParamTable {
    pub entries: Vec<ParamEntry>,
}

impl ParamTable {
    /// The table's mathematical model.
    pub open spec fn model(self) -> TableModel {
        self.entries@.map_values(|e: ParamEntry| (e.key@, e.value.model()))
    }

    /// The table's keys, in entry order.
    pub open spec fn keys(self) -> Seq<Seq<char>> {
        model_keys(self.model())
    }

    /// Well-formed: no key occurs twice.
    pub open spec fn wf(self) -> bool {
        forall|i: int, j: int| 0 <= i < j < self.keys().len() ==> self.keys()[i] != self.keys()[j]
    }

    /// What `k` is bound to.
    pub open spec fn spec_get(self, k: Seq<char>) -> Option<ValModel> {
        table_get(self.model(), k)
    }

    /// Whether `k` is bound.
    pub open spec fn has(self, k: Seq<char>) -> bool {
        table_has(self.model(), k)
    }

    /// The empty table.
    pub fn new() -> (r: Self)
        ensures
            r.model() == Seq::<(Seq<char>, ValModel)>::empty(),
            r.wf(),
    {
        let r = ParamTable { entries: Vec::new() };
        proof {
            assert(r.model() =~= Seq::<(Seq<char>, ValModel)>::empty());
        }
        r
    }

    /// The number of entries.
    pub fn len(&self) -> (r: usize)
        ensures
            r == self.model().len(),
    {
        self.entries.len()
    }

    /// The key of the entry at `i`.
    pub fn key_at(&self, i: usize) -> (r: &String)
        requires
            i < self.model().len(),
        ensures
            r@ == self.model()[i as int].0,
    {
        &self.entries[i].key
    }

    /// The value of the entry at `i`.
    pub fn value_at(&self, i: usize) -> (r: &ParamValue)
        requires
            i < self.model().len(),
        ensures
            r.model() == self.model()[i as int].1,
    {
        &self.entries[i].value
    }

    /// Looks `k` up.
    pub fn get(&self, k: &str) -> (r: Option<&ParamValue>)
        ensures
            match r {
                Some(v) => self.spec_get(k@) == Some(v.model()),
                None => self.spec_get(k@) is None,
            },
    {
        let n = self.entries.len();
        let mut i: usize = 0;
        while i < n
            invariant
                n == self.model().len(),
                i <= n,
                forall|j: int| 0 <= j < i ==> self.model()[j].0 != k@,
            decreases n - i,
        {
            if str_eq(self.entries[i].key.as_str(), k) {
                proof {
                    lemma_key_index_is_first(self.model(), k@, i as int);
                }
                return Some(&self.entries[i].value);
            }
            i += 1;
        }
        proof {
            lemma_key_index(self.model(), k@);
            assert(key_index(self.model(), k@) < 0) by {
                if key_index(self.model(), k@) >= 0 {
                    assert(self.model()[key_index(self.model(), k@)].0 == k@);
                }
            }
        }
        None
    }

    /// Whether the table binds `k`.
    pub fn contains_key(&self, k: &str) -> (r: bool)
        ensures
            r == self.has(k@),
    {
        match self.get(k) {
            Some(_) => true,
            None => false,
        }
    }

    /// Binds `k` to `v`, replacing in place or appending.
    pub fn insert(&mut self, k: String, v: ParamValue)
        requires
            old(self).wf(),
        ensures
            final(self).wf(),
            final(self).model() == table_set(old(self).model(), k@, v.model()),
    {
        let ghost m0 = self.model();
        let n = self.entries.len();
        let mut i: usize = 0;
        while i < n
            invariant
                old(self).wf(),
                self == old(self),
                m0 == self.model(),
                n == self.model().len(),
                i <= n,
                forall|j: int| 0 <= j < i ==> self.model()[j].0 != k@,
            decreases n - i,
        {
            if str_eq(self.entries[i].key.as_str(), k.as_str()) {
                let ghost mv = v.model();
                let _ = self.entries.remove(i);
                self.entries.insert(i, ParamEntry { key: k, value: v });
                proof {
                    assert(self.model() =~= m0.update(i as int, (k@, mv)));
                    lemma_key_index_is_first(m0, k@, i as int);
                    assert(self.model() == table_set(m0, k@, mv));
                    assert(model_keys(self.model()) =~= model_keys(m0));
                    assert forall|x: int, y: int|
                        0 <= x < y < self.keys().len() implies self.keys()[x] != self.keys()[y] by {
                        assert(old(self).keys()[x] != old(self).keys()[y]);
                    }
                }
                return ;
            }
            i += 1;
        }
        let ghost mv = v.model();
        self.entries.push(ParamEntry { key: k, value: v });
        proof {
            assert(self.model() =~= m0.push((k@, mv)));
            lemma_key_index(m0, k@);
            assert(key_index(m0, k@) < 0) by {
                if key_index(m0, k@) >= 0 {
                    assert(m0[key_index(m0, k@)].0 == k@);
                }
            }
            assert(self.model() == table_set(m0, k@, mv));
            assert(model_keys(m0.push((k@, mv))) =~= model_keys(m0).push(k@));
            assert forall|a: int, b: int|
                0 <= a < b < self.keys().len() implies self.keys()[a] != self.keys()[b] by {
                if b < m0.len() {
                    assert(old(self).keys()[a] != old(self).keys()[b]);
                }
            }
        }
    }

    /// A copy with the same model.
    pub fn duplicate(&self) -> (r: Self)
        ensures
            r.model() == self.model(),
    {
        let mut entries: Vec<ParamEntry> = Vec::new();
        let mut i: usize = 0;
        while i < self.entries.len()
            invariant
                i <= self.model().len(),
                self.model().len() == self.entries@.len(),
                entries@.len() == i,
                forall|j: int|
                    0 <= j < i ==> (entries@[j].key@, entries@[j].value.model())
                        == self.model()[j],
            decreases self.entries@.len() - i,
        {
            entries.push(
                ParamEntry {
                    key: self.entries[i].key.clone(),
                    value: self.entries[i].value.duplicate(),
                },
            );
            i += 1;
        }
        let r = ParamTable { entries };
        proof {
            assert(r.model() =~= self.model());
        }
        r
    }

    /// Decides deep equality of two tables' models.
    pub fn deep_eq(&self, other: &Self) -> (r: bool)
        ensures
            r == (self.model() == other.model()),
    {
        if self.entries.len() != other.entries.len() {
            assert(self.model().len() != other.model().len());
            return false;
        }
        let mut i: usize = 0;
        while i < self.entries.len()
            invariant
                self.model().len() == self.entries@.len(),
                other.model().len() == other.entries@.len(),
                self.entries@.len() == other.entries@.len(),
                i <= self.entries@.len(),
                forall|j: int| 0 <= j < i ==> self.model()[j] == other.model()[j],
            decreases self.entries@.len() - i,
        {
            if !str_eq(self.entries[i].key.as_str(), other.entries[i].key.as_str()) {
                assert(self.model()[i as int].0 != other.model()[i as int].0);
                return false;
            }
            if !self.entries[i].value.deep_eq(&other.entries[i].value) {
                assert(self.model()[i as int].1 != other.model()[i as int].1);
                return false;
            }
            i += 1;
        }
        proof {
            assert(self.model() =~= other.model());
        }
        true
    }
}

/// A key is bound exactly when it occurs in the key sequence.
pub proof fn lemma_table_has_is_key(m: TableModel, k: Seq<char>)
    ensures
        table_has(m, k) <==> model_keys(m).contains(k),
{
    lemma_key_index(m, k);
    if key_index(m, k) >= 0 {
        assert(model_keys(m)[key_index(m, k)] == k);
    } else if model_keys(m).contains(k) {
        let j = choose|j: int| 0 <= j < model_keys(m).len() && model_keys(m)[j] == k;
        assert(m[j].0 == k);
    }
}

} // verus!
