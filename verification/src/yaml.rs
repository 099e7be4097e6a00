//! A YAML document tree held as plain values, with the mapping operations
//! that the profile logic performs on it.
//!
//! A mapping keeps its entries in insertion order and never holds two
//! entries with the same key.

use vstd::prelude::*;

verus! {

/// A YAML number: a non-negative integer, a negative integer, or a float
/// kept as its text.
#[derive(Debug)]
pub enum YamlNumber {
    PosInt(u64),
    NegInt(i64),
    Float(String),
}

/// A YAML value.
#[derive(Debug)]
pub enum YamlValue {
    Null,
    Bool(bool),
    Number(YamlNumber),
    String(String),
    Sequence(Vec<YamlValue>),
    Mapping(YamlMapping),
    Tagged(String, Box<YamlValue>),
}

/// An ordered YAML mapping without duplicate keys.
#[derive(Debug)]
pub struct YamlMapping {
    pub entries: Vec<(YamlValue, YamlValue)>,
}

/// The mathematical model of a YAML number.
pub enum NumberModel {
    PosInt(u64),
    NegInt(i64),
    Float(Seq<char>),
}

/// The mathematical model of a YAML value.
pub enum Yaml {
    Null,
    Bool(bool),
    Number(NumberModel),
    Str(Seq<char>),
    List(Seq<Yaml>),
    Dict(Seq<(Yaml, Yaml)>),
    Tagged(Seq<char>, Box<Yaml>),
}

impl YamlNumber {
    pub open spec fn model(&self) -> NumberModel {
        match self {
            YamlNumber::PosInt(n) => NumberModel::PosInt(*n),
            YamlNumber::NegInt(n) => NumberModel::NegInt(*n),
            YamlNumber::Float(s) => NumberModel::Float(s@),
        }
    }
}

impl YamlValue {
    pub open spec fn model(&self) -> Yaml
        decreases self,
    {
        match self {
            YamlValue::Null => Yaml::Null,
            YamlValue::Bool(b) => Yaml::Bool(*b),
            YamlValue::Number(n) => Yaml::Number(n.model()),
            YamlValue::String(s) => Yaml::Str(s@),
            YamlValue::Sequence(v) => Yaml::List(models_of(v@)),
            YamlValue::Mapping(m) => Yaml::Dict(entry_models(m.entries@)),
            YamlValue::Tagged(t, v) => Yaml::Tagged(t@, Box::new(v.model())),
        }
    }
}

/// The models of a sequence of values.
pub open spec fn models_of(s: Seq<YamlValue>) -> Seq<Yaml>
    decreases s,
{
    if s.len() == 0 {
        Seq::empty()
    } else {
        models_of(s.drop_last()).push(s.last().model())
    }
}

/// The models of a sequence of mapping entries.
pub open spec fn entry_models(s: Seq<(YamlValue, YamlValue)>) -> Seq<(Yaml, Yaml)>
    decreases s,
{
    if s.len() == 0 {
        Seq::empty()
    } else {
        entry_models(s.drop_last()).push((s.last().0.model(), s.last().1.model()))
    }
}

/// `models_of` keeps the length and models each element in place.
pub proof fn lemma_models_of(s: Seq<YamlValue>)
    ensures
        models_of(s).len() == s.len(),
        forall|i: int| 0 <= i < s.len() ==> #[trigger] models_of(s)[i] == s[i].model(),
    decreases s.len(),
{
    if s.len() > 0 {
        lemma_models_of(s.drop_last());
    }
}

/// `entry_models` keeps the length and models each entry in place.
pub proof fn lemma_entry_models(s: Seq<(YamlValue, YamlValue)>)
    ensures
        entry_models(s).len() == s.len(),
        forall|i: int|
            0 <= i < s.len() ==> #[trigger] entry_models(s)[i] == (s[i].0.model(), s[i].1.model()),
    decreases s.len(),
{
    if s.len() > 0 {
        lemma_entry_models(s.drop_last());
    }
}

impl YamlNumber {
    /// A copy of this number.
    pub fn deep_clone(&self) -> (r: YamlNumber)
        ensures
            r.model() == self.model(),
    {
        match self {
            YamlNumber::PosInt(n) => YamlNumber::PosInt(*n),
            YamlNumber::NegInt(n) => YamlNumber::NegInt(*n),
            YamlNumber::Float(t) => YamlNumber::Float(t.clone()),
        }
    }

    /// Whether two numbers are the same.
    pub fn same(&self, other: &YamlNumber) -> (r: bool)
        ensures
            r == (self.model() == other.model()),
    {
        match (self, other) {
            (YamlNumber::PosInt(a), YamlNumber::PosInt(b)) => *a == *b,
            (YamlNumber::NegInt(a), YamlNumber::NegInt(b)) => *a == *b,
            (YamlNumber::Float(a), YamlNumber::Float(b)) => *a == *b,
            _ => false,
        }
    }
}

impl YamlValue {
    /// A copy of this value, with the same model.
    pub fn deep_clone(&self) -> (r: YamlValue)
        ensures
            r.model() == self.model(),
        decreases self,
    {
        match self {
            YamlValue::Null => YamlValue::Null,
            YamlValue::Bool(b) => YamlValue::Bool(*b),
            YamlValue::Number(n) => YamlValue::Number(n.deep_clone()),
            YamlValue::String(t) => YamlValue::String(t.clone()),
            YamlValue::Sequence(v) => {
                let out = clone_values(v);
                YamlValue::Sequence(out)
            },
            YamlValue::Mapping(m) => {
                let entries = clone_entries(&m.entries);
                YamlValue::Mapping(YamlMapping { entries })
            },
            YamlValue::Tagged(t, v) => {
                let inner = (**v).deep_clone();
                YamlValue::Tagged(t.clone(), Box::new(inner))
            },
        }
    }
}

/// Copies of the values of `v`, in order.
pub fn clone_values(v: &Vec<YamlValue>) -> (out: Vec<YamlValue>)
    ensures
        models_of(out@) == models_of(v@),
    decreases v@,
{
    let mut out: Vec<YamlValue> = Vec::new();
    let mut i: usize = 0;
    while i < v.len()
        invariant
            i <= v.len(),
            out.len() == i,
            forall|j: int| 0 <= j < i ==> #[trigger] out@[j].model() == v@[j].model(),
        decreases v.len() - i,
    {
        proof {
            assert(decreases_to!(v@ => v@[i as int]));
        }
        let c = v[i].deep_clone();
        out.push(c);
        i = i + 1;
    }
    proof {
        lemma_models_of(out@);
        lemma_models_of(v@);
        assert(models_of(out@) =~= models_of(v@));
    }
    out
}

/// Copies of the entries of `v`, in order.
pub fn clone_entries(v: &Vec<(YamlValue, YamlValue)>) -> (out: Vec<(YamlValue, YamlValue)>)
    ensures
        entry_models(out@) == entry_models(v@),
    decreases v@,
{
    let mut out: Vec<(YamlValue, YamlValue)> = Vec::new();
    let mut i: usize = 0;
    while i < v.len()
        invariant
            i <= v.len(),
            out.len() == i,
            forall|j: int|
                0 <= j < i ==> #[trigger] out@[j].0.model() == v@[j].0.model() && out@[j].1.model()
                    == v@[j].1.model(),
        decreases v.len() - i,
    {
        proof {
            assert(decreases_to!(v@ => v@[i as int]));
        }
        let k = v[i].0.deep_clone();
        let x = v[i].1.deep_clone();
        out.push((k, x));
        i = i + 1;
    }
    proof {
        lemma_entry_models(out@);
        lemma_entry_models(v@);
        assert(entry_models(out@) =~= entry_models(v@));
    }
    out
}

impl YamlValue {
    /// Whether two values are the same YAML value.
    pub fn same(&self, other: &YamlValue) -> (r: bool)
        ensures
            r == (self.model() == other.model()),
        decreases self,
    {
        match (self, other) {
            (YamlValue::Null, YamlValue::Null) => true,
            (YamlValue::Bool(a), YamlValue::Bool(b)) => *a == *b,
            (YamlValue::Number(a), YamlValue::Number(b)) => a.same(b),
            (YamlValue::String(a), YamlValue::String(b)) => *a == *b,
            (YamlValue::Sequence(a), YamlValue::Sequence(b)) => same_values(a, b),
            (YamlValue::Mapping(a), YamlValue::Mapping(b)) => same_entries(&a.entries, &b.entries),
            (YamlValue::Tagged(t, a), YamlValue::Tagged(u, b)) => {
                if *t == *u {
                    (**a).same(&**b)
                } else {
                    false
                }
            },
            _ => false,
        }
    }

    /// Whether this value is the string `key`.
    pub fn is_str(&self, key: &str) -> (r: bool)
        ensures
            r == (self.model() == Yaml::Str(key@)),
    {
        match self {
            YamlValue::String(s) => {
                let k = key.to_owned();
                *s == k
            },
            _ => false,
        }
    }
}

/// Whether two sequences of values are the same element by element.
pub fn same_values(a: &Vec<YamlValue>, b: &Vec<YamlValue>) -> (r: bool)
    ensures
        r == (models_of(a@) == models_of(b@)),
    decreases a@,
{
    proof {
        lemma_models_of(a@);
        lemma_models_of(b@);
    }
    if a.len() != b.len() {
        return false;
    }
    let mut i: usize = 0;
    while i < a.len()
        invariant
            i <= a.len(),
            a.len() == b.len(),
            models_of(a@).len() == a.len(),
            models_of(b@).len() == b.len(),
            forall|j: int| 0 <= j < a.len() ==> #[trigger] models_of(a@)[j] == a@[j].model(),
            forall|j: int| 0 <= j < b.len() ==> #[trigger] models_of(b@)[j] == b@[j].model(),
            forall|j: int| 0 <= j < i ==> #[trigger] a@[j].model() == b@[j].model(),
        decreases a.len() - i,
    {
        proof {
            assert(decreases_to!(a@ => a@[i as int]));
        }
        if !a[i].same(&b[i]) {
            assert(models_of(a@)[i as int] != models_of(b@)[i as int]);
            return false;
        }
        i = i + 1;
    }
    assert(models_of(a@) =~= models_of(b@));
    true
}

/// Whether two sequences of mapping entries are the same entry by entry.
pub fn same_entries(a: &Vec<(YamlValue, YamlValue)>, b: &Vec<(YamlValue, YamlValue)>) -> (r: bool)
    ensures
        r == (entry_models(a@) == entry_models(b@)),
    decreases a@,
{
    proof {
        lemma_entry_models(a@);
        lemma_entry_models(b@);
    }
    if a.len() != b.len() {
        return false;
    }
    let mut i: usize = 0;
    while i < a.len()
        invariant
            i <= a.len(),
            a.len() == b.len(),
            entry_models(a@).len() == a.len(),
            entry_models(b@).len() == b.len(),
            forall|j: int|
                0 <= j < a.len() ==> #[trigger] entry_models(a@)[j] == (a@[j].0.model(), a@[j].1.model()),
            forall|j: int|
                0 <= j < b.len() ==> #[trigger] entry_models(b@)[j] == (b@[j].0.model(), b@[j].1.model()),
            forall|j: int| 0 <= j < i ==> #[trigger] entry_models(a@)[j] == entry_models(b@)[j],
        decreases a.len() - i,
    {
        proof {
            assert(decreases_to!(a@ => a@[i as int]));
        }
        let k = a[i].0.same(&b[i].0);
        if !k {
            assert(entry_models(a@)[i as int] != entry_models(b@)[i as int]);
            return false;
        }
        let x = a[i].1.same(&b[i].1);
        if !x {
            assert(entry_models(a@)[i as int] != entry_models(b@)[i as int]);
            return false;
        }
        i = i + 1;
    }
    assert(entry_models(a@) =~= entry_models(b@));
    true
}

/// Whether some entry of `s` has key `k`.
pub open spec fn has_key(s: Seq<(Yaml, Yaml)>, k: Yaml) -> bool {
    exists|i: int| 0 <= i < s.len() && #[trigger] s[i].0 == k
}

/// Whether no two entries of `s` share a key.
pub open spec fn keys_distinct(s: Seq<(Yaml, Yaml)>) -> bool {
    forall|i: int, j: int| 0 <= i < s.len() && 0 <= j < s.len() && i != j ==> s[i].0 != s[j].0
}

/// The position of the entry with key `k` (meaningful when `has_key(s, k)`).
pub open spec fn key_index(s: Seq<(Yaml, Yaml)>, k: Yaml) -> int {
    choose|i: int| 0 <= i < s.len() && #[trigger] s[i].0 == k
}

/// The value stored under `k`, if any.
pub open spec fn lookup(s: Seq<(Yaml, Yaml)>, k: Yaml) -> Option<Yaml> {
    if has_key(s, k) {
        Some(s[key_index(s, k)].1)
    } else {
        None
    }
}

/// `s` with the entry at `i` removed and the last entry moved into its place.
pub open spec fn swap_remove_at(s: Seq<(Yaml, Yaml)>, i: int) -> Seq<(Yaml, Yaml)> {
    s.update(i, s.last()).drop_last()
}

/// `s` without the entry of key `k`: the last entry takes its place.
pub open spec fn remove_key(s: Seq<(Yaml, Yaml)>, k: Yaml) -> Seq<(Yaml, Yaml)> {
    if has_key(s, k) {
        swap_remove_at(s, key_index(s, k))
    } else {
        s
    }
}

/// `s` with `k` bound to `v`: an existing entry keeps its place, a new one
/// goes last.
pub open spec fn insert_key(s: Seq<(Yaml, Yaml)>, k: Yaml, v: Yaml) -> Seq<(Yaml, Yaml)> {
    if has_key(s, k) {
        s.update(key_index(s, k), (k, v))
    } else {
        s.push((k, v))
    }
}

/// The entries of `s` read as a map from keys to values.
pub open spec fn as_map(s: Seq<(Yaml, Yaml)>) -> Map<Yaml, Yaml> {
    Map::new(|k: Yaml| has_key(s, k), |k: Yaml| lookup(s, k).unwrap())
}

/// In a mapping without duplicate keys, the key at position `i` is found there.
pub proof fn lemma_key_index(s: Seq<(Yaml, Yaml)>, i: int)
    requires
        keys_distinct(s),
        0 <= i < s.len(),
    ensures
        has_key(s, s[i].0),
        key_index(s, s[i].0) == i,
        lookup(s, s[i].0) == Some(s[i].1),
{
    assert(has_key(s, s[i].0));
}

/// Removing a key keeps the other keys distinct and bound as before.
pub proof fn lemma_remove_key(s: Seq<(Yaml, Yaml)>, k: Yaml)
    requires
        keys_distinct(s),
    ensures
        keys_distinct(remove_key(s, k)),
        !has_key(remove_key(s, k), k),
        forall|j: Yaml| j != k ==> #[trigger] lookup(remove_key(s, k), j) == lookup(s, j),
{
    let r = remove_key(s, k);
    if has_key(s, k) {
        let i = key_index(s, k);
        let n = s.len() - 1;
        assert forall|a: int, b: int| 0 <= a < r.len() && 0 <= b < r.len() && a != b implies r[a].0
            != r[b].0 by {
            let sa = if a == i { n } else { a };
            let sb = if b == i { n } else { b };
            assert(r[a] == s[sa]);
            assert(r[b] == s[sb]);
        }
        assert forall|j: Yaml| j != k implies #[trigger] lookup(r, j) == lookup(s, j) by {
            if has_key(s, j) {
                let p = key_index(s, j);
                let q = if p == n { i } else { p };
                assert(r[q] == s[p]);
                lemma_key_index(r, q);
            } else {
                if has_key(r, j) {
                    let q = key_index(r, j);
                    let p = if q == i { n } else { q };
                    assert(s[p] == r[q]);
                }
            }
        }
        if has_key(r, k) {
            let q = key_index(r, k);
            let p = if q == i { n } else { q };
            assert(s[p] == r[q]);
        }
    }
}

/// Binding a key keeps keys distinct, binds `k` to `v` and leaves the rest.
pub proof fn lemma_insert_key(s: Seq<(Yaml, Yaml)>, k: Yaml, v: Yaml)
    requires
        keys_distinct(s),
    ensures
        keys_distinct(insert_key(s, k, v)),
        lookup(insert_key(s, k, v), k) == Some(v),
        forall|j: Yaml| j != k ==> #[trigger] lookup(insert_key(s, k, v), j) == lookup(s, j),
{
    let r = insert_key(s, k, v);
    if has_key(s, k) {
        let i = key_index(s, k);
        assert forall|j: Yaml| j != k implies #[trigger] lookup(r, j) == lookup(s, j) by {
            if has_key(s, j) {
                lemma_key_index(r, key_index(s, j));
            }
            if has_key(r, j) {
                assert(s[key_index(r, j)] == r[key_index(r, j)]);
            }
        }
        lemma_key_index(r, i);
    } else {
        assert forall|j: Yaml| j != k implies #[trigger] lookup(r, j) == lookup(s, j) by {
            if has_key(s, j) {
                lemma_key_index(r, key_index(s, j));
            }
            if has_key(r, j) {
                assert(s[key_index(r, j)] == r[key_index(r, j)]);
            }
        }
        lemma_key_index(r, s.len() as int);
    }
}

/// The models of entries follow an update of one entry.
pub proof fn lemma_entry_models_update(s: Seq<(YamlValue, YamlValue)>, i: int, e: (YamlValue, YamlValue))
    requires
        0 <= i < s.len(),
    ensures
        entry_models(s.update(i, e)) == entry_models(s).update(i, (e.0.model(), e.1.model())),
{
    lemma_entry_models(s);
    lemma_entry_models(s.update(i, e));
    assert(entry_models(s.update(i, e)) =~= entry_models(s).update(i, (e.0.model(), e.1.model())));
}

/// The models of entries follow a push.
pub proof fn lemma_entry_models_push(s: Seq<(YamlValue, YamlValue)>, e: (YamlValue, YamlValue))
    ensures
        entry_models(s.push(e)) == entry_models(s).push((e.0.model(), e.1.model())),
{
    assert(s.push(e).drop_last() =~= s);
}

/// The models of entries follow a swap-remove.
pub proof fn lemma_entry_models_swap_remove(s: Seq<(YamlValue, YamlValue)>, i: int)
    requires
        0 <= i < s.len(),
    ensures
        entry_models(s.update(i, s.last()).drop_last()) == swap_remove_at(entry_models(s), i),
{
    let t = s.update(i, s.last()).drop_last();
    lemma_entry_models(s);
    lemma_entry_models(t);
    assert(entry_models(t) =~= swap_remove_at(entry_models(s), i));
}

impl YamlMapping {
    /// The model of the entries, in order.
    pub open spec fn model_entries(&self) -> Seq<(Yaml, Yaml)> {
        entry_models(self.entries@)
    }

    /// No two entries share a key.
    pub open spec fn wf(&self) -> bool {
        keys_distinct(self.model_entries())
    }

    /// An empty mapping.
    pub fn new() -> (r: YamlMapping)
        ensures
            r.wf(),
            r.model_entries() == Seq::<(Yaml, Yaml)>::empty(),
    {
        YamlMapping { entries: Vec::new() }
    }

    /// The number of entries.
    pub fn len(&self) -> (r: usize)
        ensures
            r == self.model_entries().len(),
    {
        proof {
            lemma_entry_models(self.entries@);
        }
        self.entries.len()
    }

    /// Whether the mapping has no entry.
    pub fn is_empty(&self) -> (r: bool)
        ensures
            r == (self.model_entries().len() == 0),
    {
        self.len() == 0
    }

    /// The key and value at position `i`.
    pub fn entry(&self, i: usize) -> (r: (&YamlValue, &YamlValue))
        requires
            i < self.model_entries().len(),
        ensures
            (r.0.model(), r.1.model()) == self.model_entries()[i as int],
    {
        proof {
            lemma_entry_models(self.entries@);
        }
        (&self.entries[i].0, &self.entries[i].1)
    }

    /// The position of the entry with key `key`, if there is one.
    pub fn find(&self, key: &YamlValue) -> (r: Option<usize>)
        ensures
            r matches Some(i) ==> i < self.model_entries().len() && self.model_entries()[i as int].0
                == key.model(),
            r is None ==> !has_key(self.model_entries(), key.model()),
    {
        proof {
            lemma_entry_models(self.entries@);
        }
        let mut i: usize = 0;
        while i < self.entries.len()
            invariant
                i <= self.entries.len(),
                entry_models(self.entries@).len() == self.entries.len(),
                forall|j: int|
                    0 <= j < self.entries.len() ==> #[trigger] entry_models(self.entries@)[j] == (
                    self.entries@[j].0.model(),
                    self.entries@[j].1.model(),
                ),
                forall|j: int| 0 <= j < i ==> #[trigger] self.model_entries()[j].0 != key.model(),
            decreases self.entries.len() - i,
        {
            if self.entries[i].0.same(key) {
                return Some(i);
            }
            i = i + 1;
        }
        None
    }

    /// The position of the entry whose key is the string `key`, if there is one.
    pub fn find_str(&self, key: &str) -> (r: Option<usize>)
        ensures
            r matches Some(i) ==> i < self.model_entries().len() && self.model_entries()[i as int].0
                == Yaml::Str(key@),
            r is None ==> !has_key(self.model_entries(), Yaml::Str(key@)),
    {
        proof {
            lemma_entry_models(self.entries@);
        }
        let mut i: usize = 0;
        while i < self.entries.len()
            invariant
                i <= self.entries.len(),
                entry_models(self.entries@).len() == self.entries.len(),
                forall|j: int|
                    0 <= j < self.entries.len() ==> #[trigger] entry_models(self.entries@)[j] == (
                    self.entries@[j].0.model(),
                    self.entries@[j].1.model(),
                ),
                forall|j: int| 0 <= j < i ==> #[trigger] self.model_entries()[j].0 != Yaml::Str(key@),
            decreases self.entries.len() - i,
        {
            if self.entries[i].0.is_str(key) {
                return Some(i);
            }
            i = i + 1;
        }
        None
    }

    /// The value stored under `key`, if any.
    pub fn get(&self, key: &YamlValue) -> (r: Option<&YamlValue>)
        requires
            self.wf(),
        ensures
            r matches Some(v) ==> lookup(self.model_entries(), key.model()) == Some(v.model()),
            r is None ==> lookup(self.model_entries(), key.model()) is None,
    {
        match self.find(key) {
            Some(i) => {
                proof {
                    lemma_entry_models(self.entries@);
                    lemma_key_index(self.model_entries(), i as int);
                }
                Some(&self.entries[i].1)
            },
            None => None,
        }
    }

    /// The value stored under the string key `key`, if any.
    pub fn get_str(&self, key: &str) -> (r: Option<&YamlValue>)
        requires
            self.wf(),
        ensures
            r matches Some(v) ==> lookup(self.model_entries(), Yaml::Str(key@)) == Some(v.model()),
            r is None ==> lookup(self.model_entries(), Yaml::Str(key@)) is None,
    {
        match self.find_str(key) {
            Some(i) => {
                proof {
                    lemma_entry_models(self.entries@);
                    lemma_key_index(self.model_entries(), i as int);
                }
                Some(&self.entries[i].1)
            },
            None => None,
        }
    }

    /// Whether some entry has the string key `key`.
    pub fn contains_str(&self, key: &str) -> (r: bool)
        ensures
            r == has_key(self.model_entries(), Yaml::Str(key@)),
    {
        self.find_str(key).is_some()
    }

    /// Binds `key` to `value`: an existing entry keeps its position, a new
    /// one is appended.
    pub fn insert(&mut self, key: YamlValue, value: YamlValue)
        requires
            old(self).wf(),
        ensures
            final(self).wf(),
            final(self).model_entries() == insert_key(old(self).model_entries(), key.model(), value.model()),
    {
        let ghost k = key.model();
        let ghost v = value.model();
        proof {
            lemma_insert_key(self.model_entries(), k, v);
            lemma_entry_models(self.entries@);
        }
        match self.find(&key) {
            Some(i) => {
                proof {
                    lemma_key_index(self.model_entries(), i as int);
                    lemma_entry_models_update(self.entries@, i as int, (key, value));
                }
                self.entries.set(i, (key, value));
            },
            None => {
                proof {
                    lemma_entry_models_push(self.entries@, (key, value));
                }
                self.entries.push((key, value));
            },
        }
    }

    /// Removes the entry of key `key`, moving the last entry into its place,
    /// and returns its value.
    pub fn swap_remove(&mut self, key: &YamlValue) -> (r: Option<YamlValue>)
        requires
            old(self).wf(),
        ensures
            final(self).wf(),
            final(self).model_entries() == remove_key(old(self).model_entries(), key.model()),
            r matches Some(v) ==> lookup(old(self).model_entries(), key.model()) == Some(v.model()),
            r is None ==> lookup(old(self).model_entries(), key.model()) is None,
    {
        proof {
            lemma_remove_key(self.model_entries(), key.model());
            lemma_entry_models(self.entries@);
        }
        match self.find(key) {
            Some(i) => {
                proof {
                    lemma_key_index(self.model_entries(), i as int);
                    lemma_entry_models_swap_remove(self.entries@, i as int);
                }
                let (_, v) = self.entries.swap_remove(i);
                Some(v)
            },
            None => None,
        }
    }
}

impl Clone for YamlNumber {
    fn clone(&self) -> (r: Self)
        ensures
            r.model() == self.model(),
    {
        self.deep_clone()
    }
}

impl Clone for YamlValue {
    fn clone(&self) -> (r: Self)
        ensures
            r.model() == self.model(),
    {
        self.deep_clone()
    }
}

impl Clone for YamlMapping {
    fn clone(&self) -> (r: Self)
        ensures
            r.model_entries() == self.model_entries(),
    {
        YamlMapping { entries: clone_entries(&self.entries) }
    }
}

/// The value under any tags.
pub open spec fn untag(v: Yaml) -> Yaml
    decreases v,
{
    match v {
        Yaml::Tagged(_, inner) => untag(*inner),
        _ => v,
    }
}

/// The value of the string key `key` in the mapping `v` (under any tags).
pub open spec fn spec_get(v: Yaml, key: Seq<char>) -> Option<Yaml> {
    match untag(v) {
        Yaml::Dict(m) => lookup(m, Yaml::Str(key)),
        _ => None,
    }
}

/// `v` (under any tags) as a non-negative integer.
pub open spec fn spec_as_u64(v: Yaml) -> Option<u64> {
    match untag(v) {
        Yaml::Number(NumberModel::PosInt(n)) => Some(n),
        _ => None,
    }
}

/// `v` (under any tags) as a string.
pub open spec fn spec_as_str(v: Yaml) -> Option<Seq<char>> {
    match untag(v) {
        Yaml::Str(t) => Some(t),
        _ => None,
    }
}

/// Any mapping that `v` is (under any tags) has distinct keys.
pub open spec fn dict_wf(v: Yaml) -> bool {
    match untag(v) {
        Yaml::Dict(m) => keys_distinct(m),
        _ => true,
    }
}

impl YamlValue {
    /// The value under any tags.
    pub fn untag_ref(&self) -> (r: &YamlValue)
        ensures
            r.model() == untag(self.model()),
        decreases self,
    {
        match self {
            YamlValue::Tagged(_, inner) => (**inner).untag_ref(),
            _ => self,
        }
    }

    /// The value of the string key `key`, when this is a mapping.
    pub fn get(&self, key: &str) -> (r: Option<&YamlValue>)
        requires
            dict_wf(self.model()),
        ensures
            r matches Some(v) ==> spec_get(self.model(), key@) == Some(v.model()),
            r is None ==> spec_get(self.model(), key@) is None,
    {
        match self.untag_ref() {
            YamlValue::Mapping(m) => m.get_str(key),
            _ => None,
        }
    }

    /// This value as a non-negative integer.
    pub fn as_u64(&self) -> (r: Option<u64>)
        ensures
            r == spec_as_u64(self.model()),
    {
        match self.untag_ref() {
            YamlValue::Number(YamlNumber::PosInt(n)) => Some(*n),
            _ => None,
        }
    }

    /// This value as a string.
    pub fn as_str(&self) -> (r: Option<&str>)
        ensures
            r matches Some(t) ==> spec_as_str(self.model()) == Some(t@),
            r is None ==> spec_as_str(self.model()) is None,
    {
        match self.untag_ref() {
            YamlValue::String(t) => Some(t.as_str()),
            _ => None,
        }
    }
}

} // verus!
