//! YAML text read into the library's YAML tree, through `serde_yaml`.

use crate::yaml::{
    dict_wf, entry_models, keys_distinct, lemma_entry_models, lemma_models_of, models_of, NumberModel, Yaml,
    YamlMapping, YamlNumber, YamlValue,
};
use vstd::prelude::*;

verus! {

#[verifier::external_type_specification]
#[verifier::external_body]
pub struct ExSerdeYamlValue(serde_yaml::Value);

#[verifier::external_type_specification]
#[verifier::external_body]
pub struct ExSerdeYamlMapping(serde_yaml::Mapping);

/// The tree that `serde_yaml::from_str` reads from `text`, if it reads one.
pub uninterp spec fn spec_parse_yaml(text: Seq<char>) -> Option<Yaml>;

/// What a `serde_yaml::Value` holds, as a tree: numbers as `PosInt`, `NegInt`
/// or the text of a float, tags with their leading `!`.
pub uninterp spec fn yaml_tree(v: serde_yaml::Value) -> Yaml;

/// What a `serde_yaml::Mapping` holds: its entries in order.
pub uninterp spec fn mapping_tree(m: serde_yaml::Mapping) -> Seq<(Yaml, Yaml)>;

/// The parts of a `serde_yaml::Value`, one variant for each of its own.
pub enum ValueParts<'a> {
    Null,
    Bool(bool),
    Number(YamlNumber),
    Str(&'a String),
    Sequence(&'a Vec<serde_yaml::Value>),
    Mapping(&'a serde_yaml::Mapping),
    Tagged(String, &'a serde_yaml::Value),
}

/// `serde_yaml::from_str` into a `serde_yaml::Value`: the parsed tree, or
/// `None` when the text is no YAML document.
#[verifier::external_body]
fn parse_value(text: &str) -> (r: Option<serde_yaml::Value>)
    ensures
        r matches Some(v) ==> spec_parse_yaml(text@) == Some(yaml_tree(v)),
        r is None <==> spec_parse_yaml(text@) is None,
{
    serde_yaml::from_str::<serde_yaml::Value>(text).ok()
}

/// The variant of a `serde_yaml::Value` with its fields: a number by
/// `Number::as_u64`, `Number::as_i64` or else its text (`Number`'s
/// `Display`), a tag by its text (`Tag`'s `Display`, with one leading `!`).
/// The contract claims that these parts are what `yaml_tree` reads.
#[verifier::external_body]
fn value_parts(v: &serde_yaml::Value) -> (r: ValueParts<'_>)
    ensures
        match r {
            ValueParts::Null => yaml_tree(*v) == Yaml::Null,
            ValueParts::Bool(b) => yaml_tree(*v) == Yaml::Bool(b),
            ValueParts::Number(n) => yaml_tree(*v) == Yaml::Number(n.model()),
            ValueParts::Str(s) => yaml_tree(*v) == Yaml::Str(s@),
            ValueParts::Sequence(items) => yaml_tree(*v) == Yaml::List(
                Seq::new(items@.len(), |i: int| yaml_tree(items@[i])),
            ),
            ValueParts::Mapping(m) => yaml_tree(*v) == Yaml::Dict(mapping_tree(*m)),
            ValueParts::Tagged(t, inner) => yaml_tree(*v) == Yaml::Tagged(t@, Box::new(yaml_tree(*inner))),
        },
{
    match v {
        serde_yaml::Value::Null => ValueParts::Null,
        serde_yaml::Value::Bool(b) => ValueParts::Bool(*b),
        serde_yaml::Value::Number(n) => ValueParts::Number(match (n.as_u64(), n.as_i64()) {
            (Some(u), _) => YamlNumber::PosInt(u),
            (None, Some(i)) => YamlNumber::NegInt(i),
            (None, None) => YamlNumber::Float(n.to_string()),
        }),
        serde_yaml::Value::String(s) => ValueParts::Str(s),
        serde_yaml::Value::Sequence(s) => ValueParts::Sequence(s),
        serde_yaml::Value::Mapping(m) => ValueParts::Mapping(m),
        serde_yaml::Value::Tagged(t) => ValueParts::Tagged(t.tag.to_string(), &t.value),
    }
}

/// `serde_yaml::Mapping::iter`: the entries of the mapping, in order. Its
/// keys are distinct (`Mapping` is an `IndexMap`; two values with the same
/// tree are equal values).
#[verifier::external_body]
fn mapping_entries(m: &serde_yaml::Mapping) -> (r: Vec<(&serde_yaml::Value, &serde_yaml::Value)>)
    ensures
        r@.len() == mapping_tree(*m).len(),
        forall|i: int|
            0 <= i < r@.len() ==> #[trigger] mapping_tree(*m)[i] == (yaml_tree(*r@[i].0), yaml_tree(*r@[i].1)),
        forall|i: int, j: int|
            0 <= i < j < r@.len() ==> yaml_tree(*r@[i].0) != yaml_tree(*r@[j].0),
{
    m.iter().collect()
}

/// The library's tree of a `serde_yaml::Value`.
pub fn from_serde_value(v: &serde_yaml::Value) -> (r: YamlValue)
    ensures
        r.model() == yaml_tree(*v),
        r matches YamlValue::Mapping(m) ==> m.wf(),
        dict_wf(r.model()),
    decreases yaml_tree(*v),
{
    match value_parts(v) {
        ValueParts::Null => YamlValue::Null,
        ValueParts::Bool(b) => YamlValue::Bool(b),
        ValueParts::Number(n) => YamlValue::Number(n),
        ValueParts::Str(s) => YamlValue::String(s.clone()),
        ValueParts::Sequence(items) => {
            let ghost t = Seq::new(items@.len(), |i: int| yaml_tree(items@[i]));
            let mut out: Vec<YamlValue> = Vec::new();
            let mut i: usize = 0;
            while i < items.len()
                invariant
                    i <= items.len(),
                    yaml_tree(*v) == Yaml::List(t),
                    t == Seq::new(items@.len(), |i: int| yaml_tree(items@[i])),
                    out.len() == i,
                    forall|j: int| 0 <= j < i ==> #[trigger] out@[j].model() == t[j],
                decreases items.len() - i,
            {
                proof {
                    assert(t[i as int] == yaml_tree(items@[i as int]));
                    let ghost y = yaml_tree(*v);
                    assert(y->List_0 == t);
                    assert(decreases_to!(y => y->List_0));
                    assert(decreases_to!(t => t[i as int]));
                    assert(decreases_to!(y => t[i as int]));
                }
                let x = from_serde_value(&items[i]);
                out.push(x);
                i = i + 1;
            }
            proof {
                lemma_models_of(out@);
                assert(models_of(out@) =~= t);
            }
            YamlValue::Sequence(out)
        },
        ValueParts::Mapping(m) => {
            let ghost t = mapping_tree(*m);
            let pairs = mapping_entries(m);
            let mut out: Vec<(YamlValue, YamlValue)> = Vec::new();
            let mut i: usize = 0;
            while i < pairs.len()
                invariant
                    i <= pairs.len(),
                    yaml_tree(*v) == Yaml::Dict(t),
                    pairs@.len() == t.len(),
                    forall|j: int|
                        0 <= j < pairs@.len() ==> #[trigger] t[j] == (yaml_tree(*pairs@[j].0), yaml_tree(*pairs@[j].1)),
                    out.len() == i,
                    forall|j: int|
                        0 <= j < i ==> #[trigger] out@[j].0.model() == t[j].0 && out@[j].1.model() == t[j].1,
                decreases pairs.len() - i,
            {
                let (k, x) = pairs[i];
                proof {
                    assert(t[i as int] == (yaml_tree(*k), yaml_tree(*x)));
                    let ghost y = yaml_tree(*v);
                    assert(y->Dict_0 == t);
                    assert(decreases_to!(y => y->Dict_0));
                    assert(decreases_to!(t => t[i as int]));
                    assert(decreases_to!(t[i as int] => t[i as int].0));
                    assert(decreases_to!(t[i as int] => t[i as int].1));
                    assert(decreases_to!(y => t[i as int].0));
                    assert(decreases_to!(y => t[i as int].1));
                }
                let kk = from_serde_value(k);
                let xx = from_serde_value(x);
                out.push((kk, xx));
                i = i + 1;
            }
            proof {
                lemma_entry_models(out@);
                assert(crate::yaml::entry_models(out@) =~= t);
                assert forall|a: int, b: int| 0 <= a < t.len() && 0 <= b < t.len() && a != b implies t[a].0 != t[b].0 by {
                    if a < b {
                        assert(yaml_tree(*pairs@[a].0) != yaml_tree(*pairs@[b].0));
                    } else {
                        assert(yaml_tree(*pairs@[b].0) != yaml_tree(*pairs@[a].0));
                    }
                }
            }
            YamlValue::Mapping(YamlMapping { entries: out })
        },
        ValueParts::Tagged(tag, inner) => {
            proof {
                let ghost y = yaml_tree(*v);
                assert(decreases_to!(y => y->Tagged_1));
                assert(decreases_to!(yaml_tree(*v) => yaml_tree(*inner)));
            }
            let x = from_serde_value(inner);
            YamlValue::Tagged(tag, Box::new(x))
        },
    }
}

/// The YAML tree that `text` holds, read by `serde_yaml`; `None` when the
/// text is no YAML document.
pub fn parse_yaml_text(text: &str) -> (r: Option<YamlValue>)
    ensures
        r matches Some(YamlValue::Mapping(m)) ==> m.wf(),
        r matches Some(v) ==> dict_wf(v.model()),
        r matches Some(v) ==> spec_parse_yaml(text@) == Some(v.model()),
        r is None <==> spec_parse_yaml(text@) is None,
{
    match parse_value(text) {
        Some(v) => Some(from_serde_value(&v)),
        None => None,
    }
}

/// The text that `serde_yaml::to_string` writes of a value with tree `t`,
/// if it writes one.
pub uninterp spec fn spec_emit_yaml(t: Yaml) -> Option<Seq<char>>;

/// The tree of the number that `serde_yaml::from_str` reads as a
/// `serde_yaml::Number` from `text`, if it reads one.
pub uninterp spec fn spec_parse_number(text: Seq<char>) -> Option<Yaml>;

/// The tree of an optional `serde_yaml::Value`.
pub open spec fn tree_of(r: Option<serde_yaml::Value>) -> Option<Yaml> {
    match r {
        Some(x) => Some(yaml_tree(x)),
        None => None,
    }
}

/// The trees of a sequence of `serde_yaml::Value`s.
pub open spec fn trees_of(s: Seq<serde_yaml::Value>) -> Seq<Yaml> {
    Seq::new(s.len(), |i: int| yaml_tree(s[i]))
}

/// The trees of a sequence of pairs of `serde_yaml::Value`s.
pub open spec fn pair_trees(s: Seq<(serde_yaml::Value, serde_yaml::Value)>) -> Seq<(Yaml, Yaml)> {
    Seq::new(s.len(), |i: int| (yaml_tree(s[i].0), yaml_tree(s[i].1)))
}

/// The characters of an optional text.
pub open spec fn text_of(r: Option<String>) -> Option<Seq<char>> {
    match r {
        Some(s) => Some(s@),
        None => None,
    }
}

/// The text of the tag made of `t`: `t` itself when it is `!` and a name,
/// else `t` behind one more `!`.
pub open spec fn tag_text(t: Seq<char>) -> Seq<char> {
    if t.len() >= 2 && t[0] == '!' {
        t
    } else {
        seq!['!'] + t
    }
}

/// Whether `k` is a key that `serde_yaml` tells apart exactly as its tree:
/// null, a boolean, an integer or a string.
pub open spec fn simple_key(k: Yaml) -> bool {
    match k {
        Yaml::Null => true,
        Yaml::Bool(_) => true,
        Yaml::Number(NumberModel::PosInt(_)) => true,
        Yaml::Number(NumberModel::NegInt(n)) => n < 0,
        Yaml::Str(_) => true,
        _ => false,
    }
}

/// Whether every mapping in `y` has distinct simple keys: the trees whose
/// `serde_yaml` value is known entry by entry.
pub open spec fn serde_ready(y: Yaml) -> bool
    decreases y,
{
    match y {
        Yaml::List(s) => ready_all(s),
        Yaml::Dict(m) => keys_distinct(m) && ready_entries(m),
        Yaml::Tagged(_, b) => serde_ready(*b),
        _ => true,
    }
}

/// Every tree of `s` is ready.
pub open spec fn ready_all(s: Seq<Yaml>) -> bool
    decreases s,
{
    if s.len() == 0 {
        true
    } else {
        ready_all(s.drop_last()) && serde_ready(s.last())
    }
}

/// Every entry of `m` has a simple key and a ready value.
pub open spec fn ready_entries(m: Seq<(Yaml, Yaml)>) -> bool
    decreases m,
{
    if m.len() == 0 {
        true
    } else {
        ready_entries(m.drop_last()) && simple_key(m.last().0) && serde_ready(m.last().1)
    }
}

/// The tree of the `serde_yaml::Value` that the library makes of `y`: a
/// non-negative `NegInt` becomes a `PosInt`, a float is the number that
/// `serde_yaml` reads from its text, a tag gets its leading `!`; `None` when
/// a float's text holds no number or a tag is empty.
pub open spec fn serde_image(y: Yaml) -> Option<Yaml>
    decreases y,
{
    match y {
        Yaml::Number(NumberModel::NegInt(n)) => Some(
            if n < 0 {
                y
            } else {
                Yaml::Number(NumberModel::PosInt(n as u64))
            },
        ),
        Yaml::Number(NumberModel::Float(t)) => spec_parse_number(t),
        Yaml::List(s) => match images_of(s) {
            Some(a) => Some(Yaml::List(a)),
            None => None,
        },
        Yaml::Dict(m) => match entry_images(m) {
            Some(a) => Some(Yaml::Dict(a)),
            None => None,
        },
        Yaml::Tagged(t, b) => if t.len() == 0 {
            None
        } else {
            match serde_image(*b) {
                Some(x) => Some(Yaml::Tagged(tag_text(t), Box::new(x))),
                None => None,
            }
        },
        _ => Some(y),
    }
}

/// The images of the trees of `s`, in order; `None` when one has none.
pub open spec fn images_of(s: Seq<Yaml>) -> Option<Seq<Yaml>>
    decreases s,
{
    if s.len() == 0 {
        Some(Seq::empty())
    } else {
        match (images_of(s.drop_last()), serde_image(s.last())) {
            (Some(a), Some(b)) => Some(a.push(b)),
            _ => None,
        }
    }
}

/// The images of the entries of `m`, in order; `None` when one has none.
pub open spec fn entry_images(m: Seq<(Yaml, Yaml)>) -> Option<Seq<(Yaml, Yaml)>>
    decreases m,
{
    if m.len() == 0 {
        Some(Seq::empty())
    } else {
        match (entry_images(m.drop_last()), serde_image(m.last().0), serde_image(m.last().1)) {
            (Some(a), Some(k), Some(v)) => Some(a.push((k, v))),
            _ => None,
        }
    }
}

/// Whether `y` holds no float, only negative `NegInt`s, only tags of the
/// form `!name`, and only mappings with distinct simple keys: the trees that
/// `serde_yaml` holds exactly as they are.
pub open spec fn simple_tree(y: Yaml) -> bool
    decreases y,
{
    match y {
        Yaml::Number(NumberModel::Float(_)) => false,
        Yaml::Number(NumberModel::NegInt(n)) => n < 0,
        Yaml::List(s) => simple_all(s),
        Yaml::Dict(m) => keys_distinct(m) && simple_entries(m),
        Yaml::Tagged(t, b) => t.len() >= 2 && t[0] == '!' && simple_tree(*b),
        _ => true,
    }
}

/// Every tree of `s` is simple.
pub open spec fn simple_all(s: Seq<Yaml>) -> bool
    decreases s,
{
    if s.len() == 0 {
        true
    } else {
        simple_all(s.drop_last()) && simple_tree(s.last())
    }
}

/// Every entry of `m` has a simple key and a simple value.
pub open spec fn simple_entries(m: Seq<(Yaml, Yaml)>) -> bool
    decreases m,
{
    if m.len() == 0 {
        true
    } else {
        simple_entries(m.drop_last()) && simple_key(m.last().0) && simple_tree(m.last().1)
    }
}

/// A simple tree is ready and is its own image.
pub proof fn lemma_simple_image(y: Yaml)
    requires
        simple_tree(y),
    ensures
        serde_ready(y),
        serde_image(y) == Some(y),
    decreases y,
{
    match y {
        Yaml::List(s) => lemma_simple_images(s),
        Yaml::Dict(m) => lemma_simple_entry_images(m),
        Yaml::Tagged(t, b) => lemma_simple_image(*b),
        _ => {},
    }
}

proof fn lemma_simple_images(s: Seq<Yaml>)
    requires
        simple_all(s),
    ensures
        ready_all(s),
        images_of(s) == Some(s),
    decreases s,
{
    if s.len() > 0 {
        lemma_simple_images(s.drop_last());
        lemma_simple_image(s.last());
        assert(s.drop_last().push(s.last()) =~= s);
    }
}

proof fn lemma_simple_entry_images(m: Seq<(Yaml, Yaml)>)
    requires
        simple_entries(m),
    ensures
        ready_entries(m),
        entry_images(m) == Some(m),
    decreases m,
{
    if m.len() > 0 {
        lemma_simple_entry_images(m.drop_last());
        lemma_simple_image(m.last().0);
        lemma_simple_image(m.last().1);
        assert(m.drop_last().push((m.last().0, m.last().1)) =~= m);
    }
}

proof fn lemma_ready_all(s: Seq<Yaml>, i: int)
    requires
        ready_all(s),
        0 <= i < s.len(),
    ensures
        serde_ready(s[i]),
    decreases s.len(),
{
    if i < s.len() - 1 {
        lemma_ready_all(s.drop_last(), i);
    }
}

proof fn lemma_ready_entries(m: Seq<(Yaml, Yaml)>, i: int)
    requires
        ready_entries(m),
        0 <= i < m.len(),
    ensures
        simple_key(m[i].0),
        serde_ready(m[i].0),
        serde_ready(m[i].1),
        serde_image(m[i].0) == Some(m[i].0),
    decreases m.len(),
{
    if i < m.len() - 1 {
        lemma_ready_entries(m.drop_last(), i);
    }
}

/// Once a prefix of `s` has no images, `s` has none.
proof fn lemma_images_none(s: Seq<Yaml>, i: int)
    requires
        0 <= i <= s.len(),
        images_of(s.take(i)) is None,
    ensures
        images_of(s) is None,
    decreases s.len(),
{
    if i == s.len() {
        assert(s.take(i) =~= s);
    } else {
        assert(s.drop_last().take(i) =~= s.take(i));
        lemma_images_none(s.drop_last(), i);
    }
}

/// Once a prefix of `m` has no images, `m` has none.
proof fn lemma_entry_images_none(m: Seq<(Yaml, Yaml)>, i: int)
    requires
        0 <= i <= m.len(),
        entry_images(m.take(i)) is None,
    ensures
        entry_images(m) is None,
    decreases m.len(),
{
    if i == m.len() {
        assert(m.take(i) =~= m);
    } else {
        assert(m.drop_last().take(i) =~= m.take(i));
        lemma_entry_images_none(m.drop_last(), i);
    }
}

/// The images of ready entries keep their keys.
proof fn lemma_entry_images_keys(m: Seq<(Yaml, Yaml)>, a: Seq<(Yaml, Yaml)>)
    requires
        ready_entries(m),
        entry_images(m) == Some(a),
    ensures
        a.len() == m.len(),
        forall|i: int| 0 <= i < m.len() ==> #[trigger] a[i].0 == m[i].0,
    decreases m.len(),
{
    if m.len() > 0 {
        let a0 = entry_images(m.drop_last()).unwrap();
        lemma_entry_images_keys(m.drop_last(), a0);
        lemma_ready_entries(m, m.len() - 1);
        assert forall|i: int| 0 <= i < m.len() implies #[trigger] a[i].0 == m[i].0 by {
            if i < m.len() - 1 {
                assert(a[i] == a0[i]);
                assert(m[i] == m.drop_last()[i]);
            }
        }
    }
}

/// The parts a `serde_yaml::Value` is built from, one variant for each of its
/// own but numbers, which come as integers.
pub enum ValueBuild {
    Null,
    Bool(bool),
    PosInt(u64),
    NegInt(i64),
    Str(String),
    Sequence(Vec<serde_yaml::Value>),
    Mapping(Vec<(serde_yaml::Value, serde_yaml::Value)>),
    Tagged(String, serde_yaml::Value),
}

/// The `serde_yaml::Value` of the given parts: `Value::Number` of `u64` or
/// `i64` (`From`, which makes a non-negative `i64` a `PosInt`), a `Mapping`
/// collected from the entries (`FromIterator`), a tag by `Tag::new` (which
/// refuses an empty tag, and whose text is the tag with one leading `!`).
/// The contract claims the tree of the result, for a mapping whose keys are
/// simple and distinct.
#[verifier::external_body]
fn value_from_parts(p: ValueBuild) -> (r: serde_yaml::Value)
    requires
        p matches ValueBuild::Tagged(t, _) ==> t@.len() > 0,
    ensures
        match p {
            ValueBuild::Null => yaml_tree(r) == Yaml::Null,
            ValueBuild::Bool(b) => yaml_tree(r) == Yaml::Bool(b),
            ValueBuild::PosInt(n) => yaml_tree(r) == Yaml::Number(NumberModel::PosInt(n)),
            ValueBuild::NegInt(n) => yaml_tree(r) == Yaml::Number(
                if n < 0 {
                    NumberModel::NegInt(n)
                } else {
                    NumberModel::PosInt(n as u64)
                },
            ),
            ValueBuild::Str(s) => yaml_tree(r) == Yaml::Str(s@),
            ValueBuild::Sequence(items) => yaml_tree(r) == Yaml::List(trees_of(items@)),
            ValueBuild::Mapping(es) => {
                let t = pair_trees(es@);
                (keys_distinct(t) && forall|i: int| 0 <= i < t.len() ==> #[trigger] simple_key(t[i].0))
                    ==> yaml_tree(r) == Yaml::Dict(t)
            },
            ValueBuild::Tagged(t, v) => yaml_tree(r) == Yaml::Tagged(tag_text(t@), Box::new(yaml_tree(v))),
        },
{
    match p {
        ValueBuild::Null => serde_yaml::Value::Null,
        ValueBuild::Bool(b) => serde_yaml::Value::Bool(b),
        ValueBuild::PosInt(n) => serde_yaml::Value::Number(n.into()),
        ValueBuild::NegInt(n) => serde_yaml::Value::Number(n.into()),
        ValueBuild::Str(s) => serde_yaml::Value::String(s),
        ValueBuild::Sequence(items) => serde_yaml::Value::Sequence(items),
        ValueBuild::Mapping(es) => serde_yaml::Value::Mapping(es.into_iter().collect()),
        ValueBuild::Tagged(t, v) => serde_yaml::Value::Tagged(
            Box::new(serde_yaml::value::TaggedValue { tag: serde_yaml::value::Tag::new(t), value: v }),
        ),
    }
}

/// `serde_yaml::to_string` of a value: its YAML text, or `None` when it
/// cannot be written.
#[verifier::external_body]
fn emit_value(v: &serde_yaml::Value) -> (r: Option<String>)
    ensures
        r matches Some(s) ==> spec_emit_yaml(yaml_tree(*v)) == Some(s@),
        r is None <==> spec_emit_yaml(yaml_tree(*v)) is None,
{
    serde_yaml::to_string(v).ok()
}

/// `serde_yaml::from_str` into a `serde_yaml::Number`, as a value: the
/// number that `text` holds, or `None`.
#[verifier::external_body]
fn number_value(text: &str) -> (r: Option<serde_yaml::Value>)
    ensures
        r matches Some(x) ==> spec_parse_number(text@) == Some(yaml_tree(x)) && yaml_tree(x) is Number,
        r is None <==> spec_parse_number(text@) is None,
{
    serde_yaml::from_str::<serde_yaml::Number>(text).ok().map(serde_yaml::Value::Number)
}

/// The `serde_yaml::Value` of a tree; `None` when a float's text holds no
/// number or a tag is empty. Where every mapping has distinct simple keys,
/// its tree is the image of the tree.
pub fn to_serde_value(v: &YamlValue) -> (r: Option<serde_yaml::Value>)
    ensures
        serde_ready(v.model()) ==> tree_of(r) == serde_image(v.model()),
    decreases v,
{
    match v {
        YamlValue::Null => Some(value_from_parts(ValueBuild::Null)),
        YamlValue::Bool(b) => Some(value_from_parts(ValueBuild::Bool(*b))),
        YamlValue::Number(YamlNumber::PosInt(n)) => Some(value_from_parts(ValueBuild::PosInt(*n))),
        YamlValue::Number(YamlNumber::NegInt(n)) => Some(value_from_parts(ValueBuild::NegInt(*n))),
        YamlValue::Number(YamlNumber::Float(t)) => number_value(t.as_str()),
        YamlValue::String(s) => Some(value_from_parts(ValueBuild::Str(s.clone()))),
        YamlValue::Sequence(items) => {
            proof {
                lemma_models_of(items@);
            }
            match values_to_serde(items) {
                Some(out) => Some(value_from_parts(ValueBuild::Sequence(out))),
                None => None,
            }
        },
        YamlValue::Mapping(m) => {
            match entries_to_serde(&m.entries) {
                Some(out) => {
                    proof {
                        let me = entry_models(m.entries@);
                        if serde_ready(v.model()) {
                            lemma_entry_images_keys(me, pair_trees(out@));
                            assert forall|i: int| 0 <= i < me.len() implies #[trigger] simple_key(
                                pair_trees(out@)[i].0,
                            ) by {
                                lemma_ready_entries(me, i);
                            }
                        }
                    }
                    Some(value_from_parts(ValueBuild::Mapping(out)))
                },
                None => None,
            }
        },
        YamlValue::Tagged(t, inner) => {
            if t.as_str().unicode_len() == 0 {
                return None;
            }
            match to_serde_value(&**inner) {
                Some(x) => Some(value_from_parts(ValueBuild::Tagged(t.clone(), x))),
                None => None,
            }
        },
    }
}

/// The `serde_yaml::Value`s of trees, in order; `None` when one has none.
fn values_to_serde(items: &Vec<YamlValue>) -> (r: Option<Vec<serde_yaml::Value>>)
    ensures
        ready_all(models_of(items@)) ==> match r {
            Some(out) => images_of(models_of(items@)) == Some(trees_of(out@)),
            None => images_of(models_of(items@)) is None,
        },
    decreases items@,
{
    proof {
        lemma_models_of(items@);
    }
    let ghost ms = models_of(items@);
    let mut out: Vec<serde_yaml::Value> = Vec::new();
    let mut i: usize = 0;
    while i < items.len()
        invariant
            i <= items.len(),
            ms == models_of(items@),
            ms.len() == items.len(),
            forall|j: int| 0 <= j < items.len() ==> #[trigger] ms[j] == items@[j].model(),
            ready_all(ms) ==> images_of(ms.take(i as int)) == Some(trees_of(out@)),
        decreases items.len() - i,
    {
        proof {
            if ready_all(ms) {
                lemma_ready_all(ms, i as int);
            }
            assert(decreases_to!(items@ => items@[i as int]));
            assert(ms.take(i + 1).drop_last() =~= ms.take(i as int));
            assert(ms.take(i + 1).last() == ms[i as int]);
        }
        match to_serde_value(&items[i]) {
            Some(x) => {
                out.push(x);
                proof {
                    assert(trees_of(out@) =~= trees_of(out@.drop_last()).push(yaml_tree(x)));
                }
            },
            None => {
                proof {
                    if ready_all(ms) {
                        lemma_images_none(ms, i + 1);
                    }
                }
                return None;
            },
        }
        i = i + 1;
    }
    assert(ms.take(items.len() as int) =~= ms);
    Some(out)
}

/// The `serde_yaml::Value` pairs of mapping entries, in order; `None` when
/// one has none.
fn entries_to_serde(es: &Vec<(YamlValue, YamlValue)>) -> (r: Option<Vec<(serde_yaml::Value, serde_yaml::Value)>>)
    ensures
        ready_entries(entry_models(es@)) ==> match r {
            Some(out) => entry_images(entry_models(es@)) == Some(pair_trees(out@)),
            None => entry_images(entry_models(es@)) is None,
        },
    decreases es@,
{
    proof {
        lemma_entry_models(es@);
    }
    let ghost me = entry_models(es@);
    let mut out: Vec<(serde_yaml::Value, serde_yaml::Value)> = Vec::new();
    let mut i: usize = 0;
    while i < es.len()
        invariant
            i <= es.len(),
            me == entry_models(es@),
            me.len() == es.len(),
            forall|j: int| 0 <= j < es.len() ==> #[trigger] me[j] == (es@[j].0.model(), es@[j].1.model()),
            ready_entries(me) ==> entry_images(me.take(i as int)) == Some(pair_trees(out@)),
        decreases es.len() - i,
    {
        proof {
            if ready_entries(me) {
                lemma_ready_entries(me, i as int);
            }
            assert(decreases_to!(es@ => es@[i as int]));
            assert(me.take(i + 1).drop_last() =~= me.take(i as int));
            assert(me.take(i + 1).last() == me[i as int]);
        }
        let k = to_serde_value(&es[i].0);
        let x = to_serde_value(&es[i].1);
        match (k, x) {
            (Some(k), Some(x)) => {
                out.push((k, x));
                proof {
                    assert(pair_trees(out@) =~= pair_trees(out@.drop_last()).push((yaml_tree(k), yaml_tree(x))));
                }
            },
            _ => {
                proof {
                    if ready_entries(me) {
                        lemma_entry_images_none(me, i + 1);
                    }
                }
                return None;
            },
        }
        i = i + 1;
    }
    assert(me.take(es.len() as int) =~= me);
    Some(out)
}

/// The text that `serde_yaml` writes of the value the library makes of `y`.
pub open spec fn spec_yaml_text(y: Yaml) -> Option<Seq<char>> {
    match serde_image(y) {
        Some(t) => spec_emit_yaml(t),
        None => None,
    }
}

/// The YAML text of a tree, written by `serde_yaml`: where every mapping has
/// distinct simple keys, the text of the tree's image.
pub fn to_yaml_text(v: &YamlValue) -> (r: Option<String>)
    ensures
        serde_ready(v.model()) ==> text_of(r) == spec_yaml_text(v.model()),
{
    match to_serde_value(v) {
        Some(x) => emit_value(&x),
        None => None,
    }
}

/// Why YAML text gave no mapping.
#[derive(Clone, Copy, Debug, PartialEq, Eq, Structural)]
pub enum ParseError {
    /// the text is no YAML document
    Invalid,
    /// the document is neither a mapping nor null
    NotAMapping,
}

/// The mapping that YAML text holds, as `serde_yaml` reads an optional
/// mapping: `None` for a null document, an error for a document that is no
/// mapping or no YAML at all.
pub fn parse_mapping_text(text: &str) -> (r: Result<Option<YamlMapping>, ParseError>)
    ensures
        r matches Ok(Some(m)) ==> m.wf() && spec_parse_yaml(text@) == Some(Yaml::Dict(m.model_entries())),
        spec_parse_yaml(text@) matches Some(Yaml::Dict(_)) ==> r matches Ok(Some(_)),
        r matches Ok(None) <==> spec_parse_yaml(text@) == Some(Yaml::Null),
        r == Err::<Option<YamlMapping>, ParseError>(ParseError::Invalid) <==> spec_parse_yaml(text@) is None,
        r == Err::<Option<YamlMapping>, ParseError>(ParseError::NotAMapping) <==> (spec_parse_yaml(text@) matches Some(t)
            && !(t is Null) && !(t is Dict)),
{
    match parse_yaml_text(text) {
        Some(YamlValue::Mapping(m)) => Ok(Some(m)),
        Some(YamlValue::Null) => Ok(None),
        Some(_) => Err(ParseError::NotAMapping),
        None => Err(ParseError::Invalid),
    }
}

/// The tree of an optional mapping: `null` for none.
pub open spec fn optional_tree(m: Option<YamlMapping>) -> Yaml {
    match m {
        Some(x) => Yaml::Dict(x.model_entries()),
        None => Yaml::Null,
    }
}

/// The YAML text of an optional mapping, written by `serde_yaml`: `null` for
/// none.
pub fn mapping_text(m: &Option<YamlMapping>) -> (r: Option<String>)
    ensures
        serde_ready(optional_tree(*m)) ==> text_of(r) == spec_yaml_text(optional_tree(*m)),
{
    match m {
        Some(x) => to_yaml_text(&YamlValue::Mapping(x.clone())),
        None => to_yaml_text(&YamlValue::Null),
    }
}

/// The tree that `serde_yml::from_str` reads from `text` into a
/// `serde_yaml::Value`, if it reads one.
pub uninterp spec fn spec_parse_yml(text: Seq<char>) -> Option<Yaml>;

/// The text that `serde_yml::to_string` writes of a `serde_yaml::Value`
/// with tree `t`, if it writes one.
pub uninterp spec fn spec_emit_yml(t: Yaml) -> Option<Seq<char>>;

/// `serde_yml::from_str` into a `serde_yaml::Value`: the parsed tree, or
/// `None` when the text is no YAML document.
#[verifier::external_body]
fn parse_value_yml(text: &str) -> (r: Option<serde_yaml::Value>)
    ensures
        r matches Some(v) ==> spec_parse_yml(text@) == Some(yaml_tree(v)),
        r is None <==> spec_parse_yml(text@) is None,
{
    serde_yml::from_str::<serde_yaml::Value>(text).ok()
}

/// `serde_yml::to_string` of a value: its YAML text, or `None` when it
/// cannot be written.
#[verifier::external_body]
fn emit_value_yml(v: &serde_yaml::Value) -> (r: Option<String>)
    ensures
        r matches Some(s) ==> spec_emit_yml(yaml_tree(*v)) == Some(s@),
        r is None <==> spec_emit_yml(yaml_tree(*v)) is None,
{
    serde_yml::to_string(v).ok()
}

/// The YAML tree that `text` holds, read by `serde_yml`; `None` when the
/// text is no YAML document.
pub fn parse_yml_text(text: &str) -> (r: Option<YamlValue>)
    ensures
        r matches Some(YamlValue::Mapping(m)) ==> m.wf(),
        r matches Some(v) ==> dict_wf(v.model()),
        r matches Some(v) ==> spec_parse_yml(text@) == Some(v.model()),
        r is None <==> spec_parse_yml(text@) is None,
{
    match parse_value_yml(text) {
        Some(v) => Some(from_serde_value(&v)),
        None => None,
    }
}

/// The entries of an optional mapping.
pub open spec fn entries_of(m: Option<YamlMapping>) -> Option<Seq<(Yaml, Yaml)>> {
    match m {
        Some(x) => Some(x.model_entries()),
        None => None,
    }
}

/// The entries of an optional tree that is a mapping; `None` for any other.
pub open spec fn dict_of(t: Option<Yaml>) -> Option<Seq<(Yaml, Yaml)>> {
    match t {
        Some(Yaml::Dict(e)) => Some(e),
        _ => None,
    }
}

/// The mapping that YAML text holds, read by `serde_yml`; `None` when the
/// text holds no mapping.
pub fn yml_mapping_from_text(text: &str) -> (r: Option<YamlMapping>)
    ensures
        r matches Some(m) ==> m.wf(),
        entries_of(r) == dict_of(spec_parse_yml(text@)),
{
    match parse_yml_text(text) {
        Some(YamlValue::Mapping(m)) => Some(m),
        _ => None,
    }
}

/// The text that `serde_yml` writes of the value the library makes of `y`.
pub open spec fn spec_yml_text(y: Yaml) -> Option<Seq<char>> {
    match serde_image(y) {
        Some(t) => spec_emit_yml(t),
        None => None,
    }
}

/// The YAML text of a tree, written by `serde_yml`: where every mapping has
/// distinct simple keys, the text of the tree's image.
pub fn to_yml_text(v: &YamlValue) -> (r: Option<String>)
    ensures
        serde_ready(v.model()) ==> text_of(r) == spec_yml_text(v.model()),
{
    match to_serde_value(v) {
        Some(x) => emit_value_yml(&x),
        None => None,
    }
}

/// The YAML text of an optional mapping, written by `serde_yml`: `null` for
/// none.
pub fn yml_mapping_text(m: &Option<YamlMapping>) -> (r: Option<String>)
    ensures
        serde_ready(optional_tree(*m)) ==> text_of(r) == spec_yml_text(optional_tree(*m)),
{
    match m {
        Some(x) => to_yml_text(&YamlValue::Mapping(x.clone())),
        None => to_yml_text(&YamlValue::Null),
    }
}

} // verus!
