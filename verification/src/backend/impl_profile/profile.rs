//! Profiles on disk and the merge of the basic clash configuration into them.

use super::{extract_domain, spec_extract_domain};
use crate::text::concat_str;
use crate::yaml_text::{
    dict_of, entries_of, lemma_simple_image, optional_tree, serde_ready, simple_tree, spec_emit_yml, spec_parse_yml, spec_yml_text, text_of, yml_mapping_from_text, yml_mapping_text,
};
use crate::yaml::{
    has_key, insert_key, key_index, keys_distinct, lemma_insert_key, lemma_key_index,
    lemma_models_of, lemma_remove_key, lookup, models_of, remove_key, as_map, Yaml, YamlMapping,
    YamlValue,
};
use vstd::prelude::*;
use vstd::string::*;

verus! {

/// Where a profile comes from.
#[derive(Clone, Debug)]
pub enum ProfileType {
    /// local import
    File,
    /// download url
    Url(String),
    /// generated by template
    Generated(String),
    Github { url: String, token: String },
    GitLab { url: String, token: String },
}

/// A named profile.
#[derive(Clone, Debug)]
pub struct Profile {
    pub name: String,
    pub dtype: ProfileType,
}

/// A profile together with its file and, once read, its content.
#[derive(Clone, Debug)]
pub struct LocalProfile {
    pub name: String,
    pub dtype: ProfileType,
    pub path: String,
    pub content: Option<YamlMapping>,
}

/// The merge was asked of a profile without content or with an empty
/// basic configuration.
#[derive(Clone, Copy, Debug, PartialEq, Eq)]
pub enum MergeError {
    MissingContent,
}

impl MergeError {
    /// The message of this error.
    pub fn message(&self) -> (r: String)
        ensures
            r@ == "failed to merge: one of the input content is none"@,
    {
        "failed to merge: one of the input content is none".to_owned()
    }
}

/// The literal `From template `.
pub open spec fn template_prefix() -> Seq<char> {
    seq!['F', 'r', 'o', 'm', ' ', 't', 'e', 'm', 'p', 'l', 'a', 't', 'e', ' ']
}

impl ProfileType {
    /// What `get_domain` reports of this profile type.
    pub open spec fn spec_domain(&self) -> Option<Seq<char>> {
        match self {
            ProfileType::File => None,
            ProfileType::Url(url) => Some(spec_extract_domain(url@)),
            ProfileType::Generated(name) => Some(template_prefix() + name@),
            ProfileType::Github { url, token: _ } => Some(spec_extract_domain(url@)),
            ProfileType::GitLab { url, token: _ } => Some(spec_extract_domain(url@)),
        }
    }

    /// The domain that an upgradable profile is fetched from, or the template
    /// that generated it; `None` for a local file.
    pub fn get_domain(&self) -> (r: Option<String>)
        ensures
            r is None <==> self is File,
            r matches Some(d) ==> self.spec_domain() == Some(d@),
            r is None ==> self.spec_domain() is None,
    {
        match self {
            ProfileType::File => None,
            ProfileType::Url(url) => domain_of(url.as_str()),
            ProfileType::Generated(name) => {
                proof {
                    reveal_strlit("From template ");
                }
                Some(concat_str("From template ", name.as_str()))
            },
            ProfileType::Github { url, token: _ } => domain_of(url.as_str()),
            ProfileType::GitLab { url, token: _ } => domain_of(url.as_str()),
        }
    }
}

fn domain_of(url: &str) -> (r: Option<String>)
    ensures
        r matches Some(d) && d@ == spec_extract_domain(url@),
{
    Some(extract_domain(url).to_owned())
}

impl Profile {
    /// A profile named `Unknown` of a local file.
    pub fn default() -> (r: Profile)
        ensures
            r.name@ == "Unknown"@,
            r.dtype is File,
    {
        Profile { name: "Unknown".to_owned(), dtype: ProfileType::File }
    }
}

/// Every profile but a local file has a domain: an upgradable profile (one
/// fetched from a URL) the host of its URL, a generated one its template.
pub proof fn lemma_domain_of_upgradable(t: ProfileType)
    ensures
        t.spec_domain() is None <==> t is File,
        t is Url || t is Github || t is GitLab ==> t.spec_domain() is Some,
{
}

/// The key whose sequence keeps its last item last when merged.
pub open spec fn rules_key() -> Yaml {
    Yaml::Str(seq!['r', 'u', 'l', 'e', 's'])
}

/// The value that `k` gets when `v` is merged over `old`: a sequence is
/// extended by the items of a sequence `v` (before its last item under
/// `rules`); in every other case `v` overwrites.
pub open spec fn merged_value(old: Option<Yaml>, k: Yaml, v: Yaml) -> Yaml {
    match (old, v) {
        (Some(Yaml::List(ov)), Yaml::List(vs)) => Yaml::List(
            if k == rules_key() {
                ov.drop_last() + vs + seq![ov.last()]
            } else {
                ov + vs
            },
        ),
        _ => v,
    }
}

/// One step of the merge: the entry of `e.0` is removed from `m` (the last
/// entry takes its place) and appended again with its merged value.
pub open spec fn merge_step(m: Seq<(Yaml, Yaml)>, e: (Yaml, Yaml)) -> Seq<(Yaml, Yaml)> {
    remove_key(m, e.0).push((e.0, merged_value(lookup(m, e.0), e.0, e.1)))
}

/// The entries of `m` after the entries of `basic` are merged into it in order.
pub open spec fn merge_entries(m: Seq<(Yaml, Yaml)>, basic: Seq<(Yaml, Yaml)>) -> Seq<(Yaml, Yaml)>
    decreases basic.len(),
{
    if basic.len() == 0 {
        m
    } else {
        merge_step(merge_entries(m, basic.drop_last()), basic.last())
    }
}

/// The merge cannot extend `rules`: the content holds it as an empty
/// sequence and the basic configuration holds a sequence under it.
pub open spec fn merge_blocked(content: Seq<(Yaml, Yaml)>, basic: Seq<(Yaml, Yaml)>) -> bool {
    &&& lookup(content, rules_key()) == Some(Yaml::List(Seq::empty()))
    &&& lookup(basic, rules_key()) matches Some(Yaml::List(_))
}

/// The merge law: every key of `basic` ends up in the content, bound to its
/// merged value; every other key keeps its value; no key appears twice.
pub proof fn lemma_merge_law(content: Seq<(Yaml, Yaml)>, basic: Seq<(Yaml, Yaml)>)
    requires
        keys_distinct(content),
        keys_distinct(basic),
    ensures
        keys_distinct(merge_entries(content, basic)),
        forall|k: Yaml|
            #[trigger] lookup(merge_entries(content, basic), k) == if has_key(basic, k) {
                Some(merged_value(lookup(content, k), k, lookup(basic, k).unwrap()))
            } else {
                lookup(content, k)
            },
        as_map(merge_entries(content, basic)).dom() == as_map(content).dom().union(
            as_map(basic).dom(),
        ),
    decreases basic.len(),
{
    let r = merge_entries(content, basic);
    if basic.len() > 0 {
        let b0 = basic.drop_last();
        let e = basic.last();
        let n = basic.len() - 1;
        assert(keys_distinct(b0));
        lemma_merge_law(content, b0);
        let m0 = merge_entries(content, b0);
        lemma_remove_key(m0, e.0);
        let rm = remove_key(m0, e.0);
        let nv = merged_value(lookup(m0, e.0), e.0, e.1);
        lemma_insert_key(rm, e.0, nv);
        assert(insert_key(rm, e.0, nv) == r);
        // `basic` is `b0` with its last entry appended under a new key
        assert(!has_key(b0, e.0)) by {
            if has_key(b0, e.0) {
                let j = key_index(b0, e.0);
                assert(basic[j].0 == basic[n].0);
            }
        }
        assert(basic =~= b0.push(e));
        lemma_insert_key(b0, e.0, e.1);
        assert(insert_key(b0, e.0, e.1) == basic);
        lemma_key_index(basic, n);
        assert forall|k: Yaml|
            #[trigger] lookup(r, k) == if has_key(basic, k) {
                Some(merged_value(lookup(content, k), k, lookup(basic, k).unwrap()))
            } else {
                lookup(content, k)
            } by {
            if k == e.0 {
            } else {
                assert(lookup(r, k) == lookup(rm, k));
                assert(lookup(rm, k) == lookup(m0, k));
                assert(lookup(basic, k) == lookup(b0, k));
                if has_key(basic, k) {
                    assert(lookup(basic, k) is Some);
                } else {
                    assert(lookup(b0, k) is None);
                }
            }
        }
    }
    assert(as_map(r).dom() =~= as_map(content).dom().union(as_map(basic).dom())) by {
        assert forall|k: Yaml| #[trigger] as_map(r).dom().contains(k) == (as_map(content).dom().contains(k)
            || as_map(basic).dom().contains(k)) by {
            assert(lookup(r, k) is Some == has_key(r, k));
            assert(lookup(content, k) is Some == has_key(content, k));
            assert(lookup(basic, k) is Some == has_key(basic, k));
        }
    }
}

/// The models of `ov` with copies of `v` appended.
fn extend_clones(ov: &mut Vec<YamlValue>, v: &Vec<YamlValue>)
    ensures
        models_of(final(ov)@) == models_of(old(ov)@) + models_of(v@),
{
    let ghost start = ov@;
    proof {
        lemma_models_of(v@);
        lemma_models_of(ov@);
    }
    let mut i: usize = 0;
    while i < v.len()
        invariant
            i <= v.len(),
            models_of(v@).len() == v.len(),
            forall|j: int| 0 <= j < v.len() ==> #[trigger] models_of(v@)[j] == v@[j].model(),
            models_of(ov@) == models_of(start) + models_of(v@).take(i as int),
        decreases v.len() - i,
    {
        let c = v[i].deep_clone();
        let ghost before = ov@;
        ov.push(c);
        proof {
            assert(ov@.drop_last() =~= before);
            assert(models_of(ov@) == models_of(before).push(c.model()));
            assert(models_of(v@).take(i + 1) =~= models_of(v@).take(i as int).push(v@[i as int].model()));
            assert(models_of(ov@) =~= models_of(start) + models_of(v@).take(i + 1));
        }
        i = i + 1;
    }
    assert(models_of(v@).take(v.len() as int) =~= models_of(v@));
}

impl LocalProfile {
    /// The profile named `base`, of a local file, with an empty path and no
    /// content.
    pub fn default() -> (r: LocalProfile)
        ensures
            r.name@ == "base"@,
            r.dtype is File,
            r.path@ == Seq::<char>::empty(),
            r.content is None,
    {
        LocalProfile {
            name: "base".to_owned(),
            dtype: ProfileType::File,
            path: String::new(),
            content: None,
        }
    }

    /// A local profile of `pf` stored at `path`, whose content is not read yet.
    pub fn from_pf(pf: Profile, path: String) -> (r: LocalProfile)
        ensures
            r.name == pf.name,
            r.dtype == pf.dtype,
            r.path == path,
            r.content is None,
    {
        let Profile { name, dtype } = pf;
        LocalProfile { name, dtype, path, content: None }
    }

    /// Reads the content from the text of the profile's file: the mapping it
    /// holds, or none when the text holds no mapping.
    pub fn sync_from_text(&mut self, text: &str)
        ensures
            final(self).name == old(self).name,
            final(self).dtype == old(self).dtype,
            final(self).path == old(self).path,
            final(self).content matches Some(m) ==> m.wf(),
            entries_of(final(self).content) == dict_of(spec_parse_yml(text@)),
    {
        self.content = yml_mapping_from_text(text);
    }

    /// The text that the profile's file gets: the content as YAML (`null`
    /// when there is none).
    pub fn content_text(&self) -> (r: Option<String>)
        ensures
            serde_ready(optional_tree(self.content)) ==> text_of(r) == spec_yml_text(optional_tree(self.content)),
    {
        yml_mapping_text(&self.content)
    }

    /// Merges `basic_clash_config` into the content: every item of it
    /// overwrites the item of the content with the same key, except that a
    /// sequence value is appended to a sequence of the content (under
    /// `rules`, before its last item, the final `MATCH` rule).
    ///
    /// The content has to be read from disk before.
    pub fn merge(&mut self, basic_clash_config: &YamlMapping) -> (r: Result<(), MergeError>)
        requires
            basic_clash_config.wf(),
            old(self).content matches Some(c) ==> (c.wf() && !merge_blocked(
                c.model_entries(),
                basic_clash_config.model_entries(),
            )),
        ensures
            r is Err <==> (old(self).content is None || basic_clash_config.model_entries().len() == 0),
            r is Err ==> *final(self) == *old(self),
            r is Ok ==> final(self).name == old(self).name && final(self).dtype == old(self).dtype
                && final(self).path == old(self).path,
            r is Ok ==> (final(self).content matches Some(m) && m.wf() && m.model_entries()
                == merge_entries(
                old(self).content.unwrap().model_entries(),
                basic_clash_config.model_entries(),
            )),
    {
        if self.content.is_none() || basic_clash_config.is_empty() {
            return Err(MergeError::MissingContent);
        }
        let mut map = self.content.take().unwrap();
        let ghost c = map.model_entries();
        let ghost b = basic_clash_config.model_entries();
        let n = basic_clash_config.len();
        let mut i: usize = 0;
        while i < n
            invariant
                n == b.len(),
                b == basic_clash_config.model_entries(),
                keys_distinct(b),
                keys_distinct(c),
                !merge_blocked(c, b),
                i <= n,
                map.wf(),
                map.model_entries() == merge_entries(c, b.take(i as int)),
            decreases n - i,
        {
            let (key, value) = basic_clash_config.entry(i);
            let ghost m0 = map.model_entries();
            let ghost k = key.model();
            let ghost v = value.model();
            proof {
                // `k` is not among the keys merged so far
                let bi = b.take(i as int);
                assert(keys_distinct(bi));
                lemma_merge_law(c, bi);
                assert(!has_key(bi, k)) by {
                    if has_key(bi, k) {
                        let j = key_index(bi, k);
                        assert(b[j].0 == b[i as int].0);
                    }
                }
                assert(lookup(m0, k) == lookup(c, k));
                lemma_key_index(b, i as int);
                assert(b.take(i + 1).drop_last() =~= bi);
                assert(b.take(i + 1).last() == b[i as int]);
            }
            let old_value = map.swap_remove(key);
            let ghost rm = map.model_entries();
            let ghost merged = merged_value(lookup(m0, k), k, v);
            proof {
                lemma_remove_key(m0, k);
            }
            match (old_value, value) {
                (Some(YamlValue::Sequence(mut ov)), YamlValue::Sequence(vs)) => {
                    let ghost ov0 = models_of(ov@);
                    proof {
                        lemma_models_of(ov@);
                    }
                    let is_rules = key.is_str("rules");
                    proof {
                        reveal_strlit("rules");
                        assert("rules"@ =~= seq!['r', 'u', 'l', 'e', 's']);
                    }
                    if is_rules {
                        // the content's `rules` is not empty here
                        assert(ov.len() > 0);
                        let ghost before = ov@;
                        let last = ov.pop().unwrap();
                        proof {
                            assert(before =~= ov@.push(last));
                            assert(ov@.push(last).drop_last() =~= ov@);
                            lemma_models_of(ov@);
                            assert(models_of(ov@) =~= ov0.drop_last());
                            assert(last.model() == ov0.last());
                        }
                        extend_clones(&mut ov, vs);
                        let ghost mid = ov@;
                        ov.push(last);
                        proof {
                            assert(ov@.drop_last() =~= mid);
                            assert(models_of(ov@) == models_of(mid).push(last.model()));
                            assert(models_of(ov@) =~= ov0.drop_last() + models_of(vs@) + seq![ov0.last()]);
                        }
                    } else {
                        extend_clones(&mut ov, vs);
                    }
                    let nk = key.deep_clone();
                    proof {
                        assert(Yaml::List(models_of(ov@)) == merged);
                    }
                    map.insert(nk, YamlValue::Sequence(ov));
                },
                _ => {
                    let nk = key.deep_clone();
                    let nv = value.deep_clone();
                    map.insert(nk, nv);
                },
            }
            proof {
                assert(map.model_entries() == rm.push((k, merged)));
                assert(map.model_entries() == merge_step(m0, (k, v)));
            }
            i = i + 1;
        }
        proof {
            assert(b.take(n as int) =~= b);
        }
        self.content = Some(map);
        Ok(())
    }
}

/// Writing a profile's content and reading the written text back restores
/// the content: for a content with no float, only negative `NegInt`s, tags
/// of the form `!name` and distinct simple keys, the text written is the
/// text `serde_yml` writes of the content's own tree, so whenever
/// `serde_yml` reads that text back as the tree it was written from, the
/// content read from it has the same entries.
pub proof fn lemma_sync_round_trip(p: LocalProfile, s: Seq<char>)
    requires
        p.content matches Some(m) && m.wf() && simple_tree(optional_tree(p.content)),
        spec_emit_yml(optional_tree(p.content)) == Some(s),
        spec_parse_yml(s) == Some(optional_tree(p.content)),
    ensures
        serde_ready(optional_tree(p.content)),
        spec_yml_text(optional_tree(p.content)) == Some(s),
        dict_of(spec_parse_yml(s)) == entries_of(p.content),
{
    lemma_simple_image(optional_tree(p.content));
}

/// Merging the basic configuration into a profile's content: when both
/// hold sequences under `rules` and the content's is not empty, the merged
/// rules are the content's rules but its last one, then the basic rules,
/// then the content's last rule (its final match rule), which so stays last.
pub proof fn lemma_merge_rules_before_last(
    content: Seq<(Yaml, Yaml)>,
    basic: Seq<(Yaml, Yaml)>,
    ov: Seq<Yaml>,
    vs: Seq<Yaml>,
)
    requires
        keys_distinct(content),
        keys_distinct(basic),
        lookup(content, Yaml::Str("rules"@)) == Some(Yaml::List(ov)),
        ov.len() > 0,
        lookup(basic, Yaml::Str("rules"@)) == Some(Yaml::List(vs)),
    ensures
        lookup(merge_entries(content, basic), Yaml::Str("rules"@)) == Some(
            Yaml::List(ov.drop_last() + vs + seq![ov.last()]),
        ),
{
    lemma_merge_law(content, basic);
    reveal_strlit("rules");
    assert(seq!['r', 'u', 'l', 'e', 's'] =~= "rules"@);
    assert(rules_key() == Yaml::Str("rules"@));
    assert(has_key(basic, Yaml::Str("rules"@)));
}

/// Merging the basic configuration into a profile's content, under any key
/// but `rules`: two sequences are joined end to end, the content's items
/// first; a basic value that is not a sequence, or that meets no sequence,
/// overwrites; a key that the basic configuration lacks keeps its value.
pub proof fn lemma_merge_values(content: Seq<(Yaml, Yaml)>, basic: Seq<(Yaml, Yaml)>)
    requires
        keys_distinct(content),
        keys_distinct(basic),
    ensures
        forall|k: Yaml|
            k != Yaml::Str("rules"@) && (lookup(content, k) matches Some(Yaml::List(_))) && (lookup(
                basic,
                k,
            ) matches Some(Yaml::List(_))) ==> #[trigger] lookup(merge_entries(content, basic), k)
                == Some(Yaml::List(lookup(content, k).unwrap()->List_0 + lookup(basic, k).unwrap()->List_0)),
        forall|k: Yaml|
            lookup(basic, k) is Some && !(lookup(basic, k).unwrap() is List) ==> #[trigger] lookup(
                merge_entries(content, basic),
                k,
            ) == lookup(basic, k),
        forall|k: Yaml|
            lookup(basic, k) is Some && !(lookup(content, k) matches Some(Yaml::List(_))) ==> #[trigger]
                lookup(merge_entries(content, basic), k) == lookup(basic, k),
        forall|k: Yaml|
            lookup(basic, k) is None ==> #[trigger] lookup(merge_entries(content, basic), k) == lookup(
                content,
                k,
            ),
{
    lemma_merge_law(content, basic);
    reveal_strlit("rules");
    assert(seq!['r', 'u', 'l', 'e', 's'] =~= "rules"@);
    assert(rules_key() == Yaml::Str("rules"@));
    assert forall|k: Yaml| #[trigger] lookup(basic, k) is Some <==> has_key(basic, k) by {}
}

} // verus!
