//! Profiles whose content takes the proxy and rule sections of a base profile.

pub use crate::backend::impl_profile::profile::ProfileType;
use crate::yaml::{
    has_key, insert_key, keys_distinct, lemma_insert_key, lookup, Yaml, YamlMapping,
};
use crate::yaml_text::{
    dict_of, entries_of, lemma_simple_image, mapping_text, optional_tree, parse_mapping_text, serde_ready,
    simple_tree, spec_emit_yaml, spec_parse_yaml, spec_yaml_text, text_of, ParseError,
};
use vstd::prelude::*;

verus! {

/// A named profile.
#[derive(Clone, Debug)]
pub struct Profile {
    pub name: String,
    pub dtype: ProfileType,
}

impl Profile {
    /// A profile named `Unknown` of a local file.
    pub fn default() -> (r: Profile)
        ensures
            r.name@ == "Unknown"@,
            r.dtype is File,
    {
        Profile { name: "Unknown".to_owned(), dtype: ProfileType::File }
    }
}

/// The sections of a profile that a merge takes from the base profile.
pub open spec fn filter_names() -> Seq<Seq<char>> {
    seq![
        "proxy-groups"@,
        "proxy-providers"@,
        "proxies"@,
        "sub-rules"@,
        "rules"@,
        "rule-providers"@,
    ]
}

/// A profile together with its file and, once read, its content.
#[derive(Clone, Debug)]
pub struct LocalProfile {
    pub name: String,
    pub dtype: ProfileType,
    pub path: String,
    pub content: Option<YamlMapping>,
}

/// `m` after the sections `names` that `base` holds are copied into it, in
/// the order of `names`.
pub open spec fn copy_sections(m: Seq<(Yaml, Yaml)>, base: Seq<(Yaml, Yaml)>, names: Seq<Seq<char>>) -> Seq<(Yaml, Yaml)>
    decreases names.len(),
{
    if names.len() == 0 {
        m
    } else {
        let prev = copy_sections(m, base, names.drop_last());
        let k = Yaml::Str(names.last());
        if has_key(base, k) {
            insert_key(prev, k, lookup(base, k).unwrap())
        } else {
            prev
        }
    }
}

/// Copying sections: a named section that the base holds takes the base's
/// value; every other key keeps its value; keys stay distinct.
pub proof fn lemma_copy_sections(m: Seq<(Yaml, Yaml)>, base: Seq<(Yaml, Yaml)>, names: Seq<Seq<char>>)
    requires
        keys_distinct(m),
    ensures
        keys_distinct(copy_sections(m, base, names)),
        forall|k: Yaml|
            #[trigger] lookup(copy_sections(m, base, names), k) == if (exists|s: Seq<char>|
                names.contains(s) && k == Yaml::Str(s)) && has_key(base, k) {
                lookup(base, k)
            } else {
                lookup(m, k)
            },
    decreases names.len(),
{
    if names.len() > 0 {
        let n0 = names.drop_last();
        lemma_copy_sections(m, base, n0);
        let prev = copy_sections(m, base, n0);
        let last = names.last();
        let kl = Yaml::Str(last);
        if has_key(base, kl) {
            lemma_insert_key(prev, kl, lookup(base, kl).unwrap());
        }
        assert forall|k: Yaml|
            #[trigger] lookup(copy_sections(m, base, names), k) == if (exists|s: Seq<char>|
                names.contains(s) && k == Yaml::Str(s)) && has_key(base, k) {
                lookup(base, k)
            } else {
                lookup(m, k)
            } by {
            let in_names = exists|s: Seq<char>| names.contains(s) && k == Yaml::Str(s);
            let in_n0 = exists|s: Seq<char>| n0.contains(s) && k == Yaml::Str(s);
            if k == kl {
                assert(names.contains(last)) by {
                    assert(names[names.len() - 1] == last);
                }
            } else {
                if in_names {
                    let s = choose|s: Seq<char>| names.contains(s) && k == Yaml::Str(s);
                    let j = choose|j: int| 0 <= j < names.len() && names[j] == s;
                    if j == names.len() - 1 {
                        assert(s == last);
                    } else {
                        assert(n0[j] == s);
                        assert(n0.contains(s));
                    }
                }
                if in_n0 {
                    let s = choose|s: Seq<char>| n0.contains(s) && k == Yaml::Str(s);
                    let j = choose|j: int| 0 <= j < n0.len() && n0[j] == s;
                    assert(names[j] == s);
                    assert(names.contains(s));
                }
                assert(in_names == in_n0);
            }
        }
    }
}

impl LocalProfile {
    /// The profile named `base`, of a local file, with an empty path and no
    /// content.
    pub fn default() -> (r: LocalProfile)
        ensures
            r.name@ == "base"@,
            r.dtype is File,
            r.path@ == Seq::<char>::empty(),
            r.content is None,
    {
        LocalProfile {
            name: "base".to_owned(),
            dtype: ProfileType::File,
            path: String::new(),
            content: None,
        }
    }

    /// The local profile of `profile` at `path` whose file holds `text`: its
    /// content is the mapping the text holds (none for a null document); an
    /// error when the text holds no YAML or something else than a mapping.
    pub fn from_text(path: String, profile: Profile, text: &str) -> (r: Result<LocalProfile, ParseError>)
        ensures
            r matches Ok(lp) ==> lp.name == profile.name && lp.dtype == profile.dtype && lp.path == path
                && (lp.content matches Some(m) ==> m.wf() && spec_parse_yaml(text@) == Some(
                Yaml::Dict(m.model_entries()),
            )) && (lp.content is None <==> spec_parse_yaml(text@) == Some(Yaml::Null)),
            r == Err::<LocalProfile, ParseError>(ParseError::Invalid) <==> spec_parse_yaml(text@) is None,
            r == Err::<LocalProfile, ParseError>(ParseError::NotAMapping) <==> (spec_parse_yaml(text@) matches Some(t)
                && !(t is Null) && !(t is Dict)),
    {
        let Profile { name, dtype } = profile;
        match parse_mapping_text(text) {
            Ok(content) => Ok(LocalProfile { name, dtype, path, content }),
            Err(e) => Err(e),
        }
    }

    /// Reads the content from the text of the profile's file; on an error
    /// the profile is left as it was.
    pub fn sync_from_text(&mut self, text: &str) -> (r: Result<(), ParseError>)
        ensures
            final(self).name == old(self).name,
            final(self).dtype == old(self).dtype,
            final(self).path == old(self).path,
            r is Ok ==> (final(self).content matches Some(m) ==> m.wf() && spec_parse_yaml(text@) == Some(
                Yaml::Dict(m.model_entries()),
            )) && (final(self).content is None <==> spec_parse_yaml(text@) == Some(Yaml::Null)),
            r is Err ==> final(self).content == old(self).content,
            r == Err::<(), ParseError>(ParseError::Invalid) <==> spec_parse_yaml(text@) is None,
            r == Err::<(), ParseError>(ParseError::NotAMapping) <==> (spec_parse_yaml(text@) matches Some(t)
                && !(t is Null) && !(t is Dict)),
    {
        match parse_mapping_text(text) {
            Ok(content) => {
                self.content = content;
                Ok(())
            },
            Err(e) => Err(e),
        }
    }

    /// The text that the profile's file gets: the content as YAML (`null`
    /// when there is none).
    pub fn content_text(&self) -> (r: Option<String>)
        ensures
            serde_ready(optional_tree(self.content)) ==> text_of(r) == spec_yaml_text(optional_tree(self.content)),
    {
        mapping_text(&self.content)
    }

    /// Copies the proxy and rule sections that `base` holds (`proxy-groups`,
    /// `proxy-providers`, `proxies`, `sub-rules`, `rules`,
    /// `rule-providers`) into the content.
    ///
    /// Both contents have to be read from disk before.
    pub fn merge(&mut self, base: &LocalProfile)
        requires
            old(self).content matches Some(c) && c.wf(),
            base.content matches Some(b) && b.wf(),
        ensures
            final(self).name == old(self).name,
            final(self).dtype == old(self).dtype,
            final(self).path == old(self).path,
            final(self).content matches Some(m) && m.wf() && m.model_entries() == copy_sections(
                old(self).content.unwrap().model_entries(),
                base.content.unwrap().model_entries(),
                filter_names(),
            ),
    {
        let names: [&str; 6] = [
            "proxy-groups",
            "proxy-providers",
            "proxies",
            "sub-rules",
            "rules",
            "rule-providers",
        ];
        let ghost fnames = filter_names();
        assert(names@.len() == 6);
        assert(forall|j: int| 0 <= j < 6 ==> #[trigger] names@[j]@ == fnames[j]);
        let mut map = self.content.take().unwrap();
        let b = base.content.as_ref().unwrap();
        let ghost c = map.model_entries();
        let ghost bm = b.model_entries();
        let mut i: usize = 0;
        while i < 6
            invariant
                i <= 6,
                names@.len() == 6,
                fnames == filter_names(),
                forall|j: int| 0 <= j < 6 ==> #[trigger] names@[j]@ == fnames[j],
                b.wf(),
                bm == b.model_entries(),
                map.wf(),
                map.model_entries() == copy_sections(c, bm, fnames.take(i as int)),
            decreases 6 - i,
        {
            let name = names[i];
            proof {
                assert(fnames.take(i + 1).drop_last() =~= fnames.take(i as int));
                assert(fnames.take(i + 1).last() == name@);
            }
            if b.contains_str(name) {
                let v = b.get_str(name).unwrap().deep_clone();
                let k = crate::yaml::YamlValue::String(name.to_owned());
                map.insert(k, v);
            }
            i = i + 1;
        }
        proof {
            assert(fnames.take(6) =~= fnames);
        }
        self.content = Some(map);
    }
}

/// Writing a profile's content and reading the written text back restores
/// the content: for a content with no float, only negative `NegInt`s, tags
/// of the form `!name` and distinct simple keys, the text written is the
/// text `serde_yaml` writes of the content's own tree, so whenever
/// `serde_yaml` reads that text back as the tree it was written from, the
/// content read from it has the same entries.
pub proof fn lemma_sync_round_trip(p: LocalProfile, s: Seq<char>)
    requires
        p.content matches Some(m) && m.wf() && simple_tree(optional_tree(p.content)),
        spec_emit_yaml(optional_tree(p.content)) == Some(s),
        spec_parse_yaml(s) == Some(optional_tree(p.content)),
    ensures
        serde_ready(optional_tree(p.content)),
        spec_yaml_text(optional_tree(p.content)) == Some(s),
        dict_of(spec_parse_yaml(s)) == entries_of(p.content),
{
    lemma_simple_image(optional_tree(p.content));
}

/// The sections that a merge takes are exactly `proxy-groups`,
/// `proxy-providers`, `proxies`, `sub-rules`, `rules` and `rule-providers`.
pub proof fn lemma_filter_names_are_sections()
    ensures
        forall|s: Seq<char>| #[trigger]
            filter_names().contains(s) <==> (s == "proxy-groups"@ || s == "proxy-providers"@ || s
                == "proxies"@ || s == "sub-rules"@ || s == "rules"@ || s == "rule-providers"@),
{
    let f = filter_names();
    assert(f.len() == 6);
    assert forall|s: Seq<char>| #[trigger]
        f.contains(s) <==> (s == "proxy-groups"@ || s == "proxy-providers"@ || s == "proxies"@ || s
            == "sub-rules"@ || s == "rules"@ || s == "rule-providers"@) by {
        if s == "proxy-groups"@ {
            assert(f[0] == s);
        }
        if s == "proxy-providers"@ {
            assert(f[1] == s);
        }
        if s == "proxies"@ {
            assert(f[2] == s);
        }
        if s == "sub-rules"@ {
            assert(f[3] == s);
        }
        if s == "rules"@ {
            assert(f[4] == s);
        }
        if s == "rule-providers"@ {
            assert(f[5] == s);
        }
    }
}

/// Merging with the base profile: each of the sections `proxy-groups`,
/// `proxy-providers`, `proxies`, `sub-rules`, `rules` and `rule-providers`
/// that the base holds is bound to the base's value; every other key keeps
/// the value it had.
pub proof fn lemma_merge_takes_sections(m: Seq<(Yaml, Yaml)>, base: Seq<(Yaml, Yaml)>)
    requires
        keys_distinct(m),
    ensures
        forall|s: Seq<char>|
            (s == "proxy-groups"@ || s == "proxy-providers"@ || s == "proxies"@ || s == "sub-rules"@
                || s == "rules"@ || s == "rule-providers"@) && has_key(base, Yaml::Str(s)) ==> #[trigger]
                lookup(copy_sections(m, base, filter_names()), Yaml::Str(s)) == lookup(base, Yaml::Str(s)),
        forall|k: Yaml|
            !(k == Yaml::Str("proxy-groups"@) || k == Yaml::Str("proxy-providers"@) || k == Yaml::Str(
                "proxies"@,
            ) || k == Yaml::Str("sub-rules"@) || k == Yaml::Str("rules"@) || k == Yaml::Str(
                "rule-providers"@,
            )) ==> #[trigger] lookup(copy_sections(m, base, filter_names()), k) == lookup(m, k),
{
    lemma_copy_sections(m, base, filter_names());
    lemma_filter_names_are_sections();
    assert forall|s: Seq<char>|
        (s == "proxy-groups"@ || s == "proxy-providers"@ || s == "proxies"@ || s == "sub-rules"@ || s
            == "rules"@ || s == "rule-providers"@) && has_key(base, Yaml::Str(s)) implies #[trigger]
        lookup(copy_sections(m, base, filter_names()), Yaml::Str(s)) == lookup(base, Yaml::Str(s)) by {
        assert(filter_names().contains(s));
    }
    assert forall|k: Yaml|
        !(k == Yaml::Str("proxy-groups"@) || k == Yaml::Str("proxy-providers"@) || k == Yaml::Str(
            "proxies"@,
        ) || k == Yaml::Str("sub-rules"@) || k == Yaml::Str("rules"@) || k == Yaml::Str(
            "rule-providers"@,
        )) implies #[trigger] lookup(copy_sections(m, base, filter_names()), k) == lookup(m, k) by {
        if exists|s: Seq<char>| filter_names().contains(s) && k == Yaml::Str(s) {
            let s = choose|s: Seq<char>| filter_names().contains(s) && k == Yaml::Str(s);
            assert(filter_names().contains(s));
        }
    }
}

} // verus!
