//! Localization data: languages, their text maps, and how fragments are
//! merged into a language.
//!
//! A language holds one map of plain localized texts and one map of text
//! variations.  Fragments loaded from separate files are merged in order,
//! later fragments overriding earlier ones, and a language may ask for
//! its texts to be folded to ASCII.  The folding itself is an outside
//! routine; everything around it is verified against its named result.

use vstd::prelude::*;
use crate::str_assoc::{
    lemma_str_get_at, lemma_str_get_none, lemma_str_push, lemma_str_take_snoc, lemma_str_update,
    str_find, str_get, str_wf,
};

verus! {

/// The reference language, also the default at first startup.
pub const REFERENCE_LANG: &'static str = "en";

/// The ASCII folding of a piece of text.
pub uninterp spec fn ascii_of(s: Seq<char>) -> Seq<char>;

/// Relies on deunicode::deunicode: folds text to ASCII, and the result
/// depends on the characters alone.
#[verifier::external_body]
fn to_ascii(s: &str) -> (r: String)
    ensures
        r@ == ascii_of(s@),
{
    deunicode::deunicode(s)
}

/// A map from text keys to localized values, with distinct keys.
pub struct StrMap<V> {
    entries: Vec<(String, V)>,
}

impl<V> StrMap<V> {
    /// The entries, in insertion order.
    pub closed spec fn rows(self) -> Seq<(String, V)> {
        self.entries@
    }

    /// The value under the key spelled `k`, if any.
    pub open spec fn get_of(self, k: Seq<char>) -> Option<V> {
        str_get(self.rows(), k)
    }

    /// Keys are distinct.
    pub closed spec fn wf(self) -> bool {
        str_wf(self.rows())
    }

    /// An empty map.
    pub fn new() -> (m: StrMap<V>)
        ensures
            m.wf(),
            m.rows() == Seq::<(String, V)>::empty(),
    {
        StrMap { entries: Vec::new() }
    }

    /// How many keys the map holds.
    pub fn len(&self) -> (n: usize)
        ensures
            n == self.rows().len(),
    {
        self.entries.len()
    }

    /// Borrows the key at one entry.
    pub fn key_at(&self, i: usize) -> (r: &String)
        requires
            i < self.rows().len(),
        ensures
            *r == self.rows()[i as int].0,
    {
        &self.entries[i].0
    }

    /// Looks a key up.
    pub fn get(&self, key: &String) -> (r: Option<&V>)
        requires
            self.wf(),
        ensures
            match self.get_of(key@) {
                Some(v) => r matches Some(rv) && *rv == v,
                None => r is None,
            },
    {
        match str_find(&self.entries, key) {
            Some(i) => {
                proof {
                    lemma_str_get_at(self.entries@, i as int);
                }
                Some(&self.entries[i].1)
            },
            None => {
                proof {
                    lemma_str_get_none(self.entries@, key@);
                }
                None
            },
        }
    }

    /// Binds the key to the value, replacing any previous binding of the
    /// same spelling.
    pub fn insert(&mut self, key: String, v: V)
        requires
            old(self).wf(),
        ensures
            final(self).wf(),
            final(self).get_of(key@) == Some(v),
            forall|q: Seq<char>|
                q != key@ ==> final(self).get_of(q) == old(self).get_of(q),
    {
        let ghost rows0 = self.entries@;
        match str_find(&self.entries, &key) {
            Some(i) => {
                let (k0, _) = self.entries.remove(i);
                self.entries.insert(i, (k0, v));
                proof {
                    assert(self.entries@ =~= rows0.update(i as int, self.entries@[i as int]));
                    assert(self.entries@[i as int].0@ == rows0[i as int].0@);
                    assert forall|q: Seq<char>| #[trigger]
                        str_get(self.entries@, q) == (if q == key@ {
                            str_get(self.entries@, key@)
                        } else {
                            str_get(rows0, q)
                        }) by {
                        lemma_str_update(rows0, i as int, self.entries@[i as int], q);
                    }
                    lemma_str_update(rows0, i as int, self.entries@[i as int], key@);
                }
            },
            None => {
                proof {
                    lemma_str_get_none(rows0, key@);
                }
                self.entries.push((key, v));
                proof {
                    assert forall|q: Seq<char>| #[trigger]
                        str_get(self.entries@, q) == (if q == key@ {
                            str_get(self.entries@, key@)
                        } else {
                            str_get(rows0, q)
                        }) by {
                        lemma_str_push(rows0, self.entries@[rows0.len() as int], q);
                    }
                    lemma_str_push(rows0, self.entries@[rows0.len() as int], key@);
                }
            },
        }
    }

    /// Merges another map in: its bindings win over this map's.
    pub fn extend(&mut self, other: StrMap<V>)
        requires
            old(self).wf(),
            other.wf(),
        ensures
            final(self).wf(),
            forall|k: Seq<char>|
                #[trigger] final(self).get_of(k) == (match other.get_of(k) {
                    Some(v) => Some(v),
                    None => old(self).get_of(k),
                }),
    {
        let ghost orows = other.rows();
        let StrMap { mut entries } = other;
        let ghost i: int = 0;
        proof {
            assert(orows.take(0) =~= Seq::<(String, V)>::empty());
        }
        loop
            invariant
                str_wf(orows),
                0 <= i <= orows.len(),
                entries@ == orows.skip(i),
                self.wf(),
                forall|k: Seq<char>|
                    #[trigger] self.get_of(k) == (match str_get(orows.take(i), k) {
                        Some(v) => Some(v),
                        None => old(self).get_of(k),
                    }),
            ensures
                forall|k: Seq<char>|
                    #[trigger] self.get_of(k) == (match str_get(orows, k) {
                        Some(v) => Some(v),
                        None => old(self).get_of(k),
                    }),
                self.wf(),
            decreases orows.len() - i,
        {
            if entries.len() == 0 {
                proof {
                    assert(orows.take(i) =~= orows);
                }
                break;
            }
            proof {
                assert(orows.skip(i)[0] == orows[i]);
            }
            let (k, v) = entries.remove(0);
            self.insert(k, v);
            proof {
                assert(entries@ =~= orows.skip(i).skip(1));
                assert(entries@ =~= orows.skip(i + 1));
                assert forall|k2: Seq<char>| #[trigger]
                    self.get_of(k2) == (match str_get(orows.take(i + 1), k2) {
                        Some(v2) => Some(v2),
                        None => old(self).get_of(k2),
                    }) by {
                    lemma_str_take_snoc(orows, i, k2);
                }
                i = i + 1;
            }
        }
    }
}

impl StrMap<String> {
    /// Folds every value to ASCII; the keys stay as they are.
    pub fn fold_values_ascii(&mut self)
        requires
            old(self).wf(),
        ensures
            final(self).wf(),
            forall|k: Seq<char>|
                match old(self).get_of(k) {
                    None => #[trigger] final(self).get_of(k) is None,
                    Some(v) => final(self).get_of(k) matches Some(v2) && v2@ == ascii_of(v@),
                },
    {
        let ghost rows0 = self.entries@;
        let mut i: usize = 0;
        loop
            invariant
                str_wf(rows0),
                0 <= i <= rows0.len(),
                self.entries@.len() == rows0.len(),
                forall|j: int|
                    0 <= j < rows0.len() ==> (#[trigger] self.entries@[j]).0@ == rows0[j].0@,
                forall|j: int| i <= j < rows0.len() ==> #[trigger] self.entries@[j] == rows0[j],
                forall|j: int|
                    0 <= j < i ==> (#[trigger] self.entries@[j]).1@ == ascii_of(rows0[j].1@),
            ensures
                self.entries@.len() == rows0.len(),
                forall|j: int|
                    0 <= j < rows0.len() ==> (#[trigger] self.entries@[j]).0@ == rows0[j].0@,
                forall|j: int|
                    0 <= j < rows0.len() ==> (#[trigger] self.entries@[j]).1@ == ascii_of(
                        rows0[j].1@,
                    ),
            decreases rows0.len() - i,
        {
            if i == self.entries.len() {
                break;
            }
            let folded = to_ascii(self.entries[i].1.as_str());
            let (k0, _) = self.entries.remove(i);
            self.entries.insert(i, (k0, folded));
            i = i + 1;
        }
        proof {
            lemma_str_pointwise_fold(rows0, self.entries@);
        }
    }
}

/// Folds every element of a list of texts to ASCII.
fn ascii_all(v: &Vec<String>) -> (r: Vec<String>)
    ensures
        r@.len() == v@.len(),
        forall|j: int| 0 <= j < v@.len() ==> (#[trigger] r@[j])@ == ascii_of(v@[j]@),
{
    let mut r: Vec<String> = Vec::new();
    let mut i: usize = 0;
    loop
        invariant
            0 <= i <= v@.len(),
            r@.len() == i,
            forall|j: int| 0 <= j < i ==> (#[trigger] r@[j])@ == ascii_of(v@[j]@),
        ensures
            r@.len() == v@.len(),
            forall|j: int| 0 <= j < v@.len() ==> (#[trigger] r@[j])@ == ascii_of(v@[j]@),
        decreases v@.len() - i,
    {
        if i == v.len() {
            break;
        }
        r.push(to_ascii(v[i].as_str()));
        i = i + 1;
    }
    r
}

impl StrMap<Vec<String>> {
    /// Folds every text of every value to ASCII; the keys stay as they
    /// are.
    pub fn fold_values_ascii(&mut self)
        requires
            old(self).wf(),
        ensures
            final(self).wf(),
            forall|k: Seq<char>|
                match old(self).get_of(k) {
                    None => #[trigger] final(self).get_of(k) is None,
                    Some(v) => final(self).get_of(k) matches Some(v2) && v2@.len() == v@.len()
                        && (forall|j: int|
                        0 <= j < v@.len() ==> (#[trigger] v2@[j])@ == ascii_of(v@[j]@)),
                },
    {
        let ghost rows0 = self.entries@;
        let mut i: usize = 0;
        loop
            invariant
                str_wf(rows0),
                0 <= i <= rows0.len(),
                self.entries@.len() == rows0.len(),
                forall|j: int|
                    0 <= j < rows0.len() ==> (#[trigger] self.entries@[j]).0@ == rows0[j].0@,
                forall|j: int| i <= j < rows0.len() ==> #[trigger] self.entries@[j] == rows0[j],
                forall|j: int|
                    0 <= j < i ==> {
                        let v2 = (#[trigger] self.entries@[j]).1;
                        let v = rows0[j].1;
                        v2@.len() == v@.len() && (forall|m: int|
                            0 <= m < v@.len() ==> (#[trigger] v2@[m])@ == ascii_of(v@[m]@))
                    },
            ensures
                self.entries@.len() == rows0.len(),
                forall|j: int|
                    0 <= j < rows0.len() ==> (#[trigger] self.entries@[j]).0@ == rows0[j].0@,
                forall|j: int|
                    0 <= j < rows0.len() ==> {
                        let v2 = (#[trigger] self.entries@[j]).1;
                        let v = rows0[j].1;
                        v2@.len() == v@.len() && (forall|m: int|
                            0 <= m < v@.len() ==> (#[trigger] v2@[m])@ == ascii_of(v@[m]@))
                    },
            decreases rows0.len() - i,
        {
            if i == self.entries.len() {
                break;
            }
            let folded = ascii_all(&self.entries[i].1);
            let (k0, _) = self.entries.remove(i);
            self.entries.insert(i, (k0, folded));
            i = i + 1;
        }
        proof {
            lemma_str_pointwise_wf(rows0, self.entries@);
            assert forall|k: Seq<char>|
                match str_get(rows0, k) {
                    None => #[trigger] str_get(self.entries@, k) is None,
                    Some(v) => str_get(self.entries@, k) matches Some(v2) && v2@.len() == v@.len()
                        && (forall|j: int|
                        0 <= j < v@.len() ==> (#[trigger] v2@[j])@ == ascii_of(v@[j]@)),
                } by {
                lemma_str_get_none(rows0, k);
                lemma_str_get_none(self.entries@, k);
                if str_get(rows0, k) is Some {
                    let j = choose|j: int| 0 <= j < rows0.len() && rows0[j].0@ == k;
                    lemma_str_get_at(rows0, j);
                    lemma_str_get_at(self.entries@, j);
                }
            }
        }
    }
}

/// Keys pointwise equal keep distinctness.
proof fn lemma_str_pointwise_wf<A, B>(s1: Seq<(String, A)>, s2: Seq<(String, B)>)
    requires
        str_wf(s1),
        s2.len() == s1.len(),
        forall|j: int| 0 <= j < s1.len() ==> (#[trigger] s2[j]).0@ == s1[j].0@,
    ensures
        str_wf(s2),
{
    assert forall|a: int, b: int|
        0 <= a < b < s2.len() implies (#[trigger] s2[a]).0@ != (#[trigger] s2[b]).0@ by {
        assert(s2[a].0@ == s1[a].0@);
        assert(s2[b].0@ == s1[b].0@);
    }
}

/// A pointwise ASCII fold of the rows folds every lookup result.
proof fn lemma_str_pointwise_fold(s1: Seq<(String, String)>, s2: Seq<(String, String)>)
    requires
        str_wf(s1),
        s2.len() == s1.len(),
        forall|j: int| 0 <= j < s1.len() ==> (#[trigger] s2[j]).0@ == s1[j].0@,
        forall|j: int| 0 <= j < s1.len() ==> (#[trigger] s2[j]).1@ == ascii_of(s1[j].1@),
    ensures
        forall|k: Seq<char>|
            match str_get(s1, k) {
                None => #[trigger] str_get(s2, k) is None,
                Some(v) => str_get(s2, k) matches Some(v2) && v2@ == ascii_of(v@),
            },
{
    lemma_str_pointwise_wf(s1, s2);
    assert forall|k: Seq<char>|
        match str_get(s1, k) {
            None => #[trigger] str_get(s2, k) is None,
            Some(v) => str_get(s2, k) matches Some(v2) && v2@ == ascii_of(v@),
        } by {
        lemma_str_get_none(s1, k);
        lemma_str_get_none(s2, k);
        if str_get(s1, k) is Some {
            let j = choose|j: int| 0 <= j < s1.len() && s1[j].0@ == k;
            lemma_str_get_at(s1, j);
            lemma_str_get_at(s2, j);
        }
    }
}

/// The key spellings among the first `k` entries that the map `have`
/// does not bind, in entry order.
pub open spec fn spec_missing_keys<A, B>(
    rows: Seq<(String, A)>,
    have: StrMap<B>,
    k: int,
) -> Seq<Seq<char>>
    decreases k,
{
    if k <= 0 {
        Seq::empty()
    } else {
        spec_missing_keys(rows, have, k - 1) + (if have.get_of(rows[k - 1].0@) is None {
            seq![rows[k - 1].0@]
        } else {
            Seq::empty()
        })
    }
}

/// The binding a key ends with after merging a run of maps over a base:
/// the last map that binds it wins, and the base answers otherwise.
pub open spec fn spec_fold_get<V>(maps: Seq<StrMap<V>>, base: Option<V>, k: Seq<char>) -> Option<
    V,
>
    decreases maps.len(),
{
    if maps.len() == 0 {
        base
    } else {
        match maps.last().get_of(k) {
            Some(v) => Some(v),
            None => spec_fold_get(maps.drop_last(), base, k),
        }
    }
}

/// How a language is described.
pub struct LanguageMetadata {
    /// A human friendly language name.
    pub language_name: String,
    /// A short, stable identifier, the key under which settings store the
    /// user's choice.
    pub language_identifier: String,
}

impl Clone for LanguageMetadata {
    /// A copy spelled exactly like this value.
    fn clone(&self) -> (r: Self)
        ensures
            r.language_name@ == self.language_name@,
            r.language_identifier@ == self.language_identifier@,
    {
        LanguageMetadata {
            language_name: self.language_name.clone(),
            language_identifier: self.language_identifier.clone(),
        }
    }
}

/// A batch of localized texts meant to be merged into a language.
pub struct LocalizationFragment {
    pub string_map: StrMap<String>,
    pub vector_map: StrMap<Vec<String>>,
}

impl LocalizationFragment {
    pub open spec fn wf(self) -> bool {
        self.string_map.wf() && self.vector_map.wf()
    }
}

/// Raw localization data as its manifest describes it, before fragments
/// are merged in.
pub struct RawLocalization {
    /// Subdirectories to collect further fragments from.
    pub sub_directories: Vec<String>,
    /// Whether the texts are folded to ASCII after merging.
    pub convert_utf8_to_ascii: bool,
    pub metadata: LanguageMetadata,
    pub string_map: StrMap<String>,
    pub vector_map: StrMap<Vec<String>>,
}

impl RawLocalization {
    pub open spec fn wf(self) -> bool {
        self.string_map.wf() && self.vector_map.wf()
    }
}

/// One language's localization data.
pub struct Language {
    pub sub_directories: Vec<String>,
    pub string_map: StrMap<String>,
    pub vector_map: StrMap<Vec<String>>,
    pub convert_utf8_to_ascii: bool,
    pub metadata: LanguageMetadata,
}

impl Language {
    pub open spec fn wf(self) -> bool {
        self.string_map.wf() && self.vector_map.wf()
    }

    /// Adopts raw localization data unchanged.
    pub fn from_raw(raw: RawLocalization) -> (l: Language)
        requires
            raw.wf(),
        ensures
            l.wf(),
            l.string_map == raw.string_map,
            l.vector_map == raw.vector_map,
            l.convert_utf8_to_ascii == raw.convert_utf8_to_ascii,
            l.metadata == raw.metadata,
            l.sub_directories == raw.sub_directories,
    {
        let RawLocalization {
            sub_directories,
            convert_utf8_to_ascii,
            metadata,
            string_map,
            vector_map,
        } = raw;
        Language { sub_directories, string_map, vector_map, convert_utf8_to_ascii, metadata }
    }

    /// A localized text from the given key.
    pub fn get(&self, key: &String) -> (r: Option<&String>)
        requires
            self.wf(),
        ensures
            match self.string_map.get_of(key@) {
                Some(v) => r matches Some(rv) && *rv == v,
                None => r is None,
            },
    {
        self.string_map.get(key)
    }

    /// A variation of a localized text from the given key; `index` may be
    /// any number and picks among the variations.
    pub fn get_variation(&self, key: &String, index: u16) -> (r: Option<&String>)
        requires
            self.wf(),
        ensures
            match self.vector_map.get_of(key@) {
                Some(v) => {
                    if v@.len() == 0 {
                        r is None
                    } else {
                        r matches Some(s) && *s == v@[index as int % v@.len() as int]
                    }
                },
                None => r is None,
            },
    {
        match self.vector_map.get(key) {
            None => None,
            Some(v) => {
                if v.len() == 0 {
                    None
                } else {
                    Some(&v[(index as usize) % v.len()])
                }
            },
        }
    }

    /// Builds a language the way its assets describe it: the raw data,
    /// then every fragment merged in order — a later fragment overrides
    /// an earlier one — then, if the language asks for it, every text
    /// folded to ASCII.  The language's display name is always folded.
    pub fn load_language(raw: RawLocalization, fragments: Vec<LocalizationFragment>) -> (l:
        Language)
        requires
            raw.wf(),
            forall|i: int| 0 <= i < fragments@.len() ==> (#[trigger] fragments@[i]).wf(),
        ensures
            l.wf(),
            l.metadata.language_identifier@ == raw.metadata.language_identifier@,
            l.metadata.language_name@ == ascii_of(raw.metadata.language_name@),
            l.convert_utf8_to_ascii == raw.convert_utf8_to_ascii,
            forall|k: Seq<char>|
                {
                    let merged = spec_fold_get(
                        fragments@.map_values(|f: LocalizationFragment| f.string_map),
                        raw.string_map.get_of(k),
                        k,
                    );
                    match merged {
                        None => #[trigger] l.string_map.get_of(k) is None,
                        Some(v) => l.string_map.get_of(k) matches Some(v2) && (if raw.convert_utf8_to_ascii {
                            v2@ == ascii_of(v@)
                        } else {
                            v2 == v
                        }),
                    }
                },
            forall|k: Seq<char>|
                {
                    let merged = spec_fold_get(
                        fragments@.map_values(|f: LocalizationFragment| f.vector_map),
                        raw.vector_map.get_of(k),
                        k,
                    );
                    match merged {
                        None => #[trigger] l.vector_map.get_of(k) is None,
                        Some(v) => l.vector_map.get_of(k) matches Some(v2) && (if raw.convert_utf8_to_ascii {
                            v2@.len() == v@.len() && (forall|m: int|
                                0 <= m < v@.len() ==> (#[trigger] v2@[m])@ == ascii_of(v@[m]@))
                        } else {
                            v2 == v
                        }),
                    }
                },
    {
        let ghost frags0 = fragments@;
        let ghost smaps = fragments@.map_values(|f: LocalizationFragment| f.string_map);
        let ghost vmaps = fragments@.map_values(|f: LocalizationFragment| f.vector_map);
        let ghost raw_name = raw.metadata.language_name@;
        let ghost raw_id = raw.metadata.language_identifier@;
        let folded_name = to_ascii(raw.metadata.language_name.as_str());
        let ghost sbase = raw.string_map;
        let ghost vbase = raw.vector_map;
        let ghost ascii = raw.convert_utf8_to_ascii;
        let mut l = Language::from_raw(raw);
        l.metadata.language_name = folded_name;
        let mut rest = fragments;
        let ghost i: int = 0;
        proof {
            assert(smaps.take(0) =~= Seq::<StrMap<String>>::empty());
            assert(vmaps.take(0) =~= Seq::<StrMap<Vec<String>>>::empty());
        }
        loop
            invariant
                0 <= i <= frags0.len(),
                rest@ == frags0.skip(i),
                smaps == frags0.map_values(|f: LocalizationFragment| f.string_map),
                vmaps == frags0.map_values(|f: LocalizationFragment| f.vector_map),
                forall|j: int| 0 <= j < frags0.len() ==> (#[trigger] frags0[j]).wf(),
                l.wf(),
                l.metadata.language_name@ == ascii_of(raw_name),
                l.metadata.language_identifier@ == raw_id,
                l.convert_utf8_to_ascii == ascii,
                forall|k: Seq<char>|
                    #[trigger] l.string_map.get_of(k) == spec_fold_get(
                        smaps.take(i),
                        sbase.get_of(k),
                        k,
                    ),
                forall|k: Seq<char>|
                    #[trigger] l.vector_map.get_of(k) == spec_fold_get(
                        vmaps.take(i),
                        vbase.get_of(k),
                        k,
                    ),
            ensures
                l.wf(),
                l.metadata.language_name@ == ascii_of(raw_name),
                l.metadata.language_identifier@ == raw_id,
                l.convert_utf8_to_ascii == ascii,
                forall|k: Seq<char>|
                    #[trigger] l.string_map.get_of(k) == spec_fold_get(smaps, sbase.get_of(k), k),
                forall|k: Seq<char>|
                    #[trigger] l.vector_map.get_of(k) == spec_fold_get(vmaps, vbase.get_of(k), k),
            decreases frags0.len() - i,
        {
            if rest.len() == 0 {
                proof {
                    assert(smaps.take(i) =~= smaps);
                    assert(vmaps.take(i) =~= vmaps);
                }
                break;
            }
            proof {
                assert(frags0.skip(i)[0] == frags0[i]);
            }
            let frag = rest.remove(0);
            l.merge_fragment(frag);
            proof {
                assert(rest@ =~= frags0.skip(i).skip(1));
                assert(rest@ =~= frags0.skip(i + 1));
                assert(smaps.take(i + 1).drop_last() =~= smaps.take(i));
                assert(smaps.take(i + 1).last() == frags0[i].string_map);
                assert(vmaps.take(i + 1).drop_last() =~= vmaps.take(i));
                assert(vmaps.take(i + 1).last() == frags0[i].vector_map);
                i = i + 1;
            }
        }
        if l.convert_utf8_to_ascii {
            l.string_map.fold_values_ascii();
            l.vector_map.fold_values_ascii();
        }
        l
    }

    /// Merges one fragment in: its bindings win over the language's.
    pub fn merge_fragment(&mut self, frag: LocalizationFragment)
        requires
            old(self).wf(),
            frag.wf(),
        ensures
            final(self).wf(),
            forall|k: Seq<char>|
                #[trigger] final(self).string_map.get_of(k) == (match frag.string_map.get_of(k) {
                    Some(v) => Some(v),
                    None => old(self).string_map.get_of(k),
                }),
            forall|k: Seq<char>|
                #[trigger] final(self).vector_map.get_of(k) == (match frag.vector_map.get_of(k) {
                    Some(v) => Some(v),
                    None => old(self).vector_map.get_of(k),
                }),
            final(self).metadata == old(self).metadata,
            final(self).convert_utf8_to_ascii == old(self).convert_utf8_to_ascii,
    {
        let LocalizationFragment { string_map, vector_map } = frag;
        self.string_map.extend(string_map);
        self.vector_map.extend(vector_map);
    }
}

} // verus!
