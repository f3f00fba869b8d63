//! The language store and the handles that read it.
//!
//! Loaded languages live in one owned store.  A handle names an active
//! language and an optional reference-language fallback by index; a
//! read of the handle borrows both as a guard, whose lookups fall back
//! from the active language to the reference language to the key
//! itself.  Hot reloading is a flag and a generation counter: a watcher
//! bumps the generation, and a handle notices the change once.

use vstd::prelude::*;
use crate::i18n::{Language, LanguageMetadata, StrMap, REFERENCE_LANG};

verus! {

/// The first stored language with the given identifier, if any.
pub open spec fn spec_find_lang(langs: Seq<Language>, id: Seq<char>) -> Option<int>
    decreases langs.len(),
{
    if langs.len() == 0 {
        None
    } else if langs[0].metadata.language_identifier@ == id {
        Some(0)
    } else {
        match spec_find_lang(langs.skip(1), id) {
            Some(i) => Some(i + 1),
            None => None,
        }
    }
}

/// A found language is in range and carries the identifier.
pub proof fn lemma_find_lang_some(langs: Seq<Language>, id: Seq<char>)
    ensures
        spec_find_lang(langs, id) matches Some(i) ==> 0 <= i < langs.len()
            && langs[i].metadata.language_identifier@ == id,
    decreases langs.len(),
{
    if langs.len() > 0 && langs[0].metadata.language_identifier@ != id {
        lemma_find_lang_some(langs.skip(1), id);
        if spec_find_lang(langs, id) is Some {
            let i = spec_find_lang(langs, id)->Some_0;
            assert(langs.skip(1)[i - 1] == langs[i]);
        }
    }
}

/// The loaded languages of a process, with the hot-reload state.
pub struct LanguageStore {
    langs: Vec<Language>,
    hot_reload: bool,
    generation: u64,
}

impl LanguageStore {
    /// The stored languages, in load order.
    pub closed spec fn langs(self) -> Seq<Language> {
        self.langs@
    }

    /// Whether asset watching is on.
    pub closed spec fn hot_reload(self) -> bool {
        self.hot_reload
    }

    /// How many reloads have been observed.
    pub closed spec fn generation(self) -> u64 {
        self.generation
    }

    /// Every stored language is well formed.
    pub open spec fn wf(self) -> bool {
        forall|i: int| 0 <= i < self.langs().len() ==> (#[trigger] self.langs()[i]).wf()
    }

    /// An empty store, not yet watching for reloads.
    pub fn new() -> (s: LanguageStore)
        ensures
            s.wf(),
            s.langs() == Seq::<Language>::empty(),
            !s.hot_reload(),
            s.generation() == 0,
    {
        LanguageStore { langs: Vec::new(), hot_reload: false, generation: 0 }
    }

    /// Adds one loaded language behind the ones already stored.
    pub fn insert_language(&mut self, lang: Language)
        requires
            old(self).wf(),
            lang.wf(),
        ensures
            final(self).wf(),
            final(self).langs() == old(self).langs().push(lang),
            final(self).hot_reload() == old(self).hot_reload(),
            final(self).generation() == old(self).generation(),
    {
        let ghost l0 = self.langs@;
        self.langs.push(lang);
        proof {
            assert forall|i: int| 0 <= i < self.langs@.len() implies (
            #[trigger] self.langs@[i]).wf() by {
                if i < l0.len() {
                    assert(self.langs@[i] == l0[i]);
                    assert(old(self).langs()[i] == l0[i]);
                    assert(old(self).langs()[i].wf());
                } else {
                    assert(self.langs@[i] == lang);
                }
            }
        }
    }

    /// Borrows the language at a known index.
    pub fn language_at(&self, i: usize) -> (r: &Language)
        requires
            i < self.langs().len(),
        ensures
            *r == self.langs()[i as int],
    {
        &self.langs[i]
    }

    /// Records that the assets changed on disk; only a watching store
    /// counts it.
    pub fn mark_reloaded(&mut self)
        requires
            old(self).generation() < u64::MAX,
        ensures
            final(self).langs() == old(self).langs(),
            final(self).hot_reload() == old(self).hot_reload(),
            old(self).hot_reload() ==> final(self).generation() == old(self).generation() + 1,
            !old(self).hot_reload() ==> final(self).generation() == old(self).generation(),
    {
        if self.hot_reload {
            self.generation = self.generation + 1;
        }
    }

    /// Finds the first language with the given identifier.
    pub fn find(&self, id: &String) -> (r: Option<usize>)
        ensures
            match spec_find_lang(self.langs(), id@) {
                Some(i) => r == Some(i as usize),
                None => r is None,
            },
    {
        let mut i: usize = 0;
        loop
            invariant
                0 <= i <= self.langs@.len(),
                forall|j: int|
                    0 <= j < i ==> (#[trigger] self.langs@[j]).metadata.language_identifier@
                        != id@,
            decreases self.langs@.len() - i,
        {
            if i == self.langs.len() {
                proof {
                    lemma_find_none(self.langs@, id@);
                }
                return None;
            }
            if self.langs[i].metadata.language_identifier.eq(id) {
                proof {
                    lemma_find_at(self.langs@, id@, i as int);
                }
                return Some(i);
            }
            i = i + 1;
        }
    }
}

/// If no stored language carries the identifier, none is found.
proof fn lemma_find_none(langs: Seq<Language>, id: Seq<char>)
    requires
        forall|j: int|
            0 <= j < langs.len() ==> (#[trigger] langs[j]).metadata.language_identifier@ != id,
    ensures
        spec_find_lang(langs, id) is None,
    decreases langs.len(),
{
    if langs.len() > 0 {
        assert forall|j: int|
            0 <= j < langs.skip(1).len() implies (
        #[trigger] langs.skip(1)[j]).metadata.language_identifier@ != id by {
            assert(langs.skip(1)[j] == langs[j + 1]);
        }
        lemma_find_none(langs.skip(1), id);
    }
}

/// A match after only mismatches is the first match.
proof fn lemma_find_at(langs: Seq<Language>, id: Seq<char>, i: int)
    requires
        0 <= i < langs.len(),
        forall|j: int|
            0 <= j < i ==> (#[trigger] langs[j]).metadata.language_identifier@ != id,
        langs[i].metadata.language_identifier@ == id,
    ensures
        spec_find_lang(langs, id) == Some(i),
    decreases i,
{
    if i > 0 {
        assert forall|j: int|
            0 <= j < i - 1 implies (
        #[trigger] langs.skip(1)[j]).metadata.language_identifier@ != id by {
            assert(langs.skip(1)[j] == langs[j + 1]);
        }
        assert(langs.skip(1)[i - 1] == langs[i]);
        lemma_find_at(langs.skip(1), id, i - 1);
    }
}

/// No language in the store carries the requested identifier.
#[derive(Debug, Clone, Copy, PartialEq, Eq, Structural)]
pub struct LanguageMissing;

/// Names one loaded language, with an optional fallback to the
/// reference language.
pub struct LocalizationHandle {
    active: usize,
    fallback: Option<usize>,
    use_english_fallback: bool,
    last_seen: u64,
}

/// A read of a handle: the borrowed active language, and the borrowed
/// fallback when the handle uses one.
pub struct LocalizationGuard<'a> {
    pub active: &'a Language,
    pub fallback: Option<&'a Language>,
}

impl LocalizationHandle {
    /// The index of the active language.
    pub closed spec fn spec_active(self) -> int {
        self.active as int
    }

    /// The index of the fallback language, if one was found at load.
    pub closed spec fn spec_fallback(self) -> Option<int> {
        match self.fallback {
            Some(i) => Some(i as int),
            None => None,
        }
    }

    /// How many reloads this handle has already seen.
    pub closed spec fn spec_last_seen(self) -> u64 {
        self.last_seen
    }

    /// Whether reads consult the reference language for missing keys.
    pub closed spec fn spec_use_english(self) -> bool {
        self.use_english_fallback
    }

    /// The handle's indexes point into the store.
    pub open spec fn wf_for(self, store: LanguageStore) -> bool {
        &&& 0 <= self.spec_active() < store.langs().len()
        &&& match self.spec_fallback() {
            Some(i) => 0 <= i < store.langs().len(),
            None => true,
        }
    }

    /// Picks the language with the given identifier from the store.  It
    /// succeeds exactly when one is stored; a non-reference language gets
    /// the reference language as fallback when that one is stored too.
    /// The fallback starts switched off, as at first startup.
    pub fn load(store: &LanguageStore, specifier: &String) -> (r: Result<
        LocalizationHandle,
        LanguageMissing,
    >)
        ensures
            r is Ok <==> spec_find_lang(store.langs(), specifier@) is Some,
            r matches Ok(h) ==> {
                &&& h.wf_for(*store)
                &&& Some(h.spec_active()) == spec_find_lang(store.langs(), specifier@)
                &&& !h.spec_use_english()
                &&& h.spec_last_seen() == store.generation()
                &&& (specifier@ == REFERENCE_LANG@ ==> h.spec_fallback() is None)
                &&& (specifier@ != REFERENCE_LANG@ ==> h.spec_fallback() == spec_find_lang(
                    store.langs(),
                    REFERENCE_LANG@,
                ))
            },
    {
        let n = store.langs_len();
        proof {
            assert(store.langs().len() <= usize::MAX);
        }
        match store.find(specifier) {
            None => Err(LanguageMissing),
            Some(i) => {
                proof {
                    lemma_find_lang_some(store.langs(), specifier@);
                }
                let reference = REFERENCE_LANG.to_owned();
                let is_default = specifier.eq(&reference);
                let fallback = if is_default {
                    None
                } else {
                    proof {
                        lemma_find_lang_some(store.langs(), REFERENCE_LANG@);
                    }
                    store.find(&reference)
                };
                let h = LocalizationHandle {
                    active: i,
                    fallback,
                    use_english_fallback: false,
                    last_seen: store.generation_now(),
                };
                proof {
                    assert(Some(h.spec_active()) == spec_find_lang(store.langs(), specifier@));
                    if specifier@ != REFERENCE_LANG@ {
                        assert(h.spec_fallback() == spec_find_lang(
                            store.langs(),
                            REFERENCE_LANG@,
                        ));
                    }
                }
                Ok(h)
            },
        }
    }

    /// As `load`, for callers that already know the language is stored.
    pub fn load_expect(store: &LanguageStore, specifier: &String) -> (h: LocalizationHandle)
        requires
            spec_find_lang(store.langs(), specifier@) is Some,
        ensures
            h.wf_for(*store),
            Some(h.spec_active()) == spec_find_lang(store.langs(), specifier@),
            !h.spec_use_english(),
    {
        let r = Self::load(store, specifier);
        proof {
            assert(r is Ok);
        }
        r.unwrap()
    }

    /// Switches the reference-language fallback on or off.
    pub fn set_english_fallback(&mut self, use_english_fallback: bool)
        ensures
            final(self).spec_use_english() == use_english_fallback,
            final(self).spec_active() == old(self).spec_active(),
            final(self).spec_fallback() == old(self).spec_fallback(),
            final(self).spec_last_seen() == old(self).spec_last_seen(),
    {
        self.use_english_fallback = use_english_fallback;
    }

    /// Borrows the named languages for reading.  The guard falls back
    /// only when the handle asks for it and a fallback was found.
    pub fn read<'a>(&self, store: &'a LanguageStore) -> (g: LocalizationGuard<'a>)
        requires
            self.wf_for(*store),
        ensures
            *g.active == store.langs()[self.spec_active()],
            match g.fallback {
                Some(f) => self.spec_use_english() && (self.spec_fallback() matches Some(j)
                    && *f == store.langs()[j]),
                None => !self.spec_use_english() || self.spec_fallback() is None,
            },
    {
        let active = store.language_at(self.active);
        let fallback = if self.use_english_fallback {
            match self.fallback {
                Some(j) => Some(store.language_at(j)),
                None => None,
            }
        } else {
            None
        };
        LocalizationGuard { active, fallback }
    }

    /// Whether the store reloaded since this handle last asked; asking
    /// consumes the observation.
    pub fn reloaded(&mut self, store: &LanguageStore) -> (r: bool)
        ensures
            r == (old(self).spec_last_seen() != store.generation()),
            final(self).spec_last_seen() == store.generation(),
            final(self).spec_active() == old(self).spec_active(),
            final(self).spec_fallback() == old(self).spec_fallback(),
            final(self).spec_use_english() == old(self).spec_use_english(),
    {
        let changed = self.last_seen != store.generation_now();
        self.last_seen = store.generation_now();
        changed
    }
}

impl LanguageStore {
    /// The current reload generation.
    pub fn generation_now(&self) -> (g: u64)
        ensures
            g == self.generation(),
    {
        self.generation
    }
}

impl<'a> LocalizationGuard<'a> {
    /// Both borrowed languages are well formed.
    pub open spec fn wf(self) -> bool {
        self.active.wf() && (self.fallback matches Some(f) ==> f.wf())
    }

    /// A localized text: the active language's, else the fallback's,
    /// else the key itself.
    pub fn get<'b>(&'b self, key: &'b String) -> (r: &'b String)
        requires
            self.wf(),
        ensures
            match self.active.string_map.get_of(key@) {
                Some(v) => *r == v,
                None => match self.fallback {
                    Some(f) => match f.string_map.get_of(key@) {
                        Some(v) => *r == v,
                        None => *r == *key,
                    },
                    None => *r == *key,
                },
            },
    {
        match self.active.get(key) {
            Some(v) => v,
            None => match self.fallback {
                Some(f) => match f.get(key) {
                    Some(v) => v,
                    None => key,
                },
                None => key,
            },
        }
    }

    /// A variation of a localized text, picked by `index`: the active
    /// language's, else the fallback's, else the key itself.
    pub fn get_variation<'b>(&'b self, key: &'b String, index: u16) -> (r: &'b String)
        requires
            self.wf(),
        ensures
            match spec_variation(*self.active, key@, index) {
                Some(v) => *r == v,
                None => match self.fallback {
                    Some(f) => match spec_variation(*f, key@, index) {
                        Some(v) => *r == v,
                        None => *r == *key,
                    },
                    None => *r == *key,
                },
            },
    {
        match self.active.get_variation(key, index) {
            Some(v) => v,
            None => match self.fallback {
                Some(f) => match f.get_variation(key, index) {
                    Some(v) => v,
                    None => key,
                },
                None => key,
            },
        }
    }

    /// The keys the reference language binds and the active language
    /// misses: the plain-text keys and the variation keys, in the
    /// reference maps' order.  Without a fallback nothing is compared.
    pub fn list_missing_entries(&self) -> (r: (Vec<String>, Vec<String>))
        requires
            self.wf(),
        ensures
            match self.fallback {
                Some(f) => {
                    &&& r.0@.map_values(|s: String| s@) == crate::i18n::spec_missing_keys(
                        f.string_map.rows(),
                        self.active.string_map,
                        f.string_map.rows().len() as int,
                    )
                    &&& r.1@.map_values(|s: String| s@) == crate::i18n::spec_missing_keys(
                        f.vector_map.rows(),
                        self.active.vector_map,
                        f.vector_map.rows().len() as int,
                    )
                },
                None => r.0@.len() == 0 && r.1@.len() == 0,
            },
    {
        match self.fallback {
            None => (Vec::new(), Vec::new()),
            Some(f) => {
                let strings = missing_keys_of(&f.string_map, &self.active.string_map);
                let vectors = missing_keys_of(&f.vector_map, &self.active.vector_map);
                (strings, vectors)
            },
        }
    }

    /// The metadata of the active language.
    pub fn metadata(&self) -> (m: &LanguageMetadata)
        ensures
            *m == self.active.metadata,
    {
        &self.active.metadata
    }
}

/// The keys of `reference` that `have` does not bind, in order.
fn missing_keys_of<A, B>(reference: &StrMap<A>, have: &StrMap<B>) -> (r: Vec<String>)
    requires
        have.wf(),
    ensures
        r@.map_values(|s: String| s@) == crate::i18n::spec_missing_keys(
            reference.rows(),
            *have,
            reference.rows().len() as int,
        ),
{
    let mut r: Vec<String> = Vec::new();
    let mut i: usize = 0;
    let n = reference.len();
    proof {
        assert(r@.map_values(|s: String| s@) =~= crate::i18n::spec_missing_keys(
            reference.rows(),
            *have,
            0,
        ));
    }
    loop
        invariant
            have.wf(),
            0 <= i <= reference.rows().len(),
            n == reference.rows().len(),
            r@.map_values(|s: String| s@) == crate::i18n::spec_missing_keys(
                reference.rows(),
                *have,
                i as int,
            ),
        ensures
            r@.map_values(|s: String| s@) == crate::i18n::spec_missing_keys(
                reference.rows(),
                *have,
                reference.rows().len() as int,
            ),
        decreases reference.rows().len() - i,
    {
        if i == n {
            break;
        }
        let key = reference.key_at(i);
        if have.get(key).is_none() {
            r.push(key.clone());
        }
        proof {
            assert(r@.map_values(|s: String| s@) =~= crate::i18n::spec_missing_keys(
                reference.rows(),
                *have,
                i as int + 1,
            ));
        }
        i = i + 1;
    }
    r
}

/// The variation a language answers for a key and an index: none when
/// the key is unknown or has no variations.
pub open spec fn spec_variation(l: Language, k: Seq<char>, index: u16) -> Option<String> {
    match l.vector_map.get_of(k) {
        Some(v) => {
            if v@.len() == 0 {
                None
            } else {
                Some(v@[index as int % v@.len() as int])
            }
        },
        None => None,
    }
}

/// The metadata of every stored language, in store order.
pub fn list_localizations(store: &LanguageStore) -> (r: Vec<LanguageMetadata>)
    ensures
        r@.len() == store.langs().len(),
        forall|i: int|
            0 <= i < store.langs().len() ==> {
                &&& (#[trigger] r@[i]).language_name@ == store.langs()[i].metadata.language_name@
                &&& r@[i].language_identifier@
                    == store.langs()[i].metadata.language_identifier@
            },
{
    let mut r: Vec<LanguageMetadata> = Vec::new();
    let mut i: usize = 0;
    loop
        invariant
            0 <= i <= store.langs().len(),
            r@.len() == i,
            forall|j: int|
                0 <= j < i ==> {
                    &&& (#[trigger] r@[j]).language_name@
                        == store.langs()[j].metadata.language_name@
                    &&& r@[j].language_identifier@
                        == store.langs()[j].metadata.language_identifier@
                },
        ensures
            r@.len() == store.langs().len(),
            forall|j: int|
                0 <= j < store.langs().len() ==> {
                    &&& (#[trigger] r@[j]).language_name@
                        == store.langs()[j].metadata.language_name@
                    &&& r@[j].language_identifier@
                        == store.langs()[j].metadata.language_identifier@
                },
        decreases store.langs().len() - i,
    {
        if i == store.langs_len() {
            break;
        }
        let m = store.language_at(i).metadata.clone();
        r.push(m);
        i = i + 1;
    }
    r
}

impl LanguageStore {
    /// How many languages are stored.
    pub fn langs_len(&self) -> (n: usize)
        ensures
            n == self.langs().len(),
    {
        self.langs.len()
    }
}

/// Starts watching the assets for changes: from here on, reload marks
/// advance the store's generation and handles can observe them.
pub fn start_hot_reloading(store: &mut LanguageStore)
    ensures
        final(store).hot_reload(),
        final(store).langs() == old(store).langs(),
        final(store).generation() == old(store).generation(),
{
    store.set_hot_reload();
}

impl LanguageStore {
    /// Switches asset watching on.
    pub fn set_hot_reload(&mut self)
        ensures
            final(self).hot_reload(),
            final(self).langs() == old(self).langs(),
            final(self).generation() == old(self).generation(),
    {
        self.hot_reload = true;
    }
}

} // verus!
