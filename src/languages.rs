//! Ingestion of the translation languages: codes are lowercased, later
//! duplicates overwrite earlier ones.
use crate::strmap::StrMap;
use crate::text::{ascii_lower, fit_fixed_u8, fit_u8, lemma_fit_u8_prefix, lower_char, make_lower};
use vstd::prelude::*;

verus! {

/// The key under which a language code is stored: lowercased, capped to 255 bytes.
pub open spec fn language_key(code: Seq<char>) -> Seq<char> {
    fit_u8(ascii_lower(code))
}

/// The map that a list of `(code, display name)` pairs gives, later pairs
/// overwriting earlier ones with the same key.
pub open spec fn languages_of(raw: Seq<(String, String)>) -> Map<Seq<char>, Seq<char>>
    decreases raw.len(),
{
    if raw.len() == 0 {
        Map::empty()
    } else {
        languages_of(raw.drop_last()).insert(language_key(raw.last().0@), raw.last().1@)
    }
}

/// `s` holds no ASCII capital letter.
pub open spec fn no_capitals(s: Seq<char>) -> bool {
    forall|i: int| 0 <= i < s.len() ==> !('A' <= #[trigger] s[i] && s[i] <= 'Z')
}

/// Lowercase language code -> display name.
pub struct TranslationLanguages {
    map: StrMap<String>,
}

impl TranslationLanguages {
    pub closed spec fn view(&self) -> Map<Seq<char>, Seq<char>> {
        self.map@.map_values(|s: String| s@)
    }

    pub closed spec fn wf(&self) -> bool {
        self.map.wf()
    }

    /// Number of languages.
    pub fn len(&self) -> (r: usize)
        requires
            self.wf(),
        ensures
            r == self@.len(),
    {
        proof {
            assert(self@.dom() =~= self.map@.dom());
        }
        self.map.len()
    }

    /// The display name stored under `code` (looked up as given, not lowercased).
    pub fn get(&self, code: &str) -> (r: Option<&String>)
        requires
            self.wf(),
        ensures
            match r {
                Some(n) => self@.contains_key(code@) && n@ == self@[code@],
                None => !self@.contains_key(code@),
            },
    {
        self.map.get(code)
    }
}

/// Collects `(code, display name)` pairs into a map keyed by the lowercased
/// code; of two pairs whose codes lowercase alike, the later one is kept.
pub fn collect_translation_languages(raw_langs: Vec<(String, String)>) -> (r: TranslationLanguages)
    ensures
        r.wf(),
        r@ == languages_of(raw_langs@),
{
    let mut map: StrMap<String> = StrMap::new();
    let mut i: usize = 0;
    while i < raw_langs.len()
        invariant
            i <= raw_langs@.len(),
            map.wf(),
            map@.map_values(|s: String| s@) == languages_of(raw_langs@.take(i as int)),
        decreases raw_langs@.len() - i,
    {
        let lang = make_lower(raw_langs[i].0.clone());
        let key = fit_fixed_u8(lang.as_str());
        let name = raw_langs[i].1.clone();
        map.insert(key, name);
        proof {
            let t = raw_langs@.take(i + 1);
            assert(t.drop_last() =~= raw_langs@.take(i as int));
            assert(t.last() == raw_langs@[i as int]);
            assert(map@.map_values(|s: String| s@) =~= languages_of(t));
        }
        i = i + 1;
    }
    proof {
        assert(raw_langs@.take(i as int) =~= raw_langs@);
    }
    TranslationLanguages { map }
}

proof fn lemma_key_no_capitals(code: Seq<char>)
    ensures
        no_capitals(language_key(code)),
{
    let l = ascii_lower(code);
    assert forall|i: int| 0 <= i < l.len() implies !('A' <= #[trigger] l[i] && l[i] <= 'Z') by {
        assert(l[i] == lower_char(code[i]));
    }
    lemma_fit_u8_prefix(l);
    let k = language_key(code);
    assert forall|i: int| 0 <= i < k.len() implies !('A' <= #[trigger] k[i] && k[i] <= 'Z') by {
        assert(k[i] == l[i]);
    }
}

/// Every stored key is in lower case, whatever the case of the codes given.
pub proof fn lemma_keys_lowercase(raw: Seq<(String, String)>)
    ensures
        forall|k: Seq<char>| #[trigger] languages_of(raw).contains_key(k) ==> no_capitals(k),
    decreases raw.len(),
{
    if raw.len() > 0 {
        lemma_keys_lowercase(raw.drop_last());
        lemma_key_no_capitals(raw.last().0@);
        assert forall|k: Seq<char>| #[trigger] languages_of(raw).contains_key(k) implies no_capitals(
            k,
        ) by {
            if k != language_key(raw.last().0@) {
                assert(languages_of(raw.drop_last()).contains_key(k));
            }
        }
    }
}

/// A code is stored under its lowercased form, and of the pairs given the last
/// one decides the display name kept under that key.
pub proof fn lemma_last_pair_wins(raw: Seq<(String, String)>, code: String, name: String)
    ensures
        languages_of(raw.push((code, name))).contains_key(language_key(code@)),
        languages_of(raw.push((code, name)))[language_key(code@)] == name@,
{
    assert(raw.push((code, name)).drop_last() =~= raw);
}

} // verus!
