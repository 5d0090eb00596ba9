//! Normalisation of the Google voice catalogue into
//! `{language: {variant: gender}}`.
use crate::strmap::StrMap;
use crate::text::{fit_fixed_u8, fit_u8, lemma_fit_u8_short};
use vstd::utf8::encode_utf8;
use vstd::prelude::*;

verus! {

/// The gender that the provider gives a voice.
#[derive(Clone, Copy, Debug, PartialEq, Eq, Structural)]
pub enum GoogleGender {
    Male,
    Female,
    Neutral,
    Unspecified,
}

/// One raw voice record as the provider lists it.
pub struct GoogleVoice {
    pub name: String,
    pub language_codes: Vec<String>,
    pub ssml_gender: GoogleGender,
}

/// `i` is the position of the first '-' in `s`.
pub open spec fn is_first_dash(s: Seq<char>, i: int) -> bool {
    &&& 0 <= i < s.len()
    &&& s[i] == '-'
    &&& forall|j: int| 0 <= j < i ==> s[j] != '-'
}

/// `s` split at its first '-' (the '-' itself dropped), or `None` when `s`
/// holds none.
pub open spec fn split_once_dash(s: Seq<char>) -> Option<(Seq<char>, Seq<char>)> {
    if exists|i: int| is_first_dash(s, i) {
        let i = choose|i: int| is_first_dash(s, i);
        Some((s.take(i), s.skip(i + 1)))
    } else {
        None
    }
}

/// What follows the second '-' of a voice name: the type and the variant,
/// e.g. "Standard-A" of "en-US-Standard-A".
pub open spec fn type_and_variant(name: Seq<char>) -> Option<Seq<char>> {
    match split_once_dash(name) {
        None => None,
        Some((_, rest)) => match split_once_dash(rest) {
            None => None,
            Some((_, tail)) => Some(tail),
        },
    }
}

pub open spec fn standard_type() -> Seq<char> {
    seq!['S', 't', 'a', 'n', 'd', 'a', 'r', 'd']
}

/// The variant kept for a type-and-variant field: the bare variant for the
/// legacy "Standard" type, the whole field for every other type.
pub open spec fn variant_of(tv: Seq<char>) -> Seq<char> {
    match split_once_dash(tv) {
        Some((ty, v)) => if ty == standard_type() {
            v
        } else {
            tv
        },
        None => tv,
    }
}

/// The normalised variant of a voice name, or `None` when the name has fewer
/// than three '-'-separated parts.
pub open spec fn voice_variant(name: Seq<char>) -> Option<Seq<char>> {
    match type_and_variant(name) {
        Some(tv) => Some(variant_of(tv)),
        None => None,
    }
}

/// `c` with `variant -> gender` stored under `lang`, the sub-map created
/// when `lang` is new.
pub open spec fn add_voice(
    c: Map<Seq<char>, Map<Seq<char>, GoogleGender>>,
    lang: Seq<char>,
    variant: Seq<char>,
    gender: GoogleGender,
) -> Map<Seq<char>, Map<Seq<char>, GoogleGender>> {
    let inner = if c.contains_key(lang) {
        c[lang]
    } else {
        Map::empty()
    };
    c.insert(lang, inner.insert(variant, gender))
}

/// A record takes part in the catalogue when its name is well formed.
pub open spec fn record_counts(v: GoogleVoice) -> bool {
    voice_variant(v.name@) is Some
}

/// The catalogue that a list of records normalises to, the records taken in
/// order (a later record overwrites an earlier one with the same language and
/// variant). Keys are capped to 255 bytes.
pub open spec fn catalog_of(voices: Seq<GoogleVoice>) -> Map<
    Seq<char>,
    Map<Seq<char>, GoogleGender>,
>
    decreases voices.len(),
{
    if voices.len() == 0 {
        Map::empty()
    } else {
        let prev = catalog_of(voices.drop_last());
        let v = voices.last();
        match voice_variant(v.name@) {
            None => prev,
            Some(variant) => add_voice(
                prev,
                fit_u8(v.language_codes@[0]@),
                fit_u8(variant),
                v.ssml_gender,
            ),
        }
    }
}

/// Every record with a well-formed name lists at least one language.
pub open spec fn languages_present(voices: Seq<GoogleVoice>) -> bool {
    forall|i: int|
        0 <= i < voices.len() && #[trigger] record_counts(voices[i])
            ==> voices[i].language_codes@.len() > 0
}

proof fn lemma_first_dash_unique(s: Seq<char>, i: int)
    requires
        is_first_dash(s, i),
    ensures
        split_once_dash(s) == Some((s.take(i), s.skip(i + 1))),
{
    let k = choose|k: int| is_first_dash(s, k);
    if k < i {
        assert(s[k] != '-');
    }
    if i < k {
        assert(s[i] != '-');
    }
}

/// Splits `s` at its first '-'.
fn split_dash(s: &str) -> (r: Option<(&str, &str)>)
    ensures
        match r {
            Some((a, b)) => split_once_dash(s@) == Some((a@, b@)),
            None => split_once_dash(s@) is None,
        },
{
    let n = s.unicode_len();
    let mut i: usize = 0;
    while i < n
        invariant
            n == s@.len(),
            i <= n,
            forall|j: int| 0 <= j < i ==> s@[j] != '-',
        decreases n - i,
    {
        if s.get_char(i) == '-' {
            proof {
                lemma_first_dash_unique(s@, i as int);
            }
            let a = s.substring_char(0, i);
            let b = s.substring_char(i + 1, n);
            proof {
                assert(a@ =~= s@.take(i as int));
                assert(b@ =~= s@.skip(i + 1));
            }
            return Some((a, b));
        }
        i = i + 1;
    }
    None
}

/// Whether `ty` is the legacy "Standard" type.
fn is_standard(ty: &str) -> (r: bool)
    ensures
        r == (ty@ == standard_type()),
{
    let t: String = ty.to_owned();
    let st: String = "Standard".to_owned();
    proof {
        reveal_strlit("Standard");
        assert(st@ =~= standard_type());
    }
    t == st
}

/// The normalised variant of a voice name: for "{lang}-{region}-Standard-{X}"
/// it is "{X}", for "{lang}-{region}-{Type}-{X}" with any other type it is
/// "{Type}-{X}", and a name with fewer than three '-'-separated parts has none.
pub fn variant_from_name(name: &str) -> (r: Option<String>)
    ensures
        match r {
            Some(v) => voice_variant(name@) == Some(v@),
            None => voice_variant(name@) is None,
        },
{
    match split_dash(name) {
        None => None,
        Some((_, rest)) => match split_dash(rest) {
            None => None,
            Some((_, tv)) => match split_dash(tv) {
                Some((ty, v)) => {
                    if is_standard(ty) {
                        Some(v.to_owned())
                    } else {
                        Some(tv.to_owned())
                    }
                },
                None => Some(tv.to_owned()),
            },
        },
    }
}

/// The normalised catalogue: language, then variant, then gender.
pub struct VoiceCatalog {
    langs: StrMap<StrMap<GoogleGender>>,
}

impl VoiceCatalog {
    pub closed spec fn view(&self) -> Map<Seq<char>, Map<Seq<char>, GoogleGender>> {
        self.langs@.map_values(|m: StrMap<GoogleGender>| m@)
    }

    pub closed spec fn wf(&self) -> bool {
        &&& self.langs.wf()
        &&& forall|k: Seq<char>| #[trigger] self.langs@.contains_key(k) ==> self.langs@[k].wf()
    }

    pub fn new() -> (r: Self)
        ensures
            r.wf(),
            r@ == Map::<Seq<char>, Map<Seq<char>, GoogleGender>>::empty(),
    {
        let r = VoiceCatalog { langs: StrMap::new() };
        proof {
            assert(r@ =~= Map::<Seq<char>, Map<Seq<char>, GoogleGender>>::empty());
        }
        r
    }

    /// Stores `variant -> gender` under `lang`.
    pub fn add(&mut self, lang: String, variant: String, gender: GoogleGender)
        requires
            old(self).wf(),
        ensures
            final(self).wf(),
            final(self)@ == add_voice(old(self)@, lang@, variant@, gender),
    {
        let mut inner = match self.langs.remove(lang.as_str()) {
            Some(m) => m,
            None => StrMap::new(),
        };
        inner.insert(variant, gender);
        self.langs.insert(lang, inner);
        proof {
            assert(self@ =~= add_voice(old(self)@, lang@, variant@, gender));
        }
    }

    /// Number of languages.
    pub fn len(&self) -> (r: usize)
        requires
            self.wf(),
        ensures
            r == self@.len(),
    {
        proof {
            assert(self@.dom() =~= self.langs@.dom());
        }
        self.langs.len()
    }

    /// Number of variants stored for `lang` (0 when the language is absent).
    pub fn variant_count(&self, lang: &str) -> (r: usize)
        requires
            self.wf(),
        ensures
            r == (if self@.contains_key(lang@) {
                self@[lang@].len()
            } else {
                0
            }),
    {
        match self.langs.get(lang) {
            Some(m) => m.len(),
            None => 0,
        }
    }

    /// The gender stored for `variant` of `lang`.
    pub fn get(&self, lang: &str, variant: &str) -> (r: Option<GoogleGender>)
        requires
            self.wf(),
        ensures
            r == (if self@.contains_key(lang@) && self@[lang@].contains_key(variant@) {
                Some(self@[lang@][variant@])
            } else {
                None::<GoogleGender>
            }),
    {
        match self.langs.get(lang) {
            Some(m) => match m.get(variant) {
                Some(g) => Some(*g),
                None => None,
            },
            None => None,
        }
    }
}

/// Normalises raw Google voice records into `{language: {variant: gender}}`.
/// The language is the first of a record's language codes; a record whose
/// name has fewer than three '-'-separated parts is skipped.
pub fn prepare_gcloud_voices(raw_map: Vec<GoogleVoice>) -> (r: VoiceCatalog)
    requires
        languages_present(raw_map@),
    ensures
        r.wf(),
        r@ == catalog_of(raw_map@),
{
    let mut cleaned = VoiceCatalog::new();
    let mut i: usize = 0;
    while i < raw_map.len()
        invariant
            i <= raw_map@.len(),
            languages_present(raw_map@),
            cleaned.wf(),
            cleaned@ == catalog_of(raw_map@.take(i as int)),
        decreases raw_map@.len() - i,
    {
        let gvoice = &raw_map[i];
        proof {
            assert(raw_map@.take(i + 1).drop_last() =~= raw_map@.take(i as int));
            assert(raw_map@.take(i + 1).last() == raw_map@[i as int]);
        }
        match variant_from_name(gvoice.name.as_str()) {
            Some(variant) => {
                proof {
                    assert(record_counts(raw_map@[i as int]));
                }
                let language = fit_fixed_u8(gvoice.language_codes[0].as_str());
                let variant_key = fit_fixed_u8(variant.as_str());
                cleaned.add(language, variant_key, gvoice.ssml_gender);
            },
            None => {},
        }
        i = i + 1;
    }
    proof {
        assert(raw_map@.take(i as int) =~= raw_map@);
    }
    cleaned
}

proof fn lemma_split_at(a: Seq<char>, b: Seq<char>)
    requires
        !a.contains('-'),
    ensures
        split_once_dash(a + seq!['-'] + b) == Some((a, b)),
{
    let s = a + seq!['-'] + b;
    assert forall|j: int| 0 <= j < a.len() implies s[j] != '-' by {
        assert(s[j] == a[j]);
    }
    assert(s[a.len() as int] == '-');
    lemma_first_dash_unique(s, a.len() as int);
    assert(s.take(a.len() as int) =~= a);
    assert(s.skip(a.len() as int + 1) =~= b);
}

proof fn lemma_no_dash(s: Seq<char>)
    requires
        !s.contains('-'),
    ensures
        split_once_dash(s) is None,
{
    if exists|i: int| is_first_dash(s, i) {
        let i = choose|i: int| is_first_dash(s, i);
        assert(s[i] == '-');
    }
}

/// The voice name "{lang}-{region}-{tv}".
pub open spec fn voice_name(lang: Seq<char>, region: Seq<char>, tv: Seq<char>) -> Seq<char> {
    lang + seq!['-'] + region + seq!['-'] + tv
}

proof fn lemma_type_and_variant(lang: Seq<char>, region: Seq<char>, tv: Seq<char>)
    requires
        !lang.contains('-'),
        !region.contains('-'),
    ensures
        type_and_variant(voice_name(lang, region, tv)) == Some(tv),
{
    let name = voice_name(lang, region, tv);
    let rest = region + seq!['-'] + tv;
    assert(name =~= lang + seq!['-'] + rest);
    lemma_split_at(lang, rest);
    lemma_split_at(region, tv);
}

/// The last record of a list decides the entry for its language and variant.
proof fn lemma_last_record(voices: Seq<GoogleVoice>, variant: Seq<char>)
    requires
        voices.len() > 0,
        voice_variant(voices.last().name@) == Some(variant),
    ensures
        catalog_of(voices).contains_key(fit_u8(voices.last().language_codes@[0]@)),
        catalog_of(voices)[fit_u8(voices.last().language_codes@[0]@)].contains_key(
            fit_u8(variant),
        ),
        catalog_of(voices)[fit_u8(voices.last().language_codes@[0]@)][fit_u8(variant)]
            == voices.last().ssml_gender,
{
}

proof fn lemma_standard_has_no_dash()
    ensures
        !standard_type().contains('-'),
{
    let t = standard_type();
    assert forall|i: int| 0 <= i < t.len() implies t[i] != '-' by {
        assert(t[0] == 'S' && t[1] == 't' && t[2] == 'a' && t[3] == 'n');
        assert(t[4] == 'd' && t[5] == 'a' && t[6] == 'r' && t[7] == 'd');
    }
}

/// A name "{lang}-{region}-Standard-{x}" normalises to the variant "{x}": the
/// legacy type prefix is stripped, and the last such record of a list stores
/// its gender under its language and "{x}".
pub proof fn lemma_standard_name(
    voices: Seq<GoogleVoice>,
    lang: Seq<char>,
    region: Seq<char>,
    x: Seq<char>,
)
    requires
        !lang.contains('-'),
        !region.contains('-'),
        encode_utf8(x).len() <= 255,
        voices.len() > 0,
        voices.last().name@ == voice_name(lang, region, standard_type() + seq!['-'] + x),
    ensures
        voice_variant(voices.last().name@) == Some(x),
        catalog_of(voices)[fit_u8(voices.last().language_codes@[0]@)].contains_key(x),
        catalog_of(voices)[fit_u8(voices.last().language_codes@[0]@)][x]
            == voices.last().ssml_gender,
{
    let tv = standard_type() + seq!['-'] + x;
    lemma_type_and_variant(lang, region, tv);
    lemma_standard_has_no_dash();
    lemma_split_at(standard_type(), x);
    assert(voice_variant(voices.last().name@) == Some(x));
    lemma_fit_u8_short(x);
    lemma_last_record(voices, x);
}

/// A name "{lang}-{region}-{ty}-{x}" whose type is not "Standard" normalises to
/// the variant "{ty}-{x}": the type prefix is kept, and the last such record of
/// a list stores its gender under its language and "{ty}-{x}".
pub proof fn lemma_typed_name(
    voices: Seq<GoogleVoice>,
    lang: Seq<char>,
    region: Seq<char>,
    ty: Seq<char>,
    x: Seq<char>,
)
    requires
        !lang.contains('-'),
        !region.contains('-'),
        !ty.contains('-'),
        ty != standard_type(),
        encode_utf8(ty + seq!['-'] + x).len() <= 255,
        voices.len() > 0,
        voices.last().name@ == voice_name(lang, region, ty + seq!['-'] + x),
    ensures
        voice_variant(voices.last().name@) == Some(ty + seq!['-'] + x),
        catalog_of(voices)[fit_u8(voices.last().language_codes@[0]@)].contains_key(
            ty + seq!['-'] + x,
        ),
        catalog_of(voices)[fit_u8(voices.last().language_codes@[0]@)][ty + seq!['-'] + x]
            == voices.last().ssml_gender,
{
    let tv = ty + seq!['-'] + x;
    lemma_type_and_variant(lang, region, tv);
    lemma_split_at(ty, x);
    lemma_fit_u8_short(tv);
    lemma_last_record(voices, tv);
}

/// A name with fewer than three '-'-separated parts (at most one '-') has no
/// variant, and a record carrying it leaves the catalogue unchanged.
pub proof fn lemma_malformed_name(voices: Seq<GoogleVoice>, v: GoogleVoice)
    requires
        forall|i: int, j: int|
            0 <= i < j < v.name@.len() ==> !(v.name@[i] == '-' && v.name@[j] == '-'),
    ensures
        voice_variant(v.name@) is None,
        catalog_of(voices.push(v)) == catalog_of(voices),
{
    let name = v.name@;
    match split_once_dash(name) {
        None => {},
        Some((_, rest)) => {
            let i = choose|i: int| is_first_dash(name, i);
            assert(rest == name.skip(i + 1));
            assert forall|j: int| 0 <= j < rest.len() implies rest[j] != '-' by {
                assert(rest[j] == name[i + 1 + j]);
            }
            lemma_no_dash(rest);
        },
    }
    assert(voices.push(v).drop_last() =~= voices);
}

/// Normalising the same records twice gives the same catalogue.
pub proof fn lemma_prepare_deterministic(
    raw: Seq<GoogleVoice>,
    first: VoiceCatalog,
    second: VoiceCatalog,
)
    requires
        first@ == catalog_of(raw),
        second@ == catalog_of(raw),
    ensures
        first@ == second@,
{
}

} // verus!
