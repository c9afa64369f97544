//! Translations: locale maps, the two-language table with fallback, and the
//! catalog built from namespaced locale documents.
use vstd::prelude::*;

use crate::json::Json;
use crate::text::{chars_of, eq_chars, push_str};

verus! {

// ---------------------------------------------------------------------------
// Locale maps
// ---------------------------------------------------------------------------

/// Whether the keys of `s` are distinct.
pub open spec fn distinct_keys(s: Seq<(String, String)>) -> bool {
    forall|i: int, j: int| 0 <= i < j < s.len() ==> s[i].0@ != s[j].0@
}

/// The map that a list of distinct-key entries stands for.
pub open spec fn as_map(s: Seq<(String, String)>) -> Map<Seq<char>, Seq<char>>
    decreases s.len(),
{
    if s.len() == 0 {
        Map::empty()
    } else {
        as_map(s.drop_last()).insert(s.last().0@, s.last().1@)
    }
}

/// A translation table from keys to texts.
#[derive(Clone, Debug)]
pub struct LocaleMap {
    entries: Vec<(String, String)>,
}

impl View for LocaleMap {
    type V = Map<Seq<char>, Seq<char>>;

    closed spec fn view(&self) -> Map<Seq<char>, Seq<char>> {
        as_map(self.entries@)
    }
}

proof fn lemma_as_map_index(s: Seq<(String, String)>, i: int)
    requires
        distinct_keys(s),
        0 <= i < s.len(),
    ensures
        as_map(s).contains_key(s[i].0@),
        as_map(s)[s[i].0@] == s[i].1@,
    decreases s.len(),
{
    if i < s.len() - 1 {
        lemma_as_map_index(s.drop_last(), i);
    }
}

proof fn lemma_as_map_absent(s: Seq<(String, String)>, k: Seq<char>)
    requires
        forall|i: int| 0 <= i < s.len() ==> s[i].0@ != k,
    ensures
        !as_map(s).contains_key(k),
    decreases s.len(),
{
    if s.len() > 0 {
        lemma_as_map_absent(s.drop_last(), k);
    }
}

proof fn lemma_as_map_finite(s: Seq<(String, String)>)
    ensures
        as_map(s).dom().finite(),
        as_map(s).dom().len() <= s.len(),
    decreases s.len(),
{
    if s.len() > 0 {
        lemma_as_map_finite(s.drop_last());
    }
}

proof fn lemma_as_map_len(s: Seq<(String, String)>)
    requires
        distinct_keys(s),
    ensures
        as_map(s).dom().len() == s.len(),
    decreases s.len(),
{
    if s.len() > 0 {
        let t = s.drop_last();
        lemma_as_map_len(t);
        lemma_as_map_finite(t);
        assert forall|i: int| 0 <= i < t.len() implies t[i].0@ != s.last().0@ by {
            assert(t[i] == s[i]);
        }
        lemma_as_map_absent(t, s.last().0@);
    }
}

proof fn lemma_as_map_update(s: Seq<(String, String)>, i: int, v: String)
    requires
        distinct_keys(s),
        0 <= i < s.len(),
    ensures
        as_map(s.update(i, (s[i].0, v))) == as_map(s).insert(s[i].0@, v@),
    decreases s.len(),
{
    let u = s.update(i, (s[i].0, v));
    if i == s.len() - 1 {
        assert(u.drop_last() =~= s.drop_last());
        let t = s.drop_last();
        assert forall|j: int| 0 <= j < t.len() implies t[j].0@ != s.last().0@ by {
            assert(t[j] == s[j]);
        }
        lemma_as_map_absent(t, s.last().0@);
        assert(as_map(u) =~= as_map(s).insert(s[i].0@, v@));
    } else {
        assert(u.drop_last() =~= s.drop_last().update(i, (s[i].0, v)));
        lemma_as_map_update(s.drop_last(), i, v);
        assert(as_map(u) =~= as_map(s).insert(s[i].0@, v@));
    }
}

impl LocaleMap {
    /// The table invariant: keys are distinct.
    pub closed spec fn wf(&self) -> bool {
        distinct_keys(self.entries@)
    }

    /// An empty table.
    pub fn new() -> (r: LocaleMap)
        ensures
            r.wf(),
            r@ == Map::<Seq<char>, Seq<char>>::empty(),
    {
        let r = LocaleMap { entries: Vec::new() };
        proof {
            assert(r@ =~= Map::<Seq<char>, Seq<char>>::empty());
        }
        r
    }

    /// Position of `key`.
    fn position(&self, key: &str) -> (r: Option<usize>)
        requires
            self.wf(),
        ensures
            match r {
                Some(i) => i < self.entries@.len() && self.entries@[i as int].0@ == key@,
                None => forall|i: int| 0 <= i < self.entries@.len() ==> self.entries@[i].0@ != key@,
            },
    {
        let k = chars_of(key);
        let mut i: usize = 0;
        while i < self.entries.len()
            invariant
                i <= self.entries.len(),
                k@ == key@,
                forall|j: int| 0 <= j < i ==> self.entries@[j].0@ != key@,
            decreases self.entries.len() - i,
        {
            let e = chars_of(self.entries[i].0.as_str());
            if eq_chars(&e, &k) {
                return Some(i);
            }
            i += 1;
        }
        None
    }

    /// The text for `key`.
    pub fn get(&self, key: &str) -> (r: Option<&String>)
        requires
            self.wf(),
        ensures
            match r {
                Some(v) => self@.contains_key(key@) && self@[key@] == v@,
                None => !self@.contains_key(key@),
            },
    {
        match self.position(key) {
            Some(i) => {
                proof {
                    lemma_as_map_index(self.entries@, i as int);
                }
                Some(&self.entries[i].1)
            },
            None => {
                proof {
                    lemma_as_map_absent(self.entries@, key@);
                }
                None
            },
        }
    }

    /// Whether `key` has a text.
    pub fn contains_key(&self, key: &str) -> (r: bool)
        requires
            self.wf(),
        ensures
            r == self@.contains_key(key@),
    {
        self.get(key).is_some()
    }

    /// Sets the text of `key`, replacing any earlier one.
    pub fn insert(&mut self, key: String, value: String)
        requires
            old(self).wf(),
        ensures
            final(self).wf(),
            final(self)@ == old(self)@.insert(key@, value@),
    {
        match self.position(key.as_str()) {
            Some(i) => {
                let ghost s = self.entries@;
                let k = self.entries[i].0.clone();
                self.entries.set(i, (k, value));
                proof {
                    assert(self.entries@ =~= s.update(i as int, (s[i as int].0, value)));
                    lemma_as_map_update(s, i as int, value);
                }
            },
            None => {
                let ghost s = self.entries@;
                self.entries.push((key, value));
                proof {
                    assert(self.entries@.drop_last() =~= s);
                }
            },
        }
    }

    /// Number of keys.
    pub fn len(&self) -> (r: usize)
        requires
            self.wf(),
        ensures
            r == self@.dom().len(),
    {
        proof {
            lemma_as_map_len(self.entries@);
        }
        self.entries.len()
    }

    /// Whether the table is empty.
    pub fn is_empty(&self) -> (r: bool)
        requires
            self.wf(),
        ensures
            r == (self@.dom().len() == 0),
    {
        self.len() == 0
    }

    /// The entries, each key once.
    pub fn entries(&self) -> (r: &Vec<(String, String)>)
        requires
            self.wf(),
        ensures
            distinct_keys(r@),
            as_map(r@) == self@,
    {
        &self.entries
    }
}

// ---------------------------------------------------------------------------
// Two-language table
// ---------------------------------------------------------------------------

/// Why a locale could not be loaded.
#[derive(Clone, Debug)]
pub enum I18nError {
    IoError(String),
    ParseError(String),
}

/// An `I18nError` as a value: its kind and its text.
pub enum I18nErrorView {
    Io(Seq<char>),
    Parse(Seq<char>),
}

impl View for I18nError {
    type V = I18nErrorView;

    open spec fn view(&self) -> I18nErrorView {
        match self {
            I18nError::IoError(s) => I18nErrorView::Io(s@),
            I18nError::ParseError(s) => I18nErrorView::Parse(s@),
        }
    }
}

impl I18nError {
    /// The message shown for this error.
    pub fn message(&self) -> (r: String)
        ensures
            r@ == (match self {
                I18nError::IoError(s) => "I18n I/O error: "@ + s@,
                I18nError::ParseError(s) => "I18n parse error: "@ + s@,
            }),
    {
        let (head, s) = match self {
            I18nError::IoError(s) => ("I18n I/O error: ", s),
            I18nError::ParseError(s) => ("I18n parse error: ", s),
        };
        let mut m = head.to_string();
        push_str(&mut m, s.as_str());
        m
    }
}

/// The text for `key`: the primary table's, else the fallback table's,
/// else the key itself.
pub open spec fn translate_spec(
    primary: Map<Seq<char>, Seq<char>>,
    fallback: Map<Seq<char>, Seq<char>>,
    key: Seq<char>,
) -> Seq<char> {
    if primary.contains_key(key) {
        primary[key]
    } else if fallback.contains_key(key) {
        fallback[key]
    } else {
        key
    }
}

/// The string members of a flat locale document.
pub open spec fn string_members(m: Seq<(String, Json)>) -> Map<Seq<char>, Seq<char>>
    decreases m.len(),
{
    if m.len() == 0 {
        Map::empty()
    } else {
        match m.last().1 {
            Json::String(v) => string_members(m.drop_last()).insert(m.last().0@, v@),
            _ => string_members(m.drop_last()),
        }
    }
}

/// A dual-language translation table with fallback.
#[derive(Clone, Debug)]
pub struct I18n {
    primary: String,
    fallback: String,
    primary_map: LocaleMap,
    fallback_map: LocaleMap,
}

impl I18n {
    /// The table invariant.
    pub closed spec fn wf(&self) -> bool {
        self.primary_map.wf() && self.fallback_map.wf()
    }

    /// The primary table.
    pub closed spec fn primary_table(&self) -> Map<Seq<char>, Seq<char>> {
        self.primary_map@
    }

    /// The fallback table.
    pub closed spec fn fallback_table(&self) -> Map<Seq<char>, Seq<char>> {
        self.fallback_map@
    }

    /// The primary language tag.
    pub closed spec fn primary_tag(&self) -> Seq<char> {
        self.primary@
    }

    /// The fallback language tag.
    pub closed spec fn fallback_tag(&self) -> Seq<char> {
        self.fallback@
    }

    /// The path of the locale file of `lang`: `./locales/<lang>.json`.
    pub fn locale_file(lang: &str) -> (r: String)
        ensures
            r@ == "./locales/"@ + lang@ + ".json"@,
    {
        let mut p = "./locales/".to_string();
        push_str(&mut p, lang);
        push_str(&mut p, ".json");
        p
    }

    /// Reads a flat locale document: a JSON object whose string members are
    /// the translations (other members are ignored).
    pub fn load_locale(doc: &Json) -> (r: Result<LocaleMap, I18nError>)
        ensures
            match doc {
                Json::Object(m) => r matches Ok(t) && t.wf() && t@ == string_members(m@),
                _ => r matches Err(I18nError::ParseError(s)) && s@ == "locale file must be a JSON object"@,
            },
    {
        match doc {
            Json::Object(m) => {
                let mut t = LocaleMap::new();
                let mut i: usize = 0;
                while i < m.len()
                    invariant
                        i <= m.len(),
                        t.wf(),
                        t@ == string_members(m@.take(i as int)),
                    decreases m.len() - i,
                {
                    proof {
                        assert(m@.take(i + 1).drop_last() =~= m@.take(i as int));
                    }
                    match &m[i].1 {
                        Json::String(v) => {
                            t.insert(m[i].0.clone(), v.clone());
                        },
                        _ => {},
                    }
                    i += 1;
                }
                proof {
                    assert(m@.take(m.len() as int) =~= m@);
                }
                Ok(t)
            },
            _ => Err(I18nError::ParseError("locale file must be a JSON object".to_string())),
        }
    }

    /// What a locale document yields: the error met while reading or parsing
    /// it, else its string members when it is an object, else a parse error.
    pub open spec fn document_table(doc: Result<Json, I18nError>) -> Result<Map<Seq<char>, Seq<char>>, I18nErrorView> {
        match doc {
            Err(e) => Err(e@),
            Ok(Json::Object(m)) => Ok(string_members(m@)),
            Ok(_) => Err(I18nErrorView::Parse("locale file must be a JSON object"@)),
        }
    }

    /// Loads one locale document, as read and parsed: a reading or parsing
    /// error is handed on, and the document is then read as `load_locale` does.
    fn load_document(doc: Result<Json, I18nError>) -> (r: Result<LocaleMap, I18nError>)
        ensures
            match I18n::document_table(doc) {
                Ok(t) => r matches Ok(m) && m.wf() && m@ == t,
                Err(e) => r matches Err(x) && x@ == e,
            },
    {
        match doc {
            Err(e) => Err(e),
            Ok(d) => I18n::load_locale(&d),
        }
    }

    /// Builds the table from the primary and fallback locale documents, each
    /// given as what reading and parsing its file gave. The primary document
    /// is loaded first: its error, if any, is the one returned.
    pub fn new(
        primary: &str,
        fallback: &str,
        primary_doc: Result<Json, I18nError>,
        fallback_doc: Result<Json, I18nError>,
    ) -> (r: Result<I18n, I18nError>)
        ensures
            match (I18n::document_table(primary_doc), I18n::document_table(fallback_doc)) {
                (Ok(p), Ok(f)) => r matches Ok(t) && t.wf() && t.primary_tag() == primary@
                    && t.fallback_tag() == fallback@ && t.primary_table() == p && t.fallback_table() == f,
                (Err(e), _) => r matches Err(x) && x@ == e,
                (Ok(_), Err(e)) => r matches Err(x) && x@ == e,
            },
    {
        let primary_map = match I18n::load_document(primary_doc) {
            Ok(t) => t,
            Err(e) => return Err(e),
        };
        let fallback_map = match I18n::load_document(fallback_doc) {
            Ok(t) => t,
            Err(e) => return Err(e),
        };
        Ok(I18n::from_maps(primary, fallback, primary_map, fallback_map))
    }

    /// A table over given translations.
    pub fn from_maps(primary: &str, fallback: &str, primary_map: LocaleMap, fallback_map: LocaleMap) -> (r:
        I18n)
        requires
            primary_map.wf(),
            fallback_map.wf(),
        ensures
            r.wf(),
            r.primary_tag() == primary@,
            r.fallback_tag() == fallback@,
            r.primary_table() == primary_map@,
            r.fallback_table() == fallback_map@,
    {
        I18n {
            primary: primary.to_string(),
            fallback: fallback.to_string(),
            primary_map,
            fallback_map,
        }
    }

    /// The translation of `key`: the primary locale's, else the fallback
    /// locale's, else the key itself.
    pub fn t(&self, key: &str) -> (r: String)
        requires
            self.wf(),
        ensures
            r@ == translate_spec(self.primary_table(), self.fallback_table(), key@),
    {
        match self.primary_map.get(key) {
            Some(v) => return v.clone(),
            None => {},
        }
        match self.fallback_map.get(key) {
            Some(v) => return v.clone(),
            None => {},
        }
        key.to_string()
    }

    /// The primary language tag.
    pub fn primary_lang(&self) -> (r: &str)
        ensures
            r@ == self.primary_tag(),
    {
        self.primary.as_str()
    }

    /// The fallback language tag.
    pub fn fallback_lang(&self) -> (r: &str)
        ensures
            r@ == self.fallback_tag(),
    {
        self.fallback.as_str()
    }
}

/// The translation that the command line shows: through the table when one
/// was loaded, otherwise the key itself.
pub fn translate(i18n: &Option<I18n>, key: &str) -> (r: String)
    requires
        i18n matches Some(t) ==> t.wf(),
    ensures
        r@ == (match i18n {
            Some(t) => translate_spec(t.primary_table(), t.fallback_table(), key@),
            None => key@,
        }),
{
    match i18n {
        Some(t) => t.t(key),
        None => key.to_string(),
    }
}

// ---------------------------------------------------------------------------
// Namespaced catalog
// ---------------------------------------------------------------------------

/// `prefix.key`.
pub open spec fn dotted(prefix: Seq<char>, key: Seq<char>) -> Seq<char> {
    prefix + "."@ + key
}

/// The table after the string leaves of `v` are inserted under `prefix`:
/// a string goes in at `prefix`, an object's members recurse with
/// `prefix.member`, other values add nothing.
pub open spec fn flatten_spec(v: Json, prefix: Seq<char>, m: Map<Seq<char>, Seq<char>>) -> Map<
    Seq<char>,
    Seq<char>,
>
    decreases v, 1nat,
{
    match v {
        Json::String(s) => m.insert(prefix, s@),
        Json::Object(obj) => flatten_members(obj@, prefix, m),
        _ => m,
    }
}

/// The table after each member of an object is flattened in turn.
pub open spec fn flatten_members(
    ms: Seq<(String, Json)>,
    prefix: Seq<char>,
    m: Map<Seq<char>, Seq<char>>,
) -> Map<Seq<char>, Seq<char>>
    decreases ms, 0nat,
{
    if ms.len() == 0 {
        m
    } else {
        flatten_members(ms.drop_first(), prefix, flatten_spec(ms[0].1, dotted(prefix, ms[0].0@), m))
    }
}

/// `prefix.key` as a string.
fn dotted_exec(prefix: &str, key: &str) -> (r: String)
    ensures
        r@ == dotted(prefix@, key@),
{
    let mut s = prefix.to_string();
    push_str(&mut s, ".");
    push_str(&mut s, key);
    s
}

/// Inserts the string leaves of `value` into `map` under `prefix`, with
/// object members joined to the prefix by dots.
pub fn flatten_into(value: &Json, prefix: &str, map: &mut LocaleMap)
    requires
        old(map).wf(),
    ensures
        final(map).wf(),
        final(map)@ == flatten_spec(*value, prefix@, old(map)@),
    decreases *value,
{
    match value {
        Json::String(s) => {
            map.insert(prefix.to_string(), s.clone());
        },
        Json::Object(obj) => {
            let mut i: usize = 0;
            proof {
                assert(obj@.skip(0) =~= obj@);
            }
            while i < obj.len()
                invariant
                    i <= obj.len(),
                    *value == Json::Object(*obj),
                    map.wf(),
                    flatten_spec(*value, prefix@, old(map)@) == flatten_members(
                        obj@.skip(i as int),
                        prefix@,
                        map@,
                    ),
                decreases obj.len() - i,
            {
                proof {
                    assert(obj@.skip(i as int).drop_first() =~= obj@.skip(i + 1));
                    assert(obj@.skip(i as int)[0] == obj@[i as int]);
                    assert(decreases_to!(*value => (*value)->Object_0));
                    assert(decreases_to!(*obj => obj@));
                    assert(decreases_to!(obj@ => obj@[i as int]));
                    assert(decreases_to!(obj@[i as int] => obj@[i as int].1));
                }
                let p = dotted_exec(prefix, obj[i].0.as_str());
                flatten_into(&obj[i].1, p.as_str(), map);
                i += 1;
            }
            proof {
                assert(obj@.skip(obj.len() as int) =~= Seq::<(String, Json)>::empty());
            }
        },
        _ => {},
    }
}

/// The embedded locale documents: for each locale, its namespaced files
/// (namespace, parsed content).
#[derive(Debug)]
pub struct LocaleSources {
    pub en_us: Vec<(String, Json)>,
    pub fr_fr: Vec<(String, Json)>,
}

/// The table of a list of namespaced documents: each object member `k` of
/// namespace `ns` is flattened under `ns.k`; documents that are not objects
/// add nothing.
pub open spec fn load_files(files: Seq<(String, Json)>, m: Map<Seq<char>, Seq<char>>) -> Map<
    Seq<char>,
    Seq<char>,
>
    decreases files.len(),
{
    if files.len() == 0 {
        m
    } else {
        let (ns, doc) = files[0];
        let m1 = match doc {
            Json::Object(obj) => flatten_top(obj@, ns@, m),
            _ => m,
        };
        load_files(files.drop_first(), m1)
    }
}

/// The members of a namespace document, each flattened under `ns.k`.
pub open spec fn flatten_top(
    ms: Seq<(String, Json)>,
    ns: Seq<char>,
    m: Map<Seq<char>, Seq<char>>,
) -> Map<Seq<char>, Seq<char>>
    decreases ms.len(),
{
    if ms.len() == 0 {
        m
    } else {
        flatten_top(ms.drop_first(), ns, flatten_spec(ms[0].1, dotted(ns, ms[0].0@), m))
    }
}

/// The documents of `locale`: those of `en-US` or `fr-FR`, none otherwise.
pub open spec fn files_of(locale: Seq<char>, src: LocaleSources) -> Seq<(String, Json)> {
    if locale == "en-US"@ {
        src.en_us@
    } else if locale == "fr-FR"@ {
        src.fr_fr@
    } else {
        seq![]
    }
}

/// Loads every document of `locale` into one flat table of namespaced keys
/// (`ui.app.title`); an unknown locale gives an empty table.
pub fn load_locale(locale: &str, sources: &LocaleSources) -> (r: LocaleMap)
    ensures
        r.wf(),
        r@ == load_files(files_of(locale@, *sources), Map::empty()),
{
    let mut map = LocaleMap::new();
    let lv = chars_of(locale);
    proof {
        reveal_strlit("en-US");
        reveal_strlit("fr-FR");
    }
    let files: &Vec<(String, Json)> = if crate::text::eq_lit(&lv, "en-US") {
        &sources.en_us
    } else if crate::text::eq_lit(&lv, "fr-FR") {
        &sources.fr_fr
    } else {
        return map;
    };
    let mut f: usize = 0;
    proof {
        assert(files@.skip(0) =~= files@);
    }
    while f < files.len()
        invariant
            f <= files.len(),
            map.wf(),
            load_files(files@, Map::empty()) == load_files(files@.skip(f as int), map@),
        decreases files.len() - f,
    {
        proof {
            assert(files@.skip(f as int).drop_first() =~= files@.skip(f + 1));
            assert(files@.skip(f as int)[0] == files@[f as int]);
        }
        match &files[f].1 {
            Json::Object(obj) => {
                let ns = files[f].0.as_str();
                let ghost start = map@;
                let mut i: usize = 0;
                proof {
                    assert(obj@.skip(0) =~= obj@);
                }
                while i < obj.len()
                    invariant
                        i <= obj.len(),
                        map.wf(),
                        flatten_top(obj@, ns@, start) == flatten_top(obj@.skip(i as int), ns@, map@),
                    decreases obj.len() - i,
                {
                    proof {
                        assert(obj@.skip(i as int).drop_first() =~= obj@.skip(i + 1));
                        assert(obj@.skip(i as int)[0] == obj@[i as int]);
                    }
                    let p = dotted_exec(ns, obj[i].0.as_str());
                    flatten_into(&obj[i].1, p.as_str(), &mut map);
                    i += 1;
                }
                proof {
                    assert(obj@.skip(obj.len() as int) =~= Seq::<(String, Json)>::empty());
                }
            },
            _ => {},
        }
        f += 1;
    }
    proof {
        assert(files@.skip(files.len() as int) =~= Seq::<(String, Json)>::empty());
    }
    map
}

/// The translation catalog of the active locale, with `en-US` as fallback.
#[derive(Clone, Debug)]
pub struct Catalog {
    pub primary_locale: String,
    pub primary: LocaleMap,
    pub fallback: LocaleMap,
}

impl Catalog {
    /// The catalog invariant.
    pub open spec fn wf(&self) -> bool {
        self.primary.wf() && self.fallback.wf()
    }

    /// The translation of `key`: the active locale's, else `en-US`'s, else
    /// the key itself.
    pub fn t(&self, key: &str) -> (r: String)
        requires
            self.wf(),
        ensures
            r@ == translate_spec(self.primary@, self.fallback@, key@),
    {
        match self.primary.get(key) {
            Some(v) => return v.clone(),
            None => {},
        }
        match self.fallback.get(key) {
            Some(v) => return v.clone(),
            None => {},
        }
        key.to_string()
    }

    /// The active locale tag.
    pub fn locale(&self) -> (r: &str)
        ensures
            r@ == self.primary_locale@,
    {
        self.primary_locale.as_str()
    }
}

/// Builds the catalog of `locale`: its own table, and the `en-US` table as
/// fallback unless the locale is `en-US` itself.
pub fn build_catalog(locale: &str, sources: &LocaleSources) -> (r: Catalog)
    ensures
        r.wf(),
        r.primary_locale@ == locale@,
        r.primary@ == load_files(files_of(locale@, *sources), Map::empty()),
        r.fallback@ == (if locale@ == "en-US"@ {
            Map::<Seq<char>, Seq<char>>::empty()
        } else {
            load_files(sources.en_us@, Map::empty())
        }),
{
    let primary = load_locale(locale, sources);
    let lv = chars_of(locale);
    let fallback = if crate::text::eq_lit(&lv, "en-US") {
        LocaleMap::new()
    } else {
        proof {
            reveal_strlit("en-US");
        }
        load_locale("en-US", sources)
    };
    Catalog { primary_locale: locale.to_string(), primary, fallback }
}

/// The translation of a key in the catalog of `locale`: the locale's own
/// text, else the `en-US` text, else the key itself; an unknown locale
/// therefore reads entirely in `en-US`.
pub proof fn law_catalog_resolution(locale: Seq<char>, sources: LocaleSources, key: Seq<char>)
    ensures
        ({
            let own = load_files(files_of(locale, sources), Map::empty());
            let en = load_files(sources.en_us@, Map::empty());
            let fallback = if locale == "en-US"@ {
                Map::<Seq<char>, Seq<char>>::empty()
            } else {
                en
            };
            &&& own.contains_key(key) ==> translate_spec(own, fallback, key) == own[key]
            &&& !own.contains_key(key) && en.contains_key(key) ==> translate_spec(own, fallback, key)
                == en[key]
            &&& !own.contains_key(key) && !en.contains_key(key) ==> translate_spec(own, fallback, key)
                == key
            &&& (locale != "en-US"@ && locale != "fr-FR"@) ==> translate_spec(own, fallback, key) == (
            if en.contains_key(key) {
                en[key]
            } else {
                key
            })
        }),
{
    let own = load_files(files_of(locale, sources), Map::empty());
    if locale == "en-US"@ {
        assert(own == load_files(sources.en_us@, Map::empty()));
    }
    if locale != "en-US"@ && locale != "fr-FR"@ {
        assert(files_of(locale, sources) == Seq::<(String, Json)>::empty());
        assert(own =~= Map::<Seq<char>, Seq<char>>::empty());
    }
}

} // verus!
