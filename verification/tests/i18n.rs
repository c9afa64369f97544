use atlasip::i18n::{build_catalog, flatten_into, load_locale, translate, I18n, I18nError, LocaleMap, LocaleSources};
use atlasip::json::Json;

fn itext(v: &str) -> Json {
    Json::String(v.to_string())
}

fn iobj(members: Vec<(&str, Json)>) -> Json {
    Json::Object(members.into_iter().map(|(k, v)| (k.to_string(), v)).collect())
}

fn table(entries: &[(&str, &str)]) -> LocaleMap {
    let mut m = LocaleMap::new();
    for (k, v) in entries {
        m.insert(k.to_string(), v.to_string());
    }
    m
}

fn make_i18n(primary_entries: &[(&str, &str)], fallback_entries: &[(&str, &str)]) -> I18n {
    I18n::from_maps("pr", "fb", table(primary_entries), table(fallback_entries))
}

/// Locale documents shaped like the embedded ones: one per namespace.
fn sources() -> LocaleSources {
    let en = vec![
        ("ui".to_string(), iobj(vec![("nav", iobj(vec![("analysis", itext("Analysis"))])), ("app", iobj(vec![("title", itext("AtlasIP"))]))])),
        ("lcd".to_string(), iobj(vec![])),
        ("service".to_string(), iobj(vec![("windows", iobj(vec![("installed", itext("AtlasIP Service installed successfully."))]))])),
        ("errors".to_string(), iobj(vec![("error", iobj(vec![("invalid_ip", itext("Invalid IP address"))]))])),
    ];
    let fr = vec![
        ("ui".to_string(), iobj(vec![("nav", iobj(vec![("analysis", itext("Analyse"))])), ("app", iobj(vec![("title", itext("AtlasIP"))]))])),
        ("lcd".to_string(), iobj(vec![])),
        ("service".to_string(), iobj(vec![("windows", iobj(vec![("installed", itext("Service AtlasIP installé."))]))])),
        ("errors".to_string(), iobj(vec![("error", iobj(vec![("invalid_ip", itext("Adresse IP invalide"))]))])),
    ];
    LocaleSources { en_us: en, fr_fr: fr }
}

// ── flat locale documents ────────────────────────────────────────────────

#[test]
fn test_load_valid_locale() {
    let doc = iobj(vec![("hello", itext("Hello")), ("bye", itext("Goodbye"))]);
    let map = I18n::load_locale(&doc).expect("should load");
    assert_eq!(map.get("hello").map(String::as_str), Some("Hello"));
    assert_eq!(map.get("bye").map(String::as_str), Some("Goodbye"));
}

#[test]
fn test_parse_error_non_object() {
    let doc = Json::Array(vec![itext("a"), itext("b")]);
    let result = I18n::load_locale(&doc);
    assert!(result.is_err());
    assert!(matches!(result.unwrap_err(), I18nError::ParseError(_)));
}

#[test]
fn test_translation_primary() {
    let i18n = make_i18n(&[("greeting", "Bonjour"), ("bye", "Au revoir")], &[("greeting", "Hello"), ("bye", "Goodbye")]);
    assert_eq!(i18n.t("greeting"), "Bonjour");
    assert_eq!(i18n.t("bye"), "Au revoir");
}

#[test]
fn test_translation_fallback() {
    let i18n = make_i18n(&[("only_primary", "Primaire")], &[("only_fallback", "Fallback value"), ("only_primary", "Primary EN")]);
    assert_eq!(i18n.t("only_fallback"), "Fallback value");
    assert_eq!(i18n.t("only_primary"), "Primaire");
}

#[test]
fn test_translation_missing_key() {
    let i18n = make_i18n(&[], &[]);
    assert_eq!(i18n.t("unknown.key"), "unknown.key");
    assert_eq!(i18n.t(""), "");
}

#[test]
fn test_i18n_new_from_files() {
    let fr = iobj(vec![("app.title", itext("AtlasIP FR")), ("only_fr", itext("seulement FR"))]);
    let en = iobj(vec![("app.title", itext("AtlasIP EN")), ("only_en", itext("only EN"))]);
    let i18n = I18n::new("fr", "en", Ok(fr), Ok(en)).unwrap();
    assert_eq!(i18n.t("app.title"), "AtlasIP FR");
    assert_eq!(i18n.t("only_en"), "only EN");
    assert_eq!(i18n.t("only_fr"), "seulement FR");
    assert_eq!(i18n.t("missing"), "missing");
    assert_eq!(i18n.primary_lang(), "fr");
    assert_eq!(i18n.fallback_lang(), "en");
}

#[test]
fn i18n_new_refuses_a_non_object_document() {
    let en = iobj(vec![]);
    let result = I18n::new("fr", "en", Ok(Json::Null), Ok(en));
    assert!(matches!(result, Err(I18nError::ParseError(m)) if m == "locale file must be a JSON object"));
}

/// What reading a locale text gives: a parse error when it is not JSON.
fn parsed(text: &str) -> Result<Json, I18nError> {
    match serde_json::from_str::<serde_json::Value>(text) {
        Ok(serde_json::Value::Object(_)) => Ok(iobj(vec![])),
        Ok(_) => Ok(Json::Null),
        Err(e) => Err(I18nError::ParseError(e.to_string())),
    }
}

#[test]
fn test_parse_error() {
    let result = I18n::new("fr", "en", parsed("not json {{"), Ok(iobj(vec![])));
    assert!(result.is_err());
    assert!(matches!(result.unwrap_err(), I18nError::ParseError(_)));
}

#[test]
fn test_missing_locale_file() {
    let missing: Result<Json, I18nError> = Err(I18nError::IoError("No such file or directory (os error 2)".to_string()));
    let result = I18n::new("fr", "en", missing, Ok(iobj(vec![])));
    assert!(result.is_err());
    assert!(matches!(result.unwrap_err(), I18nError::IoError(_)));
}

#[test]
fn primary_document_error_comes_first() {
    let io: Result<Json, I18nError> = Err(I18nError::IoError("gone".to_string()));
    let bad: Result<Json, I18nError> = Err(I18nError::ParseError("broken".to_string()));
    assert!(matches!(I18n::new("fr", "en", io, bad), Err(I18nError::IoError(m)) if m == "gone"));
    let io: Result<Json, I18nError> = Err(I18nError::IoError("gone".to_string()));
    assert!(matches!(I18n::new("fr", "en", Ok(Json::Null), io), Err(I18nError::ParseError(m))
        if m == "locale file must be a JSON object"));
    let bad: Result<Json, I18nError> = Err(I18nError::ParseError("broken".to_string()));
    assert!(matches!(I18n::new("fr", "en", Ok(iobj(vec![])), bad), Err(I18nError::ParseError(m)) if m == "broken"));
}

#[test]
fn test_non_string_values_ignored() {
    let doc = iobj(vec![
        ("key_str", itext("value")),
        ("key_num", Json::Number("42".to_string())),
        ("key_arr", Json::Array(vec![Json::Number("1".to_string()), Json::Number("2".to_string())])),
        ("key_obj", iobj(vec![])),
    ]);
    let map = I18n::load_locale(&doc).unwrap();
    assert_eq!(map.len(), 1);
    assert_eq!(map.get("key_str").map(String::as_str), Some("value"));
    assert!(!map.contains_key("key_num"));
    assert!(!map.contains_key("key_arr"));
    assert!(!map.contains_key("key_obj"));
}

#[test]
fn locale_file_path_and_messages() {
    assert_eq!(I18n::locale_file("fr"), "./locales/fr.json");
    assert_eq!(I18nError::ParseError("bad".to_string()).message(), "I18n parse error: bad");
    assert_eq!(I18nError::IoError("gone".to_string()).message(), "I18n I/O error: gone");
}

#[test]
fn translate_without_table_returns_key() {
    assert_eq!(translate(&None, "error.private_ip"), "error.private_ip");
    let i18n = make_i18n(&[("error.private_ip", "IP privée")], &[]);
    assert_eq!(translate(&Some(i18n), "error.private_ip"), "IP privée");
}

#[test]
fn locale_map_insert_replaces() {
    let mut m = LocaleMap::new();
    assert!(m.is_empty());
    m.insert("k".to_string(), "a".to_string());
    m.insert("k".to_string(), "b".to_string());
    assert_eq!(m.len(), 1);
    assert_eq!(m.get("k").map(String::as_str), Some("b"));
    assert_eq!(m.entries().len(), 1);
}

// ── namespaced catalogs ──────────────────────────────────────────────────

#[test]
fn test_flatten_into_flat_string() {
    let mut map = LocaleMap::new();
    flatten_into(&itext("AtlasIP"), "ui.app.title", &mut map);
    assert_eq!(map.get("ui.app.title").map(String::as_str), Some("AtlasIP"));
}

#[test]
fn test_flatten_into_nested_object() {
    let mut map = LocaleMap::new();
    let v = iobj(vec![("title", itext("AtlasIP")), ("version", itext("0.3.0"))]);
    flatten_into(&v, "ui.app", &mut map);
    assert_eq!(map.get("ui.app.title").map(String::as_str), Some("AtlasIP"));
    assert_eq!(map.get("ui.app.version").map(String::as_str), Some("0.3.0"));
}

#[test]
fn test_flatten_into_ignores_non_string_leaves() {
    let mut map = LocaleMap::new();
    flatten_into(&Json::Bool(true), "prefix", &mut map);
    flatten_into(&Json::Array(vec![Json::Number("1".to_string())]), "prefix2", &mut map);
    assert!(map.is_empty());
}

#[test]
fn test_load_locale_en_us_has_ui_keys() {
    let map = load_locale("en-US", &sources());
    assert_eq!(map.get("ui.nav.analysis").map(String::as_str), Some("Analysis"));
    assert_eq!(map.get("errors.error.invalid_ip").map(String::as_str), Some("Invalid IP address"));
    assert_eq!(
        map.get("service.windows.installed").map(String::as_str),
        Some("AtlasIP Service installed successfully.")
    );
}

#[test]
fn test_load_locale_fr_fr_has_ui_keys() {
    let map = load_locale("fr-FR", &sources());
    assert_eq!(map.get("ui.nav.analysis").map(String::as_str), Some("Analyse"));
}

#[test]
fn test_load_locale_keys_are_namespaced() {
    let map = load_locale("en-US", &sources());
    assert!(map.entries().iter().any(|(k, _)| k.starts_with("ui.")));
    assert!(map.entries().iter().any(|(k, _)| k.starts_with("errors.")));
    assert!(map.entries().iter().any(|(k, _)| k.starts_with("service.")));
}

#[test]
fn test_load_locale_unknown_returns_empty() {
    let map = load_locale("xx-XX", &sources());
    assert!(map.is_empty());
}

#[test]
fn test_build_catalog_fr_fr_has_non_empty_fallback() {
    let catalog = build_catalog("fr-FR", &sources());
    assert!(!catalog.fallback.is_empty());
    assert!(catalog.fallback.contains_key("ui.nav.analysis"));
}

#[test]
fn test_build_catalog_en_us_has_empty_fallback() {
    let catalog = build_catalog("en-US", &sources());
    assert!(catalog.fallback.is_empty());
}

#[test]
fn test_build_catalog_fr_fr_primary_wins_over_fallback() {
    let catalog = build_catalog("fr-FR", &sources());
    assert_eq!(catalog.primary.get("ui.nav.analysis").map(String::as_str), Some("Analyse"));
    assert_eq!(catalog.fallback.get("ui.nav.analysis").map(String::as_str), Some("Analysis"));
    assert_eq!(catalog.t("ui.nav.analysis"), "Analyse");
    assert_eq!(catalog.locale(), "fr-FR");
}

#[test]
fn test_load_locale_all_values_are_non_empty() {
    let map = load_locale("en-US", &sources());
    for (k, v) in map.entries() {
        assert!(!v.is_empty(), "empty value for key: {k}");
    }
}

#[test]
fn test_load_locale_en_us_and_fr_fr_same_key_count() {
    let en = load_locale("en-US", &sources());
    let fr = load_locale("fr-FR", &sources());
    assert_eq!(en.len(), fr.len());
}

#[test]
fn test_t_returns_key_when_absent() {
    let catalog = build_catalog("en-US", &sources());
    let key = "nonexistent.__bloc11_test__.key";
    assert_eq!(catalog.t(key), key);
}

#[test]
fn test_build_catalog_returns_key_when_absent_in_both_locales() {
    let catalog = build_catalog("fr-FR", &sources());
    let key = "nonexistent.__bloc12_test__.key";
    assert_eq!(catalog.t(key), key);
}
