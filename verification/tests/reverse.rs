use atlasip::json::Json;
use atlasip::reverse::{crtsh_names, merge_reverse, parse_hackertarget};

fn entry(names: &str) -> Json {
    Json::Object(vec![("name_value".to_string(), Json::String(names.to_string()))])
}

#[test]
fn hackertarget_lines_are_trimmed_and_filtered() {
    assert_eq!(parse_hackertarget("a.com\n  b.com \n\nerror x\nc.com"), vec!["a.com", "b.com", "c.com"]);
    assert!(parse_hackertarget("error check your api query").is_empty());
    assert!(parse_hackertarget("  No Records Found \n").is_empty());
}

#[test]
fn crtsh_names_strip_wildcards_and_dedup() {
    let entries = vec![entry("*.example.com\nexample.com"), entry("www.example.com\nlocalhost\n*.*.deep.example.com"), Json::Null];
    let names = crtsh_names(&entries);
    assert_eq!(names, vec!["example.com", "www.example.com", "deep.example.com"]);
}

#[test]
fn merged_domains_are_sorted_with_sources() {
    let (results, errors) = merge_reverse(
        Ok(vec!["b.com".to_string(), "a.com".to_string()]),
        Ok(vec!["a.com".to_string(), "c.com".to_string()]),
    );
    let domains: Vec<&str> = results.iter().map(|d| d.domain.as_str()).collect();
    assert_eq!(domains, vec!["a.com", "b.com", "c.com"]);
    assert_eq!(results[0].sources, vec!["hackertarget", "crtsh"]);
    assert_eq!(results[1].sources, vec!["hackertarget"]);
    assert_eq!(results[2].sources, vec!["crtsh"]);
    assert!(errors.is_empty());
}

#[test]
fn failed_sources_are_reported() {
    let (results, errors) = merge_reverse(Err("timeout".to_string()), Ok(vec!["x.org".to_string()]));
    assert_eq!(results.len(), 1);
    assert_eq!(errors.len(), 1);
    assert_eq!(errors[0].source, "hackertarget");
    assert_eq!(errors[0].error, "timeout");
    let (results, errors) = merge_reverse(Err("a".to_string()), Err("b".to_string()));
    assert!(results.is_empty());
    assert_eq!(errors.len(), 2);
    assert_eq!(errors[1].source, "crtsh");
}
