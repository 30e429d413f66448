use afsim_linker::params::ParamMap;
use afsim_linker::url_scheme::decode_component;
use afsim_linker::url_scheme::parse_url_scheme;

#[test]
fn documented_link_names_scene_and_script() {
    let d = parse_url_scheme("afsim://run?scene=test-scenario&script=setup.txt").unwrap();
    assert_eq!(d.action, "run");
    assert_eq!(d.scene_name.as_deref(), Some("test-scenario"));
    assert_eq!(d.script_entry.as_deref(), Some("setup.txt"));
    assert_eq!(d.params.as_deref(), Some("scene=test-scenario&script=setup.txt"));
    assert_eq!(d.parsed_params.len(), 0);
}

#[test]
fn percent_encoded_values_are_decoded() {
    let d = parse_url_scheme("afsim://run?scene=%E5%9C%BA%E6%99%AF&script=a%20b.txt").unwrap();
    assert_eq!(d.scene_name.as_deref(), Some("场景"));
    assert_eq!(d.script_entry.as_deref(), Some("a b.txt"));
}

#[test]
fn encoded_names_are_decoded_too() {
    let d = parse_url_scheme("afsim://run?sc%65ne=x&k%3D=v").unwrap();
    assert_eq!(d.scene_name.as_deref(), Some("x"));
    assert_eq!(d.parsed_params.get("k="), Some("v".to_string()));
}

#[test]
fn plus_is_kept_literally() {
    let d = parse_url_scheme("afsim://run?scene=a+b").unwrap();
    assert_eq!(d.scene_name.as_deref(), Some("a+b"));
}

#[test]
fn bytes_that_are_not_utf8_refuse_the_link() {
    assert!(parse_url_scheme("afsim://run?scene=%FF&script=x").is_none());
    assert!(parse_url_scheme("afsim://run?%C3=x").is_none());
}

#[test]
fn invalid_escapes_stay_as_they_are() {
    let d = parse_url_scheme("afsim://run?scene=100%25%zz%4").unwrap();
    assert_eq!(d.scene_name.as_deref(), Some("100%%zz%4"));
}

#[test]
fn other_schemes_are_refused() {
    assert!(parse_url_scheme("http://run?scene=a").is_none());
    assert!(parse_url_scheme("afsim:/run").is_none());
    assert!(parse_url_scheme("").is_none());
    assert!(parse_url_scheme("AFSIM://run").is_none());
}

#[test]
fn every_leading_prefix_is_cut() {
    let d = parse_url_scheme("afsim://afsim://afsim://run?scene=a").unwrap();
    assert_eq!(d.action, "run");
    assert_eq!(d.scene_name.as_deref(), Some("a"));
}

#[test]
fn link_without_query() {
    let d = parse_url_scheme("afsim://open").unwrap();
    assert_eq!(d.action, "open");
    assert!(d.params.is_none());
    assert!(d.scene_name.is_none());
    assert!(d.script_entry.is_none());
    let e = parse_url_scheme("afsim://").unwrap();
    assert_eq!(e.action, "");
}

#[test]
fn empty_query_sets_nothing() {
    let d = parse_url_scheme("afsim://run?").unwrap();
    assert_eq!(d.params.as_deref(), Some(""));
    assert!(d.scene_name.is_none());
    assert_eq!(d.parsed_params.len(), 0);
}

#[test]
fn the_first_question_mark_ends_the_action() {
    let d = parse_url_scheme("afsim://a?b?scene=c").unwrap();
    assert_eq!(d.action, "a");
    assert_eq!(d.params.as_deref(), Some("b?scene=c"));
    assert_eq!(d.parsed_params.len(), 1);
    assert_eq!(d.parsed_params.get("b?scene"), Some("c".to_string()));
    assert!(d.scene_name.is_none());
}

#[test]
fn other_parameters_are_kept_and_later_ones_win() {
    let d = parse_url_scheme("afsim://run?x=1&x=2&y=3&noeq&&scene=s&script=t&scene=u").unwrap();
    assert_eq!(d.parsed_params.len(), 2);
    assert_eq!(d.parsed_params.get("x"), Some("2".to_string()));
    assert_eq!(d.parsed_params.get("y"), Some("3".to_string()));
    assert_eq!(d.parsed_params.get("noeq"), None);
    assert_eq!(d.scene_name.as_deref(), Some("u"));
    assert_eq!(d.script_entry.as_deref(), Some("t"));
}

#[test]
fn a_value_may_hold_equals_signs() {
    let d = parse_url_scheme("afsim://run?scene=a=b&script==").unwrap();
    assert_eq!(d.scene_name.as_deref(), Some("a=b"));
    assert_eq!(d.script_entry.as_deref(), Some("="));
}

#[test]
fn decoding_single_components() {
    assert_eq!(decode_component("plain"), Some("plain".to_string()));
    assert_eq!(decode_component("%41%62c"), Some("Abc".to_string()));
    assert_eq!(decode_component("%e4%b8%ad"), Some("中".to_string()));
    assert_eq!(decode_component("%80"), None);
    assert_eq!(decode_component(""), Some(String::new()));
}

#[test]
fn param_map_sets_and_replaces() {
    let mut m = ParamMap::new();
    assert_eq!(m.len(), 0);
    m.insert("a".to_string(), "1".to_string());
    m.insert("b".to_string(), "2".to_string());
    m.insert("a".to_string(), "3".to_string());
    assert_eq!(m.len(), 2);
    assert_eq!(m.get("a"), Some("3".to_string()));
    assert_eq!(m.get("b"), Some("2".to_string()));
    assert_eq!(m.get("c"), None);
}
