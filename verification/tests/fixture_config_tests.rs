use oj_assist::config::{Config, Language};
use oj_assist::fixtures::pair_fixtures;

fn listing(names: &[&[u8]]) -> Vec<Vec<u8>> {
    names.iter().map(|n| n.to_vec()).collect()
}

#[test]
fn pairs_inputs_with_outputs_in_order() {
    let names = listing(&[b"b.in", b"b.out", b"a.in", b"a.out"]);
    let fixtures = pair_fixtures(&names);
    assert_eq!(fixtures.len(), 2);
    assert_eq!(fixtures[0].input_name, b"b.in".to_vec());
    assert_eq!(fixtures[0].output_name, b"b.out".to_vec());
    assert_eq!(fixtures[0].stem, b"b".to_vec());
    assert_eq!(fixtures[1].input_name, b"a.in".to_vec());
    assert_eq!(fixtures[1].output_name, b"a.out".to_vec());
    assert_eq!(fixtures[1].stem, b"a".to_vec());
}

#[test]
fn unpaired_names_are_skipped() {
    // An input without its output, an output without its input, and an
    // unrelated file never become fixtures.
    let names = listing(&[b"a.in", b"a.out", b"b.in", b"c.out", b"d.txt", b"main.py"]);
    let fixtures = pair_fixtures(&names);
    assert_eq!(fixtures.len(), 1);
    assert_eq!(fixtures[0].stem, b"a".to_vec());
}

#[test]
fn hidden_input_pairs_against_full_name() {
    // ".in" has no extension to replace, so its partner would be ".in.out".
    let without = listing(&[b".in", b".out"]);
    assert_eq!(pair_fixtures(&without).len(), 0);
    let with = listing(&[b".in", b".in.out"]);
    let fixtures = pair_fixtures(&with);
    assert_eq!(fixtures.len(), 1);
    assert_eq!(fixtures[0].stem, b".in".to_vec());
}

#[test]
fn empty_listing_has_no_fixtures() {
    assert_eq!(pair_fixtures(&Vec::new()).len(), 0);
}

fn python() -> Language {
    Language {
        source: b"main.py".to_vec(),
        compile: None,
        execute: String::from("python3 main.py"),
    }
}

#[test]
fn finds_configured_language() {
    let mut config = Config::new();
    assert!(config.add_language(b"python".to_vec(), python()));
    let lang = config.find_language(&b"python".to_vec());
    assert!(lang.is_some());
    assert_eq!(lang.unwrap().execute, "python3 main.py");
}

#[test]
fn missing_language_is_not_found() {
    let mut config = Config::new();
    assert!(config.add_language(b"python".to_vec(), python()));
    assert!(config.find_language(&b"rust".to_vec()).is_none());
}

#[test]
fn duplicate_key_is_refused() {
    let mut config = Config::new();
    assert!(config.add_language(b"python".to_vec(), python()));
    assert!(!config.add_language(b"python".to_vec(), python()));
    assert_eq!(config.langs.len(), 1);
}
