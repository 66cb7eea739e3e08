use oj_assist::scaffold::{assemble_solution, normalize_template_name};

#[test]
fn template_takes_the_source_extension() {
    let normalized = normalize_template_name(&b"fastio.txt".to_vec(), &b"main.py".to_vec());
    assert_eq!(normalized, b"fastio.py".to_vec());
    let plain = normalize_template_name(&b"fastio".to_vec(), &b"main.cpp".to_vec());
    assert_eq!(plain, b"fastio.cpp".to_vec());
}

#[test]
fn source_without_extension_leaves_template_alone() {
    let normalized = normalize_template_name(&b"fastio.txt".to_vec(), &b"Makefile".to_vec());
    assert_eq!(normalized, b"fastio.txt".to_vec());
}

#[test]
fn one_template_is_copied_verbatim() {
    let content = b"fn main() {}\n".to_vec();
    let assembled = assemble_solution(&vec![content.clone()]);
    assert_eq!(assembled, content);
}

#[test]
fn templates_are_concatenated_in_order() {
    let parts = vec![b"abc".to_vec(), b"".to_vec(), b"def\n".to_vec()];
    assert_eq!(assemble_solution(&parts), b"abcdef\n".to_vec());
    assert_eq!(assemble_solution(&Vec::new()), Vec::<u8>::new());
}

#[test]
fn scaffold_round_trip() {
    // Normalizing a template to the language's extension and copying its
    // content gives a solution file with that extension and that content.
    let template_content = b"import sys\n".to_vec();
    let name = normalize_template_name(&b"fastio.tpl".to_vec(), &b"main.py".to_vec());
    let solution = assemble_solution(&vec![template_content.clone()]);
    assert_eq!(name, b"fastio.py".to_vec());
    assert_eq!(solution, template_content);
}
