use invoicemd_cli::input::{classify_input, collect_yaml_paths, ensure_yaml, is_yaml, InputKind};
use invoicemd_cli::app::pdf_file_name;
use invoicemd_cli::resolve_output_path;
use std::path::PathBuf;

#[test]
fn resolve_output_path_uses_output_dir_when_set() {
    let path = resolve_output_path("/tmp/invoices/march.yaml", Some("/out"), "invoice.html");
    assert_eq!(PathBuf::from(path), PathBuf::from("/out/invoice.html"));
}

#[test]
fn resolve_output_path_uses_yaml_parent_when_no_output_dir() {
    let path = resolve_output_path("/tmp/invoices/march.yaml", None, "invoice.html");
    assert_eq!(PathBuf::from(path), PathBuf::from("/tmp/invoices/invoice.html"));
}

#[test]
fn resolve_output_path_for_bare_file_name_stays_relative() {
    assert_eq!(resolve_output_path("march.yaml", None, "a.html"), "a.html");
    assert_eq!(resolve_output_path("/", None, "a.html"), "./a.html");
    assert_eq!(resolve_output_path("x/y.yaml", Some("out/"), "a.html"), "out/a.html");
}

#[test]
fn regression_collect_yaml_paths_deduplicates_inputs() {
    let path = String::from("/tmp/work/invoice.yaml");
    let paths = collect_yaml_paths(&vec![path.clone(), path]).unwrap();
    assert_eq!(paths.len(), 1);
}

#[test]
fn regression_collect_yaml_paths_rejects_non_yaml_file() {
    let err = classify_input("/tmp/work/invoice.txt", false, true).unwrap_err();
    assert!(err.message().contains("not a YAML file"));
    assert_eq!(
        err.message(),
        "/tmp/work/invoice.txt is not a YAML file (.yaml or .yml)"
    );
}

#[test]
fn regression_empty_directory_input_fails() {
    let err = collect_yaml_paths(&vec![]).unwrap_err();
    assert!(err.message().contains("no YAML invoice files found"));
}

#[test]
fn collected_paths_are_sorted_and_unique_as_paths() {
    let candidates = vec![
        String::from("b/two.yml"),
        String::from("a//one.yaml"),
        String::from("b/two.yml"),
        String::from("a/one.yaml"),
        String::from("a-b/z.yaml"),
    ];
    let paths = collect_yaml_paths(&candidates).unwrap();
    assert_eq!(paths, vec!["a//one.yaml", "a-b/z.yaml", "b/two.yml"]);
}

#[test]
fn yaml_extensions_in_any_case() {
    assert!(is_yaml("a.yaml"));
    assert!(is_yaml("dir/a.YML"));
    assert!(is_yaml("a.b.Yaml"));
    assert!(!is_yaml("a.txt"));
    assert!(!is_yaml(".yaml"));
    assert!(!is_yaml("yaml"));
    assert!(!is_yaml("a.yaml.bak"));
    assert!(ensure_yaml("x.yml").is_ok());
    assert!(ensure_yaml("x.json").is_err());
}

#[test]
fn inputs_are_classified() {
    assert_eq!(classify_input("invoices", true, false).unwrap(), InputKind::Directory);
    assert_eq!(classify_input("a.yaml", false, true).unwrap(), InputKind::File);
    assert_eq!(classify_input("inv/*.yaml", false, false).unwrap(), InputKind::Pattern);
    assert_eq!(classify_input("inv/a?.yaml", false, false).unwrap(), InputKind::Pattern);
    assert_eq!(classify_input("inv/[ab].yaml", false, false).unwrap(), InputKind::Pattern);
    let err = classify_input("missing.yaml", false, false).unwrap_err();
    assert_eq!(
        err.message(),
        "input 'missing.yaml' is not a file, directory, or glob pattern"
    );
}

#[test]
fn pdf_output_replaces_the_extension() {
    assert_eq!(pdf_file_name("betal-20260115-0042.html"), "betal-20260115-0042.pdf");
    assert_eq!(pdf_file_name("custo-custom-12.html"), "custo-custom-12.pdf");
    assert_eq!(pdf_file_name("plain"), "plain.pdf");
}
