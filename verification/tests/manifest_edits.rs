use cargo_near::manifest::{
    add_crate_type, add_workspace_member, aggregator_manifest, find_dependency,
    parse_manifest_text, render_manifest_text, set_release_lto, strip_dependency_flags, TomlItem,
    TomlLeaf,
};

fn bv(s: &str) -> Vec<u8> {
    s.as_bytes().to_vec()
}

fn text(b: &[u8]) -> String {
    String::from_utf8(b.to_vec()).unwrap()
}

const ROOT: &str = "[package]\nname = \"contract\"\nversion = \"0.1.0\"\n\n[dependencies]\nserde = \"1\"\n\n[dependencies.near-sdk]\nversion = \"4.0.0\"\ndefault-features = false\nfeatures = [\"abi\"]\n";

#[test]
fn add_crate_type_is_visible_in_rendered_text() {
    let m = parse_manifest_text(&bv(ROOT)).unwrap();
    let m = add_crate_type(m, &bv("rlib"));
    let out = text(&render_manifest_text(&m));
    assert!(out.contains("crate-type"));
    assert!(out.contains("rlib"));
}

#[test]
fn add_crate_type_twice_is_once() {
    let m1 = parse_manifest_text(&bv(ROOT)).unwrap();
    let m1 = add_crate_type(m1, &bv("rlib"));
    let once = render_manifest_text(&m1);
    let m2 = add_crate_type(m1, &bv("rlib"));
    let twice = render_manifest_text(&m2);
    assert_eq!(once, twice);
}

#[test]
fn lto_is_disabled_in_rendered_text() {
    let m = parse_manifest_text(&bv(ROOT)).unwrap();
    let m = set_release_lto(m, false);
    let out = text(&render_manifest_text(&m));
    assert!(out.contains("lto = false"));
}

#[test]
fn set_lto_twice_is_once() {
    let m = parse_manifest_text(&bv(ROOT)).unwrap();
    let m = set_release_lto(m, false);
    let once = render_manifest_text(&m);
    let m = set_release_lto(m, false);
    let twice = render_manifest_text(&m);
    assert_eq!(once, twice);
}

#[test]
fn workspace_member_is_added_once() {
    let m = parse_manifest_text(&bv(ROOT)).unwrap();
    let m = add_workspace_member(m, &bv("metadata-gen"));
    let once = render_manifest_text(&m);
    assert!(text(&once).contains("members"));
    assert!(text(&once).contains("metadata-gen"));
    let m = add_workspace_member(m, &bv("metadata-gen"));
    let twice = render_manifest_text(&m);
    assert_eq!(once, twice);
}

#[test]
fn parse_then_render_round_trips_structurally() {
    let m = parse_manifest_text(&bv(ROOT)).unwrap();
    let rendered = render_manifest_text(&m);
    let again = parse_manifest_text(&rendered).unwrap();
    assert_eq!(render_manifest_text(&again), rendered);
}

#[test]
fn dependency_is_found_and_stripped() {
    let m = parse_manifest_text(&bv(ROOT)).unwrap();
    let dep = find_dependency(&m, &bv("near-sdk")).unwrap();
    let stripped = strip_dependency_flags(dep);
    match &stripped {
        TomlItem::Table(t) => {
            assert!(t.iter().any(|(k, _)| k == &bv("version")));
            assert!(!t.iter().any(|(k, _)| k == &bv("default-features")));
            assert!(!t.iter().any(|(k, _)| k == &bv("features")));
        }
        TomlItem::Leaf(_) => panic!("expected a dependency table"),
    }
}

#[test]
fn missing_dependency_is_none() {
    let m = parse_manifest_text(&bv(ROOT)).unwrap();
    assert!(find_dependency(&m, &bv("no-such-dep")).is_none());
}

#[test]
fn aggregator_manifest_declares_contract_and_sdk() {
    let sdk = TomlItem::Table(vec![(bv("version"), TomlLeaf::Text(bv("4.0.0")))]);
    let m = aggregator_manifest(&bv("contract"), &bv("/proj/member"), Some(sdk));
    let out = text(&render_manifest_text(&m));
    assert!(out.contains("metadata-gen"));
    assert!(out.contains("[dependencies.contract]"));
    assert!(out.contains("package = \"contract\""));
    assert!(out.contains("path = \"/proj/member\""));
    assert!(out.contains("[dependencies.near-sdk]"));
    assert!(out.contains("version = \"4.0.0\""));
    let reparsed = parse_manifest_text(&render_manifest_text(&m));
    assert!(reparsed.is_some());
}

#[test]
fn nested_dependency_tables_survive_rendering() {
    let ws = "[workspace]\nmembers = [\"a\"]\n\n[workspace.dependencies.near-sdk]\nversion = \"4.0.0\"\ndefault-features = false\n";
    let m = parse_manifest_text(&bv(ws)).unwrap();
    let once = render_manifest_text(&m);
    let rendered = text(&once);
    assert!(rendered.contains("version = \"4.0.0\""));
    assert!(!rendered.contains("\"[near-sdk]"));
    let again = parse_manifest_text(&once).unwrap();
    let twice = render_manifest_text(&again);
    assert_eq!(once, twice);
    let reparsed = text(&twice);
    assert!(reparsed.contains("default-features = false"));
}
