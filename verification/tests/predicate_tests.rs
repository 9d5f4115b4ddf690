use namespace_tree::module::{Module, Span, Visibility};
use namespace_tree::namespace::{Namespace, TryInsertingTraitImplOnFailure};
use namespace_tree::path::{clone_strings, path_concat, path_eq, path_push};
use namespace_tree::Fault;

fn seed(name: Option<&str>) -> Module {
    Module {
        name: name.map(|n| n.to_string()),
        span: None,
        visibility: Visibility::Public,
        is_external: false,
        decls: Vec::new(),
    }
}

fn strings(parts: &[&str]) -> Vec<String> {
    parts.iter().map(|p| p.to_string()).collect()
}

fn at_a_b() -> Namespace {
    let mut ns = Namespace::init_root(seed(Some("pkg")));
    let ga = ns.enter_submodule("a".to_string(), Visibility::Private, Span { start: 0, end: 1 });
    let gb = ns.enter_submodule("b".to_string(), Visibility::Private, Span { start: 1, end: 2 });
    // the guards are deliberately forgotten: the cursor stays on [a, b]
    let _ = (ga, gb);
    ns
}

#[test]
fn submodule_of_strict_ancestor() {
    let ns = at_a_b();
    assert_eq!(
        ns.module_is_submodule_of(&strings(&["pkg", "a"]), false),
        Ok(true)
    );
}

#[test]
fn submodule_of_same_module_flag_decides() {
    let ns = at_a_b();
    assert_eq!(
        ns.module_is_submodule_of(&strings(&["pkg", "a", "b"]), false),
        Ok(false)
    );
    assert_eq!(
        ns.module_is_submodule_of(&strings(&["pkg", "a", "b"]), true),
        Ok(true)
    );
}

#[test]
fn submodule_of_other_package_is_false() {
    let ns = at_a_b();
    assert_eq!(
        ns.module_is_submodule_of(&strings(&["other", "a"]), false),
        Ok(false)
    );
    assert_eq!(
        ns.module_is_submodule_of(&strings(&["other", "a"]), true),
        Ok(false)
    );
}

#[test]
fn submodule_of_longer_path_is_false() {
    let ns = at_a_b();
    assert_eq!(
        ns.module_is_submodule_of(&strings(&["pkg", "a", "b", "c"]), true),
        Ok(false)
    );
}

#[test]
fn submodule_of_diverging_path_is_false() {
    let ns = at_a_b();
    assert_eq!(
        ns.module_is_submodule_of(&strings(&["pkg", "b"]), true),
        Ok(false)
    );
}

#[test]
fn submodule_of_package_root_is_true() {
    let ns = at_a_b();
    assert_eq!(
        ns.module_is_submodule_of(&strings(&["pkg"]), false),
        Ok(true)
    );
}

#[test]
fn external_module_detected_by_first_segment() {
    let ns = Namespace::init_root(seed(Some("pkg")));
    assert_eq!(ns.module_is_external(&strings(&["pkg", "x"])), Ok(false));
    assert_eq!(ns.module_is_external(&strings(&["dep", "x"])), Ok(true));
}

#[test]
fn empty_absolute_path_is_a_malformed_path_fault() {
    let ns = Namespace::init_root(seed(Some("pkg")));
    let empty: Vec<String> = Vec::new();
    assert_eq!(
        ns.module_is_submodule_of(&empty, true),
        Err(Fault::MalformedPath)
    );
    assert_eq!(ns.module_is_external(&empty), Err(Fault::MalformedPath));
}

#[test]
fn unnamed_root_is_a_broken_invariant_fault() {
    let ns = Namespace::init_root(seed(None));
    assert_eq!(
        ns.module_is_submodule_of(&strings(&["pkg"]), true),
        Err(Fault::BrokenInvariant)
    );
    assert_eq!(
        ns.module_is_external(&strings(&["pkg"])),
        Err(Fault::BrokenInvariant)
    );
}

#[test]
fn missing_module_is_a_fault_not_a_crash() {
    let ns = Namespace::init_root(seed(Some("pkg")));
    let r = ns.root().module_at(&strings(&["nope"]));
    assert!(matches!(r, Err(Fault::MissingModule)));
    assert!(!ns.root().has_module(&strings(&["nope"])));
    assert!(ns.root().has_module(&Vec::new()));
}

#[test]
fn missing_module_is_a_fault_for_mutable_lookup_too() {
    let mut ns = Namespace::init_root(seed(Some("pkg")));
    let r = ns.root_mut().module_at_mut(&strings(&["nope"]));
    assert!(matches!(r, Err(Fault::MissingModule)));
    // the failed lookup changed nothing
    assert!(ns.root().has_module(&Vec::new()));
    assert!(!ns.root().has_module(&strings(&["nope"])));
}

#[test]
fn find_module_path_concatenates() {
    let ns = at_a_b();
    let p = ns.find_module_path(&strings(&["c", "d"]));
    assert_eq!(p, strings(&["a", "b", "c", "d"]));
}

#[test]
fn find_module_path_is_pure_and_deterministic() {
    let ns = at_a_b();
    let before = ns.mod_path().clone();
    let p1 = ns.find_module_path(&strings(&["c"]));
    let p2 = ns.find_module_path(&strings(&["c"]));
    assert_eq!(p1, p2);
    // no cursor movement and no tree mutation
    assert_eq!(ns.mod_path(), &before);
    assert!(!ns.root().has_module(&strings(&["a", "b", "c"])));
}

#[test]
fn path_helpers_behave_segmentwise() {
    let a = strings(&["x", "y"]);
    let b = strings(&["x", "y"]);
    let c = strings(&["x", "z"]);
    assert!(path_eq(&a, &b));
    assert!(!path_eq(&a, &c));
    assert!(!path_eq(&a, &strings(&["x"])));
    assert_eq!(clone_strings(&a), a);
    assert_eq!(path_push(&a, &"z".to_string()), strings(&["x", "y", "z"]));
    assert_eq!(path_concat(&a, &c), strings(&["x", "y", "x", "z"]));
}

#[test]
fn trait_impl_request_values_are_distinct() {
    assert_ne!(
        TryInsertingTraitImplOnFailure::Yes,
        TryInsertingTraitImplOnFailure::No
    );
    assert_eq!(
        format!("{:?}", TryInsertingTraitImplOnFailure::Yes),
        "Yes"
    );
}
