use namespace_tree::module::{Module, Span, Visibility};
use namespace_tree::namespace::Namespace;
use namespace_tree::Fault;

fn seed(name: Option<&str>) -> Module {
    Module {
        name: name.map(|n| n.to_string()),
        span: None,
        visibility: Visibility::Public,
        is_external: false,
        decls: vec!["prelude_item".to_string()],
    }
}

fn span(start: usize, end: usize) -> Span {
    Span { start, end }
}

#[test]
fn init_root_starts_at_empty_path() {
    let ns = Namespace::init_root(seed(Some("pkg")));
    assert_eq!(ns.mod_path().len(), 0);
    let root_module = ns.module();
    assert_eq!(root_module.name, Some("pkg".to_string()));
    assert_eq!(root_module.decls, vec!["prelude_item".to_string()]);
}

#[test]
fn enter_then_release_restores_path() {
    let mut ns = Namespace::init_root(seed(Some("pkg")));
    let before = ns.mod_path().clone();
    let g = ns.enter_submodule("a".to_string(), Visibility::Private, span(0, 3));
    assert_eq!(ns.mod_path(), &vec!["a".to_string()]);
    let r = g.release(&mut ns);
    assert_eq!(r, Ok(()));
    assert_eq!(ns.mod_path(), &before);
}

#[test]
fn enter_submodule_sets_metadata() {
    let mut ns = Namespace::init_root(seed(Some("pkg")));
    let g = ns.enter_submodule("child".to_string(), Visibility::Public, span(2, 7));
    {
        let m = ns.module();
        assert_eq!(m.name, Some("child".to_string()));
        assert_eq!(m.span, Some(span(2, 7)));
        assert_eq!(m.visibility, Visibility::Public);
        assert!(!m.is_external);
        // a fresh child starts from the seed template
        assert_eq!(m.decls, vec!["prelude_item".to_string()]);
    }
    assert_eq!(g.release(&mut ns), Ok(()));
}

#[test]
fn nested_enter_release_is_lifo() {
    let mut ns = Namespace::init_root(seed(Some("pkg")));
    let ga = ns.enter_submodule("a".to_string(), Visibility::Private, span(0, 1));
    let gb = ns.enter_submodule("b".to_string(), Visibility::Private, span(1, 2));
    let gc = ns.enter_submodule("c".to_string(), Visibility::Private, span(2, 3));
    assert_eq!(
        ns.mod_path(),
        &vec!["a".to_string(), "b".to_string(), "c".to_string()]
    );
    assert_eq!(gc.release(&mut ns), Ok(()));
    assert_eq!(ns.mod_path(), &vec!["a".to_string(), "b".to_string()]);
    assert_eq!(gb.release(&mut ns), Ok(()));
    assert_eq!(ns.mod_path(), &vec!["a".to_string()]);
    assert_eq!(ga.release(&mut ns), Ok(()));
    assert_eq!(ns.mod_path().len(), 0);
}

#[test]
fn out_of_order_release_is_refused() {
    let mut ns = Namespace::init_root(seed(Some("pkg")));
    let ga = ns.enter_submodule("a".to_string(), Visibility::Private, span(0, 1));
    let gb = ns.enter_submodule("b".to_string(), Visibility::Private, span(1, 2));
    // releasing a's guard while b is still entered must not move the cursor
    assert_eq!(ga.release(&mut ns), Err(Fault::BrokenInvariant));
    assert_eq!(ns.mod_path(), &vec!["a".to_string(), "b".to_string()]);
    // the innermost guard still releases normally
    assert_eq!(gb.release(&mut ns), Ok(()));
    assert_eq!(ns.mod_path(), &vec!["a".to_string()]);
}

#[test]
fn reenter_keeps_the_same_child() {
    let mut ns = Namespace::init_root(seed(Some("pkg")));
    let g = ns.enter_submodule("a".to_string(), Visibility::Private, span(0, 1));
    ns.module_mut().decls.push("local_item".to_string());
    assert_eq!(g.release(&mut ns), Ok(()));
    // re-entering the same name must reuse the node, not re-seed a new one
    let g2 = ns.enter_submodule("a".to_string(), Visibility::Public, span(5, 9));
    {
        let m = ns.module();
        assert_eq!(
            m.decls,
            vec!["prelude_item".to_string(), "local_item".to_string()]
        );
        // metadata is refreshed on every entry
        assert_eq!(m.visibility, Visibility::Public);
        assert_eq!(m.span, Some(span(5, 9)));
    }
    assert_eq!(g2.release(&mut ns), Ok(()));
}

#[test]
fn guard_remembers_parent_path() {
    let mut ns = Namespace::init_root(seed(Some("pkg")));
    let ga = ns.enter_submodule("a".to_string(), Visibility::Private, span(0, 1));
    assert_eq!(ga.parent_mod_path().len(), 0);
    let gb = ns.enter_submodule("b".to_string(), Visibility::Private, span(1, 2));
    assert_eq!(gb.parent_mod_path(), &vec!["a".to_string()]);
    assert_eq!(gb.release(&mut ns), Ok(()));
    assert_eq!(ga.release(&mut ns), Ok(()));
}

#[test]
fn module_mut_edits_only_the_current_module() {
    let mut ns = Namespace::init_root(seed(Some("pkg")));
    let g = ns.enter_submodule("a".to_string(), Visibility::Private, span(0, 1));
    ns.module_mut().decls.push("extra".to_string());
    assert_eq!(g.release(&mut ns), Ok(()));
    // the root module is untouched
    assert_eq!(ns.module().decls, vec!["prelude_item".to_string()]);
    // the child kept the edit
    let child = ns
        .root()
        .module_at(&vec!["a".to_string()])
        .expect("child must be addressable");
    assert_eq!(
        child.decls,
        vec!["prelude_item".to_string(), "extra".to_string()]
    );
}

#[test]
fn root_mut_reaches_the_tree() {
    let mut ns = Namespace::init_root(seed(Some("pkg")));
    let empty: Vec<String> = Vec::new();
    ns.root_mut()
        .module_at_mut(&empty)
        .expect("the root module is always present")
        .decls
        .push("root_item".to_string());
    assert_eq!(
        ns.module().decls,
        vec!["prelude_item".to_string(), "root_item".to_string()]
    );
}

#[test]
fn root_module_accessor_sees_package_name() {
    let ns = Namespace::init_root(seed(Some("pkg")));
    assert_eq!(ns.root().root_module().name, Some("pkg".to_string()));
}

#[test]
fn module_new_and_duplicate() {
    let m = Module::new(Some("pkg".to_string()), Visibility::Private);
    assert_eq!(m.name, Some("pkg".to_string()));
    assert_eq!(m.span, None);
    assert_eq!(m.visibility, Visibility::Private);
    assert!(!m.is_external);
    assert!(m.decls.is_empty());
    let d = seed(Some("pkg")).duplicate();
    assert_eq!(d.name, Some("pkg".to_string()));
    assert_eq!(d.decls, vec!["prelude_item".to_string()]);
}
