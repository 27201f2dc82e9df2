use nu_plugin_herdr_navigate_directory::completion::PrefixBound;
use nu_plugin_herdr_navigate_directory::path::CanonicalPath;
use nu_plugin_herdr_navigate_directory::prefix::{bound_parent, parse_typed_prefix, reconstruct, resolve_bound};

fn cp(path: &str) -> CanonicalPath {
    CanonicalPath::parse(path).unwrap()
}

#[test]
fn splits_empty_home_absolute_and_relative_prefixes() {
    let empty = parse_typed_prefix("");
    assert!(empty.empty);
    assert_eq!(empty.remaining, "");

    let home = parse_typed_prefix("~/src");
    assert_eq!(home.lexical_parent, "~");
    assert_eq!(home.remaining, "src");

    let home_dir = parse_typed_prefix("~/src/");
    assert_eq!(home_dir.lexical_parent, "~/src");
    assert_eq!(home_dir.remaining, "");

    let tilde = parse_typed_prefix("~");
    assert_eq!(tilde.lexical_parent, "~");
    assert_eq!(tilde.remaining, "");

    let absolute = parse_typed_prefix("/tmp/foo");
    assert_eq!(absolute.lexical_parent, "/tmp");
    assert_eq!(absolute.remaining, "foo");

    let root_child = parse_typed_prefix("/tmp");
    assert_eq!(root_child.lexical_parent, "/");
    assert_eq!(root_child.remaining, "tmp");

    let relative = parse_typed_prefix("src");
    assert_eq!(relative.lexical_parent, "");
    assert_eq!(relative.remaining, "src");

    let dot = parse_typed_prefix("./src");
    assert_eq!(dot.lexical_parent, ".");
    assert_eq!(dot.remaining, "src");

    let parent = parse_typed_prefix("../docs/");
    assert_eq!(parent.lexical_parent, "../docs");
    assert_eq!(parent.remaining, "");
}

#[test]
fn reconstructs_through_a_symlinked_lexical_prefix() {
    let prefix = parse_typed_prefix("~/src-link/");
    let bound = PrefixBound { base: cp("/Volumes/work/src"), remaining: String::new() };
    assert_eq!(
        reconstruct(&prefix, &cp("/Volumes/work/src/hc-v2"), Some(&bound), Some(&cp("/Users/me"))),
        "~/src-link/hc-v2/"
    );
}

#[test]
fn empty_argument_abbreviates_home_and_keeps_other_paths_absolute() {
    let prefix = parse_typed_prefix("");
    let home = cp("/Users/me");
    assert_eq!(reconstruct(&prefix, &cp("/Users/me/src"), None, Some(&home)), "~/src/");
    assert_eq!(reconstruct(&prefix, &home, None, Some(&home)), "~/");
    assert_eq!(reconstruct(&prefix, &cp("/tmp/other"), None, Some(&home)), "/tmp/other/");
}

#[test]
fn preserves_relative_and_absolute_insertion_style() {
    let relative = parse_typed_prefix("./src");
    let bound = PrefixBound { base: cp("/cwd"), remaining: "src".into() };
    assert_eq!(reconstruct(&relative, &cp("/cwd/src"), Some(&bound), None), "./src/");

    let absolute = parse_typed_prefix("/tmp/");
    let bound = PrefixBound { base: cp("/tmp"), remaining: String::new() };
    assert_eq!(reconstruct(&absolute, &cp("/tmp/foo"), Some(&bound), None), "/tmp/foo/");
}

#[test]
fn root_prefix_and_bare_relative_names_reconstruct_exactly() {
    let root = parse_typed_prefix("/");
    assert_eq!(root.lexical_parent, "/");
    assert_eq!(root.remaining, "");
    let bound = PrefixBound { base: cp("/"), remaining: String::new() };
    assert_eq!(reconstruct(&root, &cp("/tmp"), Some(&bound), None), "/tmp/");
    assert_eq!(reconstruct(&root, &cp("/"), Some(&bound), None), "/");

    let relative = parse_typed_prefix("sr");
    let bound = PrefixBound { base: cp("/cwd"), remaining: "sr".into() };
    assert_eq!(reconstruct(&relative, &cp("/cwd/src"), Some(&bound), None), "src/");
    assert_eq!(reconstruct(&relative, &cp("/cwd"), Some(&bound), None), "./");

    let tilde_slash = parse_typed_prefix("~/");
    assert_eq!(tilde_slash.lexical_parent, "~");
    assert_eq!(tilde_slash.remaining, "");
}

#[test]
fn non_empty_prefix_without_a_bound_falls_back_to_the_empty_display() {
    let prefix = parse_typed_prefix("nowhere/x");
    assert_eq!(reconstruct(&prefix, &cp("/Users/me/a"), None, Some(&cp("/Users/me"))), "~/a/");
    assert_eq!(reconstruct(&prefix, &cp("/"), None, None), "/");
}

#[test]
fn bound_parent_joins_the_expanded_parent_to_the_caller_directory() {
    let cwd = cp("/work");
    assert_eq!(bound_parent(&parse_typed_prefix("src"), &cwd, None).as_deref(), Some("/work"));
    assert_eq!(bound_parent(&parse_typed_prefix("./src"), &cwd, None).as_deref(), Some("/work/."));
    assert_eq!(bound_parent(&parse_typed_prefix("/tmp/x"), &cwd, None).as_deref(), Some("/tmp"));
    assert_eq!(bound_parent(&parse_typed_prefix("~/x"), &cwd, Some("/Users/me")).as_deref(), Some("/Users/me"));
    assert_eq!(bound_parent(&parse_typed_prefix("~/x"), &cwd, None), None);
    assert_eq!(bound_parent(&parse_typed_prefix("~/x"), &cwd, Some("relative")), None);
}

#[test]
fn resolve_bound_keeps_the_typed_remaining_fragment() {
    let prefix = parse_typed_prefix("/tmp/fo");
    let bound = resolve_bound(&prefix, Some(cp("/private/tmp"))).unwrap();
    assert_eq!(bound.base, cp("/private/tmp"));
    assert_eq!(bound.remaining, "fo");
    assert_eq!(resolve_bound(&prefix, None), None);
}
