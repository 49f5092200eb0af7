use bundle_extractor::filter::{is_resource, should_take};

#[test]
fn resource_extensions_are_recognised() {
    assert!(is_resource("level0.assets"));
    assert!(is_resource("sharedassets1.resS"));
    assert!(is_resource("nested/dir/data.assets"));
    assert!(is_resource(".assets"));
    assert!(is_resource("a.b.resS"));
}

#[test]
fn other_paths_are_no_resources() {
    assert!(!is_resource("a.txt"));
    assert!(!is_resource("assets"));
    assert!(!is_resource("resS"));
    assert!(!is_resource(""));
    assert!(!is_resource("noextension"));
    assert!(!is_resource("data.assets.bak"));
    assert!(!is_resource("data.assets."));
    assert!(!is_resource("dir.assets/file"));
    assert!(!is_resource("data.xassets"));
}

#[test]
fn resource_extensions_are_case_sensitive() {
    assert!(!is_resource("level0.ASSETS"));
    assert!(!is_resource("level0.Assets"));
    assert!(!is_resource("shared.ress"));
    assert!(!is_resource("shared.RESS"));
    assert!(!is_resource("shared.ResS"));
    assert!(is_resource("shared.resS"));
}

#[test]
fn non_ascii_paths_are_split_on_the_last_dot() {
    assert!(is_resource("données/niveau.assets"));
    assert!(!is_resource("niveau.assetś"));
}

#[test]
fn should_take_follows_the_filter() {
    for path in ["a.txt", "b.assets", "c.resS", "", "d", "e.ASSETS"] {
        assert_eq!(should_take(path, true), !is_resource(path));
        assert!(should_take(path, false));
    }
    assert!(should_take("a.txt", true));
    assert!(!should_take("b.assets", true));
    assert!(!should_take("c.resS", true));
}
