use cloud_sync::ignore::{glob_match, SyncIgnore};

fn g(p: &str, s: &str) -> bool {
    let p: Vec<char> = p.chars().collect();
    let s: Vec<char> = s.chars().collect();
    glob_match(&p, &s)
}

#[test]
fn glob_wildcards_stay_within_a_component() {
    assert!(g("*.log", "error.log"));
    assert!(!g("*.log", "dir/error.log"));
    assert!(g("a?c", "abc"));
    assert!(!g("a?c", "a/c"));
    assert!(g("*", ""));
    assert!(!g("", "x"));
    assert!(g("docs/*.md", "docs/readme.md"));
}

#[test]
fn anchored_and_comment_rules() {
    let mut ig = SyncIgnore::new("/root", &vec!["/build".to_string(), "# comment".to_string(), "  ".to_string()]);
    assert_eq!(ig.rules.len(), 1);
    assert!(ig.is_ignored("/root/build/out.o", false));
    assert!(!ig.is_ignored("/root/src/build", false));
    ig.add_rules_from_text("*.tmp\n\nsecret/\n");
    assert!(ig.is_ignored("/root/a/b.tmp", false));
    assert!(ig.is_ignored("/root/secret", true));
    assert!(!ig.is_ignored("/root/secret", false));
    assert!(ig.is_ignored("secret/key", false));
}

#[test]
fn empty_matcher_ignores_nothing() {
    let ig = SyncIgnore::empty();
    assert!(!ig.is_ignored("/anything/at/all", true));
}
