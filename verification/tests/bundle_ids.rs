use rustquit::bundle_ids::{
    is_listed, normalize_app_list, remove_all, set_listed, valid_bundle_id, MAX_APPS,
};

fn list(ids: &[&str]) -> Vec<String> {
    ids.iter().map(|id| id.to_string()).collect()
}

#[test]
fn bundle_ids_are_checked() {
    assert!(valid_bundle_id("com.apple.TextEdit"));
    assert!(valid_bundle_id("a.b"));
    assert!(valid_bundle_id("A-1_.x"));
    assert!(!valid_bundle_id(""));
    assert!(!valid_bundle_id("nodot"));
    assert!(!valid_bundle_id(".a"));
    assert!(!valid_bundle_id("a."));
    assert!(!valid_bundle_id("a b.c"));
    assert!(!valid_bundle_id("a/b.c"));
    assert!(!valid_bundle_id("caf\u{e9}.x"));
    let longest = format!("a.{}", "b".repeat(253));
    assert!(valid_bundle_id(&longest));
    assert!(!valid_bundle_id(&format!("{longest}b")));
}

#[test]
fn lists_are_sorted_without_duplicates() {
    let mut ids = list(&["z.z", "b.B", "B.b", "bad", "a.a", "A.A"]);
    normalize_app_list(&mut ids);
    assert_eq!(ids, list(&["a.a", "b.B", "z.z"]));
    let again = ids.clone();
    normalize_app_list(&mut ids);
    assert_eq!(ids, again);
}

#[test]
fn normalization_agrees_with_a_stable_sort() {
    let parts = ["a.b", "A.b", "a.C", "a.c", "_.x", "Z.z", "z.Z", "0.0", "a-b.c", "a.bc"];
    let mut seed: u32 = 1;
    for _ in 0..200 {
        let mut ids = Vec::new();
        for _ in 0..8 {
            seed = seed.wrapping_mul(1664525).wrapping_add(1013904223);
            ids.push(parts[(seed >> 16) as usize % parts.len()].to_string());
        }
        let mut expected = ids.clone();
        expected.sort_by_key(|id| id.to_ascii_lowercase());
        expected.dedup_by(|a, b| a.eq_ignore_ascii_case(b));
        normalize_app_list(&mut ids);
        assert_eq!(ids, expected);
    }
}

#[test]
fn lists_are_cut() {
    let mut ids: Vec<String> = (0..MAX_APPS + 5).map(|i| format!("app.n{i:06}")).collect();
    normalize_app_list(&mut ids);
    assert_eq!(ids.len(), MAX_APPS);
    assert_eq!(ids[MAX_APPS - 1], format!("app.n{:06}", MAX_APPS - 1));
}

#[test]
fn listing_ignores_case() {
    let mut ids = list(&["com.A", "com.b", "COM.a"]);
    assert!(is_listed(&ids, "com.a"));
    assert!(!is_listed(&ids, "com.c"));
    set_listed(&mut ids, "com.a", true);
    assert_eq!(ids, list(&["com.A", "com.b", "COM.a"]));
    set_listed(&mut ids, "com.a", false);
    assert_eq!(ids, list(&["com.b"]));
    set_listed(&mut ids, "com.a", false);
    set_listed(&mut ids, "com.C", true);
    assert_eq!(ids, list(&["com.b", "com.C"]));
}

#[test]
fn lists_are_subtracted() {
    let ids = list(&["a.a", "b.b", "c.c"]);
    assert_eq!(remove_all(&ids, &list(&["B.B", "d.d"])), list(&["a.a", "c.c"]));
}
