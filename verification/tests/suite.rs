use rustquit::suite::{background_suite_running, normalized_app_name, RunningApp};

fn app(regular: bool, path: &str, bundle_id: Option<&str>) -> RunningApp {
    RunningApp {
        regular,
        path: Some(path.to_string()),
        bundle_id: bundle_id.map(|id| id.to_string()),
    }
}

fn running(apps: Vec<RunningApp>) -> bool {
    background_suite_running("com.acme.Mouse", "/Applications/Acme Mouse.app", &apps)
}

#[test]
fn names_are_reduced_to_letters_and_digits() {
    let name = |text: &str| -> String {
        normalized_app_name(&text.chars().collect()).into_iter().collect()
    };
    assert_eq!(name("Logi Options+ 2"), "logioptions2");
    assert_eq!(name("\u{c4}-_."), "");
}

#[test]
fn helpers_stand_for_the_app() {
    assert!(!running(vec![]));
    assert!(running(vec![app(false, "/Library/x.app", Some("COM.ACME.MOUSE.agent"))]));
    assert!(running(vec![app(false, "/Library/AcmeMouse Agent.app/Contents", None)]));
    assert!(running(vec![app(false, "/Library/acme-mouse/Agent.app", Some("org.other"))]));
    // The ID has to extend the app's ID at a dot.
    assert!(!running(vec![app(false, "/Library/x.app", Some("com.acme.mouse2"))]));
    assert!(!running(vec![app(false, "/Library/x.app", Some("com.acme.mouse"))]));
    // Regular apps and parts of the bundle itself are no helpers.
    assert!(!running(vec![app(true, "/Library/x.app", Some("com.acme.mouse.agent"))]));
    assert!(!running(vec![app(false, "/Applications/Acme Mouse.app/x", Some("com.acme.mouse.agent"))]));
    let unplaced = RunningApp { regular: false, path: None, bundle_id: Some("com.acme.mouse.agent".into()) };
    assert!(!running(vec![unplaced]));
}

#[test]
fn short_names_are_not_used() {
    let helper = || vec![app(false, "/Library/Abcde Helper.app", None)];
    assert!(!background_suite_running("x.y", "/Applications/Abcde.app", &helper()));
    let helper = || vec![app(false, "/Library/Abcdef Helper.app", None)];
    assert!(background_suite_running("x.y", "/Applications/Abcdef.app", &helper()));
    // Without a path of its own, the app's bundle holds everything.
    assert!(!background_suite_running("x.y", "", &vec![app(false, "/a.app", Some("x.y.z"))]));
}
