use jdk_pulse_core::paths::{
    bundle_home_path, get_state_file_path, join_path, runtime_path, state_file_path_in,
    versions_dir_in,
};
use jdk_pulse_core::record::JdkInfo;
use jdk_pulse_core::selection::{resolve_target, selection_target, ActiveSelection, SelectionTarget};

fn registry() -> Vec<JdkInfo> {
    vec![
        JdkInfo {
            id: "java-21_0_1".to_string(),
            version_major: 21,
            version_full: "21.0.1".to_string(),
            home: "/jdk/21".to_string(),
            vendor: Some("Eclipse Adoptium".to_string()),
        },
        JdkInfo {
            id: "jenv-17".to_string(),
            version_major: 17,
            version_full: "17".to_string(),
            home: "/jdk/17".to_string(),
            vendor: Some("jenv".to_string()),
        },
    ]
}

fn path_of(t: SelectionTarget) -> String {
    match t {
        SelectionTarget::Path(p) => p,
        SelectionTarget::Id(i) => panic!("identifier {}", i),
    }
}

#[test]
fn joins_paths_like_unix() {
    assert_eq!(join_path("/home/me", ".jdk_current"), "/home/me/.jdk_current");
    assert_eq!(join_path("/home/me/", "x"), "/home/me/x");
    assert_eq!(join_path("", "x"), "x");
    assert_eq!(join_path("/a", "/b"), "/b");
    assert_eq!(runtime_path("/jdk"), "/jdk/bin/java");
    assert_eq!(bundle_home_path("/v/21"), "/v/21/Contents/Home");
    assert_eq!(versions_dir_in("/home/me"), "/home/me/.jenv/versions");
}

#[test]
fn state_file_location() {
    assert_eq!(state_file_path_in(&Some("/home/me".to_string())), "/home/me/.jdk_current");
    assert_eq!(state_file_path_in(&None), ".jdk_current");
    assert!(get_state_file_path().ends_with(".jdk_current"));
}

#[test]
fn inputs_are_paths_or_identifiers() {
    let home = Some("/home/me".to_string());
    assert_eq!(path_of(selection_target("/opt/jdk", &home)), "/opt/jdk");
    assert_eq!(path_of(selection_target("~/jdks/21", &home)), "/home/me/jdks/21");
    assert_eq!(path_of(selection_target("~/jdks/21", &None)), "~/jdks/21");
    assert!(matches!(selection_target("java-21_0_1", &home), SelectionTarget::Id(ref i) if i == "java-21_0_1"));
    assert!(matches!(selection_target("~x", &home), SelectionTarget::Id(_)));
    assert!(selection_target("jenv-17", &home).needs_registry());
    assert!(!selection_target("/x", &home).needs_registry());
}

#[test]
fn identifiers_resolve_through_registry() {
    let t = SelectionTarget::Id("jenv-17".to_string());
    assert_eq!(resolve_target(&t, Ok(registry())), Ok("/jdk/17".to_string()));
    let missing = SelectionTarget::Id("java-8".to_string());
    assert_eq!(
        resolve_target(&missing, Ok(registry())),
        Err("JDK with ID 'java-8' not found".to_string())
    );
    assert_eq!(resolve_target(&t, Err("boom".to_string())), Err("boom".to_string()));
    let p = SelectionTarget::Path("/somewhere".to_string());
    assert_eq!(resolve_target(&p, Err("boom".to_string())), Ok("/somewhere".to_string()));
}

#[test]
fn missing_path_fails_without_change() {
    let mut s = ActiveSelection::load(Some("/jdk/21\n".to_string()));
    let r = s.set_active("/does/not/exist".to_string(), false);
    assert_eq!(r, Err("JDK path does not exist: /does/not/exist".to_string()));
    assert_eq!(s.home, Some("/jdk/21".to_string()));
    let mut fresh = ActiveSelection::new();
    assert!(fresh.set_active("/nope".to_string(), false).is_err());
    assert_eq!(fresh.home, None);
}

#[test]
fn set_then_get_returns_selected_home() {
    let mut s = ActiveSelection::new();
    let p = resolve_target(&SelectionTarget::Id("java-21_0_1".to_string()), Ok(registry())).unwrap();
    assert_eq!(s.set_active(p.clone(), true), Ok("/jdk/21".to_string()));
    let reloaded = ActiveSelection::load(s.home.clone());
    let got = reloaded.get_active_jdk(Ok(registry())).unwrap().unwrap();
    assert_eq!(got.home, p);
    assert_eq!(got.id, "java-21_0_1");
    assert_eq!(got.version_major, 21);
}

#[test]
fn unknown_home_gives_synthetic_record() {
    let s = ActiveSelection::load(Some("  /elsewhere  ".to_string()));
    let got = s.get_active_jdk(Ok(registry())).unwrap().unwrap();
    assert_eq!(
        got,
        JdkInfo {
            id: "unknown".to_string(),
            version_major: 0,
            version_full: "unknown".to_string(),
            home: "/elsewhere".to_string(),
            vendor: None,
        }
    );
    assert_eq!(s.get_active_jdk(Err("list failed".to_string())), Err("list failed".to_string()));
}

#[test]
fn fresh_state_has_no_selection() {
    assert_eq!(ActiveSelection::new().get_active_jdk(Ok(registry())), Ok(None));
    assert_eq!(ActiveSelection::load(None).get_active_jdk(Err("x".to_string())), Ok(None));
    assert_eq!(ActiveSelection::load(Some(" \n".to_string())).home, None);
}
