use jdk_pulse_core::jenv::{list_jenv_jdks, jenv_entry_record, VersionDirEntry};
use jdk_pulse_core::record::{make_id, JdkInfo};
use jdk_pulse_core::registry::{list_jdks, system_jdks_from_query};
use jdk_pulse_core::system::{parse_registry_line, parse_registry_output};

const ADOPTIUM_LINE: &str = "21.0.1 (x86_64) \"Eclipse Adoptium\" - \"OpenJDK 64-Bit Server VM\" /Library/Java/JavaVirtualMachines/temurin-21.jdk/Contents/Home";

fn record(id: &str, home: &str) -> JdkInfo {
    JdkInfo {
        id: id.to_string(),
        version_major: 0,
        version_full: String::new(),
        home: home.to_string(),
        vendor: None,
    }
}

fn entry(path: &str, name: &str) -> VersionDirEntry {
    VersionDirEntry {
        path: path.to_string(),
        name: Some(name.to_string()),
        is_dir: true,
        bundle_home_is_dir: false,
        bundle_has_runtime: false,
        dir_has_runtime: true,
    }
}

#[test]
fn identifier_replaces_dots() {
    assert_eq!(make_id("java-", "21.0.1"), "java-21_0_1");
    assert_eq!(make_id("jenv-", "openjdk64-21.0.10"), "jenv-openjdk64-21_0_10");
    assert_eq!(make_id("java-", ""), "java-");
    assert_eq!(make_id("x", "..a."), "x__a_");
}

#[test]
fn registry_line_example() {
    let r = parse_registry_line(ADOPTIUM_LINE).unwrap();
    assert_eq!(r.id, "java-21_0_1");
    assert_eq!(r.version_major, 21);
    assert_eq!(r.version_full, "21.0.1");
    assert_eq!(r.vendor, Some("Eclipse Adoptium".to_string()));
    assert_eq!(r.home, "/Library/Java/JavaVirtualMachines/temurin-21.jdk/Contents/Home");
}

#[test]
fn registry_line_skips_header_blank_and_single_token() {
    assert_eq!(parse_registry_line("Matching Java Virtual Machines (2):"), None);
    assert_eq!(parse_registry_line("   \t "), None);
    assert_eq!(parse_registry_line(""), None);
    assert_eq!(parse_registry_line("  21.0.1  "), None);
}

#[test]
fn registry_line_without_quotes_has_no_vendor() {
    let r = parse_registry_line("\t1.8.0_382 /opt/jdk8\r").unwrap();
    assert_eq!(r.id, "java-1_8_0_382");
    assert_eq!(r.version_major, 8);
    assert_eq!(r.version_full, "1.8.0_382");
    assert_eq!(r.home, "/opt/jdk8");
    assert_eq!(r.vendor, None);
}

#[test]
fn registry_output_keeps_line_order() {
    let text = format!(
        "Matching Java Virtual Machines (2):\n    {}\n    17.0.2 (arm64) \"Oracle\" - \"Java SE 17\" /jdk17\r\n\n/usr/libexec/java_home\n",
        ADOPTIUM_LINE
    );
    let rs = parse_registry_output(&text);
    assert_eq!(rs.len(), 2);
    assert_eq!(rs[0].id, "java-21_0_1");
    assert_eq!(rs[1].id, "java-17_0_2");
    assert_eq!(rs[1].home, "/jdk17");
    assert_eq!(rs[1].vendor, Some("Oracle".to_string()));
    assert!(parse_registry_output("").is_empty());
}

#[test]
fn failed_query_reports_status() {
    let r = system_jdks_from_query(false, "exit status: 1", ADOPTIUM_LINE);
    assert_eq!(r, Err("java_home -V exited with status exit status: 1".to_string()));
    let ok = system_jdks_from_query(true, "", ADOPTIUM_LINE).unwrap();
    assert_eq!(ok.len(), 1);
    assert_eq!(ok[0].version_major, 21);
}

#[test]
fn version_manager_plain_layout_example() {
    let e = entry("/Users/me/.jenv/versions/openjdk64-21.0.10", "openjdk64-21.0.10");
    let r = jenv_entry_record(&e).unwrap();
    assert_eq!(r.id, "jenv-openjdk64-21_0_10");
    assert_eq!(r.version_full, "openjdk64-21.0.10");
    assert_eq!(r.vendor, Some("jenv".to_string()));
    assert_eq!(r.home, "/Users/me/.jenv/versions/openjdk64-21.0.10");
    // The name does not begin with a number, so no major version is read from it.
    assert_eq!(r.version_major, 0);
}

#[test]
fn version_manager_bundle_layout_uses_contents_home() {
    let mut e = entry("/v/21.0.1", "21.0.1");
    e.bundle_home_is_dir = true;
    e.bundle_has_runtime = true;
    e.dir_has_runtime = false;
    let r = jenv_entry_record(&e).unwrap();
    assert_eq!(r.home, "/v/21.0.1/Contents/Home");
    assert_eq!(r.version_major, 21);
    assert_eq!(r.id, "jenv-21_0_1");
}

#[test]
fn version_manager_skips_invalid_entries() {
    let mut no_runtime = entry("/v/a", "a");
    no_runtime.dir_has_runtime = false;
    let mut bundle_without_runtime = entry("/v/b", "b");
    bundle_without_runtime.bundle_home_is_dir = true;
    let mut not_dir = entry("/v/c", "c");
    not_dir.is_dir = false;
    let mut bad_name = entry("/v/d", "d");
    bad_name.name = None;
    let good = entry("/v/1.8.0", "1.8.0");
    let all = vec![no_runtime, bundle_without_runtime, not_dir, good, bad_name];
    let rs = list_jenv_jdks(&all);
    assert_eq!(rs.len(), 1);
    assert_eq!(rs[0].version_major, 8);
    assert_eq!(rs[0].id, "jenv-1_8_0");
}

#[test]
fn aggregation_puts_registry_first() {
    let sys = vec![record("java-21", "/a"), record("java-17", "/b")];
    let managed = vec![record("jenv-21", "/a"), record("jenv-11", "/c")];
    let all = list_jdks(Ok(sys), Ok(managed)).unwrap();
    let ids: Vec<&str> = all.iter().map(|j| j.id.as_str()).collect();
    assert_eq!(ids, vec!["java-21", "java-17", "jenv-21", "jenv-11"]);
}

#[test]
fn aggregation_passes_first_error() {
    let r = list_jdks(Err("sys".to_string()), Err("jenv".to_string()));
    assert_eq!(r, Err("sys".to_string()));
    let r = list_jdks(Ok(vec![]), Err("jenv".to_string()));
    assert_eq!(r, Err("jenv".to_string()));
    assert_eq!(list_jdks(Ok(vec![]), Ok(vec![])), Ok(vec![]));
}
