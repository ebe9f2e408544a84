use mcplug::platform::PluginDescriptor;
use mcplug::plugins::scan::{duplicate_names, is_jar_file, jar_names, scan_error, ScannedJar};
use mcplug::plugins::JarHashes;

fn jar(file: &str, name: Option<&str>) -> ScannedJar {
    ScannedJar {
        file: file.to_string(),
        path: format!("/p/{file}"),
        hashes: JarHashes::of_bytes(file.as_bytes()),
        descriptor: name.map(|n| PluginDescriptor {
            name: n.to_string(),
            version: None,
            api_version: None,
            authors: vec![],
            website: None,
            depend: vec![],
            softdepend: vec![],
        }),
        modified: None,
    }
}

#[test]
fn jar_extension() {
    assert!(is_jar_file("LuckPerms.jar"));
    assert!(is_jar_file("..jar"));
    assert!(!is_jar_file(".jar"));
    assert!(!is_jar_file("x.JAR"));
    assert!(!is_jar_file("x.jar.bak"));
    assert!(!is_jar_file("jar"));
}

#[test]
fn jars_in_a_directory() {
    let names: Vec<String> = ["b.jar", "notes.txt", "a.jar", ".jar"].iter().map(|s| s.to_string()).collect();
    assert_eq!(jar_names(&names), vec![".jar", "a.jar", "b.jar"]);
}

#[test]
fn duplicated_plugins() {
    let jars = vec![jar("a.jar", Some("X")), jar("b.jar", Some("Y")), jar("c.jar", Some("X")), jar("d.jar", None), jar("e.jar", Some("X"))];
    assert_eq!(duplicate_names(&jars), vec!["X".to_string()]);
    assert!(duplicate_names(&vec![jar("a.jar", Some("X"))]).is_empty());
}

#[test]
fn scan_errors() {
    assert_eq!(scan_error("/p/x.jar", "denied"), "/p/x.jar: denied");
}
