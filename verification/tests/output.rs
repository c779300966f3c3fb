use kube_compose::compose::Compose;
use kube_compose::compose::Port;
use kube_compose::compose::Service;
use kube_compose::compose::Version;
use kube_compose::resolve::partition_paths;
use kube_compose::resolve::resolve_paths;

fn plain_service(image: &str) -> Service {
    Service {
        image: image.to_string(),
        ports: vec![],
        depends_on: vec![],
        command: None,
        entrypoint: None,
        environment: vec![],
    }
}

#[test]
fn empty_document_renders_empty_mapping() {
    let out = Compose::default();
    assert_eq!(out.to_yaml(), "version: \"3.8\"\nservices: {}\n");
}

#[test]
fn full_service_renders_every_field() {
    let mut out = Compose::default();
    let service = Service {
        image: "nginx".to_string(),
        ports: vec![Port(80), Port(8443)],
        depends_on: vec!["db".to_string()],
        command: Some(vec!["echo hi".to_string()]),
        entrypoint: Some(vec!["sh".to_string(), "-c".to_string()]),
        environment: vec![("MODE".to_string(), "fast".to_string())],
    };
    out.upsert("web".to_string(), service);
    let expected = "version: \"3.8\"\n\
services:\n\
\x20 \"web\":\n\
\x20   image: \"nginx\"\n\
\x20   ports:\n\
\x20     - \"80\"\n\
\x20     - \"8443\"\n\
\x20   depends_on:\n\
\x20     - \"db\"\n\
\x20   command:\n\
\x20     - \"echo hi\"\n\
\x20   entrypoint:\n\
\x20     - \"sh\"\n\
\x20     - \"-c\"\n\
\x20   environment:\n\
\x20     \"MODE\": \"fast\"\n";
    assert_eq!(out.to_yaml(), expected);
}

#[test]
fn empty_collections_are_omitted() {
    let mut out = Compose::default();
    out.upsert("app".to_string(), plain_service("nginx"));
    let text = out.to_yaml();
    assert!(!text.contains("ports"));
    assert!(!text.contains("depends_on"));
    assert!(!text.contains("command"));
    assert!(!text.contains("entrypoint"));
    assert!(!text.contains("environment"));
}

#[test]
fn special_characters_are_escaped() {
    let mut out = Compose::default();
    let mut service = plain_service("img");
    service.environment = vec![("QUOTE".to_string(), "say \"hi\"\n".to_string())];
    out.upsert("a\\b".to_string(), service);
    let text = out.to_yaml();
    assert!(text.contains("  \"a\\\\b\":\n"));
    assert!(text.contains("      \"QUOTE\": \"say \\\"hi\\\"\\n\"\n"));
    let value: serde_yaml::Value = serde_yaml::from_str(&text).expect("escaped output parses");
    let env = value
        .get("services")
        .and_then(|s| s.get("a\\b"))
        .and_then(|s| s.get("environment"))
        .and_then(|e| e.get("QUOTE"))
        .and_then(|v| v.as_str());
    assert_eq!(env, Some("say \"hi\"\n"));
}

#[test]
fn colliding_name_moves_to_back_with_new_value() {
    let mut out = Compose::default();
    out.upsert("first".to_string(), plain_service("one"));
    out.upsert("second".to_string(), plain_service("two"));
    out.upsert("first".to_string(), plain_service("three"));
    assert_eq!(out.services.len(), 2);
    assert_eq!(out.services[0].0, "second");
    assert_eq!(out.services[0].1.image, "two");
    assert_eq!(out.services[1].0, "first");
    assert_eq!(out.services[1].1.image, "three");
}

#[test]
fn present_but_empty_command_is_omitted() {
    let mut out = Compose::default();
    let mut service = plain_service("nginx");
    service.command = Some(vec![]);
    service.entrypoint = Some(vec![]);
    out.upsert("app".to_string(), service);
    let text = out.to_yaml();
    assert!(!text.contains("command"));
    assert!(!text.contains("entrypoint"));
}

#[test]
fn control_characters_are_escaped() {
    let mut out = Compose::default();
    let mut service = plain_service("img");
    service.environment = vec![("CTRL".to_string(), "a\u{1}b\u{7f}".to_string())];
    out.upsert("app".to_string(), service);
    let text = out.to_yaml();
    assert!(text.contains("\"a\\x01b\\x7fb\"") == false);
    assert!(text.contains("      \"CTRL\": \"a\\x01b\\x7f\"\n"));
    let value: serde_yaml::Value = serde_yaml::from_str(&text).expect("escaped output parses");
    let env = value
        .get("services")
        .and_then(|s| s.get("app"))
        .and_then(|s| s.get("environment"))
        .and_then(|e| e.get("CTRL"))
        .and_then(|v| v.as_str());
    assert_eq!(env, Some("a\u{1}b\u{7f}"));
}

#[test]
fn version_is_the_fixed_literal() {
    let out = Compose { version: Version::V2, services: vec![] };
    assert!(out.to_yaml().starts_with("version: \"3.8\"\n"));
}

#[test]
fn directories_with_no_yaml_resolve_to_nothing() {
    let paths = vec!["manifests".to_string(), "charts".to_string()];
    let flags = vec![false, false];
    let resolved = resolve_paths(&paths, &flags, vec![]);
    assert!(resolved.is_empty());
}

#[test]
fn direct_files_come_before_discovered_ones() {
    let paths = vec![
        "a.yaml".to_string(),
        "manifests".to_string(),
        "b.yaml".to_string(),
    ];
    let flags = vec![true, false, true];
    let (files, dirs) = partition_paths(&paths, &flags);
    assert_eq!(files, vec!["a.yaml".to_string(), "b.yaml".to_string()]);
    assert_eq!(dirs, vec!["manifests".to_string()]);
    let discovered = vec!["manifests/c.yaml".to_string()];
    let resolved = resolve_paths(&paths, &flags, discovered);
    assert_eq!(
        resolved,
        vec![
            "a.yaml".to_string(),
            "b.yaml".to_string(),
            "manifests/c.yaml".to_string()
        ]
    );
}

#[test]
fn duplicate_path_is_kept_twice() {
    let paths = vec!["a.yaml".to_string(), "a.yaml".to_string()];
    let flags = vec![true, true];
    let resolved = resolve_paths(&paths, &flags, vec![]);
    assert_eq!(resolved, vec!["a.yaml".to_string(), "a.yaml".to_string()]);
}
