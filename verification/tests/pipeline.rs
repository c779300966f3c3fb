use kube_compose::classify::LoadError;
use kube_compose::convert::ConvertError;
use kube_compose::convert::Converter;
use kube_compose::compose::Compose;
use kube_compose::load::envelope_name_kind;
use kube_compose::load::load;
use kube_compose::load::load_documents;
use kube_compose::model::Object;
use kube_compose::model::ObjectKind;
use kube_compose::pipeline::run;
use kube_compose::pipeline::RunError;
use kube_compose::yaml::YamlNode;

const DEPLOYMENT_ONE: &str = "apiVersion: apps/v1\n\
kind: Deployment\n\
metadata:\n\
\x20 name: app\n\
spec:\n\
\x20 template:\n\
\x20   spec:\n\
\x20     containers:\n\
\x20       - name: web\n\
\x20         image: nginx\n";

const DEPLOYMENT_TWO: &str = "apiVersion: apps/v1\n\
kind: Deployment\n\
metadata:\n\
\x20 name: app\n\
spec:\n\
\x20 template:\n\
\x20   spec:\n\
\x20     containers:\n\
\x20       - name: web\n\
\x20         image: nginx\n\
\x20       - name: sidecar\n\
\x20         image: envoy\n";

const CONFIG_MAP: &str = "apiVersion: v1\n\
kind: ConfigMap\n\
metadata:\n\
\x20 name: settings\n\
data:\n\
\x20 key: value\n";

#[test]
fn three_documents_with_end_markers() {
    let text = "first: 1\n...\n---\nsecond: 2\n...\n---\nthird: 3\n...\n";
    let docs = load_documents(text).expect("valid yaml stream");
    assert_eq!(docs.len(), 3);
}

#[test]
fn three_documents_in_order() {
    let text = "first: 1\n---\nsecond: 2\n---\nthird: 3\n";
    let docs = load_documents(text).expect("valid yaml stream");
    assert_eq!(docs.len(), 3);
    let keys = ["first", "second", "third"];
    for (doc, key) in docs.iter().zip(keys.iter()) {
        match doc {
            YamlNode::Dict(entries) => {
                assert_eq!(entries.len(), 1);
                match &entries[0].0 {
                    YamlNode::Str(s) => assert_eq!(s, key),
                    _ => panic!("expected string key"),
                }
            },
            _ => panic!("expected a dictionary document"),
        }
    }
}

#[test]
fn config_map_is_skipped_without_error() {
    let docs = load_documents(CONFIG_MAP).expect("valid yaml");
    assert_eq!(docs.len(), 1);
    assert!(docs[0].get("data").is_some());
    assert!(docs[0].get("absent").is_none());
    let classified = Object::from_yaml(&docs[0]).expect("no error");
    assert!(classified.is_none());
    let (name, kind) = envelope_name_kind(&docs[0]).expect("well-formed envelope");
    assert_eq!(name, "settings");
    assert_eq!(kind, "ConfigMap");
}

#[test]
fn deployment_is_recognized() {
    let texts = vec![DEPLOYMENT_ONE.to_string()];
    let objects = load(&texts).expect("loads");
    assert_eq!(objects.len(), 1);
    assert_eq!(objects[0].name, "app");
    match &objects[0].kind {
        ObjectKind::Deployment(d) => {
            let pod = d.template.spec.as_ref().expect("pod spec present");
            assert_eq!(pod.containers.len(), 1);
            assert_eq!(pod.containers[0].name, "web");
            assert_eq!(pod.containers[0].image.as_deref(), Some("nginx"));
        },
        _ => panic!("expected a deployment"),
    }
}

#[test]
fn job_is_recognized() {
    let text = "apiVersion: batch/v1\n\
kind: Job\n\
metadata:\n\
\x20 name: migrate\n\
spec:\n\
\x20 template:\n\
\x20   spec:\n\
\x20     containers:\n\
\x20       - name: task\n\
\x20         image: busybox\n";
    let objects = load(&vec![text.to_string()]).expect("loads");
    assert_eq!(objects.len(), 1);
    assert_eq!(objects[0].name, "migrate");
    assert!(matches!(objects[0].kind, ObjectKind::Job(_)));
}

#[test]
fn single_container_service_uses_workload_name() {
    let objects = load(&vec![DEPLOYMENT_ONE.to_string()]).expect("loads");
    let mut out = Compose::default();
    Converter::new(&objects).convert(&mut out).expect("converts");
    assert_eq!(out.services.len(), 1);
    assert_eq!(out.services[0].0, "app");
    assert_eq!(out.services[0].1.image, "nginx");
}

#[test]
fn two_containers_get_disambiguated_names() {
    let objects = load(&vec![DEPLOYMENT_TWO.to_string()]).expect("loads");
    let mut out = Compose::default();
    Converter::new(&objects).convert(&mut out).expect("converts");
    assert_eq!(out.services.len(), 2);
    assert_eq!(out.services[0].0, "app-web");
    assert_eq!(out.services[1].0, "app-sidecar");
    assert_eq!(out.services[0].1.image, "nginx");
    assert_eq!(out.services[1].1.image, "envoy");
}

#[test]
fn command_and_args_swap_into_entrypoint_and_command() {
    let text = "apiVersion: apps/v1\n\
kind: Deployment\n\
metadata:\n\
\x20 name: app\n\
spec:\n\
\x20 template:\n\
\x20   spec:\n\
\x20     containers:\n\
\x20       - name: web\n\
\x20         image: nginx\n\
\x20         command: [\"sh\", \"-c\"]\n\
\x20         args: [\"echo hi\"]\n";
    let objects = load(&vec![text.to_string()]).expect("loads");
    let mut out = Compose::default();
    Converter::new(&objects).convert(&mut out).expect("converts");
    let svc = &out.services[0].1;
    assert_eq!(svc.entrypoint.as_deref(), Some(&["sh".to_string(), "-c".to_string()][..]));
    assert_eq!(svc.command.as_deref(), Some(&["echo hi".to_string()][..]));
}

#[test]
fn environment_keeps_literal_values_only() {
    let text = "apiVersion: apps/v1\n\
kind: Deployment\n\
metadata:\n\
\x20 name: app\n\
spec:\n\
\x20 template:\n\
\x20   spec:\n\
\x20     containers:\n\
\x20       - name: web\n\
\x20         image: nginx\n\
\x20         env:\n\
\x20           - name: PLAIN\n\
\x20             value: direct\n\
\x20           - name: FROM_SECRET\n\
\x20             valueFrom:\n\
\x20               secretKeyRef:\n\
\x20                 name: creds\n\
\x20                 key: token\n\
\x20           - name: PLAIN\n\
\x20             value: replaced\n";
    let objects = load(&vec![text.to_string()]).expect("loads");
    let mut out = Compose::default();
    Converter::new(&objects).convert(&mut out).expect("converts");
    let env = &out.services[0].1.environment;
    assert_eq!(env.len(), 1);
    assert_eq!(env[0].0, "PLAIN");
    assert_eq!(env[0].1, "replaced");
}

#[test]
fn repeated_env_name_moves_to_back() {
    let text = "apiVersion: apps/v1\n\
kind: Deployment\n\
metadata:\n\
\x20 name: app\n\
spec:\n\
\x20 template:\n\
\x20   spec:\n\
\x20     containers:\n\
\x20       - name: web\n\
\x20         image: nginx\n\
\x20         env:\n\
\x20           - name: FIRST\n\
\x20             value: one\n\
\x20           - name: SECOND\n\
\x20             value: two\n\
\x20           - name: FIRST\n\
\x20             value: three\n";
    let objects = load(&vec![text.to_string()]).expect("loads");
    let mut out = Compose::default();
    Converter::new(&objects).convert(&mut out).expect("converts");
    let env = &out.services[0].1.environment;
    assert_eq!(env.len(), 2);
    assert_eq!(env[0].0, "SECOND");
    assert_eq!(env[0].1, "two");
    assert_eq!(env[1].0, "FIRST");
    assert_eq!(env[1].1, "three");
}

#[test]
fn missing_image_aborts_with_container_name() {
    let text = "apiVersion: apps/v1\n\
kind: Deployment\n\
metadata:\n\
\x20 name: app\n\
spec:\n\
\x20 template:\n\
\x20   spec:\n\
\x20     containers:\n\
\x20       - name: web\n";
    let objects = load(&vec![text.to_string()]).expect("loads");
    let mut out = Compose::default();
    let err = Converter::new(&objects).convert(&mut out).expect_err("missing image");
    match err {
        ConvertError::MissingImage { workload, container } => {
            assert_eq!(workload, "app");
            assert_eq!(container, "web");
        },
        _ => panic!("expected a missing-image error"),
    }
    let run_err = run(&vec![text.to_string()]).expect_err("run aborts");
    assert!(matches!(
        run_err,
        RunError::Convert(ConvertError::MissingImage { .. })
    ));
}

#[test]
fn missing_pod_spec_aborts_with_workload_name() {
    let text = "apiVersion: batch/v1\n\
kind: Job\n\
metadata:\n\
\x20 name: migrate\n\
spec:\n\
\x20 template: {}\n";
    let objects = load(&vec![text.to_string()]).expect("loads");
    let mut out = Compose::default();
    let err = Converter::new(&objects).convert(&mut out).expect_err("missing pod spec");
    match err {
        ConvertError::MissingPodSpec { workload } => assert_eq!(workload, "migrate"),
        _ => panic!("expected a missing-pod-spec error"),
    }
}

#[test]
fn invalid_yaml_reports_position() {
    let good = DEPLOYMENT_ONE.to_string();
    let bad = "a: [unclosed\nb: }".to_string();
    let err = load(&vec![good, bad]).expect_err("second text is invalid");
    match err {
        LoadError::InvalidYaml { index } => assert_eq!(index, 1),
        _ => panic!("expected an invalid-yaml error"),
    }
}

#[test]
fn malformed_envelope_is_an_error() {
    let text = "apiVersion: apps/v1\n\
metadata:\n\
\x20 name: app\n";
    let err = load(&vec![text.to_string()]).expect_err("kind is missing");
    assert!(matches!(err, LoadError::MalformedEnvelope { doc: 0 }));
}

#[test]
fn empty_name_is_malformed_envelope() {
    let text = "apiVersion: apps/v1\n\
kind: Deployment\n\
metadata:\n\
\x20 name: \"\"\n\
spec:\n\
\x20 template:\n\
\x20   spec:\n\
\x20     containers:\n\
\x20       - name: web\n\
\x20         image: nginx\n";
    let err = load(&vec![text.to_string()]).expect_err("empty name is rejected");
    assert!(matches!(err, LoadError::MalformedEnvelope { doc: 0 }));
    let docs = load_documents(text).expect("valid yaml");
    assert!(envelope_name_kind(&docs[0]).is_none());
}

#[test]
fn malformed_envelope_reports_document_position() {
    let bad = "just: a mapping\n";
    let texts = vec![DEPLOYMENT_ONE.to_string(), bad.to_string()];
    let err = load(&texts).expect_err("second document is malformed");
    assert!(matches!(err, LoadError::MalformedEnvelope { doc: 1 }));
}

#[test]
fn malformed_spec_names_the_object() {
    let text = "apiVersion: apps/v1\n\
kind: Deployment\n\
metadata:\n\
\x20 name: app\n\
spec: {}\n";
    let err = load(&vec![text.to_string()]).expect_err("template is missing");
    match err {
        LoadError::MalformedSpec { name } => assert_eq!(name, "app"),
        _ => panic!("expected a malformed-spec error"),
    }
}

#[test]
fn duplicate_input_is_processed_twice() {
    let texts = vec![DEPLOYMENT_ONE.to_string(), DEPLOYMENT_ONE.to_string()];
    let objects = load(&texts).expect("loads");
    assert_eq!(objects.len(), 2);
    assert_eq!(objects[0].name, "app");
    assert_eq!(objects[1].name, "app");
    let mut out = Compose::default();
    Converter::new(&objects).convert(&mut out).expect("converts");
    assert_eq!(out.services.len(), 1);
}

#[test]
fn round_trip_through_strict_decoder() {
    let output = run(&vec![DEPLOYMENT_ONE.to_string()]).expect("runs");
    let value: serde_yaml::Value = serde_yaml::from_str(&output).expect("output parses");
    let services = value.get("services").expect("services key present");
    let mapping = services.as_mapping().expect("services is a mapping");
    assert_eq!(mapping.len(), 1);
    let app = services.get("app").expect("one service named app");
    assert_eq!(app.get("image").and_then(|v| v.as_str()), Some("nginx"));
    assert_eq!(value.get("version").and_then(|v| v.as_str()), Some("3.8"));
}

#[test]
fn same_inputs_give_byte_identical_output() {
    let texts = vec![DEPLOYMENT_TWO.to_string(), CONFIG_MAP.to_string()];
    let first = run(&texts).expect("runs");
    let second = run(&texts).expect("runs");
    assert_eq!(first, second);
}

#[test]
fn anchors_and_aliases_are_resolved() {
    let text = "apiVersion: apps/v1\n\
kind: Deployment\n\
metadata:\n\
\x20 name: &n app\n\
spec:\n\
\x20 template:\n\
\x20   spec:\n\
\x20     containers:\n\
\x20       - name: *n\n\
\x20         image: nginx\n";
    let objects = load(&vec![text.to_string()]).expect("anchors load");
    assert_eq!(objects.len(), 1);
    assert_eq!(objects[0].name, "app");
    match &objects[0].kind {
        ObjectKind::Deployment(d) => {
            let pod = d.template.spec.as_ref().expect("pod spec present");
            assert_eq!(pod.containers[0].name, "app");
        },
        _ => panic!("expected a deployment"),
    }
}

#[test]
fn empty_text_holds_no_documents() {
    let docs = load_documents("").expect("empty stream is valid");
    assert_eq!(docs.len(), 0);
    let objects = load(&vec!["".to_string()]).expect("loads");
    assert!(objects.is_empty());
}
