use mister::driver::{plan_step, StepPlan};
use mister::model::{ApplyResources, DeploymentConfig, PipelineStep};
use mister::render::{render_resources, render_template, ResourceFile};

fn pair(k: &str, v: &str) -> (String, String) {
    (k.to_string(), v.to_string())
}

fn file(name: &str, contents: &str) -> ResourceFile {
    ResourceFile { name: name.to_string(), contents: contents.to_string() }
}

#[test]
fn render_substitutes_named_variable() {
    let env = vec![pair("GREETING", "hi 7")];
    let out = render_template("value: {{GREETING}}", &env).unwrap();
    assert_eq!(out, "value: hi 7");
}

#[test]
fn render_is_deterministic() {
    let env = vec![pair("A", "one"), pair("B", "two")];
    let template = "a={{A}} b={{B}} a-again={{A}}";
    let first = render_template(template, &env).unwrap();
    let second = render_template(template, &env).unwrap();
    assert_eq!(first.as_bytes(), second.as_bytes());
    assert_eq!(first, "a=one b=two a-again=one");
}

#[test]
fn render_leaves_plain_text_unchanged() {
    let env = vec![pair("A", "one")];
    let out = render_template("no variables here", &env).unwrap();
    assert_eq!(out, "no variables here");
}

#[test]
fn render_refuses_implicit_iterator_tag() {
    let env = vec![pair("A", "one")];
    for template in ["{{.}}", "{{ . }}", "{{&.}}", "{{{.}}}", "{{&\u{a0}.\u{a0}}}"] {
        let err = render_template(template, &env).unwrap_err();
        assert!(err.message.contains("does not accept"), "{}", template);
    }
}

#[test]
fn render_refuses_set_delimiter_tag() {
    let env = vec![pair("A", "one")];
    assert!(render_template("{{=<% %>=}}<%A%>", &env).is_err());
}

#[test]
fn render_refuses_partial_tag() {
    let env = vec![pair("A", "one")];
    for template in ["{{>p}}", "{{> nested/file}}", "a {{>p}} b"] {
        let err = render_template(template, &env).unwrap_err();
        assert!(err.message.contains("does not accept"), "{}", template);
    }
}

#[test]
fn render_passes_plain_greater_than_through() {
    let env = vec![pair("V", "seven")];
    let out = render_template("key: >\n  {{V}}", &env).unwrap();
    assert_eq!(out, "key: >\n  seven");
    let out = render_template("a > b", &env).unwrap();
    assert_eq!(out, "a > b");
}

#[test]
fn render_accepts_dots_in_plain_text_and_names() {
    let env = vec![pair("V", "seven")];
    let out = render_template("version: 1.2.3 {{V}}", &env).unwrap();
    assert_eq!(out, "version: 1.2.3 seven");
    let out = render_template("x{{a.b}}y", &env).unwrap();
    assert_eq!(out, "xy");
}

#[test]
fn render_fails_on_malformed_template() {
    let env = vec![pair("A", "one")];
    let err = render_template("{{#unclosed}}section", &env).unwrap_err();
    assert!(!err.message.is_empty());
}

#[test]
fn render_resources_keeps_names_and_order() {
    let env = vec![pair("NAME", "svc")];
    let files = vec![
        file("a.yaml", "name: {{NAME}}"),
        file("b.yaml", "plain"),
    ];
    let out = render_resources(files, &env).unwrap();
    assert_eq!(out.len(), 2);
    assert_eq!(out[0].name, "a.yaml");
    assert_eq!(out[0].contents, "name: svc");
    assert_eq!(out[1].name, "b.yaml");
    assert_eq!(out[1].contents, "plain");
}

#[test]
fn render_resources_renders_only_given_files() {
    let env = vec![pair("NAME", "svc")];
    let files = vec![file("a.yaml", "name: {{NAME}}")];
    let out = render_resources(files, &env).unwrap();
    let names: Vec<&str> = out.iter().map(|f| f.name.as_str()).collect();
    assert_eq!(names, vec!["a.yaml"]);
}

#[test]
fn render_resources_fails_whole_step_on_one_bad_file() {
    let env = vec![pair("NAME", "svc")];
    let files = vec![
        file("good.yaml", "name: {{NAME}}"),
        file("bad.yaml", "{{#unclosed}}"),
    ];
    assert!(render_resources(files, &env).is_err());
}

#[test]
fn deployable_step_renders_end_to_end() {
    let deployable = PipelineStep {
        id: "svc-a".to_string(),
        process: Some("microservice_standard_deployment".to_string()),
        config: Some(DeploymentConfig {
            apply_permanent_resources: None,
            apply_manifests: Some(ApplyResources {
                env: vec![
                    pair("DEPLOYMENT_PATH", "deploy"),
                    pair("GREETING", "hi #{CDP_BUILD_VERSION}"),
                ],
            }),
        }),
    };
    let plan = plan_step(deployable, "7", "mister").unwrap();
    match plan {
        StepPlan::Render { id, env, source_dir, output_dir } => {
            assert_eq!(id, "svc-a");
            assert_eq!(source_dir, "deploy/apply");
            assert_eq!(output_dir, "mister/svc-a");
            let rendered = render_resources(vec![file("cm.yaml", "value: {{GREETING}}")], &env)
                .unwrap();
            assert_eq!(rendered.len(), 1);
            assert_eq!(rendered[0].name, "cm.yaml");
            assert_eq!(rendered[0].contents, "value: hi 7");
        }
        StepPlan::Skip { .. } => panic!("step must be deployable"),
    }
}
