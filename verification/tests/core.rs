use mister::driver::{plan_step, StepPlan};
use mister::model::{ApplyResources, Delivery, DeploymentConfig, Opt, PipelineStep};
use mister::render::{find_deploy_resources_dir, missing_dir_message, skip_message, step_output_dir};
use mister::resolve::{parse_env, substitute_token, ResolveError};
use mister::select::{recognized_process, select_steps, step_is_selected};

fn pair(k: &str, v: &str) -> (String, String) {
    (k.to_string(), v.to_string())
}

fn step(id: &str, process: Option<&str>, config: Option<DeploymentConfig>) -> PipelineStep {
    PipelineStep {
        id: id.to_string(),
        process: process.map(|p| p.to_string()),
        config,
    }
}

fn manifests_config(env: Vec<(String, String)>) -> DeploymentConfig {
    DeploymentConfig {
        apply_permanent_resources: None,
        apply_manifests: Some(ApplyResources { env }),
    }
}

#[test]
fn substitution_replaces_every_occurrence() {
    let out = substitute_token("v=#{CDP_BUILD_VERSION}-#{CDP_BUILD_VERSION}", "5");
    assert_eq!(out, "v=5-5");
}

#[test]
fn substitution_with_token_as_version_is_noop() {
    let out = substitute_token("v=#{CDP_BUILD_VERSION}", "#{CDP_BUILD_VERSION}");
    assert_eq!(out, "v=#{CDP_BUILD_VERSION}");
}

#[test]
fn substitution_without_token_is_noop() {
    assert_eq!(substitute_token("plain value", "5"), "plain value");
    assert_eq!(substitute_token("", "5"), "");
}

#[test]
fn substitution_at_ends_and_alone() {
    assert_eq!(substitute_token("#{CDP_BUILD_VERSION}", "1.2.3"), "1.2.3");
    assert_eq!(substitute_token("#{CDP_BUILD_VERSION}-suffix", "9"), "9-suffix");
    assert_eq!(substitute_token("prefix-#{CDP_BUILD_VERSION}", "9"), "prefix-9");
}

#[test]
fn substitution_ignores_partial_token() {
    assert_eq!(substitute_token("#{CDP_BUILD_VERSION", "9"), "#{CDP_BUILD_VERSION");
}

#[test]
fn parse_env_rejects_both_present() {
    let config = DeploymentConfig {
        apply_permanent_resources: Some(ApplyResources { env: vec![] }),
        apply_manifests: Some(ApplyResources { env: vec![] }),
    };
    assert_eq!(parse_env(config, "5"), Err(ResolveError::BothPresent));
}

#[test]
fn parse_env_rejects_both_absent() {
    let config = DeploymentConfig { apply_permanent_resources: None, apply_manifests: None };
    assert_eq!(parse_env(config, "5"), Err(ResolveError::BothAbsent));
}

#[test]
fn resolve_error_message_names_both_fields() {
    let message = ResolveError::BothAbsent.message();
    assert!(message.contains("apply_permanent_resources"));
    assert!(message.contains("apply_manifests"));
}

#[test]
fn parse_env_substitutes_values_and_keeps_keys() {
    let config = manifests_config(vec![
        pair("A", "x-#{CDP_BUILD_VERSION}"),
        pair("B", "plain"),
    ]);
    let env = parse_env(config, "42").unwrap();
    assert_eq!(env, vec![pair("A", "x-42"), pair("B", "plain")]);
}

#[test]
fn parse_env_accepts_permanent_resources_alone() {
    let config = DeploymentConfig {
        apply_permanent_resources: Some(ApplyResources {
            env: vec![pair("K", "#{CDP_BUILD_VERSION}")],
        }),
        apply_manifests: None,
    };
    let env = parse_env(config, "7").unwrap();
    assert_eq!(env, vec![pair("K", "7")]);
}

#[test]
fn recognized_processes_are_exactly_two() {
    assert!(recognized_process("microservice_standard_deployment"));
    assert!(recognized_process("microservice_standard_test"));
    assert!(!recognized_process("microservice_standard_deploy"));
    assert!(!recognized_process(""));
    assert!(!recognized_process("MICROSERVICE_STANDARD_DEPLOYMENT"));
}

#[test]
fn selector_skips_unrecognized_and_configless_steps() {
    let pipeline = vec![
        step("a", Some("microservice_standard_deployment"), Some(manifests_config(vec![]))),
        step("b", Some("unknown_process"), Some(manifests_config(vec![]))),
        step("c", None, Some(manifests_config(vec![]))),
        step("d", Some("microservice_standard_test"), None),
        step("e", Some("microservice_standard_test"), Some(manifests_config(vec![]))),
    ];
    let (accepted, skipped) = select_steps(pipeline);
    let accepted_ids: Vec<&str> = accepted.iter().map(|(id, _)| id.as_str()).collect();
    assert_eq!(accepted_ids, vec!["a", "e"]);
    assert_eq!(skipped, vec!["b".to_string(), "c".to_string(), "d".to_string()]);
}

#[test]
fn selector_keeps_order_and_duplicate_ids() {
    let pipeline = vec![
        step("same", Some("microservice_standard_test"), Some(manifests_config(vec![]))),
        step("same", Some("microservice_standard_deployment"), Some(manifests_config(vec![]))),
    ];
    let (accepted, skipped) = select_steps(pipeline);
    assert_eq!(accepted.len(), 2);
    assert_eq!(accepted[0].0, "same");
    assert_eq!(accepted[1].0, "same");
    assert!(skipped.is_empty());
}

#[test]
fn step_selection_predicate_matches_selector() {
    let selected = step("a", Some("microservice_standard_test"), Some(manifests_config(vec![])));
    let unselected = step("b", Some("microservice_standard_test"), None);
    assert!(step_is_selected(&selected));
    assert!(!step_is_selected(&unselected));
}

#[test]
fn source_dir_defaults_without_deployment_path() {
    let env = vec![pair("OTHER", "x")];
    assert_eq!(find_deploy_resources_dir(&env), "deploy/apply");
    assert_eq!(find_deploy_resources_dir(&vec![]), "deploy/apply");
}

#[test]
fn source_dir_follows_deployment_path() {
    let env = vec![pair("DEPLOYMENT_PATH", "custom/dir"), pair("OTHER", "x")];
    assert_eq!(find_deploy_resources_dir(&env), "custom/dir/apply");
}

#[test]
fn output_dir_joins_root_and_id() {
    assert_eq!(step_output_dir("mister", "svc-a"), "mister/svc-a");
}

#[test]
fn missing_dir_message_names_resolved_path() {
    let message = missing_dir_message("deploy/apply");
    assert_eq!(message, "DEPLOYMENT_PATH directory 'deploy/apply' does not exist");
}

#[test]
fn skip_message_names_step_id() {
    assert_eq!(skip_message("svc-a"), "Skipping pipeline step with id 'svc-a'");
}

#[test]
fn defaults_match_documented_options() {
    let opt = Opt::default();
    assert_eq!(opt.delivery_yaml, "delivery.yaml");
    assert_eq!(opt.output_dir, "mister");
    assert_eq!(opt.cdp_build_version, "#{CDP_BUILD_VERSION}");
}

#[test]
fn plan_skips_unrecognized_step() {
    let unrecognized = step("svc-x", Some("other"), Some(manifests_config(vec![])));
    match plan_step(unrecognized, "7", "out").unwrap() {
        StepPlan::Skip { id } => assert_eq!(id, "svc-x"),
        StepPlan::Render { .. } => panic!("step must be skipped"),
    }
}

#[test]
fn plan_fails_on_ambiguous_config() {
    let ambiguous = DeploymentConfig {
        apply_permanent_resources: Some(ApplyResources { env: vec![] }),
        apply_manifests: Some(ApplyResources { env: vec![] }),
    };
    let bad = step("svc-x", Some("microservice_standard_test"), Some(ambiguous));
    assert_eq!(plan_step(bad, "7", "out").unwrap_err(), ResolveError::BothPresent);
}

#[test]
fn plan_resolves_deployable_step() {
    let deployable = step(
        "svc-a",
        Some("microservice_standard_deployment"),
        Some(manifests_config(vec![
            pair("DEPLOYMENT_PATH", "deploy"),
            pair("GREETING", "hi #{CDP_BUILD_VERSION}"),
        ])),
    );
    match plan_step(deployable, "7", "mister").unwrap() {
        StepPlan::Render { id, env, source_dir, output_dir } => {
            assert_eq!(id, "svc-a");
            assert_eq!(env, vec![pair("DEPLOYMENT_PATH", "deploy"), pair("GREETING", "hi 7")]);
            assert_eq!(source_dir, "deploy/apply");
            assert_eq!(output_dir, "mister/svc-a");
        }
        StepPlan::Skip { .. } => panic!("step must be deployable"),
    }
}

#[test]
fn delivery_document_shape_round_trip() {
    let delivery = Delivery {
        version: "2017-09-20".to_string(),
        pipeline: vec![step("svc-a", Some("microservice_standard_test"), None)],
    };
    assert_eq!(delivery.pipeline.len(), 1);
    assert_eq!(delivery.version, "2017-09-20");
}
