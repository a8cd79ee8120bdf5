use std::collections::BTreeSet;

use ragas::integrations::{
    integration_contract_descriptors, integration_destination_for_family, normalize_callback_payload,
    plan_integration_export, redact_payload, IntegrationAuthMode, IntegrationBoundaryMode,
    IntegrationDestination, IntegrationExportInput, IntegrationFamily, IntegrationFeatureRegistry,
    IntegrationPayload, TracingIntegration,
};
use ragas::runtime::{RuntimeEvent, RuntimeEventKind};

#[test]
fn test_14_2_1_tracing_integration_receives_callback_events() {
    let mut tracing = TracingIntegration::new(IntegrationDestination::Tracing);

    tracing.record(&RuntimeEvent::evaluation_started("run-1"));
    tracing.record(&RuntimeEvent::metric_started("run-1", "faithfulness", 2));

    let events = tracing.exported_events();
    assert_eq!(events.len(), 2);
    assert_eq!(events[0].destination, IntegrationDestination::Tracing);
    assert_eq!(events[0].kind, RuntimeEventKind::EvaluationStarted);
    assert_eq!(events[1].metric_name.as_deref(), Some("faithfulness"));
    assert_eq!(events[1].sample_index, Some(2));
}

#[test]
fn test_14_2_2_external_integrations_are_feature_gated() {
    let registry = IntegrationFeatureRegistry::new();

    assert!(registry.is_enabled(IntegrationDestination::Tracing));
    assert!(!registry.is_enabled(IntegrationDestination::LangSmith));
    assert!(registry
        .require_enabled(IntegrationDestination::LangSmith)
        .expect_err("langsmith disabled")
        .describe()
        .contains("feature-gated"));

    let registry = registry.with_enabled(IntegrationDestination::LangSmith);
    assert!(registry.is_enabled(IntegrationDestination::LangSmith));
    assert!(registry
        .require_enabled(IntegrationDestination::LangSmith)
        .is_ok());
}

#[test]
fn test_14_2_3_payload_redaction_is_applied_before_export() {
    let payload = IntegrationPayload::new()
        .with("authorization", "Bearer sk-secret")
        .with("api_key", "sk-live")
        .with("safe_field", "visible");

    let redacted = redact_payload(&payload);
    assert_eq!(
        redacted.fields.get("authorization").map(String::as_str),
        Some("[REDACTED]")
    );
    assert_eq!(
        redacted.fields.get("api_key").map(String::as_str),
        Some("[REDACTED]")
    );
    assert_eq!(
        redacted.fields.get("safe_field").map(String::as_str),
        Some("visible")
    );

    let mut tracing = TracingIntegration::new(IntegrationDestination::Tracing);
    tracing.export_payload(RuntimeEventKind::EvaluationStarted, "run-1", payload);
    let exported = tracing.exported_events();
    assert_eq!(
        exported[0]
            .payload
            .fields
            .get("authorization")
            .map(String::as_str),
        Some("[REDACTED]")
    );
}

#[test]
fn test_18_4_2_callback_payload_normalization_redacts_and_preserves_lifecycle_fields() {
    let event = RuntimeEvent::metric_started("run-42", "faithfulness", 7);
    let payload = IntegrationPayload::new()
        .with("authorization", "Bearer sk-secret")
        .with("api_key", "sk-live")
        .with("prompt", "visible");

    let normalized = normalize_callback_payload(IntegrationDestination::Tracing, &event, payload);

    assert_eq!(normalized.destination, IntegrationDestination::Tracing);
    assert_eq!(normalized.kind, RuntimeEventKind::MetricStarted);
    assert_eq!(normalized.run_id, "run-42");
    assert_eq!(normalized.metric_name.as_deref(), Some("faithfulness"));
    assert_eq!(normalized.sample_index, Some(7));
    assert_eq!(
        normalized
            .payload
            .fields
            .get("authorization")
            .map(String::as_str),
        Some("[REDACTED]")
    );
    assert_eq!(
        normalized.payload.fields.get("api_key").map(String::as_str),
        Some("[REDACTED]")
    );
    assert_eq!(
        normalized.payload.fields.get("prompt").map(String::as_str),
        Some("visible")
    );
}

#[test]
fn test_27_1_1_integration_contract_descriptors_cover_tracked_upstream_families() {
    let descriptors = integration_contract_descriptors();
    let families: BTreeSet<_> = descriptors
        .iter()
        .map(|descriptor| descriptor.family)
        .collect();

    for expected in [
        IntegrationFamily::LangChain,
        IntegrationFamily::LangGraph,
        IntegrationFamily::LangSmith,
        IntegrationFamily::LlamaIndex,
        IntegrationFamily::AgUi,
        IntegrationFamily::Bedrock,
        IntegrationFamily::Griptape,
        IntegrationFamily::Helicone,
        IntegrationFamily::Langfuse,
        IntegrationFamily::Opik,
        IntegrationFamily::R2R,
        IntegrationFamily::Swarm,
    ] {
        assert!(families.contains(&expected), "missing {expected:?}");
    }

    assert!(descriptors.iter().all(|descriptor| {
        !descriptor.target_operation.is_empty()
            && descriptor.lifecycle_fields.contains(&"run_id")
            && descriptor.lifecycle_fields.contains(&"event_kind")
    }));
    assert!(descriptors.iter().any(|descriptor| {
        descriptor.family == IntegrationFamily::LangSmith
            && descriptor.auth_envs.contains(&"LANGCHAIN_API_KEY")
            && descriptor.boundary_mode == IntegrationBoundaryMode::ObservabilityExporter
    }));
    assert!(descriptors.iter().any(|descriptor| {
        descriptor.family == IntegrationFamily::AgUi
            && descriptor.boundary_mode == IntegrationBoundaryMode::EndpointStream
    }));
    assert!(descriptors.iter().any(|descriptor| {
        descriptor.family == IntegrationFamily::Bedrock
            && descriptor.auth_mode == IntegrationAuthMode::AwsSigV4
    }));
    assert!(descriptors.iter().any(|descriptor| {
        descriptor.family == IntegrationFamily::LangChain
            && descriptor.boundary_mode == IntegrationBoundaryMode::DelegatedFramework
    }));
}

#[test]
fn test_27_1_2_integration_export_plans_preserve_lifecycle_and_redact_auth() {
    let event = RuntimeEvent::metric_started("run-27", "faithfulness", 3);
    let payload = IntegrationPayload::new()
        .with("authorization", "Bearer secret-token")
        .with("score", "0.91")
        .with("trace_id", "trace-123");

    let langsmith = plan_integration_export(
        IntegrationFamily::LangSmith,
        IntegrationExportInput::new(event.clone(), payload.clone()).with_api_token("langsmith-secret"),
    )
    .expect("langsmith export plan");

    assert_eq!(langsmith.family, IntegrationFamily::LangSmith);
    assert_eq!(
        langsmith.boundary_mode,
        IntegrationBoundaryMode::ObservabilityExporter
    );
    assert_eq!(
        langsmith.headers.get("Authorization").map(String::as_str),
        Some("Bearer <redacted>")
    );
    assert_eq!(langsmith.event.run_id, "run-27");
    assert_eq!(langsmith.event.metric_name.as_deref(), Some("faithfulness"));
    assert_eq!(langsmith.event.sample_index, Some(3));
    assert_eq!(
        langsmith
            .event
            .payload
            .fields
            .get("authorization")
            .map(String::as_str),
        Some("[REDACTED]")
    );
    assert_eq!(
        langsmith.event.payload.fields.get("score").map(String::as_str),
        Some("0.91")
    );
    assert!(!langsmith.safe_debug.contains("langsmith-secret"));

    let ag_ui = plan_integration_export(
        IntegrationFamily::AgUi,
        IntegrationExportInput::new(event.clone(), payload.clone()),
    )
    .expect("ag-ui export plan");
    assert_eq!(ag_ui.boundary_mode, IntegrationBoundaryMode::EndpointStream);
    assert!(ag_ui.target_operation.contains("stream"));
    assert_eq!(
        ag_ui.event.payload.fields.get("trace_id").map(String::as_str),
        Some("trace-123")
    );

    let bedrock = plan_integration_export(
        IntegrationFamily::Bedrock,
        IntegrationExportInput::new(event, payload).with_api_token("aws-secret"),
    )
    .expect("bedrock export plan");
    assert_eq!(
        bedrock.headers.get("Authorization").map(String::as_str),
        Some("AWS4-HMAC-SHA256 <redacted>")
    );
    assert!(!bedrock.safe_debug.contains("aws-secret"));
}

#[test]
fn redacting_twice_changes_nothing() {
    let payload = IntegrationPayload::new()
        .with("X_Api_Key", "k")
        .with("session_token", "t")
        .with("note", "plain");
    let once = redact_payload(&payload);
    let twice = redact_payload(&once);
    assert_eq!(once, twice);
    assert_eq!(once.fields.get("X_Api_Key").map(String::as_str), Some("[REDACTED]"));
    assert_eq!(once.fields.get("note").map(String::as_str), Some("plain"));
    assert_eq!(
        integration_destination_for_family(IntegrationFamily::LangSmith),
        IntegrationDestination::LangSmith
    );
}
