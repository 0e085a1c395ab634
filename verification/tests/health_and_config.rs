use tabby_tui::client::{get_api_url, EndPoint, Route, TabbyClient};
use tabby_tui::device::Device;
use tabby_tui::error::{classify_transport_failure, TabbyApiError};
use tabby_tui::health::{
    health_view_from_result, render_health_title, HealthState, TabbyClientViewData, Version,
};
use tabby_tui::settings::{settings_read_step, ServerSettingDAO, SettingsReadStep};

fn sample_health(cuda_devices: Vec<String>) -> HealthState {
    HealthState::new(
        Some("model-x"),
        None,
        &Device::Cuda,
        "x86_64".to_string(),
        "TestCPU".to_string(),
        8,
        cuda_devices,
        Version::new(
            "2024-01-01".to_string(),
            "2024-01-01T00:00:00Z".to_string(),
            "abc123".to_string(),
            "v1.2.0".to_string(),
        ),
    )
}

#[test]
fn unreachable_health_renders_fixed_indicator() {
    let view = health_view_from_result(Err(TabbyApiError::ConnectionError(
        "connection refused".to_string(),
    )));
    assert!(view.health_state.is_none());
    let title = render_health_title(&view);
    assert_eq!(title, "⚠️ Tabby not respond");
    assert!(!title.contains("model-x"));
}

#[test]
fn successful_health_is_carried_whole() {
    let h = sample_health(vec![]);
    let view = health_view_from_result(Ok(h.clone()));
    assert_eq!(view.health_state, Some(h));
}

#[test]
fn title_shows_version_model_and_device() {
    let view = TabbyClientViewData { health_state: Some(sample_health(vec![])) };
    assert_eq!(render_health_title(&view), "Tabby v1.2.0 | model-x | cuda");
}

#[test]
fn title_appends_cuda_devices() {
    let view = TabbyClientViewData {
        health_state: Some(sample_health(vec!["A100".to_string(), "H100".to_string()])),
    };
    assert_eq!(
        render_health_title(&view),
        "Tabby v1.2.0 | model-x | cuda (A100, H100) "
    );
}

#[test]
fn title_falls_back_when_model_is_missing() {
    let mut h = sample_health(vec![]);
    h.model = None;
    let view = TabbyClientViewData { health_state: Some(h) };
    assert_eq!(render_health_title(&view), "Tabby v1.2.0 | unknown | cuda");
}

#[test]
fn device_names_and_gpu_use() {
    assert_eq!(Device::Cpu.name(), "cpu");
    assert_eq!(Device::Cuda.name(), "cuda");
    assert_eq!(Device::Rocm.name(), "rocm");
    assert_eq!(Device::Metal.name(), "metal");
    assert_eq!(Device::ExperimentalHttp.name(), "experimental_http");
    assert!(!Device::Cpu.ggml_use_gpu());
    assert!(Device::Cuda.ggml_use_gpu());
    assert!(Device::Rocm.ggml_use_gpu());
    assert!(Device::Metal.ggml_use_gpu());
    assert!(!Device::ExperimentalHttp.ggml_use_gpu());
}

#[test]
fn endpoints_resolve_their_urls() {
    let c = TabbyClient::new("http://host:9090", &EndPoint::V1);
    assert_eq!(c.base_url, "http://host:9090/v1");
    assert_eq!(c.health_url(), "http://host:9090/v1/health");

    let beta = TabbyClient::new("http://host:9090", &EndPoint::V1Beta);
    assert_eq!(beta.base_url, "http://host:9090/v1beta");
    assert_eq!(
        beta.completions_url(),
        "http://host:9090/v1beta/chat/completions"
    );

    let custom = TabbyClient::new(
        "ignored",
        &EndPoint::CustomUrl("http://other:1234/api".to_string()),
    );
    assert_eq!(custom.base_url, "http://other:1234/api");

    assert_eq!(TabbyClient::default().base_url, "/v1");
}

#[test]
fn routes_and_url_joining() {
    assert_eq!(Route::Health.path(), "/health");
    assert_eq!(Route::ChatCompletions.path(), "/chat/completions");
    assert_eq!(EndPoint::V1.path(), "/v1");
    assert_eq!(EndPoint::V1Beta.path(), "/v1beta");
    assert_eq!(get_api_url("http://h", "/v1/health"), "http://h/v1/health");
}

#[test]
fn error_descriptions() {
    assert_eq!(
        TabbyApiError::ConnectionError("refused".to_string()).describe(),
        "request failed: refused"
    );
    assert_eq!(
        TabbyApiError::DecodeError("bad json".to_string()).describe(),
        "decode failed: bad json"
    );
    assert_eq!(
        TabbyApiError::TransportInterrupted("reset".to_string()).describe(),
        "stream interrupted: reset"
    );
}

#[test]
fn transport_failures_are_classified_by_progress() {
    assert_eq!(
        classify_transport_failure(false, "x".to_string()),
        TabbyApiError::ConnectionError("x".to_string())
    );
    assert_eq!(
        classify_transport_failure(true, "x".to_string()),
        TabbyApiError::TransportInterrupted("x".to_string())
    );
}

#[test]
fn domain_list_splits_on_commas_and_drops_empties() {
    let dao = ServerSettingDAO::new(
        Some("a.com,,b.org,".to_string()),
        false,
        "http://localhost".to_string(),
    );
    assert_eq!(
        dao.security_allowed_register_domain_list(),
        vec!["a.com".to_string(), "b.org".to_string()]
    );
}

#[test]
fn missing_domain_list_is_empty() {
    let dao = ServerSettingDAO::new(None, true, "u".to_string());
    assert!(dao.security_allowed_register_domain_list().is_empty());
    assert!(dao.security_disable_client_side_telemetry);
    assert_eq!(dao.network_external_url, "u");
}

#[test]
fn domain_list_of_only_commas_is_empty() {
    let dao = ServerSettingDAO::new(Some(",,,".to_string()), false, "u".to_string());
    assert!(dao.security_allowed_register_domain_list().is_empty());
}

#[test]
fn settings_read_uses_an_existing_row() {
    let dao = ServerSettingDAO::new(None, false, "u".to_string());
    assert_eq!(
        settings_read_step(Some(dao.clone())),
        SettingsReadStep::Ready(dao)
    );
}

#[test]
fn settings_read_creates_a_missing_row() {
    assert_eq!(
        settings_read_step(None),
        SettingsReadStep::InsertDefaultThenRetry
    );
}

#[test]
fn version_carries_its_stamps() {
    let v = Version::new(
        "d".to_string(),
        "t".to_string(),
        "sha".to_string(),
        "desc".to_string(),
    );
    assert_eq!(v.build_date, "d");
    assert_eq!(v.build_timestamp, "t");
    assert_eq!(v.git_sha, "sha");
    assert_eq!(v.git_describe, "desc");
}

#[test]
fn health_state_new_owns_its_fields() {
    let h = sample_health(vec!["A100".to_string()]);
    assert_eq!(h.model.as_deref(), Some("model-x"));
    assert_eq!(h.chat_model, None);
    assert_eq!(h.device, "cuda");
    assert_eq!(h.arch, "x86_64");
    assert_eq!(h.cpu_info, "TestCPU");
    assert_eq!(h.cpu_count, 8);
    assert_eq!(h.cuda_devices, vec!["A100".to_string()]);
}
