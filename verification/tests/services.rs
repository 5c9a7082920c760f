use vareliox::provider::{key_change_allowed, listing_key, listing_too_slow_error};
use vareliox::provider::{path_program_names, windows_install_candidates, WindowsRoot};
use vareliox::library::lm_studio_too_slow_error;
use vareliox::stream::{pending_too_long_error, reply_too_long_error, stream_stalled_error};
use vareliox::media::{check_media_request, plan_media_request, MediaGenerationRequest};
use vareliox::chat::{check_chat_request, ChatRequest};
use vareliox::diagnostic::Diagnostic;
use vareliox::provider::{
    needs_install_check, provider_test_result, ModelInfo, ProviderConfig, ProviderId,
};
use vareliox::search::{
    link_result, pages_to_read, plan_web_search, search_result, SearchPlan, WebSearchRequest,
    WebSearchSource,
};
use vareliox::stream::{
    no_first_response_error, nvidia_request_id, poll_step, request_id_headers, uses_event_stream,
    PendingIds, PollStep,
};
use vareliox::vm::{identities_show_virtual_machine, renderer_mode, software_renderer_settings, RendererMode};

fn config(provider: ProviderId, endpoint: &str) -> ProviderConfig {
    ProviderConfig {
        provider,
        config_id: "c".into(),
        display_name: String::new(),
        logo_data_url: None,
        endpoint: endpoint.into(),
        model: String::new(),
        api_key_configured: false,
        connect_timeout_secs: 10,
        first_response_timeout_secs: 120,
        inactivity_timeout_secs: 60,
        max_response_timeout_secs: 900,
    }
}

fn model(id: &str, loaded: Option<bool>) -> ModelInfo {
    ModelInfo { id: id.into(), name: id.into(), loaded }
}

fn failure(code: &str) -> Diagnostic {
    Diagnostic::new(code, "t", "e", "c", "a", true)
}

fn source(url: &str, snippet: &str) -> WebSearchSource {
    WebSearchSource { title: url.into(), url: url.into(), snippet: snippet.into() }
}

#[test]
fn connection_tests_report_unusable_model_lists() {
    let lm = config(ProviderId::LmStudio, "http://127.0.0.1:1234");
    let result = provider_test_result(&lm, Ok(vec![]), false, 5);
    assert!(result.connected);
    assert_eq!(result.duration_ms, 5);
    assert_eq!(result.diagnostic.unwrap().code, "MODEL_NOT_LOADED");
    let result = provider_test_result(&lm, Ok(vec![model("a", Some(false)), model("b", Some(false))]), false, 5);
    assert_eq!(result.diagnostic.unwrap().title, "No hay ningún modelo cargado");
    let result = provider_test_result(&lm, Ok(vec![model("a", Some(false)), model("b", None)]), false, 5);
    assert!(result.diagnostic.is_none());
    assert_eq!(result.models.len(), 2);
    let ollama = config(ProviderId::Ollama, "http://127.0.0.1:11434");
    let result = provider_test_result(&ollama, Ok(vec![]), false, 5);
    assert_eq!(result.diagnostic.unwrap().code, "MODEL_NOT_FOUND");
}

#[test]
fn unreachable_local_providers_are_explained() {
    let ollama = config(ProviderId::Ollama, "http://127.0.0.1:11434");
    assert!(needs_install_check(ProviderId::Ollama, &failure("CONNECTION_REFUSED")));
    assert!(!needs_install_check(ProviderId::OpenAI, &failure("CONNECTION_REFUSED")));
    assert!(!needs_install_check(ProviderId::Ollama, &failure("INVALID_API_KEY")));
    let result = provider_test_result(&ollama, Err(failure("SERVER_OFFLINE")), true, 9);
    assert!(!result.connected);
    let d = result.diagnostic.unwrap();
    assert_eq!(d.title, "El servidor de Ollama está apagado");
    assert_eq!(d.explanation, "Ollama parece estar instalado, pero su servidor no responde en http://127.0.0.1:11434.");
    let result = provider_test_result(&ollama, Err(failure("REQUEST_TIMEOUT")), false, 9);
    let d = result.diagnostic.unwrap();
    assert_eq!(d.code, "PROVIDER_NOT_INSTALLED");
    assert_eq!(d.title, "Ollama no está instalado");
    let openai = config(ProviderId::OpenAI, "https://api.openai.com/v1");
    let result = provider_test_result(&openai, Err(failure("CONNECTION_REFUSED")), false, 9);
    assert_eq!(result.diagnostic.unwrap().code, "CONNECTION_REFUSED");
}

#[test]
fn searches_are_planned_from_the_query() {
    let plan = plan_web_search(&WebSearchRequest { query: "  clima en Madrid ".into(), max_results: None }).unwrap();
    match plan {
        SearchPlan::Search { query, url, max_results } => {
            assert_eq!(query, "clima en Madrid");
            assert_eq!(url, "https://html.duckduckgo.com/html/?q=clima+en+Madrid");
            assert_eq!(max_results, 4);
        }
        _ => panic!("expected a search"),
    }
    let plan = plan_web_search(&WebSearchRequest { query: "año ñ".into(), max_results: Some(40) }).unwrap();
    assert!(matches!(plan, SearchPlan::Search { url, max_results: 6, .. } if url.ends_with("?q=a%C3%B1o+%C3%B1")));
    let plan = plan_web_search(&WebSearchRequest { query: "x".into(), max_results: Some(0) }).unwrap();
    assert!(matches!(plan, SearchPlan::Search { max_results: 1, .. }));
    let plan = plan_web_search(&WebSearchRequest {
        query: "resume (https://example.com/a).".into(),
        max_results: None,
    })
    .unwrap();
    assert!(matches!(plan, SearchPlan::Search { .. }));
    let plan = plan_web_search(&WebSearchRequest {
        query: "lee https://example.com/a), por favor http://b.c".into(),
        max_results: None,
    })
    .unwrap();
    assert!(matches!(plan, SearchPlan::ReadLink { link, .. } if link == "https://example.com/a"));
    let error = plan_web_search(&WebSearchRequest { query: "   ".into(), max_results: None }).unwrap_err();
    assert_eq!(error.code, "INVALID_REQUEST");
    assert!(plan_web_search(&WebSearchRequest { query: "a".repeat(601), max_results: None }).is_err());
    assert!(plan_web_search(&WebSearchRequest { query: "é".repeat(600), max_results: None }).is_ok());
}

#[test]
fn linked_pages_and_search_results_are_assembled() {
    let found = link_result("q".into(), "https://a.b".into(), Ok("texto".into())).unwrap();
    assert_eq!(found.sources.len(), 1);
    assert_eq!(found.sources[0].title, "https://a.b");
    assert_eq!(found.sources[0].snippet, "texto");
    let error = link_result("q".into(), "https://a.b".into(), Err("404".into())).unwrap_err();
    assert_eq!(error.code, "WEB_READ_FAILED");
    assert_eq!(error.explanation, "404");
    let sources = vec![source("u1", "s1"), source("u2", "s2"), source("u3", "s3")];
    assert_eq!(pages_to_read(&sources), vec!["u1".to_string(), "u2".to_string()]);
    let result = search_result("q".into(), sources, vec![Err("x".into()), Ok("p2".into())]);
    assert_eq!(result.sources[0].snippet, "s1");
    assert_eq!(result.sources[1].snippet, "p2");
    assert_eq!(result.sources[2].snippet, "s3");
}

#[test]
fn pending_nvidia_requests_are_followed_by_id() {
    assert_eq!(request_id_headers(), vec!["nvcf-reqid", "nvcf-request-id", "x-nvcf-request-id", "request-id"]);
    let headers = vec![None, Some("h2".to_string()), Some("h3".to_string()), None];
    assert_eq!(nvidia_request_id(&headers, &None, "").unwrap(), "h2");
    let ids = Some(PendingIds { request_id_camel: None, request_id_snake: Some("b1".into()) });
    assert_eq!(nvidia_request_id(&vec![None, None, None, None], &ids, "").unwrap(), "b1");
    let hidden = Some(PendingIds { request_id_camel: Some(None), request_id_snake: Some("b1".into()) });
    let error = nvidia_request_id(&vec![None; 4], &hidden, "{\"requestId\":1}").unwrap_err();
    assert_eq!(error.code, "REQUEST_PENDING");
    assert_eq!(error.technical.as_deref(), Some("{\"requestId\":1}"));
    assert_eq!(poll_step(202), PollStep::Wait);
    assert_eq!(poll_step(200), PollStep::Ready);
    assert_eq!(poll_step(500), PollStep::Failed);
}

#[test]
fn chat_transport_decisions() {
    assert!(!uses_event_stream(ProviderId::Ollama));
    assert!(uses_event_stream(ProviderId::Anthropic));
    assert_eq!(
        no_first_response_error(120).explanation,
        "No llegó ninguna respuesta dentro de los 120 segundos configurados."
    );
    let mut request = ChatRequest {
        request_id: " ".into(),
        project_path: None,
        config: config(ProviderId::Ollama, "http://127.0.0.1:11434"),
        messages: vec![],
        attachments: vec![],
        uploads: vec![],
        external_folders: vec![],
        workspace_access: false,
        can_edit: false,
        code_mode: false,
        terminal_access: String::new(),
        terminal_shell: String::new(),
    };
    assert_eq!(check_chat_request(&request).unwrap_err().title, "Solicitud no válida");
    request.request_id = "r1".into();
    assert!(check_chat_request(&request).is_ok());
    request.config.connect_timeout_secs = 0;
    assert_eq!(check_chat_request(&request).unwrap_err().title, "Timeout no válido");
}

#[test]
fn web_view_renderer_follows_the_setting() {
    assert_eq!(renderer_mode(Some("HARDWARE")), RendererMode::Hardware);
    assert_eq!(renderer_mode(Some("Software")), RendererMode::Software);
    assert_eq!(renderer_mode(Some("gpu")), RendererMode::Detect);
    assert_eq!(renderer_mode(None), RendererMode::Detect);
    assert_eq!(software_renderer_settings().len(), 2);
    assert!(identities_show_virtual_machine(&vec![None, Some("QEMU Standard PC".into())]));
    assert!(!identities_show_virtual_machine(&vec![Some("Dell Inc.".into()), None]));
}

#[test]
fn model_listings_need_what_the_provider_needs() {
    assert_eq!(listing_key(ProviderId::Zai, None).unwrap_err().code, "INVALID_API_KEY");
    assert_eq!(listing_key(ProviderId::Zai, Some("k".into())).unwrap(), Some("k".into()));
    assert_eq!(listing_key(ProviderId::Custom, None).unwrap(), None);
    assert!(listing_too_slow_error(true).explanation.starts_with("Z.AI"));
    assert!(listing_too_slow_error(false).explanation.starts_with("El proveedor"));
    assert!(key_change_allowed(ProviderId::Ollama).is_err());
    assert!(key_change_allowed(ProviderId::Google).is_ok());
}

#[test]
fn local_providers_are_looked_for_by_name_and_folder() {
    assert_eq!(path_program_names(ProviderId::LmStudio), Some(vec!["lm-studio", "lmstudio"]));
    assert_eq!(path_program_names(ProviderId::OpenAI), None);
    let candidates = windows_install_candidates(ProviderId::LmStudio);
    assert_eq!(candidates.len(), 3);
    assert_eq!(candidates[2], (WindowsRoot::ProgramFiles, "LM Studio/LM Studio.exe"));
    assert!(windows_install_candidates(ProviderId::Anthropic).is_empty());
}

#[test]
fn long_running_replies_are_reported() {
    assert_eq!(reply_too_long_error().code, "RESPONSE_TIMEOUT");
    assert_eq!(stream_stalled_error().title, "El flujo dejó de responder");
    assert_eq!(pending_too_long_error().title, "NVIDIA tardó demasiado en preparar la respuesta");
    assert!(lm_studio_too_slow_error().retryable);
}

#[test]
fn media_requests_are_planned_before_contacting_nvidia() {
    let mut request = MediaGenerationRequest {
        request_id: "m1".into(),
        config: config(ProviderId::Nvidia, "https://integrate.api.nvidia.com/v1"),
        mode: "image".into(),
        model: "stabilityai/stable-diffusion-3-medium".into(),
        prompt: "Un faro".into(),
        image_data: None,
    };
    let plan = plan_media_request(&request, Ok(Some("secret".into()))).unwrap();
    assert_eq!(plan.url, "https://ai.api.nvidia.com/v1/genai/stabilityai/stable-diffusion-3-medium");
    assert_eq!(plan.key, "secret");
    assert_eq!(plan.timeout_secs, 180);
    assert_eq!(plan.image_prefix, "data:image/jpeg;base64,");
    assert_eq!(plan_media_request(&request, Ok(None)).unwrap_err().code, "INVALID_API_KEY");
    request.config.provider = ProviderId::OpenAI;
    assert_eq!(plan_media_request(&request, Ok(Some("k".into()))).unwrap_err().code, "UNSUPPORTED_PROVIDER");
}

#[test]
fn media_requests_are_checked_before_any_key_is_read() {
    let mut request = MediaGenerationRequest {
        request_id: "  ".into(),
        config: config(ProviderId::OpenAI, "https://api.openai.com/v1"),
        mode: "image".into(),
        model: "stabilityai/stable-diffusion-3-medium".into(),
        prompt: "Un faro".into(),
        image_data: None,
    };
    assert_eq!(check_media_request(&request).unwrap_err().code, "MEDIA_GENERATION_FAILED");
    request.request_id = "m2".into();
    assert_eq!(check_media_request(&request).unwrap_err().code, "UNSUPPORTED_PROVIDER");
    request.config.provider = ProviderId::Nvidia;
    assert!(check_media_request(&request).is_ok());
    request.prompt = "   ".into();
    assert!(check_media_request(&request).is_err());
}
