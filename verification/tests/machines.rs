use vareliox::agent::{
    allowed_program, Platform, PipeText,
    command_run_finish, command_run_start, command_run_step, cwd_outcome, AgentCommandEvent,
    RunEvent, RunPhase, MAX_OUTPUT_BYTES,
};
use vareliox::cache::{client_lookup, ClientCache};
use vareliox::search::{search_answer, SearchFetched, WebSearchRequest};
use vareliox::diagnostic::Diagnostic;
use vareliox::library::{
    comfy_candidates, comfy_probe_start, comfy_probe_step, manager_list_reply, manager_queue_reply,
    service_status_error, ComfyProbe,
};
use vareliox::provider::{ProviderConfig, ProviderId};
use vareliox::reply::{
    chat_stream_start, chat_stream_step, ChatAction, ChatStreamEvent, StreamPhase,
    CONNECTING_MESSAGE, PREPARING_MESSAGE, RECEIVING_MESSAGE,
};
use vareliox::web::{
    page_read_start, page_read_step, IpAddress, PageAction, PageEvent, PageRead, ReadStage,
    MAX_PAGE_BYTES, MAX_PAGE_HOPS,
};

fn chat_config(provider: ProviderId) -> ProviderConfig {
    ProviderConfig {
        provider,
        config_id: "c".into(),
        display_name: String::new(),
        logo_data_url: None,
        endpoint: "http://127.0.0.1:11434".into(),
        model: "m".into(),
        api_key_configured: false,
        connect_timeout_secs: 10,
        first_response_timeout_secs: 5,
        inactivity_timeout_secs: 2,
        max_response_timeout_secs: 60,
    }
}

fn status_of(actions: &[ChatAction]) -> Vec<String> {
    actions
        .iter()
        .map(|a| match a {
            ChatAction::Status(s) => format!("status:{s}"),
            ChatAction::Parse(s) => format!("parse:{s}"),
            ChatAction::Reasoning(s) => format!("reasoning:{s}"),
            ChatAction::Delta(s) => format!("delta:{s}"),
            ChatAction::Done => "done".into(),
            ChatAction::Cancelled => "cancelled".into(),
            ChatAction::Fail(d) => format!("fail:{}", d.code),
        })
        .collect()
}

#[test]
fn chat_reply_streams_and_completes() {
    let (state, actions) = chat_stream_start(&chat_config(ProviderId::OpenAI));
    assert_eq!(status_of(&actions), vec![format!("status:{CONNECTING_MESSAGE}")]);
    assert!(state.sse);
    let (state, actions) = chat_stream_step(&state, ChatStreamEvent::Sent);
    assert_eq!(status_of(&actions), vec![format!("status:{PREPARING_MESSAGE}")]);
    let (state, actions) = chat_stream_step(&state, ChatStreamEvent::Responded { elapsed_ms: 100 });
    assert_eq!(status_of(&actions), vec![format!("status:{RECEIVING_MESSAGE}")]);
    assert_eq!(state.phase, StreamPhase::Receiving);
    let (state, actions) = chat_stream_step(
        &state,
        ChatStreamEvent::Chunk { text: "data: {\"a\":1}\n\ndata: {\"b\"".into(), elapsed_ms: 200 },
    );
    assert_eq!(status_of(&actions), vec!["parse:{\"a\":1}".to_string()]);
    assert_eq!(state.buffer, "data: {\"b\"");
    let (state, actions) = chat_stream_step(
        &state,
        ChatStreamEvent::Parsed { reasoning: Some("r".into()), text: Some("hola".into()), done: false },
    );
    assert_eq!(status_of(&actions), vec!["reasoning:r".to_string(), "delta:hola".to_string()]);
    let (state, actions) = chat_stream_step(&state, ChatStreamEvent::StreamEnd);
    assert_eq!(status_of(&actions), vec!["parse:{\"b\"".to_string()]);
    assert_eq!(state.phase, StreamPhase::Closing);
    let (state, actions) = chat_stream_step(
        &state,
        ChatStreamEvent::Parsed { reasoning: None, text: Some("!".into()), done: false },
    );
    assert_eq!(status_of(&actions), vec!["delta:!".to_string(), "done".to_string()]);
    assert_eq!(state.phase, StreamPhase::Over);
    let (_, actions) = chat_stream_step(&state, ChatStreamEvent::Cancelled);
    assert!(actions.is_empty());
}

#[test]
fn chat_reply_times_out_without_first_response() {
    let (state, _) = chat_stream_start(&chat_config(ProviderId::Ollama));
    assert!(!state.sse);
    let (state, actions) = chat_stream_step(&state, ChatStreamEvent::Tick { elapsed_ms: 4999 });
    assert!(actions.is_empty());
    let (state, actions) = chat_stream_step(&state, ChatStreamEvent::Tick { elapsed_ms: 5000 });
    assert_eq!(status_of(&actions), vec!["fail:REQUEST_TIMEOUT".to_string()]);
    assert_eq!(state.phase, StreamPhase::Over);
}

#[test]
fn chat_reply_stalls_after_inactivity() {
    let (state, _) = chat_stream_start(&chat_config(ProviderId::Ollama));
    let (state, _) = chat_stream_step(&state, ChatStreamEvent::Responded { elapsed_ms: 1000 });
    let (state, actions) = chat_stream_step(&state, ChatStreamEvent::Tick { elapsed_ms: 2999 });
    assert!(actions.is_empty());
    let (_, actions) = chat_stream_step(&state, ChatStreamEvent::Tick { elapsed_ms: 3000 });
    assert_eq!(actions.len(), 1);
    assert!(matches!(actions[0], ChatAction::Fail(_)));
}

#[test]
fn chat_reply_cancellation_ends_it() {
    let (state, _) = chat_stream_start(&chat_config(ProviderId::Ollama));
    let (state, _) = chat_stream_step(&state, ChatStreamEvent::Responded { elapsed_ms: 10 });
    let (state, actions) = chat_stream_step(&state, ChatStreamEvent::Cancelled);
    assert_eq!(status_of(&actions), vec!["cancelled".to_string()]);
    let (_, actions) = chat_stream_step(
        &state,
        ChatStreamEvent::Failed(Diagnostic::new("X", "t", "e", "c", "a", false)),
    );
    assert!(actions.is_empty());
}

#[test]
fn working_directory_outcomes() {
    assert_eq!(cwd_outcome(Some("/p/src".into()), true, true), Ok("/p/src".to_string()));
    assert_eq!(
        cwd_outcome(Some("/other".into()), false, true),
        Err("La carpeta de ejecución está fuera de la ubicación autorizada.".to_string())
    );
    assert_eq!(
        cwd_outcome(Some("/p/file.txt".into()), true, false),
        Err("La carpeta de ejecución está fuera de la ubicación autorizada.".to_string())
    );
    assert_eq!(cwd_outcome(None, true, true), Err("La carpeta de ejecución no existe.".to_string()));
}

fn done_text(action: &PageAction) -> Result<String, String> {
    match action {
        PageAction::Done(r) => r.clone(),
        other => panic!("expected the end of the read, got {other:?}"),
    }
}

fn responded(status: u16, text: &str, location: Option<&str>, content_type: Option<&str>) -> PageEvent {
    PageEvent::Responded {
        status,
        status_text: text.into(),
        location: location.map(|l| l.to_string()),
        content_type: content_type.map(|c| c.to_string()),
    }
}

fn public_address() -> Vec<IpAddress> {
    vec![IpAddress::V4([93, 184, 216, 34])]
}

#[test]
fn page_read_follows_a_redirect_and_reads_text() {
    let (state, action) = page_read_start("https://example.com/a");
    assert!(matches!(action, PageAction::Resolve));
    assert_eq!(state.target.host, "example.com");
    let (state, action) = page_read_step(state, PageEvent::Resolved(public_address()));
    assert!(matches!(action, PageAction::Send));
    assert_eq!(state.requests, 1);
    let (state, action) = page_read_step(state, responded(301, "301 Moved Permanently", Some("/b"), None));
    assert!(matches!(action, PageAction::Resolve));
    assert_eq!(state.target.url, "https://example.com/b");
    let (state, _) = page_read_step(state, PageEvent::Resolved(public_address()));
    let (state, action) = page_read_step(state, responded(200, "200 OK", None, Some("text/plain")));
    assert!(matches!(action, PageAction::Receive));
    let (state, action) = page_read_step(state, PageEvent::Chunk(12));
    assert!(matches!(action, PageAction::Receive));
    let (state, action) = page_read_step(state, PageEvent::BodyEnd("  hola mundo ".into()));
    assert_eq!(done_text(&action), Ok("  hola mundo ".to_string()));
    assert_eq!(state.stage, ReadStage::Over);
}

#[test]
fn page_read_gives_up_after_five_redirects() {
    let (mut state, _) = page_read_start("https://example.com/0");
    for hop in 0..MAX_PAGE_HOPS {
        let (next, action) = page_read_step(state, PageEvent::Resolved(public_address()));
        assert!(matches!(action, PageAction::Send));
        let location = format!("/{}", hop + 1);
        let (next, action) = page_read_step(next, responded(302, "302 Found", Some(&location), None));
        state = next;
        if hop + 1 < MAX_PAGE_HOPS {
            assert!(matches!(action, PageAction::Resolve));
        } else {
            assert_eq!(
                done_text(&action),
                Err("La página tiene demasiadas redirecciones.".to_string())
            );
        }
    }
    assert_eq!(state.requests, MAX_PAGE_HOPS);
}

#[test]
fn page_read_refuses_large_bodies_and_bad_statuses() {
    let (state, _) = page_read_start("http://example.com/");
    let (state, _) = page_read_step(state, PageEvent::Resolved(public_address()));
    let (failed, action) = page_read_step(state.clone(), responded(404, "404 Not Found", None, None));
    assert_eq!(done_text(&action), Err("La página respondió HTTP 404 Not Found.".to_string()));
    assert_eq!(failed.stage, ReadStage::Over);
    let (state, _) = page_read_step(state, responded(200, "200 OK", None, Some("text/html")));
    assert!(state.html);
    let (state, action) = page_read_step(state, PageEvent::Chunk(MAX_PAGE_BYTES));
    assert!(matches!(action, PageAction::Receive));
    let (_, action) = page_read_step(state, PageEvent::Chunk(1));
    assert_eq!(done_text(&action), Err("La página supera el tamaño permitido.".to_string()));
}

#[test]
fn page_read_refuses_private_addresses_and_bad_links() {
    let (state, _) = page_read_start("https://example.com/");
    let (_, action) = page_read_step(state, PageEvent::Resolved(vec![IpAddress::V4([127, 0, 0, 1])]));
    assert_eq!(
        done_text(&action),
        Err("El enlace no corresponde a una dirección pública.".to_string())
    );
    let (state, action) = page_read_start("ftp://example.com/");
    assert_eq!(
        done_text(&action),
        Err("Solo se pueden consultar páginas web públicas HTTP o HTTPS.".to_string())
    );
    let (_, action) = page_read_step(state, PageEvent::ResolveFailed);
    assert!(matches!(action, PageAction::Ignore));
    let (_, action) = page_read_start("no es un enlace");
    assert_eq!(done_text(&action), Err("El enlace no es válido.".to_string()));
}

fn event_name(e: &AgentCommandEvent) -> String {
    match e {
        AgentCommandEvent::Started { command } => format!("started:{command}"),
        AgentCommandEvent::Output { stream, text } => format!("{stream}:{text}"),
        AgentCommandEvent::Finished { exit_code, truncated, .. } => format!("finished:{exit_code:?}:{truncated}"),
        AgentCommandEvent::Cancelled => "cancelled".into(),
        AgentCommandEvent::Error { code, .. } => format!("error:{code}"),
    }
}

#[test]
fn command_run_reports_in_order() {
    let (state, started) = command_run_start("npm test", 30);
    assert_eq!(event_name(&started), "started:npm test");
    let (state, step) = command_run_step(state, RunEvent::Output { stream: "stdout".into(), text: "ok\n".into() });
    assert_eq!(step.events.iter().map(event_name).collect::<Vec<_>>(), vec!["stdout:ok\n".to_string()]);
    assert_eq!(state.output, 3);
    let (state, step) = command_run_step(state, RunEvent::Exited(Some(0)));
    assert!(step.events.is_empty() && !step.complete);
    let (state, step) = command_run_step(state, RunEvent::PipesClosed);
    assert!(step.complete);
    assert_eq!(state.phase, RunPhase::Completed);
    let (state, last) = command_run_finish(state, false, 12);
    assert_eq!(event_name(&last.unwrap()), "finished:Some(0):false");
    assert_eq!(state.phase, RunPhase::Over);
    let (_, step) = command_run_step(state, RunEvent::Cancelled);
    assert!(step.events.is_empty());
}

#[test]
fn command_run_timeout_is_the_last_event() {
    let (state, _) = command_run_start("cargo build", 7);
    let (state, step) = command_run_step(state, RunEvent::TimedOut);
    assert!(step.terminate);
    assert_eq!(step.events.len(), 1);
    match &step.events[0] {
        AgentCommandEvent::Error { code, explanation, .. } => {
            assert_eq!(code, "COMMAND_TIMEOUT");
            assert_eq!(explanation, "Superó el límite de 7 segundos.");
        }
        other => panic!("unexpected {other:?}"),
    }
    assert_eq!(state.phase, RunPhase::Stopped);
    let (_, step) = command_run_step(state, RunEvent::Output { stream: "stdout".into(), text: "late".into() });
    assert!(step.events.is_empty());
}

#[test]
fn command_run_output_stays_within_budget() {
    let (mut state, _) = command_run_start("x", 5);
    let big = "é".repeat(MAX_OUTPUT_BYTES / 2 + 1);
    let (next, step) = command_run_step(state, RunEvent::Output { stream: "stdout".into(), text: big });
    state = next;
    assert_eq!(state.output, MAX_OUTPUT_BYTES);
    assert!(state.truncated);
    assert_eq!(step.events.len(), 1);
    let (next, step) = command_run_step(state, RunEvent::Output { stream: "stderr".into(), text: "x".into() });
    assert!(step.events.is_empty());
    let (next, _) = command_run_step(next, RunEvent::PipesClosed);
    let (next, _) = command_run_step(next, RunEvent::Exited(None));
    let (_, last) = command_run_finish(next, true, 3);
    assert!(last.is_none());
}

#[test]
fn comfy_probe_tries_candidates_in_order() {
    assert_eq!(
        comfy_candidates(),
        vec!["http://127.0.0.1:8000", "http://127.0.0.1:8188", "http://127.0.0.1:8189", "http://127.0.0.1:8190"]
    );
    let mut probe = comfy_probe_start();
    let mut seen = Vec::new();
    loop {
        match probe {
            ComfyProbe::Probe(i, address) => {
                seen.push(address.clone());
                probe = comfy_probe_step(i, address.ends_with("8189"));
            }
            ComfyProbe::Found(address) => {
                assert_eq!(address, "http://127.0.0.1:8189");
                break;
            }
            ComfyProbe::Offline => panic!("a candidate answered"),
        }
    }
    assert_eq!(seen.len(), 3);
    assert!(matches!(comfy_probe_step(3, false), ComfyProbe::Offline));
}

#[test]
fn manager_replies_are_checked() {
    let missing = manager_list_reply(404, "404 Not Found", "").unwrap_err();
    assert_eq!(missing.code, "COMFYUI_MANAGER_MISSING");
    let failed = manager_list_reply(500, "500 Internal Server Error", "boom").unwrap_err();
    assert_eq!(failed.code, "HTTP_ERROR");
    assert_eq!(failed.explanation, "ComfyUI-Manager respondió HTTP 500 Internal Server Error.");
    assert!(failed.retryable);
    assert_eq!(failed.technical.as_deref(), Some("boom"));
    assert!(manager_list_reply(200, "200 OK", "[]").is_ok());
    assert!(manager_queue_reply(true, 201, "201 Created", "").is_ok());
    let refused = manager_queue_reply(false, 403, "403 Forbidden", "no").unwrap_err();
    assert!(!refused.retryable);
    let d = service_status_error("X", 502, "502 Bad Gateway", "b");
    assert_eq!(d.explanation, "X respondió HTTP 502 Bad Gateway.");
}

#[test]
fn pipe_text_reassembles_characters_split_across_reads() {
    let original = "héllo ✓ 🎉 fin";
    let bytes = original.as_bytes();
    for size in 1..=5 {
        let mut text = PipeText::new();
        let mut joined = String::new();
        for chunk in bytes.chunks(size) {
            if let Some(piece) = text.feed(chunk) {
                assert!(!piece.is_empty());
                joined.push_str(&piece);
            }
        }
        if let Some(rest) = text.finish() {
            joined.push_str(&rest);
        }
        assert_eq!(joined, original);
    }
}

#[test]
fn pipe_text_passes_invalid_bytes_on() {
    let mut text = PipeText::new();
    let piece = text.feed(&[b'a', 0xff, b'b']).unwrap();
    assert_eq!(piece, "a\u{fffd}b");
    assert!(text.feed(&[0xe2, 0x9c]).is_none());
    assert_eq!(text.finish().unwrap(), "\u{fffd}");
}

#[test]
fn client_lookup_checks_before_reading_the_cache() {
    let mut cache: ClientCache<u32> = ClientCache::new();
    let mut bad = chat_config(ProviderId::OpenAI);
    bad.connect_timeout_secs = 0;
    assert_eq!(client_lookup(&cache, &bad).unwrap_err().code, "INVALID_RESPONSE");
    let mut first = chat_config(ProviderId::OpenAI);
    first.endpoint = "  HTTPS://Api.Example.com/v1 ".into();
    let (key, found) = client_lookup(&cache, &first).unwrap();
    assert!(found.is_none());
    assert_eq!(key.endpoint, "https://api.example.com/v1");
    cache.remember(key, 7);
    let mut second = chat_config(ProviderId::Anthropic);
    second.endpoint = "https://api.example.COM/v1".into();
    let (_, found) = client_lookup(&cache, &second).unwrap();
    assert_eq!(found, Some(&7));
    second.connect_timeout_secs = 11;
    let (_, found) = client_lookup(&cache, &second).unwrap();
    assert!(found.is_none());
}

#[test]
fn program_names_ignore_case_and_spaces() {
    for platform in [Platform::Unix, Platform::Windows] {
        assert_eq!(allowed_program(" NPM.EXE ", platform), allowed_program("npm", platform));
        assert_eq!(allowed_program("Cargo", platform), allowed_program("CARGO", platform));
        for shell in ["bash", "sh", "zsh", "cmd", "pwsh", "curl", "BASH.EXE"] {
            assert!(allowed_program(shell, platform).is_none(), "{shell}");
        }
    }
}

#[test]
fn project_commands_are_distinct_and_runnable() {
    let markers = vareliox::agent::ProjectMarkers {
        package_json: Some("{\"scripts\":{\"test\":\"x\",\"build\":\"y\",\"lint\":\"z\"}}".into()),
        cargo_toml: true,
        pyproject_toml: true,
        pytest_ini: false,
        tests_dir: false,
        go_mod: true,
        solution_file: true,
    };
    let commands = vareliox::agent::project_commands(&markers);
    assert_eq!(commands.len(), 11);
    for (i, a) in commands.iter().enumerate() {
        for b in &commands[i + 1..] {
            assert_ne!(a.id, b.id);
        }
        for platform in [Platform::Unix, Platform::Windows] {
            assert!(allowed_program(&a.program, platform).is_some(), "{}", a.program);
        }
        assert!(vareliox::agent::validate_args(&a.args).is_ok(), "{:?}", a.args);
    }
}

#[test]
fn connection_failures_name_the_service() {
    let d = vareliox::diagnostic::connection_failed("ComfyUI-Manager", "http://127.0.0.1:8188", "refused");
    assert_eq!(d.code, "CONNECTION_FAILED");
    assert_eq!(d.explanation, "No se pudo conectar con ComfyUI-Manager en http://127.0.0.1:8188.");
    assert_eq!(d.technical.as_deref(), Some("refused"));
    assert!(d.retryable);
}

#[test]
fn active_requests_start_replace_and_finish() {
    let mut active: vareliox::active::ActiveRequests<u32> = vareliox::active::ActiveRequests::new();
    assert!(active.get("a").is_none());
    active.start("a".into(), 1);
    active.start("b".into(), 2);
    active.start("a".into(), 3);
    assert_eq!(active.get("a"), Some(&3));
    assert_eq!(active.get("b"), Some(&2));
    active.finish("a");
    assert!(active.get("a").is_none());
    assert_eq!(active.get("b"), Some(&2));
    active.finish("missing");
    assert_eq!(active.get("b"), Some(&2));
}

#[test]
fn search_answers_follow_the_request() {
    let html = r#"
      <a class="result__a" href="https://one.example/">Uno</a><a class="result__snippet">s1</a>
      <a class="result__a" href="https://three.example/">Tres</a><a class="result__snippet">s3</a>
      <a class="result__a" href="https://four.example/">Cuatro</a>
    "#;
    let request = WebSearchRequest { query: "  precio del cobre  ".into(), max_results: Some(2) };
    let fetched = SearchFetched::Results { html: html.into(), pages: vec![Ok("texto".into()), Err("no".into())] };
    let result = search_answer(&request, fetched).unwrap().unwrap();
    assert_eq!(result.query, "precio del cobre");
    assert_eq!(result.sources.len(), 2);
    assert_eq!(result.sources[0].snippet, "texto");
    assert_eq!(result.sources[1].snippet, "s3");
    let request = WebSearchRequest { query: "lee https://example.com/a".into(), max_results: None };
    let result = search_answer(&request, SearchFetched::Page(Ok("hola".into()))).unwrap().unwrap();
    assert_eq!(result.sources.len(), 1);
    assert_eq!(result.sources[0].url, "https://example.com/a");
    assert!(search_answer(&request, SearchFetched::Results { html: String::new(), pages: vec![] }).is_none());
    let blank = WebSearchRequest { query: "   ".into(), max_results: None };
    let refused = search_answer(&blank, SearchFetched::Page(Ok(String::new()))).unwrap().unwrap_err();
    assert_eq!(refused.code, "INVALID_REQUEST");
}

#[test]
fn client_for_builds_once_per_connection() {
    let mut cache: ClientCache<u32> = ClientCache::new();
    let mut first = chat_config(ProviderId::OpenAI);
    first.endpoint = " https://API.example.com ".into();
    assert_eq!(cache.client_for(&first, || Ok(5)).unwrap(), 5);
    let mut second = chat_config(ProviderId::Zai);
    second.endpoint = "https://api.example.com".into();
    assert_eq!(cache.client_for(&second, || panic!("the cached client is reused")).unwrap(), 5);
    let mut bad = chat_config(ProviderId::OpenAI);
    bad.max_response_timeout_secs = 5;
    assert_eq!(cache.client_for(&bad, || Ok(9)).unwrap_err().code, "INVALID_RESPONSE");
    second.connect_timeout_secs = 20;
    assert_eq!(cache.client_for(&second, || Err(Diagnostic::new("X", "t", "e", "c", "a", false))).unwrap_err().code, "X");
    for n in 0..12u64 {
        let mut c = chat_config(ProviderId::OpenAI);
        c.endpoint = format!("https://host{n}.example");
        assert_eq!(cache.client_for(&c, || Ok(n as u32)).unwrap(), n as u32);
    }
    assert_eq!(cache.client_for(&first, || Ok(7)).unwrap(), 7);
}
