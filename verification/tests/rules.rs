use vareliox::agent::{
    canonical_root, complete_plan, extended_tool_path, root_outcome, flush_len, plan_invocation, safe_cwd, AgentCommandRequest,
    Platform,
};
use vareliox::cache::{client_key, ClientCache, CACHE_LIMIT};
use vareliox::provider::{key_for, validate_settings, AiSettings, ProviderConfig, ProviderId};
use vareliox::search::scan_search_results;
use vareliox::web::{check_addresses, redirect_target, IpAddress};

fn config(provider: ProviderId, id: &str, endpoint: &str) -> ProviderConfig {
    ProviderConfig {
        provider,
        config_id: id.into(),
        display_name: "  Mi proveedor  ".into(),
        logo_data_url: None,
        endpoint: endpoint.into(),
        model: String::new(),
        api_key_configured: false,
        connect_timeout_secs: 10,
        first_response_timeout_secs: 120,
        inactivity_timeout_secs: 60,
        max_response_timeout_secs: 900,
    }
}

fn safe_request(program: &str, args: &[&str]) -> AgentCommandRequest {
    AgentCommandRequest {
        request_id: "r".into(),
        root: "/".into(),
        cwd: String::new(),
        program: program.into(),
        args: args.iter().map(|a| a.to_string()).collect(),
        timeout_secs: 30,
        terminal_mode: "project".into(),
        shell: "automatic".into(),
        command: None,
    }
}

#[test]
fn absolute_working_directories_follow_the_authorized_root() {
    let authorized = tempfile::tempdir().unwrap();
    let authorized_root = canonical_root(&authorized.path().to_string_lossy()).unwrap();
    let inside = tempfile::Builder::new().prefix("inside").tempdir_in(authorized.path()).unwrap();
    let inside_canonical = canonical_root(&inside.path().to_string_lossy()).unwrap();
    assert_eq!(safe_cwd(&authorized_root, &inside.path().to_string_lossy()).unwrap(), inside_canonical);
    let relative = inside.path().file_name().unwrap().to_string_lossy().to_string();
    assert_eq!(safe_cwd(&authorized_root, &relative).unwrap(), inside_canonical);
    assert_eq!(safe_cwd(&authorized_root, "   ").unwrap(), authorized_root);

    let outside = tempfile::tempdir().unwrap();
    assert!(safe_cwd(&authorized_root, &outside.path().to_string_lossy()).is_err());
    assert!(safe_cwd(&authorized_root, "..").is_err());
    assert!(canonical_root("/no/such/folder/here").is_err());
}

#[test]
fn safe_level_runs_only_allowlisted_programs_with_checked_arguments() {
    let (program, args) = plan_invocation(&safe_request("Cargo.EXE", &["check"]), Platform::Unix, false).unwrap();
    assert_eq!(program, "cargo");
    assert_eq!(args, vec!["check".to_string()]);
    assert!(plan_invocation(&safe_request("bash", &["-c", "ls"]), Platform::Unix, false).is_err());
    assert!(plan_invocation(&safe_request("cargo", &["check", ";", "rm"]), Platform::Unix, false).is_err());
    let mut request = safe_request("cargo", &["check"]);
    request.command = Some("cargo check".into());
    assert!(plan_invocation(&request, Platform::Unix, true).is_err());
}

#[test]
fn clients_are_reused_per_endpoint_and_timeout() {
    let first = config(ProviderId::Ollama, "ollama", "  HTTP://LocalHost:11434 ");
    let key = client_key(&first);
    assert_eq!(key.endpoint, "http://localhost:11434");
    let mut cache: ClientCache<u32> = ClientCache::new();
    assert!(cache.lookup(&key).is_none());
    cache.remember(key.clone(), 7);
    assert_eq!(cache.lookup(&client_key(&config(ProviderId::Ollama, "x", "http://localhost:11434"))), Some(&7));
    let mut other = config(ProviderId::Ollama, "ollama", "http://localhost:11434");
    other.connect_timeout_secs = 20;
    assert!(cache.lookup(&client_key(&other)).is_none());
}

#[test]
fn a_full_client_cache_starts_over() {
    let mut cache: ClientCache<usize> = ClientCache::new();
    for n in 0..CACHE_LIMIT {
        let key = client_key(&config(ProviderId::Custom, "c", &format!("http://host{n}")));
        cache.remember(key, n);
    }
    let first = client_key(&config(ProviderId::Custom, "c", "http://host0"));
    assert_eq!(cache.lookup(&first), Some(&0));
    let extra = client_key(&config(ProviderId::Custom, "c", "http://extra"));
    cache.remember(extra.clone(), 99);
    assert_eq!(cache.lookup(&extra), Some(&99));
    assert!(cache.lookup(&first).is_none());
}

#[test]
fn saved_settings_have_unique_ids_and_canonical_names() {
    let settings = AiSettings {
        providers: vec![
            config(ProviderId::Ollama, "anything", "http://127.0.0.1:11434"),
            config(ProviderId::Custom, "mine", "https://example.com/v1"),
        ],
        active_config_id: Some("mine".into()),
        active_provider: None,
    };
    let saved = validate_settings(settings).unwrap();
    assert_eq!(saved.providers[0].config_id, "ollama");
    assert_eq!(saved.providers[0].display_name, "Ollama");
    assert_eq!(saved.providers[1].display_name, "Mi proveedor");
    assert_eq!(saved.active_provider, Some(ProviderId::Custom));
    let repeated = AiSettings {
        providers: vec![
            config(ProviderId::Custom, "same", "https://a.example"),
            config(ProviderId::Custom, "same", "https://b.example"),
        ],
        active_config_id: None,
        active_provider: None,
    };
    assert_eq!(
        validate_settings(repeated).unwrap_err(),
        "Cada proveedor debe tener un identificador único."
    );
    let missing_active = AiSettings {
        providers: vec![config(ProviderId::Custom, "one", "https://a.example")],
        active_config_id: Some("two".into()),
        active_provider: None,
    };
    assert_eq!(validate_settings(missing_active).unwrap_err(), "El proveedor activo ya no existe.");
}

#[test]
fn keys_come_from_the_credential_store_where_needed() {
    let ollama = config(ProviderId::Ollama, "ollama", "http://127.0.0.1:11434");
    assert_eq!(key_for(&ollama, Ok(Some("k".into()))).unwrap(), None);
    let openai = config(ProviderId::OpenAI, "openai", "https://api.openai.com/v1");
    assert_eq!(key_for(&openai, Ok(Some("k".into()))).unwrap(), Some("k".into()));
    assert_eq!(key_for(&openai, Ok(None)).unwrap_err().code, "INVALID_API_KEY");
    assert_eq!(key_for(&openai, Err("bloqueado".into())).unwrap_err().explanation, "bloqueado");
    let custom = config(ProviderId::Custom, "c", "https://example.com");
    assert_eq!(key_for(&custom, Ok(None)).unwrap(), None);
}

#[test]
fn search_results_are_limited_and_never_repeat_a_destination() {
    let html = r#"
      <a class="result__a" href="https://one.example/">Uno</a><a class="result__snippet">s1</a>
      <a class="result__a" href="https://one.example/">Otra vez</a><a class="result__snippet">s2</a>
      <a class="result__a" href="https://two.example/"></a>
      <a class="result__a" href="https://three.example/">Tres</a><a class="result__snippet">s3</a>
      <a class="result__a" href="https://four.example/">Cuatro</a>
    "#;
    let all = scan_search_results(html, 6).unwrap();
    let urls: Vec<&str> = all.iter().map(|s| s.url.as_str()).collect();
    assert_eq!(urls, vec!["https://one.example/", "https://three.example/", "https://four.example/"]);
    assert_eq!(all[2].snippet, "");
    assert_eq!(scan_search_results(html, 2).unwrap().len(), 2);
}

#[test]
fn pipes_hold_back_only_an_unfinished_character() {
    assert_eq!(flush_len(b"hola"), 4);
    assert_eq!(flush_len(&[b'a', 0xc3]), 1);
    assert_eq!(flush_len(&[b'a', 0xc3, 0xb1]), 3);
    assert_eq!(flush_len(&[b'a', 0xff, b'b']), 3);
    assert_eq!(flush_len(&[]), 0);
}

#[test]
fn tool_folders_are_added_once() {
    let paths = vec!["C:\\Windows".to_string(), "c:\\program files\\nmap".to_string()];
    assert_eq!(extended_tool_path(paths.clone(), &vec!["C:\\Program Files\\Nmap"]), None);
    let extended = extended_tool_path(paths, &vec!["C:\\Program Files (x86)\\Nmap"]).unwrap();
    assert_eq!(extended.len(), 3);
    assert_eq!(extended[2], "C:\\Program Files (x86)\\Nmap");
}

#[test]
fn redirects_resolve_against_the_current_page_and_stay_public() {
    let next = redirect_target("https://example.com/a/b", Some("../c?x=1")).unwrap();
    assert_eq!(next.url, "https://example.com/c?x=1");
    assert_eq!(next.host, "example.com");
    assert_eq!(next.port, 443);
    assert!(redirect_target("https://example.com/", None).is_err());
    assert!(redirect_target("https://example.com/", Some("ftp://example.com/")).is_err());
    assert!(redirect_target("https://example.com/", Some("http://example.com:8080/")).is_err());
    assert!(check_addresses(&vec![]).is_err());
    assert!(check_addresses(&vec![IpAddress::V4([8, 8, 8, 8])]).is_ok());
    assert_eq!(
        check_addresses(&vec![IpAddress::V4([8, 8, 8, 8]), IpAddress::V4([192, 168, 1, 1])]).unwrap_err(),
        "El enlace no corresponde a una dirección pública."
    );
}

#[test]
fn roots_must_be_existing_directories() {
    assert_eq!(root_outcome(Some("/p".into()), true).unwrap(), "/p");
    assert_eq!(root_outcome(Some("/p/a.txt".into()), false).unwrap_err(), "La ruta asignada no es una carpeta.");
    assert_eq!(
        root_outcome(None, true).unwrap_err(),
        "La carpeta del proyecto no existe o no es accesible."
    );
    assert!(canonical_root("/usr").unwrap().starts_with('/'));
}

#[test]
fn plans_clamp_the_timeout_and_need_a_request_id() {
    let mut request = safe_request("cargo", &["test"]);
    request.timeout_secs = 5000;
    let plan = complete_plan(&request, Platform::Unix, "/p".into(), "/p/src".into(), false).unwrap();
    assert_eq!(plan.root, "/p");
    assert_eq!(plan.cwd, "/p/src");
    assert_eq!(plan.program, "cargo");
    assert_eq!(plan.timeout_secs, 900);
    assert_eq!(plan.display, "cargo test");
    request.request_id = " ".into();
    assert_eq!(
        complete_plan(&request, Platform::Unix, "/p".into(), "/p".into(), false).unwrap_err(),
        "Falta el identificador del proceso."
    );
}
