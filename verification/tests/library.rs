use std::collections::HashSet;

use vareliox::catalog::{comfyui_model_files, list_local_model_catalog, local_model_catalog};
use vareliox::library::{
    comfy_download_started, comfy_installations_include_local, comfy_offline_error,
    download_opening, lm_studio_start, lm_studio_status_path, lm_studio_step, manager_installs,
    plan_comfy_download, plan_local_download, queue_status, ComfyInstallation, DownloadStart,
    DownloadStep, LmStudioStart, LmStudioStatus, ManagerCatalog, ManagerEntry,
};
use vareliox::media::{
    nvidia_media_payload, nvidia_media_result, MediaGenerationRequest, MediaResponse, MediaSource,
    PayloadValue,
};
use vareliox::provider::{ProviderConfig, ProviderId};

fn nvidia_config() -> ProviderConfig {
    ProviderConfig {
        provider: ProviderId::Nvidia,
        config_id: "nvidia".into(),
        display_name: "NVIDIA API".into(),
        logo_data_url: None,
        endpoint: "https://integrate.api.nvidia.com/v1".into(),
        model: String::new(),
        api_key_configured: true,
        connect_timeout_secs: 10,
        first_response_timeout_secs: 120,
        inactivity_timeout_secs: 60,
        max_response_timeout_secs: 900,
    }
}

fn installation(source: Option<&str>, remote: Option<&str>, status: Option<&str>) -> ComfyInstallation {
    ComfyInstallation {
        source_id: source.map(str::to_string),
        remote_url: remote.map(str::to_string),
        status: status.map(str::to_string),
    }
}

fn entry(filename: Option<&str>, url: Option<&str>) -> ManagerEntry {
    ManagerEntry { filename: filename.map(str::to_string), url: url.map(str::to_string) }
}

#[test]
fn local_catalog_has_distinct_ai_categories_and_unique_ids() {
    let catalog = local_model_catalog();
    let categories = catalog.iter().map(|item| item.category.as_str()).collect::<HashSet<_>>();
    let ids = catalog.iter().map(|item| item.id.as_str()).collect::<HashSet<_>>();
    assert_eq!(ids.len(), catalog.len());
    for expected in ["chat", "code", "vision", "image", "video"] {
        assert!(categories.contains(expected));
    }
    assert!(catalog.iter().any(|item| item.id == "qwen3-vl-4b"));
}

#[test]
fn generation_models_are_not_exposed_to_chat_runtimes() {
    for model in local_model_catalog()
        .into_iter()
        .filter(|item| matches!(item.category.as_str(), "image" | "video"))
    {
        assert_eq!(model.runtimes, vec!["comfyui"]);
        assert!(model.ollama_id.is_empty());
        assert!(model.lm_studio_id.is_empty());
        assert!(model
            .guide_url
            .as_deref()
            .is_some_and(|url| url.starts_with("https://docs.comfy.org/")));
        assert!(comfyui_model_files(&model.id).is_some());
    }
}

#[test]
fn listed_catalog_is_the_library_in_display_order() {
    let listed = list_local_model_catalog();
    assert_eq!(listed.len(), 29);
    assert_eq!(listed[0].id, "qwen3-4b");
    assert_eq!(listed[28].id, "wan22-t2v-14b");
    assert_eq!(listed[0].runtimes, vec!["ollama", "lm_studio"]);
}

#[test]
fn nvidia_media_uses_the_documented_image_and_video_shapes() {
    let image = MediaGenerationRequest {
        request_id: "test-image".into(),
        config: nvidia_config(),
        mode: "image".into(),
        model: "black-forest-labs/flux.1-schnell".into(),
        prompt: "A small nebula".into(),
        image_data: None,
    };
    assert!(matches!(nvidia_media_payload(&image).unwrap().get("steps"), Some(PayloadValue::Int(4))));
    let sd3 = MediaGenerationRequest {
        request_id: "test-sd3".into(),
        config: nvidia_config(),
        mode: "image".into(),
        model: "stabilityai/stable-diffusion-3-medium".into(),
        prompt: "A small nebula".into(),
        image_data: None,
    };
    assert!(matches!(
        nvidia_media_payload(&sd3).unwrap().get("model"),
        Some(PayloadValue::Text(model)) if model == "sd3"
    ));
    let sdxl = MediaGenerationRequest {
        request_id: "test-sdxl".into(),
        config: nvidia_config(),
        mode: "image".into(),
        model: "stabilityai/stable-diffusion-xl".into(),
        prompt: "A small nebula".into(),
        image_data: None,
    };
    assert!(nvidia_media_payload(&sdxl).unwrap().get("text_prompts").is_some());
    let video = MediaGenerationRequest {
        request_id: "test-video".into(),
        config: nvidia_config(),
        mode: "video".into(),
        model: "stabilityai/stable-video-diffusion".into(),
        prompt: String::new(),
        image_data: Some("data:image/png;base64,AA==".into()),
    };
    assert!(nvidia_media_payload(&video).unwrap().get("image").is_some());
    // {"artifacts":[{"base64":"AAAA","seed":12}]}
    let response = MediaResponse {
        artifact: Some((
            MediaSource { base64: Some(Some("AAAA".into())), data: None, b64_json: None },
            Some(12),
        )),
        top: MediaSource { base64: None, data: None, b64_json: None },
    };
    let generated = nvidia_media_result(&response, "image", "data:image/png;base64,").unwrap();
    assert_eq!(generated.data_url, "data:image/png;base64,AAAA");
    assert_eq!(generated.seed, Some(12));
}

#[test]
fn comfy_desktop_cloud_entry_is_not_mistaken_for_a_local_runtime() {
    // [{"sourceId": "cloud", "remoteUrl": "https://cloud.comfy.org/", "status": "installed"}]
    let cloud_only = Some(vec![installation(
        Some("cloud"),
        Some("https://cloud.comfy.org/"),
        Some("installed"),
    )]);
    // plus {"sourceId": "standalone", "installPath": "C:/ComfyUI", "status": "installed"}
    let with_local = Some(vec![
        installation(Some("cloud"), Some("https://cloud.comfy.org/"), Some("installed")),
        installation(Some("standalone"), None, Some("installed")),
    ]);
    assert!(!comfy_installations_include_local(&cloud_only));
    assert!(comfy_installations_include_local(&with_local));
}

#[test]
fn installation_lists_need_an_installed_local_entry() {
    assert!(!comfy_installations_include_local(&None));
    assert!(!comfy_installations_include_local(&Some(vec![])));
    assert!(!comfy_installations_include_local(&Some(vec![installation(None, None, Some("pending"))])));
    assert!(comfy_installations_include_local(&Some(vec![installation(None, None, Some("installed"))])));
}

#[test]
fn local_downloads_need_a_local_runtime_that_installs_the_model() {
    let model = plan_local_download(ProviderId::Ollama, "qwen3-8b").unwrap();
    assert_eq!(model.ollama_id, "qwen3:8b");
    let model = plan_local_download(ProviderId::LmStudio, "qwen3-8b").unwrap();
    assert_eq!(model.lm_studio_id, "qwen/qwen3-8b");
    let error = plan_local_download(ProviderId::OpenAI, "qwen3-8b").unwrap_err();
    assert_eq!(error.title, "Proveedor no local");
    let error = plan_local_download(ProviderId::Ollama, "no-such-model").unwrap_err();
    assert_eq!(error.code, "MODEL_NOT_FOUND");
    let error = plan_local_download(ProviderId::LmStudio, "flux1-schnell").unwrap_err();
    assert_eq!(error.code, "INCOMPATIBLE_RUNTIME");
    assert_eq!(error.explanation, "FLUX.1 Schnell no se puede instalar con LM Studio.");
}

#[test]
fn comfy_downloads_list_the_files_of_generation_models() {
    let (model, files) = plan_comfy_download("flux2-dev").unwrap();
    assert_eq!(model.name, "FLUX.2 Dev");
    assert_eq!(files.len(), 3);
    assert_eq!(files[2], "flux2-vae.safetensors");
    let error = plan_comfy_download("qwen3-8b").unwrap_err();
    assert_eq!(error.title, "Modelo no disponible");
}

#[test]
fn offline_comfy_is_explained_by_what_is_installed() {
    assert_eq!(comfy_offline_error(true, false).code, "COMFYUI_LOCAL_SETUP_REQUIRED");
    assert_eq!(comfy_offline_error(true, true).code, "SERVER_OFFLINE");
    assert_eq!(comfy_offline_error(false, true).code, "SERVER_OFFLINE");
    assert_eq!(comfy_offline_error(false, false).code, "PROVIDER_NOT_INSTALLED");
}

#[test]
fn manager_entries_are_matched_by_name_or_address() {
    let files = vec!["a.safetensors", "b.safetensors"];
    let catalog = ManagerCatalog::Listed(vec![
        entry(None, Some("https://host/models/b.safetensors")),
        entry(Some("a.safetensors"), None),
        entry(Some("b.safetensors"), None),
    ]);
    let installs = manager_installs("m1", &files, &catalog).unwrap();
    assert_eq!(installs.len(), 2);
    assert_eq!(installs[0].entry, 1);
    assert_eq!(installs[0].ui_id, "nova-m1-a.safetensors");
    assert_eq!(installs[1].entry, 0);
    assert_eq!(installs[1].ui_id, "nova-m1-b.safetensors");
    let missing = ManagerCatalog::Listed(vec![entry(Some("a.safetensors"), None)]);
    let error = manager_installs("m1", &files, &missing).unwrap_err();
    assert_eq!(error.explanation, "Falta b.safetensors en el catálogo de ComfyUI-Manager.");
    let error = manager_installs("m1", &files, &ManagerCatalog::Unlisted).unwrap_err();
    assert_eq!(error.title, "Catálogo de ComfyUI incompatible");
    let error = manager_installs("m1", &files, &ManagerCatalog::Unreadable).unwrap_err();
    assert_eq!(error.title, "ComfyUI devolvió una respuesta inválida");
}

#[test]
fn queue_progress_spans_the_first_eighty_percent() {
    assert_eq!(queue_status(Some("a.bin"), 0, 3), ("Añadiendo a.bin a la cola de ComfyUI…".to_string(), 0));
    assert_eq!(queue_status(None, 2, 3).1, 53);
    assert_eq!(queue_status(None, 2, 3).0, "Añadiendo archivo del modelo a la cola de ComfyUI…");
    assert_eq!(comfy_download_started("Wan"), "Wan se está descargando en ComfyUI.");
}

#[test]
fn lm_studio_downloads_follow_the_job() {
    let already = LmStudioStart::Reply {
        status: Some("already_downloaded".into()),
        job_id: None,
        job_id_camel: None,
    };
    assert!(matches!(lm_studio_start(&already, "{}").unwrap(), DownloadStart::AlreadyDownloaded));
    let job = LmStudioStart::Reply { status: None, job_id: None, job_id_camel: Some("j7".into()) };
    assert!(matches!(lm_studio_start(&job, "{}").unwrap(), DownloadStart::Job(id) if id == "j7"));
    let shadowed = LmStudioStart::Reply { status: None, job_id: Some(None), job_id_camel: Some("j7".into()) };
    let error = lm_studio_start(&shadowed, "{\"job_id\":7}").unwrap_err();
    assert_eq!(error.technical.as_deref(), Some("{\"job_id\":7}"));
    assert!(lm_studio_start(&LmStudioStart::Unreadable, "<html>").is_err());
    assert_eq!(lm_studio_status_path("j7"), "/api/v1/models/download/status/j7");
    let done = LmStudioStatus::Reply { status: Some("completed".into()), error: None };
    assert!(matches!(lm_studio_step(&done, "").unwrap(), DownloadStep::Finished));
    let paused = LmStudioStatus::Reply { status: Some("paused".into()), error: None };
    assert!(matches!(lm_studio_step(&paused, "").unwrap(), DownloadStep::Waiting(m) if m == "Descarga pausada en LM Studio"));
    let failed = LmStudioStatus::Reply { status: Some("failed".into()), error: Some("sin espacio".into()) };
    let error = lm_studio_step(&failed, "{}").unwrap_err();
    assert_eq!(error.explanation, "sin espacio");
    assert!(error.retryable);
    let running = LmStudioStatus::Reply { status: None, error: None };
    assert!(matches!(lm_studio_step(&running, "").unwrap(), DownloadStep::Waiting(_)));
}

#[test]
fn download_opening_names_the_model_and_runtime() {
    assert!(download_opening(ProviderId::Ollama, "Qwen3 8B").starts_with("Preparando Qwen3 8B en Ollama"));
    assert!(download_opening(ProviderId::LmStudio, "Qwen3 8B").starts_with("Solicitando Qwen3 8B a LM Studio"));
}
