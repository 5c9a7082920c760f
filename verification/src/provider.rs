//! AI providers: identities, connection settings and their validation.
use vstd::prelude::*;
use crate::diagnostic::{diag, secret_error, secret_error_spec, Diagnostic, DiagnosticView};
use crate::text::{
    chars_of, extend, owned, str_eq, str_has_prefix, starts_with, string_of, strings_view, trim,
    trim_vec, vec_eq,
};

verus! {

/// The providers Vareliox can talk to.
#[derive(Clone, Copy, Debug, PartialEq, Eq, Structural)]
pub enum ProviderId {
    Ollama,
    LmStudio,
    OpenAI,
    Anthropic,
    Google,
    Nvidia,
    Zai,
    Custom,
}

/// Ollama and LM Studio run on the user's machine.
pub open spec fn local_provider(p: ProviderId) -> bool {
    p == ProviderId::Ollama || p == ProviderId::LmStudio
}

pub open spec fn provider_name(p: ProviderId) -> Seq<char> {
    match p {
        ProviderId::Ollama => "ollama"@,
        ProviderId::LmStudio => "lm_studio"@,
        ProviderId::OpenAI => "openai"@,
        ProviderId::Anthropic => "anthropic"@,
        ProviderId::Google => "google"@,
        ProviderId::Nvidia => "nvidia"@,
        ProviderId::Zai => "zai"@,
        ProviderId::Custom => "custom"@,
    }
}

pub open spec fn provider_display(p: ProviderId) -> Seq<char> {
    match p {
        ProviderId::Ollama => "Ollama"@,
        ProviderId::LmStudio => "LM Studio"@,
        ProviderId::OpenAI => "OpenAI"@,
        ProviderId::Anthropic => "Anthropic"@,
        ProviderId::Google => "Google Gemini"@,
        ProviderId::Nvidia => "NVIDIA API"@,
        ProviderId::Zai => "Z.AI"@,
        ProviderId::Custom => "Personalizado"@,
    }
}

impl ProviderId {
    pub fn is_local(self) -> (r: bool)
        ensures
            r == local_provider(self),
    {
        match self {
            ProviderId::Ollama | ProviderId::LmStudio => true,
            _ => false,
        }
    }

    /// Remote providers authenticate with an API key.
    pub fn supports_api_key(self) -> (r: bool)
        ensures
            r == !local_provider(self),
    {
        !self.is_local()
    }

    pub fn as_str(self) -> (r: &'static str)
        ensures
            r@ == provider_name(self),
    {
        match self {
            ProviderId::Ollama => "ollama",
            ProviderId::LmStudio => "lm_studio",
            ProviderId::OpenAI => "openai",
            ProviderId::Anthropic => "anthropic",
            ProviderId::Google => "google",
            ProviderId::Nvidia => "nvidia",
            ProviderId::Zai => "zai",
            ProviderId::Custom => "custom",
        }
    }

    pub fn display_name(self) -> (r: &'static str)
        ensures
            r@ == provider_display(self),
    {
        match self {
            ProviderId::Ollama => "Ollama",
            ProviderId::LmStudio => "LM Studio",
            ProviderId::OpenAI => "OpenAI",
            ProviderId::Anthropic => "Anthropic",
            ProviderId::Google => "Google Gemini",
            ProviderId::Nvidia => "NVIDIA API",
            ProviderId::Zai => "Z.AI",
            ProviderId::Custom => "Personalizado",
        }
    }
}

/// One configured connection to a provider.
#[derive(Clone, Debug)]
pub struct ProviderConfig {
    pub provider: ProviderId,
    pub config_id: String,
    pub display_name: String,
    pub logo_data_url: Option<String>,
    pub endpoint: String,
    pub model: String,
    pub api_key_configured: bool,
    pub connect_timeout_secs: u64,
    pub first_response_timeout_secs: u64,
    pub inactivity_timeout_secs: u64,
    pub max_response_timeout_secs: u64,
}

/// Connect within 1..=60 s, first response and inactivity within 1..=300 s,
/// whole response within 10..=3600 s.
pub open spec fn timeouts_valid(c: ProviderConfig) -> bool {
    1 <= c.connect_timeout_secs <= 60 && 1 <= c.first_response_timeout_secs <= 300 && 1
        <= c.inactivity_timeout_secs <= 300 && 10 <= c.max_response_timeout_secs <= 3600
}

pub open spec fn invalid_timeout() -> DiagnosticView {
    diag(
        "INVALID_RESPONSE"@,
        "Timeout no válido"@,
        "Uno de los límites de tiempo está fuera del rango permitido."@,
        "La configuración contiene un valor inseguro."@,
        "Usa entre 1 y 300 segundos y un máximo entre 10 y 3600."@,
        false,
    )
}

/// Checks the time limits of a connection (see `timeouts_valid`).
pub fn validate_config(config: &ProviderConfig) -> (r: Result<(), Diagnostic>)
    ensures
        timeouts_valid(*config) ==> r is Ok,
        !timeouts_valid(*config) ==> (r matches Err(d) && d@ == invalid_timeout()),
{
    if !(1 <= config.connect_timeout_secs && config.connect_timeout_secs <= 60)
        || !(1 <= config.first_response_timeout_secs && config.first_response_timeout_secs <= 300)
        || !(1 <= config.inactivity_timeout_secs && config.inactivity_timeout_secs <= 300)
        || !(10 <= config.max_response_timeout_secs && config.max_response_timeout_secs <= 3600) {
        return Err(
            Diagnostic::new(
                "INVALID_RESPONSE",
                "Timeout no válido",
                "Uno de los límites de tiempo está fuera del rango permitido.",
                "La configuración contiene un valor inseguro.",
                "Usa entre 1 y 300 segundos y un máximo entre 10 y 3600.",
                false,
            ),
        );
    }
    Ok(())
}

pub open spec fn missing_key() -> DiagnosticView {
    diag(
        "INVALID_API_KEY"@,
        "Falta la clave API"@,
        "No hay una clave guardada para este proveedor."@,
        "La configuración está incompleta."@,
        "Añade una clave API y vuelve a probar."@,
        false,
    )
}

/// The API key a request uses: none for local providers; for the others the
/// key found in the credential store, optional only for custom providers. A
/// store failure is reported as `secret_error`.
pub open spec fn key_outcome(p: ProviderId, stored: Result<Option<Seq<char>>, Seq<char>>) -> Result<Option<Seq<char>>, DiagnosticView> {
    if local_provider(p) {
        Ok(None)
    } else {
        match stored {
            Err(e) => Err(secret_error_spec(e)),
            Ok(saved) => if p == ProviderId::Custom {
                Ok(saved)
            } else {
                match saved {
                    Some(k) => Ok(Some(k)),
                    None => Err(missing_key()),
                }
            },
        }
    }
}

pub open spec fn stored_view(s: Result<Option<String>, String>) -> Result<Option<Seq<char>>, Seq<char>> {
    match s {
        Ok(Some(k)) => Ok(Some(k@)),
        Ok(None) => Ok(None),
        Err(e) => Err(e@),
    }
}

/// Decides the API key for a connection from the credential-store lookup
/// (see `key_outcome`).
pub fn key_for(config: &ProviderConfig, stored: Result<Option<String>, String>) -> (r: Result<Option<String>, Diagnostic>)
    ensures
        match key_outcome(config.provider, stored_view(stored)) {
            Ok(Some(k)) => r matches Ok(Some(s)) && s@ == k,
            Ok(None) => r matches Ok(None),
            Err(d) => r matches Err(e) && e@ == d,
        },
{
    if !config.provider.supports_api_key() {
        return Ok(None);
    }
    let saved = match stored {
        Err(e) => return Err(secret_error(e.as_str())),
        Ok(s) => s,
    };
    if config.provider == ProviderId::Custom {
        return Ok(saved);
    }
    match saved {
        Some(k) => Ok(Some(k)),
        None => Err(
            Diagnostic::new(
                "INVALID_API_KEY",
                "Falta la clave API",
                "No hay una clave guardada para este proveedor.",
                "La configuración está incompleta.",
                "Añade una clave API y vuelve a probar.",
                false,
            ),
        ),
    }
}

// ---------------------------------------------------------------- settings

pub struct ConfigView {
    pub provider: ProviderId,
    pub config_id: Seq<char>,
    pub display_name: Seq<char>,
    pub logo_data_url: Option<Seq<char>>,
    pub endpoint: Seq<char>,
    pub model: Seq<char>,
    pub api_key_configured: bool,
    pub connect_timeout_secs: u64,
    pub first_response_timeout_secs: u64,
    pub inactivity_timeout_secs: u64,
    pub max_response_timeout_secs: u64,
}

impl View for ProviderConfig {
    type V = ConfigView;

    open spec fn view(&self) -> ConfigView {
        ConfigView {
            provider: self.provider,
            config_id: self.config_id@,
            display_name: self.display_name@,
            logo_data_url: match self.logo_data_url {
                Some(l) => Some(l@),
                None => None,
            },
            endpoint: self.endpoint@,
            model: self.model@,
            api_key_configured: self.api_key_configured,
            connect_timeout_secs: self.connect_timeout_secs,
            first_response_timeout_secs: self.first_response_timeout_secs,
            inactivity_timeout_secs: self.inactivity_timeout_secs,
            max_response_timeout_secs: self.max_response_timeout_secs,
        }
    }
}

/// The saved provider list and the active connection.
#[derive(Clone, Debug)]
pub struct AiSettings {
    pub providers: Vec<ProviderConfig>,
    pub active_config_id: Option<String>,
    pub active_provider: Option<ProviderId>,
}

pub open spec fn msg_duplicate_id() -> Seq<char> {
    "Cada proveedor debe tener un identificador único."@
}

pub open spec fn msg_custom_name() -> Seq<char> {
    "El proveedor personalizado necesita un nombre de hasta 48 caracteres."@
}

pub open spec fn msg_logo() -> Seq<char> {
    "El logo debe ser PNG, JPG o WebP y pesar 512 KB o menos."@
}

pub open spec fn msg_active_missing() -> Seq<char> {
    "El proveedor activo ya no existe."@
}

pub open spec fn msg_timeout() -> Seq<char> {
    "Uno de los límites de tiempo está fuera del rango permitido."@
}

pub open spec fn valid_logo(l: Seq<char>) -> bool {
    (starts_with(l, "data:image/png;base64,"@) || starts_with(l, "data:image/jpeg;base64,"@)
        || starts_with(l, "data:image/webp;base64,"@)) && crate::text::byte_len(l) <= 700000
}

/// A connection as saved: a custom provider keeps its trimmed name and its
/// logo; a built-in provider takes its fixed id and name and no logo.
pub open spec fn normalized(c: ConfigView) -> ConfigView {
    if c.provider == ProviderId::Custom {
        ConfigView { display_name: trim(c.display_name), ..c }
    } else {
        ConfigView {
            config_id: provider_name(c.provider),
            display_name: provider_display(c.provider),
            logo_data_url: None,
            ..c
        }
    }
}

pub open spec fn timeouts_ok(c: ConfigView) -> bool {
    1 <= c.connect_timeout_secs <= 60 && 1 <= c.first_response_timeout_secs <= 300 && 1
        <= c.inactivity_timeout_secs <= 300 && 10 <= c.max_response_timeout_secs <= 3600
}

/// Some earlier connection was submitted with the same id.
pub open spec fn id_seen_before(items: Seq<ConfigView>, k: int) -> bool {
    exists|j: int| 0 <= j < k && items[j].config_id == items[k].config_id
}

/// Why connection `k` cannot be saved, if it cannot: a blank or repeated id,
/// a custom provider without a name of 1..=48 characters or with a logo that
/// is not a PNG/JPEG/WebP data URL within 700000 bytes, or invalid time limits.
pub open spec fn item_failure(items: Seq<ConfigView>, k: int) -> Option<Seq<char>> {
    let c = items[k];
    if trim(c.config_id).len() == 0 || id_seen_before(items, k) {
        Some(msg_duplicate_id())
    } else if c.provider == ProviderId::Custom && (trim(c.display_name).len() == 0 || trim(
        c.display_name,
    ).len() > 48) {
        Some(msg_custom_name())
    } else if c.provider == ProviderId::Custom && (c.logo_data_url matches Some(l) && !valid_logo(
        l,
    )) {
        Some(msg_logo())
    } else if !timeouts_ok(c) {
        Some(msg_timeout())
    } else {
        None
    }
}

/// The first failure among the first `n` connections.
pub open spec fn first_failure(items: Seq<ConfigView>, n: int) -> Option<Seq<char>>
    decreases n,
{
    if n <= 0 {
        None
    } else {
        match first_failure(items, n - 1) {
            Some(e) => Some(e),
            None => item_failure(items, n - 1),
        }
    }
}

/// Provider of the first saved connection whose id is `id`.
pub open spec fn provider_with_id(items: Seq<ConfigView>, id: Seq<char>) -> Option<ProviderId>
    decreases items.len(),
{
    if items.len() == 0 {
        None
    } else if items[0].config_id == id {
        Some(items[0].provider)
    } else {
        provider_with_id(items.drop_first(), id)
    }
}

pub open spec fn configs_view(v: Seq<ProviderConfig>) -> Seq<ConfigView> {
    v.map_values(|c: ProviderConfig| c@)
}

/// What saving settings yields: every connection checked in order
/// (`item_failure`) and normalized (`normalized`), and the active provider set
/// from the active id, which must name a saved connection.
pub open spec fn settings_outcome(items: Seq<ConfigView>, active: Option<Seq<char>>) -> Result<(Seq<ConfigView>, Option<ProviderId>), Seq<char>> {
    match first_failure(items, items.len() as int) {
        Some(e) => Err(e),
        None => {
            let saved = items.map_values(|c: ConfigView| normalized(c));
            match active {
                None => Ok((saved, None)),
                Some(id) => match provider_with_id(saved, id) {
                    None => Err(msg_active_missing()),
                    Some(p) => Ok((saved, Some(p))),
                },
            }
        },
    }
}

fn valid_logo_exec(l: &String) -> (r: bool)
    ensures
        r == valid_logo(l@),
{
    let prefixed = str_has_prefix(l.as_str(), "data:image/png;base64,") || str_has_prefix(
        l.as_str(),
        "data:image/jpeg;base64,",
    ) || str_has_prefix(l.as_str(), "data:image/webp;base64,");
    prefixed && l.as_str().len() <= 700000
}

fn seen_before(seen: &Vec<String>, id: &String) -> (r: bool)
    ensures
        r == strings_view(seen@).contains(id@),
{
    let mut i: usize = 0;
    while i < seen.len()
        invariant
            i <= seen.len(),
            forall|k: int| 0 <= k < i ==> strings_view(seen@)[k] != id@,
        decreases seen.len() - i,
    {
        if vec_eq(&chars_of(seen[i].as_str()), &chars_of(id.as_str())) {
            assert(strings_view(seen@)[i as int] == id@);
            return true;
        }
        i += 1;
    }
    false
}

fn normalize(c: ProviderConfig) -> (r: ProviderConfig)
    ensures
        r@ == normalized(c@),
{
    if c.provider == ProviderId::Custom {
        let name = crate::text::string_of(&trim_vec(&chars_of(c.display_name.as_str())));
        ProviderConfig { display_name: name, ..c }
    } else {
        ProviderConfig {
            config_id: owned(c.provider.as_str()),
            display_name: owned(c.provider.display_name()),
            logo_data_url: None,
            ..c
        }
    }
}

fn find_provider(saved: &Vec<ProviderConfig>, id: &String) -> (r: Option<ProviderId>)
    ensures
        r == provider_with_id(configs_view(saved@), id@),
{
    let ghost out = configs_view(saved@);
    let mut j: usize = 0;
    assert(out.skip(0) =~= out);
    while j < saved.len()
        invariant
            j <= saved.len(),
            out == configs_view(saved@),
            provider_with_id(out, id@) == provider_with_id(out.skip(j as int), id@),
        decreases saved.len() - j,
    {
        assert(out.skip(j as int).drop_first() =~= out.skip(j + 1));
        assert(out.skip(j as int)[0] == saved@[j as int]@);
        if vec_eq(&chars_of(saved[j].config_id.as_str()), &chars_of(id.as_str())) {
            return Some(saved[j].provider);
        }
        j += 1;
    }
    None
}

fn copy_text(o: &Option<String>) -> (r: Option<String>)
    ensures
        r == *o,
{
    match o {
        Some(s) => Some(s.clone()),
        None => None,
    }
}

/// A copy of a connection.
pub fn copy_config(c: &ProviderConfig) -> (r: ProviderConfig)
    ensures
        r == *c,
{
    ProviderConfig {
        provider: c.provider,
        config_id: c.config_id.clone(),
        display_name: c.display_name.clone(),
        logo_data_url: copy_text(&c.logo_data_url),
        endpoint: c.endpoint.clone(),
        model: c.model.clone(),
        api_key_configured: c.api_key_configured,
        connect_timeout_secs: c.connect_timeout_secs,
        first_response_timeout_secs: c.first_response_timeout_secs,
        inactivity_timeout_secs: c.inactivity_timeout_secs,
        max_response_timeout_secs: c.max_response_timeout_secs,
    }
}

proof fn lemma_failure_persists(items: Seq<ConfigView>, n: int, m: int)
    requires
        0 <= n <= m,
        first_failure(items, n) is Some,
    ensures
        first_failure(items, m) == first_failure(items, n),
    decreases m - n,
{
    if n < m {
        lemma_failure_persists(items, n, m - 1);
    }
}

/// Checks and normalizes settings before they are saved (see
/// `settings_outcome`).
pub fn validate_settings(settings: AiSettings) -> (r: Result<AiSettings, String>)
    ensures
        match settings_outcome(
            configs_view(settings.providers@),
            match settings.active_config_id {
                Some(a) => Some(a@),
                None => None,
            },
        ) {
            Ok((saved, active)) => r matches Ok(out) && configs_view(out.providers@) == saved
                && out.active_provider == active && out.active_config_id == settings.active_config_id,
            Err(m) => r matches Err(e) && e@ == m,
        },
{
    let ghost items = configs_view(settings.providers@);
    let mut seen: Vec<String> = Vec::new();
    let mut saved: Vec<ProviderConfig> = Vec::new();
    let mut i: usize = 0;
    while i < settings.providers.len()
        invariant
            i <= settings.providers.len(),
            items == configs_view(settings.providers@),
            first_failure(items, i as int) is None,
            strings_view(seen@) =~= items.take(i as int).map_values(|c: ConfigView| c.config_id),
            configs_view(saved@) =~= items.take(i as int).map_values(|c: ConfigView| normalized(c)),
        decreases settings.providers.len() - i,
    {
        let c = copy_config(&settings.providers[i]);
        assert(c@ == items[i as int]);
        let ghost k = i as int;
        let blank = trim_vec(&chars_of(c.config_id.as_str())).len() == 0;
        let dup = seen_before(&seen, &c.config_id);
        proof {
            if dup {
                let j = choose|j: int| 0 <= j < strings_view(seen@).len() && strings_view(seen@)[j] == c@.config_id;
                assert(items[j].config_id == items[k].config_id);
            }
            if id_seen_before(items, k) {
                let j = choose|j: int| 0 <= j < k && items[j].config_id == items[k].config_id;
                assert(strings_view(seen@)[j] == items[j].config_id);
            }
        }
        if blank || dup {
            proof {
                lemma_failure_persists(items, k + 1, items.len() as int);
            }
            return Err(owned("Cada proveedor debe tener un identificador único."));
        }
        if c.provider == ProviderId::Custom {
            let name_len = trim_vec(&chars_of(c.display_name.as_str())).len();
            if name_len == 0 || name_len > 48 {
                proof {
                    lemma_failure_persists(items, k + 1, items.len() as int);
                }
                return Err(owned("El proveedor personalizado necesita un nombre de hasta 48 caracteres."));
            }
            match &c.logo_data_url {
                Some(l) => {
                    if !valid_logo_exec(l) {
                        proof {
                            lemma_failure_persists(items, k + 1, items.len() as int);
                        }
                        return Err(owned("El logo debe ser PNG, JPG o WebP y pesar 512 KB o menos."));
                    }
                },
                None => {},
            }
        }
        match validate_config(&c) {
            Err(_) => {
                proof {
                    lemma_failure_persists(items, k + 1, items.len() as int);
                }
                return Err(owned("Uno de los límites de tiempo está fuera del rango permitido."));
            },
            Ok(()) => {},
        }
        assert(item_failure(items, k) is None);
        let ghost seen0 = strings_view(seen@);
        let ghost saved0 = configs_view(saved@);
        let ghost cv = c@;
        seen.push(c.config_id.clone());
        saved.push(normalize(c));
        assert(strings_view(seen@) =~= seen0.push(cv.config_id));
        assert(configs_view(saved@) =~= saved0.push(normalized(cv)));
        i += 1;
        assert(items.take(i as int) =~= items.take(k).push(items[k]));
        assert(items.take(i as int).map_values(|c: ConfigView| c.config_id) =~= items.take(k).map_values(|c: ConfigView| c.config_id).push(cv.config_id));
        assert(items.take(i as int).map_values(|c: ConfigView| normalized(c)) =~= items.take(k).map_values(|c: ConfigView| normalized(c)).push(normalized(cv)));
    }
    assert(items.take(i as int) =~= items);
    let ghost out = items.map_values(|c: ConfigView| normalized(c));
    assert(configs_view(saved@) =~= out);
    let active_provider = match &settings.active_config_id {
        None => None,
        Some(id) => match find_provider(&saved, id) {
            None => {
                return Err(owned("El proveedor activo ya no existe."));
            },
            Some(p) => Some(p),
        },
    };
    Ok(AiSettings { providers: saved, active_config_id: settings.active_config_id, active_provider })
}

proof fn lemma_no_failure(items: Seq<ConfigView>, n: int, k: int)
    requires
        0 <= k < n,
        first_failure(items, n) is None,
    ensures
        item_failure(items, k) is None,
    decreases n - k,
{
    if k < n - 1 {
        lemma_no_failure(items, n - 1, k);
    }
}

/// Settings that can be saved were submitted with non-blank, pairwise
/// different connection ids, and every custom connection keeps a name of 1 to
/// 48 characters.
pub proof fn lemma_saved_settings_have_unique_ids(items: Seq<ConfigView>, active: Option<Seq<char>>)
    requires
        settings_outcome(items, active) is Ok,
    ensures
        forall|i: int| 0 <= i < items.len() ==> trim((#[trigger] items[i]).config_id).len() > 0,
        forall|i: int, j: int|
            0 <= i < j < items.len() ==> (#[trigger] items[i]).config_id != (#[trigger] items[j]).config_id,
        forall|i: int|
            0 <= i < items.len() && (#[trigger] items[i]).provider == ProviderId::Custom ==> {
                let saved = settings_outcome(items, active)->Ok_0;
                let n = saved.0[i].display_name;
                1 <= n.len() <= 48
            },
{
    assert forall|i: int| 0 <= i < items.len() implies trim((#[trigger] items[i]).config_id).len() > 0 by {
        lemma_no_failure(items, items.len() as int, i);
    }
    assert forall|i: int, j: int|
        0 <= i < j < items.len() implies (#[trigger] items[i]).config_id != (#[trigger] items[j]).config_id by {
        lemma_no_failure(items, items.len() as int, j);
    }
    assert forall|i: int|
        0 <= i < items.len() && (#[trigger] items[i]).provider == ProviderId::Custom implies {
            let saved = settings_outcome(items, active)->Ok_0;
            let n = saved.0[i].display_name;
            1 <= n.len() <= 48
        } by {
        lemma_no_failure(items, items.len() as int, i);
    }
}


// ---------------------------------------------------------------- connection tests

/// A model a provider offers; `loaded` says, where the provider reports it,
/// whether the model is in memory.
#[derive(Clone, Debug)]
pub struct ModelInfo {
    pub id: String,
    pub name: String,
    pub loaded: Option<bool>,
}

pub open spec fn model_view(m: ModelInfo) -> (Seq<char>, Seq<char>, Option<bool>) {
    (m.id@, m.name@, m.loaded)
}

pub open spec fn models_view(ms: Seq<ModelInfo>) -> Seq<(Seq<char>, Seq<char>, Option<bool>)> {
    ms.map_values(|m: ModelInfo| model_view(m))
}

/// The outcome of testing a connection.
#[derive(Clone, Debug)]
pub struct ProviderTestResult {
    pub connected: bool,
    pub duration_ms: u64,
    pub models: Vec<ModelInfo>,
    pub diagnostic: Option<Diagnostic>,
}

pub open spec fn no_models(lm_studio: bool) -> DiagnosticView {
    diag(
        if lm_studio {
            "MODEL_NOT_LOADED"@
        } else {
            "MODEL_NOT_FOUND"@
        },
        "No hay modelos disponibles"@,
        "El servidor está activo, pero no devolvió ningún modelo utilizable."@,
        "No hay modelos instalados/cargados o la cuenta no tiene acceso."@,
        "Carga o selecciona un modelo y vuelve a probar."@,
        false,
    )
}

pub open spec fn nothing_loaded() -> DiagnosticView {
    diag(
        "MODEL_NOT_LOADED"@,
        "No hay ningún modelo cargado"@,
        "LM Studio está conectado, pero todos los modelos están descargados sin cargar."@,
        "El servidor está activo sin un modelo en memoria."@,
        "Carga un modelo desde LM Studio y vuelve a probar."@,
        false,
    )
}

/// What a reachable provider's list of models calls for: a report when the
/// list is empty, or when LM Studio lists only models that are not loaded.
pub open spec fn models_report(p: ProviderId, ms: Seq<ModelInfo>) -> Option<DiagnosticView> {
    if ms.len() == 0 {
        Some(no_models(p == ProviderId::LmStudio))
    } else if p == ProviderId::LmStudio && forall|i: int|
        0 <= i < ms.len() ==> (#[trigger] ms[i]).loaded == Some(false) {
        Some(nothing_loaded())
    } else {
        None
    }
}

/// A local provider that could not be reached: the connection was refused,
/// the server is offline, or the request timed out.
pub open spec fn unreachable_local(p: ProviderId, code: Seq<char>) -> bool {
    local_provider(p) && (code == "CONNECTION_REFUSED"@ || code == "SERVER_OFFLINE"@ || code
        == "REQUEST_TIMEOUT"@)
}

/// The report on an unreachable local provider: its server is off when the
/// provider is installed, else it is not installed.
pub open spec fn local_offline(p: ProviderId, endpoint: Seq<char>, installed: bool) -> DiagnosticView {
    let name = provider_display(p);
    if installed {
        diag(
            "SERVER_OFFLINE"@,
            "El servidor de "@ + name + " está apagado"@,
            name + " parece estar instalado, pero su servidor no responde en "@ + endpoint + "."@,
            "La aplicación o su servidor local no está iniciado."@,
            if p == ProviderId::LmStudio {
                "Abre LM Studio, inicia Local Server y vuelve a probar."@
            } else {
                "Abre Ollama y vuelve a probar la conexión."@
            },
            true,
        )
    } else {
        diag(
            "PROVIDER_NOT_INSTALLED"@,
            name + " no está instalado"@,
            "No encontramos "@ + name + " en las ubicaciones habituales de Windows."@,
            "El proveedor local no está instalado para este usuario."@,
            "Instala "@ + name + " desde su fuente oficial y vuelve a probar."@,
            false,
        )
    }
}

fn unreachable_local_exec(p: ProviderId, code: &str) -> (r: bool)
    ensures
        r == unreachable_local(p, code@),
{
    p.is_local() && (str_eq(code, "CONNECTION_REFUSED") || str_eq(code, "SERVER_OFFLINE")
        || str_eq(code, "REQUEST_TIMEOUT"))
}

/// Whether a failed test must look for the provider's installation: only for
/// an unreachable local provider.
pub fn needs_install_check(provider: ProviderId, failure: &Diagnostic) -> (r: bool)
    ensures
        r == unreachable_local(provider, failure.code@),
{
    unreachable_local_exec(provider, failure.code.as_str())
}

fn join3(a: &str, b: &str, c: &str) -> (r: String)
    ensures
        r@ == a@ + b@ + c@,
{
    let mut v = chars_of(a);
    extend(&mut v, &chars_of(b));
    extend(&mut v, &chars_of(c));
    string_of(&v)
}

fn local_offline_error(p: ProviderId, endpoint: &str, installed: bool) -> (r: Diagnostic)
    ensures
        r@ == local_offline(p, endpoint@, installed),
{
    let name = p.display_name();
    if installed {
        let title = join3("El servidor de ", name, " está apagado");
        let mut explanation = chars_of(name);
        extend(&mut explanation, &chars_of(" parece estar instalado, pero su servidor no responde en "));
        extend(&mut explanation, &chars_of(endpoint));
        extend(&mut explanation, &chars_of("."));
        let explanation = string_of(&explanation);
        let action = if p == ProviderId::LmStudio {
            "Abre LM Studio, inicia Local Server y vuelve a probar."
        } else {
            "Abre Ollama y vuelve a probar la conexión."
        };
        Diagnostic::new(
            "SERVER_OFFLINE",
            title.as_str(),
            explanation.as_str(),
            "La aplicación o su servidor local no está iniciado.",
            action,
            true,
        )
    } else {
        let title = join3("", name, " no está instalado");
        let explanation = join3("No encontramos ", name, " en las ubicaciones habituales de Windows.");
        let action = join3("Instala ", name, " desde su fuente oficial y vuelve a probar.");
        proof {
            reveal_strlit("");
            assert(title@ =~= name@ + " no está instalado"@);
        }
        Diagnostic::new(
            "PROVIDER_NOT_INSTALLED",
            title.as_str(),
            explanation.as_str(),
            "El proveedor local no está instalado para este usuario.",
            action.as_str(),
            false,
        )
    }
}

fn models_report_exec(p: ProviderId, ms: &Vec<ModelInfo>) -> (r: Option<Diagnostic>)
    ensures
        match models_report(p, ms@) {
            Some(d) => r matches Some(x) && x@ == d,
            None => r is None,
        },
{
    if ms.len() == 0 {
        let code = if p == ProviderId::LmStudio {
            "MODEL_NOT_LOADED"
        } else {
            "MODEL_NOT_FOUND"
        };
        return Some(
            Diagnostic::new(
                code,
                "No hay modelos disponibles",
                "El servidor está activo, pero no devolvió ningún modelo utilizable.",
                "No hay modelos instalados/cargados o la cuenta no tiene acceso.",
                "Carga o selecciona un modelo y vuelve a probar.",
                false,
            ),
        );
    }
    if p != ProviderId::LmStudio {
        return None;
    }
    let mut i: usize = 0;
    while i < ms.len()
        invariant
            i <= ms.len(),
            forall|k: int| 0 <= k < i ==> (#[trigger] ms@[k]).loaded == Some(false),
        decreases ms.len() - i,
    {
        let unloaded = match ms[i].loaded {
            Some(l) => !l,
            None => false,
        };
        if !unloaded {
            assert(ms@[i as int].loaded != Some(false));
            return None;
        }
        i += 1;
    }
    Some(
        Diagnostic::new(
            "MODEL_NOT_LOADED",
            "No hay ningún modelo cargado",
            "LM Studio está conectado, pero todos los modelos están descargados sin cargar.",
            "El servidor está activo sin un modelo en memoria.",
            "Carga un modelo desde LM Studio y vuelve a probar.",
            false,
        ),
    )
}

/// The outcome of a connection test, from what listing the models gave.
/// A reachable provider reports its models, with a report where none is
/// usable; a failure is reported as it came, except that an unreachable local
/// provider is reported as stopped when `installed`, else as not installed.
pub fn provider_test_result(
    config: &ProviderConfig,
    outcome: Result<Vec<ModelInfo>, Diagnostic>,
    installed: bool,
    duration_ms: u64,
) -> (r: ProviderTestResult)
    ensures
        r.duration_ms == duration_ms,
        match outcome {
            Ok(ms) => {
                &&& r.connected
                &&& models_view(r.models@) == models_view(ms@)
                &&& match models_report(config.provider, ms@) {
                    Some(d) => r.diagnostic matches Some(x) && x@ == d,
                    None => r.diagnostic is None,
                }
            },
            Err(d) => {
                &&& !r.connected
                &&& r.models@.len() == 0
                &&& r.diagnostic matches Some(x) && x@ == if unreachable_local(
                    config.provider,
                    d.code@,
                ) {
                    local_offline(config.provider, config.endpoint@, installed)
                } else {
                    d@
                }
            },
        },
{
    match outcome {
        Ok(models) => {
            let diagnostic = models_report_exec(config.provider, &models);
            ProviderTestResult { connected: true, duration_ms, models, diagnostic }
        },
        Err(failure) => {
            let diagnostic = if unreachable_local_exec(config.provider, failure.code.as_str()) {
                local_offline_error(config.provider, config.endpoint.as_str(), installed)
            } else {
                failure
            };
            ProviderTestResult {
                connected: false,
                duration_ms,
                models: Vec::new(),
                diagnostic: Some(diagnostic),
            }
        },
    }
}


// ---------------------------------------------------------------- keys and installs

pub open spec fn zai_key_missing() -> DiagnosticView {
    diag(
        "INVALID_API_KEY"@,
        "Falta la clave API"@,
        "Z.AI necesita una clave antes de probar la conexión."@,
        "No hay una clave guardada."@,
        "Guarda una clave API y vuelve a probar."@,
        false,
    )
}

/// The key a model listing goes ahead with: Z.AI cannot be tested without
/// one; any other provider goes ahead with what it has.
pub fn listing_key(provider: ProviderId, key: Option<String>) -> (r: Result<Option<String>, Diagnostic>)
    ensures
        provider == ProviderId::Zai && key is None ==> (r matches Err(d) && d@ == zai_key_missing()),
        !(provider == ProviderId::Zai && key is None) ==> r == Ok::<_, Diagnostic>(key),
{
    if provider == ProviderId::Zai && key.is_none() {
        return Err(
            Diagnostic::new(
                "INVALID_API_KEY",
                "Falta la clave API",
                "Z.AI necesita una clave antes de probar la conexión.",
                "No hay una clave guardada.",
                "Guarda una clave API y vuelve a probar.",
                false,
            ),
        );
    }
    Ok(key)
}

pub open spec fn listing_too_slow(zai_check: bool) -> DiagnosticView {
    diag(
        "REQUEST_TIMEOUT"@,
        "La prueba tardó demasiado"@,
        if zai_check {
            "Z.AI no respondió dentro del límite configurado."@
        } else {
            "El proveedor no respondió dentro del límite configurado."@
        },
        if zai_check {
            "El proveedor está ocupado o el endpoint no responde."@
        } else {
            "El servidor está apagado, ocupado o el endpoint no responde."@
        },
        "Comprueba la configuración y vuelve a probar."@,
        true,
    )
}

/// The report when the Z.AI check (`zai_check`) or the model listing
/// outlasts the first-response limit.
pub fn listing_too_slow_error(zai_check: bool) -> (r: Diagnostic)
    ensures
        r@ == listing_too_slow(zai_check),
{
    if zai_check {
        Diagnostic::new(
            "REQUEST_TIMEOUT",
            "La prueba tardó demasiado",
            "Z.AI no respondió dentro del límite configurado.",
            "El proveedor está ocupado o el endpoint no responde.",
            "Comprueba la configuración y vuelve a probar.",
            true,
        )
    } else {
        Diagnostic::new(
            "REQUEST_TIMEOUT",
            "La prueba tardó demasiado",
            "El proveedor no respondió dentro del límite configurado.",
            "El servidor está apagado, ocupado o el endpoint no responde.",
            "Comprueba la configuración y vuelve a probar.",
            true,
        )
    }
}

/// Only providers that authenticate with a key can store one.
pub fn key_change_allowed(provider: ProviderId) -> (r: Result<(), String>)
    ensures
        !local_provider(provider) ==> r is Ok,
        local_provider(provider) ==> (r matches Err(m) && m@ == "Este proveedor no utiliza una clave API."@),
{
    if !provider.supports_api_key() {
        return Err(owned("Este proveedor no utiliza una clave API."));
    }
    Ok(())
}

/// The program names a local provider is looked for on PATH; remote
/// providers are not looked for.
pub open spec fn program_names(p: ProviderId) -> Option<Seq<Seq<char>>> {
    if p == ProviderId::Ollama {
        Some(seq!["ollama"@])
    } else if p == ProviderId::LmStudio {
        Some(seq!["lm-studio"@, "lmstudio"@])
    } else {
        None
    }
}

pub fn path_program_names(provider: ProviderId) -> (r: Option<Vec<&'static str>>)
    ensures
        match program_names(provider) {
            Some(names) => r matches Some(v) && v@.map_values(|s: &'static str| s@) == names,
            None => r is None,
        },
{
    match provider {
        ProviderId::Ollama => {
            let v = vec!["ollama"];
            assert(v@.map_values(|s: &'static str| s@) =~= seq!["ollama"@]);
            Some(v)
        },
        ProviderId::LmStudio => {
            let v = vec!["lm-studio", "lmstudio"];
            assert(v@.map_values(|s: &'static str| s@) =~= seq!["lm-studio"@, "lmstudio"@]);
            Some(v)
        },
        _ => None,
    }
}

/// A system folder of Windows below which programs are installed.
#[derive(Clone, Copy, Debug, PartialEq, Eq, Structural)]
pub enum WindowsRoot {
    LocalAppData,
    ProgramFiles,
}

/// Where Windows installers put a local provider, below a system folder.
pub open spec fn windows_installs(p: ProviderId) -> Seq<(WindowsRoot, Seq<char>)> {
    if p == ProviderId::Ollama {
        seq![
            (WindowsRoot::LocalAppData, "Programs/Ollama/ollama.exe"@),
            (WindowsRoot::LocalAppData, "Programs/Ollama/ollama app.exe"@),
        ]
    } else if p == ProviderId::LmStudio {
        seq![
            (WindowsRoot::LocalAppData, "Programs/LM Studio/LM Studio.exe"@),
            (WindowsRoot::LocalAppData, "LM Studio/LM Studio.exe"@),
            (WindowsRoot::ProgramFiles, "LM Studio/LM Studio.exe"@),
        ]
    } else {
        Seq::empty()
    }
}

pub fn windows_install_candidates(provider: ProviderId) -> (r: Vec<(WindowsRoot, &'static str)>)
    ensures
        r@.map_values(|c: (WindowsRoot, &'static str)| (c.0, c.1@)) == windows_installs(provider),
{
    let v = match provider {
        ProviderId::Ollama => vec![
            (WindowsRoot::LocalAppData, "Programs/Ollama/ollama.exe"),
            (WindowsRoot::LocalAppData, "Programs/Ollama/ollama app.exe"),
        ],
        ProviderId::LmStudio => vec![
            (WindowsRoot::LocalAppData, "Programs/LM Studio/LM Studio.exe"),
            (WindowsRoot::LocalAppData, "LM Studio/LM Studio.exe"),
            (WindowsRoot::ProgramFiles, "LM Studio/LM Studio.exe"),
        ],
        _ => Vec::new(),
    };
    assert(v@.map_values(|c: (WindowsRoot, &'static str)| (c.0, c.1@)) =~= windows_installs(provider));
    v
}

} // verus!
