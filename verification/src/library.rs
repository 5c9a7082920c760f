//! Installing models from the local library: with Ollama or LM Studio for
//! chat, code and vision models, through ComfyUI-Manager for image and video
//! models.
use vstd::prelude::*;
use crate::catalog::{
    catalog, catalog_view, comfy_files, comfyui_model_files, local_model_catalog, strs_view,
    CatalogItemView, LocalModelCatalogItem,
};
use crate::diagnostic::{diag, Diagnostic, DiagnosticView};
use crate::provider::{local_provider, provider_display, ProviderId};
use crate::text::{
    chars_of, ends_with, extend, has_suffix, owned, str_eq, string_of, strings_view, vec_eq,
};

verus! {

// ---------------------------------------------------------------- finding a model

/// The first position at or after `from` whose item has id `id`.
pub open spec fn position_of(items: Seq<CatalogItemView>, id: Seq<char>, from: int) -> Option<int>
    decreases items.len() - from,
{
    if from < 0 || from >= items.len() {
        None
    } else if items[from].id == id {
        Some(from)
    } else {
        position_of(items, id, from + 1)
    }
}

/// The first position at or after `from` whose item has id `id` and is
/// served by ComfyUI.
pub open spec fn comfy_position(items: Seq<CatalogItemView>, id: Seq<char>, from: int) -> Option<int>
    decreases items.len() - from,
{
    if from < 0 || from >= items.len() {
        None
    } else if items[from].id == id && items[from].runtimes.contains("comfyui"@) {
        Some(from)
    } else {
        comfy_position(items, id, from + 1)
    }
}

fn has_runtime(item: &LocalModelCatalogItem, name: &str) -> (r: bool)
    ensures
        r == item@.runtimes.contains(name@),
{
    let mut i: usize = 0;
    while i < item.runtimes.len()
        invariant
            i <= item.runtimes.len(),
            forall|k: int| 0 <= k < i ==> item@.runtimes[k] != name@,
        decreases item.runtimes.len() - i,
    {
        if str_eq(item.runtimes[i].as_str(), name) {
            assert(item@.runtimes[i as int] == name@);
            return true;
        }
        i += 1;
    }
    false
}

/// The first item of `items` with id `id` (and served by ComfyUI when
/// `comfy`), moved out of the list.
fn take_model(library: Vec<LocalModelCatalogItem>, id: &str, comfy: bool) -> (r: Option<LocalModelCatalogItem>)
    ensures
        match (if comfy {
            comfy_position(catalog_view(library@), id@, 0)
        } else {
            position_of(catalog_view(library@), id@, 0)
        }) {
            Some(k) => r matches Some(m) && m@ == catalog_view(library@)[k],
            None => r is None,
        },
{
    let ghost view = catalog_view(library@);
    let mut items = library;
    let mut i: usize = 0;
    while i < items.len()
        invariant
            i <= items.len(),
            catalog_view(items@) == view,
            view == catalog_view(library@),
            (if comfy {
                comfy_position(view, id@, 0)
            } else {
                position_of(view, id@, 0)
            }) == (if comfy {
                comfy_position(view, id@, i as int)
            } else {
                position_of(view, id@, i as int)
            }),
        decreases items.len() - i,
    {
        assert(view[i as int] == items@[i as int]@);
        let hit = str_eq(items[i].id.as_str(), id) && (!comfy || has_runtime(&items[i], "comfyui"));
        if hit {
            proof {
                if comfy {
                    assert(comfy_position(view, id@, i as int) == Some(i as int));
                } else {
                    assert(position_of(view, id@, i as int) == Some(i as int));
                }
            }
            let ghost want = items@[i as int];
            let m = items.swap_remove(i);
            assert(m == want);
            return Some(m);
        }
        i += 1;
    }
    None
}

// ---------------------------------------------------------------- Ollama and LM Studio

/// The runtime name a local provider installs with.
pub open spec fn runtime_of(p: ProviderId) -> Seq<char> {
    if p == ProviderId::Ollama {
        "ollama"@
    } else {
        "lm_studio"@
    }
}

pub open spec fn not_local_provider() -> DiagnosticView {
    diag(
        "INVALID_REQUEST"@,
        "Proveedor no local"@,
        "Solo Ollama y LM Studio pueden descargar modelos locales."@,
        "El proveedor seleccionado requiere una API externa."@,
        "Selecciona Ollama o LM Studio."@,
        false,
    )
}

pub open spec fn model_gone() -> DiagnosticView {
    diag(
        "MODEL_NOT_FOUND"@,
        "Modelo no encontrado"@,
        "El modelo seleccionado ya no estÃ¡ en el catÃ¡logo local."@,
        "La lista local estÃ¡ desactualizada."@,
        "Actualiza la biblioteca y vuelve a intentarlo."@,
        false,
    )
}

pub open spec fn needs_other_runtime(model: Seq<char>, provider: Seq<char>) -> DiagnosticView {
    diag(
        "INCOMPATIBLE_RUNTIME"@,
        "Este modelo necesita otro motor"@,
        model + " no se puede instalar con "@ + provider + "."@,
        "Los modelos de imagen y vídeo usan un motor de generación distinto."@,
        "Abre la guía oficial de ComfyUI desde la biblioteca."@,
        false,
    )
}

/// What installing `model_id` with a provider comes to: the library entry,
/// when the provider is local, the model is in the library and the
/// provider's runtime can install it.
pub open spec fn local_download_spec(p: ProviderId, model_id: Seq<char>) -> Result<CatalogItemView, DiagnosticView> {
    if !local_provider(p) {
        Err(not_local_provider())
    } else {
        match position_of(catalog(), model_id, 0) {
            None => Err(model_gone()),
            Some(k) => if catalog()[k].runtimes.contains(runtime_of(p)) {
                Ok(catalog()[k])
            } else {
                Err(needs_other_runtime(catalog()[k].name, provider_display(p)))
            },
        }
    }
}

/// The library entry to install with a local provider (see
/// `local_download_spec`).
pub fn plan_local_download(provider: ProviderId, model_id: &str) -> (r: Result<
    LocalModelCatalogItem,
    Diagnostic,
>)
    ensures
        match r {
            Ok(m) => local_download_spec(provider, model_id@) == Ok::<_, DiagnosticView>(m@),
            Err(d) => local_download_spec(provider, model_id@) == Err::<CatalogItemView, _>(d@),
        },
{
    if !provider.is_local() {
        return Err(
            Diagnostic::new(
                "INVALID_REQUEST",
                "Proveedor no local",
                "Solo Ollama y LM Studio pueden descargar modelos locales.",
                "El proveedor seleccionado requiere una API externa.",
                "Selecciona Ollama o LM Studio.",
                false,
            ),
        );
    }
    let Some(model) = take_model(local_model_catalog(), model_id, false) else {
        return Err(
            Diagnostic::new(
                "MODEL_NOT_FOUND",
                "Modelo no encontrado",
                "El modelo seleccionado ya no estÃ¡ en el catÃ¡logo local.",
                "La lista local estÃ¡ desactualizada.",
                "Actualiza la biblioteca y vuelve a intentarlo.",
                false,
            ),
        );
    };
    let runtime = match provider {
        ProviderId::Ollama => "ollama",
        _ => "lm_studio",
    };
    if !has_runtime(&model, runtime) {
        let mut explanation = chars_of(model.name.as_str());
        extend(&mut explanation, &chars_of(" no se puede instalar con "));
        extend(&mut explanation, &chars_of(provider.display_name()));
        extend(&mut explanation, &chars_of("."));
        let explanation = string_of(&explanation);
        return Err(
            Diagnostic::new(
                "INCOMPATIBLE_RUNTIME",
                "Este modelo necesita otro motor",
                explanation.as_str(),
                "Los modelos de imagen y vídeo usan un motor de generación distinto.",
                "Abre la guía oficial de ComfyUI desde la biblioteca.",
                false,
            ),
        );
    }
    Ok(model)
}


// ---------------------------------------------------------------- ComfyUI

pub open spec fn comfy_unavailable() -> DiagnosticView {
    diag(
        "MODEL_NOT_FOUND"@,
        "Modelo no disponible"@,
        "Este modelo no está disponible para ComfyUI."@,
        "El catálogo pudo cambiar."@,
        "Actualiza la biblioteca y vuelve a intentarlo."@,
        false,
    )
}

pub open spec fn download_unconfigured() -> DiagnosticView {
    diag(
        "MODEL_NOT_FOUND"@,
        "Descarga no configurada"@,
        "Vareliox todavía no conoce los archivos necesarios para este modelo."@,
        "El modelo necesita varios componentes específicos."@,
        "Actualiza Vareliox Code y vuelve a intentarlo."@,
        false,
    )
}

/// What downloading `model_id` through ComfyUI needs: the library entry of
/// a model that ComfyUI serves, and the files it is made of.
pub open spec fn comfy_download_spec(model_id: Seq<char>) -> Result<
    (CatalogItemView, Seq<Seq<char>>),
    DiagnosticView,
> {
    match comfy_position(catalog(), model_id, 0) {
        None => Err(comfy_unavailable()),
        Some(k) => match comfy_files(model_id) {
            None => Err(download_unconfigured()),
            Some(files) => Ok((catalog()[k], files)),
        },
    }
}

/// The library entry and the files of a ComfyUI model (see
/// `comfy_download_spec`).
pub fn plan_comfy_download(model_id: &str) -> (r: Result<
    (LocalModelCatalogItem, Vec<&'static str>),
    Diagnostic,
>)
    ensures
        match r {
            Ok((m, files)) => comfy_download_spec(model_id@) == Ok::<_, DiagnosticView>(
                (m@, strs_view(files@)),
            ),
            Err(d) => comfy_download_spec(model_id@) == Err::<(CatalogItemView, Seq<Seq<char>>), _>(
                d@,
            ),
        },
{
    let Some(model) = take_model(local_model_catalog(), model_id, true) else {
        return Err(
            Diagnostic::new(
                "MODEL_NOT_FOUND",
                "Modelo no disponible",
                "Este modelo no está disponible para ComfyUI.",
                "El catálogo pudo cambiar.",
                "Actualiza la biblioteca y vuelve a intentarlo.",
                false,
            ),
        );
    };
    let Some(files) = comfyui_model_files(model_id) else {
        return Err(
            Diagnostic::new(
                "MODEL_NOT_FOUND",
                "Descarga no configurada",
                "Vareliox todavía no conoce los archivos necesarios para este modelo.",
                "El modelo necesita varios componentes específicos.",
                "Actualiza Vareliox Code y vuelve a intentarlo.",
                false,
            ),
        );
    };
    Ok((model, files))
}

pub open spec fn comfy_setup_required() -> DiagnosticView {
    diag(
        "COMFYUI_LOCAL_SETUP_REQUIRED"@,
        "Falta crear una instalación local"@,
        "Comfy Desktop está instalado, pero solo configuraste Comfy Cloud."@,
        "Los modelos locales necesitan una instalación Local dentro de Comfy Desktop."@,
        "Abre Comfy Desktop, añade una instalación Local, iníciala y vuelve a pulsar Descargar."@,
        true,
    )
}

pub open spec fn comfy_stopped() -> DiagnosticView {
    diag(
        "SERVER_OFFLINE"@,
        "ComfyUI local está cerrado"@,
        "Vareliox encontró Comfy Desktop, pero su servidor local no está funcionando."@,
        "La instalación local está detenida o todavía está iniciándose."@,
        "Abre Comfy Desktop, inicia tu instalación local y vuelve a pulsar Descargar."@,
        true,
    )
}

pub open spec fn comfy_missing() -> DiagnosticView {
    diag(
        "PROVIDER_NOT_INSTALLED"@,
        "ComfyUI no está instalado"@,
        "Vareliox no encontró Comfy Desktop en este equipo."@,
        "ComfyUI es el motor necesario para modelos de imagen y vídeo."@,
        "Instala Comfy Desktop, crea una instalación Local y vuelve a intentarlo."@,
        true,
    )
}

/// Why no ComfyUI server answered: Comfy Desktop is there with only a cloud
/// setup, its local server is stopped, or ComfyUI is not installed. A local
/// installation counts as installed even without a launcher.
pub open spec fn comfy_offline_spec(launcher_found: bool, local_setup: bool) -> DiagnosticView {
    let installed = launcher_found || local_setup;
    if installed && !local_setup {
        comfy_setup_required()
    } else if installed {
        comfy_stopped()
    } else {
        comfy_missing()
    }
}

/// The report when no ComfyUI server answers (see `comfy_offline_spec`).
pub fn comfy_offline_error(launcher_found: bool, local_setup: bool) -> (r: Diagnostic)
    ensures
        r@ == comfy_offline_spec(launcher_found, local_setup),
{
    let installed = launcher_found || local_setup;
    if installed && !local_setup {
        Diagnostic::new(
            "COMFYUI_LOCAL_SETUP_REQUIRED",
            "Falta crear una instalación local",
            "Comfy Desktop está instalado, pero solo configuraste Comfy Cloud.",
            "Los modelos locales necesitan una instalación Local dentro de Comfy Desktop.",
            "Abre Comfy Desktop, añade una instalación Local, iníciala y vuelve a pulsar Descargar.",
            true,
        )
    } else if installed {
        Diagnostic::new(
            "SERVER_OFFLINE",
            "ComfyUI local está cerrado",
            "Vareliox encontró Comfy Desktop, pero su servidor local no está funcionando.",
            "La instalación local está detenida o todavía está iniciándose.",
            "Abre Comfy Desktop, inicia tu instalación local y vuelve a pulsar Descargar.",
            true,
        )
    } else {
        Diagnostic::new(
            "PROVIDER_NOT_INSTALLED",
            "ComfyUI no está instalado",
            "Vareliox no encontró Comfy Desktop en este equipo.",
            "ComfyUI es el motor necesario para modelos de imagen y vídeo.",
            "Instala Comfy Desktop, crea una instalación Local y vuelve a intentarlo.",
            true,
        )
    }
}

pub open spec fn comfy_launcher_missing() -> DiagnosticView {
    diag(
        "PROVIDER_NOT_INSTALLED"@,
        "ComfyUI no está instalado"@,
        "Vareliox no encontró un lanzador de ComfyUI en este equipo."@,
        "La instalación no existe o está en una ubicación personalizada."@,
        "Instala ComfyUI o inícialo manualmente en 127.0.0.1:8188."@,
        true,
    )
}

/// The report when Comfy Desktop cannot be opened because no launcher exists.
pub fn comfy_launcher_missing_error() -> (r: Diagnostic)
    ensures
        r@ == comfy_launcher_missing(),
{
    Diagnostic::new(
        "PROVIDER_NOT_INSTALLED",
        "ComfyUI no está instalado",
        "Vareliox no encontró un lanzador de ComfyUI en este equipo.",
        "La instalación no existe o está en una ubicación personalizada.",
        "Instala ComfyUI o inícialo manualmente en 127.0.0.1:8188.",
        true,
    )
}

/// One entry of Comfy Desktop's list of installations: each field holds the
/// entry's value where that value is a string.
#[derive(Clone, Debug)]
pub struct ComfyInstallation {
    pub source_id: Option<String>,
    pub remote_url: Option<String>,
    pub status: Option<String>,
}

/// An installation on this computer: not the cloud source, no remote
/// address, and installed.
pub open spec fn local_installation(i: ComfyInstallation) -> bool {
    &&& !(i.source_id matches Some(s) && s@ == "cloud"@)
    &&& i.remote_url is None
    &&& (i.status matches Some(s) && s@ == "installed"@)
}

/// Whether Comfy Desktop's list of installations (`None` when the file does
/// not hold a list) includes a local one.
pub fn comfy_installations_include_local(list: &Option<Vec<ComfyInstallation>>) -> (r: bool)
    ensures
        r == (list is Some && exists|k: int|
            0 <= k < list->Some_0@.len() && local_installation(#[trigger] list->Some_0@[k])),
{
    match list {
        None => false,
        Some(items) => {
            let mut i: usize = 0;
            while i < items.len()
                invariant
                    i <= items.len(),
                    *list == Some(*items),
                    forall|k: int| 0 <= k < i ==> !local_installation(#[trigger] items@[k]),
                decreases items.len() - i,
            {
                let item = &items[i];
                let cloud = match &item.source_id {
                    Some(s) => str_eq(s.as_str(), "cloud"),
                    None => false,
                };
                let installed = match &item.status {
                    Some(s) => str_eq(s.as_str(), "installed"),
                    None => false,
                };
                if !cloud && item.remote_url.is_none() && installed {
                    assert(local_installation(items@[i as int]));
                    assert(list->Some_0 == *items);
                    assert(local_installation(list->Some_0@[i as int]));
                    return true;
                }
                i += 1;
            }
            false
        },
    }
}

// ---------------------------------------------------------------- ComfyUI-Manager

/// One model of ComfyUI-Manager's catalog: its `filename` and `url` where
/// they are strings.
#[derive(Clone, Debug)]
pub struct ManagerEntry {
    pub filename: Option<String>,
    pub url: Option<String>,
}

/// ComfyUI-Manager's answer to the request for its model list: not JSON,
/// JSON without a list of models, or the list.
#[derive(Clone, Debug)]
pub enum ManagerCatalog {
    Unreadable,
    Unlisted,
    Listed(Vec<ManagerEntry>),
}

/// A model file to queue: the catalog entry to send and the `ui_id` to give it.
#[derive(Clone, Debug)]
pub struct ManagerInstall {
    pub entry: usize,
    pub ui_id: String,
}

pub open spec fn install_view(i: ManagerInstall) -> (int, Seq<char>) {
    (i.entry as int, i.ui_id@)
}

pub open spec fn installs_view(v: Seq<ManagerInstall>) -> Seq<(int, Seq<char>)> {
    v.map_values(|i: ManagerInstall| install_view(i))
}

/// The entry names the file, or its address ends with the file's name.
pub open spec fn entry_serves(e: ManagerEntry, file: Seq<char>) -> bool {
    (e.filename matches Some(f) && f@ == file) || (e.url matches Some(u) && ends_with(u@, file))
}

/// The first entry at or after `from` that serves `file`.
pub open spec fn serving_entry(es: Seq<ManagerEntry>, file: Seq<char>, from: int) -> Option<int>
    decreases es.len() - from,
{
    if from < 0 || from >= es.len() {
        None
    } else if entry_serves(es[from], file) {
        Some(from)
    } else {
        serving_entry(es, file, from + 1)
    }
}

/// The `ui_id` under which a file of a model is queued.
pub open spec fn install_ui_id(model_id: Seq<char>, file: Seq<char>) -> Seq<char> {
    "nova-"@ + model_id + "-"@ + file
}

pub open spec fn manager_unreadable() -> DiagnosticView {
    diag(
        "INVALID_RESPONSE"@,
        "ComfyUI devolvió una respuesta inválida"@,
        "Vareliox no pudo leer el catálogo de ComfyUI-Manager."@,
        "La versión instalada puede ser incompatible."@,
        "Actualiza ComfyUI-Manager y vuelve a intentarlo."@,
        true,
    )
}

pub open spec fn manager_incompatible() -> DiagnosticView {
    diag(
        "INVALID_RESPONSE"@,
        "Catálogo de ComfyUI incompatible"@,
        "Vareliox no encontró la lista de modelos esperada."@,
        "ComfyUI-Manager cambió el formato de su catálogo."@,
        "Actualiza ComfyUI-Manager o Vareliox Code."@,
        true,
    )
}

pub open spec fn manager_file_missing(file: Seq<char>) -> DiagnosticView {
    diag(
        "MODEL_NOT_FOUND"@,
        "ComfyUI no encontró todos los archivos"@,
        "Falta "@ + file + " en el catálogo de ComfyUI-Manager."@,
        "El catálogo de modelos puede estar desactualizado."@,
        "Actualiza ComfyUI-Manager y vuelve a intentarlo."@,
        true,
    )
}

/// For each file in order, the first catalog entry that serves it; or the
/// first file that no entry serves.
pub open spec fn installs_spec(model_id: Seq<char>, files: Seq<Seq<char>>, es: Seq<ManagerEntry>) -> Result<
    Seq<(int, Seq<char>)>,
    DiagnosticView,
>
    decreases files.len(),
{
    if files.len() == 0 {
        Ok(Seq::empty())
    } else {
        match installs_spec(model_id, files.drop_last(), es) {
            Err(d) => Err(d),
            Ok(p) => match serving_entry(es, files.last(), 0) {
                None => Err(manager_file_missing(files.last())),
                Some(k) => Ok(p.push((k, install_ui_id(model_id, files.last())))),
            },
        }
    }
}

pub open spec fn manager_plan_spec(model_id: Seq<char>, files: Seq<Seq<char>>, catalog: ManagerCatalog) -> Result<
    Seq<(int, Seq<char>)>,
    DiagnosticView,
> {
    match catalog {
        ManagerCatalog::Unreadable => Err(manager_unreadable()),
        ManagerCatalog::Unlisted => Err(manager_incompatible()),
        ManagerCatalog::Listed(es) => installs_spec(model_id, files, es@),
    }
}

proof fn lemma_installs_failure_stays(model_id: Seq<char>, files: Seq<Seq<char>>, es: Seq<ManagerEntry>, n: int)
    requires
        0 <= n <= files.len(),
        installs_spec(model_id, files.take(n), es) is Err,
    ensures
        installs_spec(model_id, files, es) == installs_spec(model_id, files.take(n), es),
    decreases files.len() - n,
{
    if n < files.len() {
        assert(files.take(n + 1).drop_last() =~= files.take(n));
        lemma_installs_failure_stays(model_id, files, es, n + 1);
    } else {
        assert(files.take(n) =~= files);
    }
}

fn entry_serves_exec(e: &ManagerEntry, file: &str) -> (r: bool)
    ensures
        r == entry_serves(*e, file@),
{
    let named = match &e.filename {
        Some(f) => str_eq(f.as_str(), file),
        None => false,
    };
    named || match &e.url {
        Some(u) => has_suffix(&chars_of(u.as_str()), &chars_of(file)),
        None => false,
    }
}

fn first_serving(es: &Vec<ManagerEntry>, file: &str) -> (r: Option<usize>)
    ensures
        match r {
            Some(k) => serving_entry(es@, file@, 0) == Some(k as int),
            None => serving_entry(es@, file@, 0) is None,
        },
{
    let mut k: usize = 0;
    while k < es.len()
        invariant
            k <= es.len(),
            serving_entry(es@, file@, 0) == serving_entry(es@, file@, k as int),
        decreases es.len() - k,
    {
        if entry_serves_exec(&es[k], file) {
            return Some(k);
        }
        k += 1;
    }
    None
}

/// The catalog entries to queue for the files of `model_id`, each with its
/// `ui_id` (see `manager_plan_spec`).
pub fn manager_installs(model_id: &str, files: &Vec<&'static str>, catalog: &ManagerCatalog) -> (r: Result<
    Vec<ManagerInstall>,
    Diagnostic,
>)
    ensures
        match r {
            Ok(v) => manager_plan_spec(model_id@, strs_view(files@), *catalog) == Ok::<_, DiagnosticView>(
                installs_view(v@),
            ),
            Err(d) => manager_plan_spec(model_id@, strs_view(files@), *catalog) == Err::<
                Seq<(int, Seq<char>)>,
                _,
            >(d@),
        },
{
    let es = match catalog {
        ManagerCatalog::Unreadable => {
            return Err(
                Diagnostic::new(
                    "INVALID_RESPONSE",
                    "ComfyUI devolvió una respuesta inválida",
                    "Vareliox no pudo leer el catálogo de ComfyUI-Manager.",
                    "La versión instalada puede ser incompatible.",
                    "Actualiza ComfyUI-Manager y vuelve a intentarlo.",
                    true,
                ),
            );
        },
        ManagerCatalog::Unlisted => {
            return Err(
                Diagnostic::new(
                    "INVALID_RESPONSE",
                    "Catálogo de ComfyUI incompatible",
                    "Vareliox no encontró la lista de modelos esperada.",
                    "ComfyUI-Manager cambió el formato de su catálogo.",
                    "Actualiza ComfyUI-Manager o Vareliox Code.",
                    true,
                ),
            );
        },
        ManagerCatalog::Listed(es) => es,
    };
    let ghost fv = strs_view(files@);
    let mut out: Vec<ManagerInstall> = Vec::new();
    let mut i: usize = 0;
    assert(fv.take(0) =~= Seq::<Seq<char>>::empty());
    assert(installs_view(out@) =~= Seq::<(int, Seq<char>)>::empty());
    while i < files.len()
        invariant
            i <= files.len(),
            *catalog == ManagerCatalog::Listed(*es),
            fv == strs_view(files@),
            installs_spec(model_id@, fv.take(i as int), es@) == Ok::<_, DiagnosticView>(
                installs_view(out@),
            ),
        decreases files.len() - i,
    {
        let file = files[i];
        assert(fv.take(i + 1).drop_last() =~= fv.take(i as int));
        assert(fv.take(i + 1).last() == file@);
        let found = first_serving(es, file);
        match found {
            None => {
                proof {
                    lemma_installs_failure_stays(model_id@, fv, es@, i + 1);
                    assert(fv.take(files.len() as int) =~= fv);
                }
                let mut explanation = chars_of("Falta ");
                extend(&mut explanation, &chars_of(file));
                extend(&mut explanation, &chars_of(" en el catálogo de ComfyUI-Manager."));
                let explanation = string_of(&explanation);
                proof {
                    assert(installs_spec(model_id@, fv.take(i + 1), es@) == Err::<Seq<(int, Seq<char>)>, _>(
                        manager_file_missing(file@),
                    ));
                    assert(installs_spec(model_id@, fv, es@) == Err::<Seq<(int, Seq<char>)>, _>(
                        manager_file_missing(file@),
                    ));
                    assert(explanation@ == "Falta "@ + file@ + " en el catálogo de ComfyUI-Manager."@);
                }
                return Err(
                    Diagnostic::new(
                        "MODEL_NOT_FOUND",
                        "ComfyUI no encontró todos los archivos",
                        explanation.as_str(),
                        "El catálogo de modelos puede estar desactualizado.",
                        "Actualiza ComfyUI-Manager y vuelve a intentarlo.",
                        true,
                    ),
                );
            },
            Some(k) => {
                let mut ui_id = chars_of("nova-");
                extend(&mut ui_id, &chars_of(model_id));
                extend(&mut ui_id, &chars_of("-"));
                extend(&mut ui_id, &chars_of(file));
                let ghost before = installs_view(out@);
                out.push(ManagerInstall { entry: k, ui_id: string_of(&ui_id) });
                assert(installs_view(out@) =~= before.push((k as int, install_ui_id(model_id@, file@))));
            },
        }
        i += 1;
    }
    assert(fv.take(files.len() as int) =~= fv);
    Ok(out)
}

pub open spec fn manager_missing() -> DiagnosticView {
    diag(
        "COMFYUI_MANAGER_MISSING"@,
        "Falta ComfyUI-Manager"@,
        "ComfyUI está abierto, pero su gestor de modelos no responde."@,
        "ComfyUI-Manager no está instalado o está desactivado."@,
        "Instala ComfyUI-Manager, reinicia ComfyUI y vuelve a intentarlo."@,
        true,
    )
}

/// The report when ComfyUI answers but ComfyUI-Manager does not.
pub fn manager_missing_error() -> (r: Diagnostic)
    ensures
        r@ == manager_missing(),
{
    Diagnostic::new(
        "COMFYUI_MANAGER_MISSING",
        "Falta ComfyUI-Manager",
        "ComfyUI está abierto, pero su gestor de modelos no responde.",
        "ComfyUI-Manager no está instalado o está desactivado.",
        "Instala ComfyUI-Manager, reinicia ComfyUI y vuelve a intentarlo.",
        true,
    )
}

/// The progress shown while the `index`-th of `count` files is queued: the
/// queue takes the first 80 per cent.
pub open spec fn queue_progress(index: int, count: int) -> int {
    (index * 80) / if count > 1 {
        count
    } else {
        1
    }
}

/// The message and progress shown while a file is queued; a file without a
/// name is called "archivo del modelo".
pub fn queue_status(filename: Option<&str>, index: usize, count: usize) -> (r: (String, u8))
    requires
        index < count,
        index * 80 <= usize::MAX,
    ensures
        r.0@ == "Añadiendo "@ + (match filename {
            Some(f) => f@,
            None => "archivo del modelo"@,
        }) + " a la cola de ComfyUI…"@,
        r.1 == queue_progress(index as int, count as int),
{
    let name = match filename {
        Some(f) => f,
        None => "archivo del modelo",
    };
    let mut message = chars_of("Añadiendo ");
    extend(&mut message, &chars_of(name));
    extend(&mut message, &chars_of(" a la cola de ComfyUI…"));
    let divisor: usize = if count > 1 {
        count
    } else {
        1
    };
    let scaled = index * 80;
    let progress = scaled / divisor;
    assert(progress < 80) by (nonlinear_arith)
        requires
            progress as int == (scaled as int) / (divisor as int),
            scaled as int == index * 80,
            index < count,
            divisor == count || (divisor == 1 && count <= 1),
            divisor >= 1,
    ;
    (string_of(&message), progress as u8)
}

/// The message shown once every file of a model is queued.
pub fn comfy_download_started(model_name: &str) -> (r: String)
    ensures
        r@ == model_name@ + " se está descargando en ComfyUI."@,
{
    let mut message = chars_of(model_name);
    extend(&mut message, &chars_of(" se está descargando en ComfyUI."));
    string_of(&message)
}


// ---------------------------------------------------------------- finding ComfyUI

/// The local addresses where a ComfyUI server is looked for, in this order.
pub open spec fn comfy_candidates_spec() -> Seq<Seq<char>> {
    seq![
        "http://127.0.0.1:8000"@,
        "http://127.0.0.1:8188"@,
        "http://127.0.0.1:8189"@,
        "http://127.0.0.1:8190"@,
    ]
}

pub fn comfy_candidates() -> (r: Vec<&'static str>)
    ensures
        strs_view(r@) == comfy_candidates_spec(),
{
    let r = vec!["http://127.0.0.1:8000", "http://127.0.0.1:8188", "http://127.0.0.1:8189", "http://127.0.0.1:8190"];
    assert(strs_view(r@) =~= comfy_candidates_spec());
    r
}

/// Where the search for a ComfyUI server stands after a probe.
#[derive(Clone, Debug)]
pub enum ComfyProbe {
    /// Ask `<address>/system_stats` of the candidate at this position.
    Probe(usize, String),
    /// This candidate answered with success: it is the server.
    Found(String),
    /// No candidate answered with success.
    Offline,
}

pub enum ComfyProbeView {
    Probe(int, Seq<char>),
    Found(Seq<char>),
    Offline,
}

impl View for ComfyProbe {
    type V = ComfyProbeView;

    open spec fn view(&self) -> ComfyProbeView {
        match self {
            ComfyProbe::Probe(i, a) => ComfyProbeView::Probe(*i as int, a@),
            ComfyProbe::Found(a) => ComfyProbeView::Found(a@),
            ComfyProbe::Offline => ComfyProbeView::Offline,
        }
    }
}

/// After the candidate at `tried` was probed: it is the server if it answered
/// with success, else the next candidate is probed, and after the last one
/// the server is offline.
pub open spec fn comfy_probe_next(tried: int, answered: bool) -> ComfyProbeView {
    let cs = comfy_candidates_spec();
    if answered {
        ComfyProbeView::Found(cs[tried])
    } else if tried + 1 < cs.len() {
        ComfyProbeView::Probe(tried + 1, cs[tried + 1])
    } else {
        ComfyProbeView::Offline
    }
}

/// The first probe: the first candidate.
pub fn comfy_probe_start() -> (r: ComfyProbe)
    ensures
        r@ == ComfyProbeView::Probe(0, comfy_candidates_spec()[0]),
{
    let cs = comfy_candidates();
    assert(strs_view(cs@).len() == cs@.len());
    assert(strs_view(cs@)[0] == cs@[0]@);
    ComfyProbe::Probe(0, owned(cs[0]))
}

/// One probe answered (`answered` is a success status; a failed request or
/// any other status counts as no answer); see `comfy_probe_next`.
pub fn comfy_probe_step(tried: usize, answered: bool) -> (r: ComfyProbe)
    requires
        tried < comfy_candidates_spec().len(),
    ensures
        r@ == comfy_probe_next(tried as int, answered),
{
    let cs = comfy_candidates();
    assert(strs_view(cs@).len() == cs@.len());
    assert(strs_view(cs@)[tried as int] == cs@[tried as int]@);
    if answered {
        ComfyProbe::Found(owned(cs[tried]))
    } else if tried + 1 < cs.len() {
        assert(strs_view(cs@)[tried + 1] == cs@[tried + 1]@);
        ComfyProbe::Probe(tried + 1, owned(cs[tried + 1]))
    } else {
        ComfyProbe::Offline
    }
}

/// Probing visits the candidates in order and stops at the first that
/// answers: a probe leads to the server it probed, to the next candidate, or,
/// after the last, to the offline report, never back to an earlier one.
pub proof fn lemma_comfy_probe_in_order(tried: int, answered: bool)
    requires
        0 <= tried < comfy_candidates_spec().len(),
    ensures
        answered ==> comfy_probe_next(tried, answered) == ComfyProbeView::Found(
            comfy_candidates_spec()[tried],
        ),
        !answered && tried < 3 ==> comfy_probe_next(tried, answered) == ComfyProbeView::Probe(
            tried + 1,
            comfy_candidates_spec()[tried + 1],
        ),
        !answered && tried == 3 ==> comfy_probe_next(tried, answered) == ComfyProbeView::Offline,
{
}

/// The report for an unsuccessful HTTP reply of `service`: its status as
/// HTTP writes it (`404 Not Found`), retryable for server errors, with the
/// body as technical detail.
pub open spec fn service_status_spec(service: Seq<char>, status: u16, status_text: Seq<char>, body: Seq<char>) -> DiagnosticView {
    DiagnosticView {
        technical: Some(body),
        ..diag(
            "HTTP_ERROR"@,
            "El servicio devolvió un error"@,
            service + " respondió HTTP "@ + status_text + "."@,
            "El servicio rechazó la solicitud."@,
            "Revisa la configuración y vuelve a intentarlo."@,
            500 <= status <= 599,
        )
    }
}

pub fn service_status_error(service: &str, status: u16, status_text: &str, body: &str) -> (r: Diagnostic)
    ensures
        r@ == service_status_spec(service@, status, status_text@, body@),
{
    let mut explanation = chars_of(service);
    extend(&mut explanation, &chars_of(" respondió HTTP "));
    extend(&mut explanation, &chars_of(status_text));
    extend(&mut explanation, &chars_of("."));
    let explanation = string_of(&explanation);
    Diagnostic::new(
        "HTTP_ERROR",
        "El servicio devolvió un error",
        explanation.as_str(),
        "El servicio rechazó la solicitud.",
        "Revisa la configuración y vuelve a intentarlo.",
        500 <= status && status <= 599,
    ).technical(body)
}

pub open spec fn success_status(status: u16) -> bool {
    200 <= status <= 299
}

/// ComfyUI-Manager's answer to the request for its model list: 404 means
/// the manager is missing, another unsuccessful status is reported as such.
pub open spec fn manager_list_outcome(status: u16, status_text: Seq<char>, body: Seq<char>) -> Result<(), DiagnosticView> {
    if status == 404 {
        Err(manager_missing())
    } else if !success_status(status) {
        Err(service_status_spec("ComfyUI-Manager"@, status, status_text, body))
    } else {
        Ok(())
    }
}

pub fn manager_list_reply(status: u16, status_text: &str, body: &str) -> (r: Result<(), Diagnostic>)
    ensures
        match manager_list_outcome(status, status_text@, body@) {
            Ok(()) => r is Ok,
            Err(d) => r matches Err(e) && e@ == d,
        },
{
    if status == 404 {
        Err(manager_missing_error())
    } else if !(200 <= status && status <= 299) {
        let service = "ComfyUI-Manager";
        proof {
            reveal_strlit("ComfyUI-Manager");
        }
        Err(service_status_error(service, status, status_text, body))
    } else {
        Ok(())
    }
}

/// ComfyUI-Manager's answer to queueing a file (`starting` false) or to
/// starting the queue (`starting` true, where 201 also counts as success).
pub open spec fn manager_queue_outcome(starting: bool, status: u16, status_text: Seq<char>, body: Seq<char>) -> Result<(), DiagnosticView> {
    if success_status(status) || (starting && status == 201) {
        Ok(())
    } else {
        Err(service_status_spec("ComfyUI-Manager"@, status, status_text, body))
    }
}

pub fn manager_queue_reply(starting: bool, status: u16, status_text: &str, body: &str) -> (r: Result<(), Diagnostic>)
    ensures
        match manager_queue_outcome(starting, status, status_text@, body@) {
            Ok(()) => r is Ok,
            Err(d) => r matches Err(e) && e@ == d,
        },
{
    if (200 <= status && status <= 299) || (starting && status == 201) {
        Ok(())
    } else {
        let service = "ComfyUI-Manager";
        Err(service_status_error(service, status, status_text, body))
    }
}

// ---------------------------------------------------------------- LM Studio downloads

/// LM Studio's answer to a download request: not JSON, or the fields read
/// from it. `job_id` is `Some(None)` where that key holds something other
/// than a string; `job_id_camel` (`jobId`) and `status` are kept only where
/// they are strings.
#[derive(Clone, Debug)]
pub enum LmStudioStart {
    Unreadable,
    Reply { status: Option<String>, job_id: Option<Option<String>>, job_id_camel: Option<String> },
}

/// How a download begins: nothing to do, or a job to follow.
#[derive(Clone, Debug)]
pub enum DownloadStart {
    AlreadyDownloaded,
    Job(String),
}
pub open spec fn lm_studio_unreadable() -> DiagnosticView {
    diag(
        "INVALID_RESPONSE"@,
        "LM Studio devolviÃ³ una respuesta invÃ¡lida"@,
        "No se pudo iniciar la descarga del modelo."@,
        "La versiÃ³n de LM Studio puede ser antigua."@,
        "Actualiza LM Studio y vuelve a intentarlo."@,
        false,
    )
}
pub open spec fn lm_studio_no_job() -> DiagnosticView {
    diag(
        "INVALID_RESPONSE"@,
        "LM Studio no entregÃ³ un trabajo de descarga"@,
        "La descarga no pudo ser seguida de forma segura."@,
        "La API de modelos de LM Studio no respondiÃ³ como se esperaba."@,
        "Actualiza LM Studio y vuelve a probar."@,
        false,
    )
}

/// The job id of a reply: `job_id` where that key is present, else `jobId`.
pub open spec fn reply_job(job_id: Option<Option<String>>, job_id_camel: Option<String>) -> Option<Seq<char>> {
    match job_id {
        Some(Some(j)) => Some(j@),
        Some(None) => None,
        None => match job_id_camel {
            Some(j) => Some(j@),
            None => None,
        },
    }
}

pub open spec fn start_view(s: DownloadStart) -> Option<Seq<char>> {
    match s {
        DownloadStart::AlreadyDownloaded => None,
        DownloadStart::Job(j) => Some(j@),
    }
}

/// How an LM Studio download begins, from its reply and raw `body`: a model
/// already downloaded needs nothing; otherwise a job id is required. Both
/// failures carry the body as technical detail.
pub fn lm_studio_start(reply: &LmStudioStart, body: &str) -> (r: Result<DownloadStart, Diagnostic>)
    ensures
        match *reply {
            LmStudioStart::Unreadable => r matches Err(d) && d@ == (DiagnosticView {
                technical: Some(body@),
                ..lm_studio_unreadable()
            }),
            LmStudioStart::Reply { status, job_id, job_id_camel } => if status matches Some(s) && s@
                == "already_downloaded"@ {
                r matches Ok(s) && s is AlreadyDownloaded
            } else {
                match reply_job(job_id, job_id_camel) {
                    Some(j) => r matches Ok(s) && start_view(s) == Some(j),
                    None => r matches Err(d) && d@ == (DiagnosticView {
                        technical: Some(body@),
                        ..lm_studio_no_job()
                    }),
                }
            },
        },
{
    match reply {
        LmStudioStart::Unreadable => Err(
            Diagnostic::new(
                "INVALID_RESPONSE",
                "LM Studio devolviÃ³ una respuesta invÃ¡lida",
                "No se pudo iniciar la descarga del modelo.",
                "La versiÃ³n de LM Studio puede ser antigua.",
                "Actualiza LM Studio y vuelve a intentarlo.",
                false,
            ).technical(body),
        ),
        LmStudioStart::Reply { status, job_id, job_id_camel } => {
            let done = match status {
                Some(s) => str_eq(s.as_str(), "already_downloaded"),
                None => false,
            };
            if done {
                return Ok(DownloadStart::AlreadyDownloaded);
            }
            let job = match job_id {
                Some(Some(j)) => Some(j.clone()),
                Some(None) => None,
                None => match job_id_camel {
                    Some(j) => Some(j.clone()),
                    None => None,
                },
            };
            match job {
                Some(j) => Ok(DownloadStart::Job(j)),
                None => Err(
                    Diagnostic::new(
                        "INVALID_RESPONSE",
                        "LM Studio no entregÃ³ un trabajo de descarga",
                        "La descarga no pudo ser seguida de forma segura.",
                        "La API de modelos de LM Studio no respondiÃ³ como se esperaba.",
                        "Actualiza LM Studio y vuelve a probar.",
                        false,
                    ).technical(body),
                ),
            }
        },
    }
}

/// The address path under which LM Studio reports on job `job_id`.
pub fn lm_studio_status_path(job_id: &str) -> (r: String)
    ensures
        r@ == "/api/v1/models/download/status/"@ + job_id@,
{
    let mut p = chars_of("/api/v1/models/download/status/");
    extend(&mut p, &chars_of(job_id));
    string_of(&p)
}

/// LM Studio's report on a download job: not JSON, or its `status` and
/// `error` where they are strings.
#[derive(Clone, Debug)]
pub enum LmStudioStatus {
    Unreadable,
    Reply { status: Option<String>, error: Option<String> },
}

/// What a report on a download job means: the job finished, or the message
/// to show while it goes on.
#[derive(Clone, Debug)]
pub enum DownloadStep {
    Finished,
    Waiting(String),
}
pub open spec fn lm_studio_bad_status() -> DiagnosticView {
    diag(
        "INVALID_RESPONSE"@,
        "Estado de descarga no vÃ¡lido"@,
        "LM Studio enviÃ³ un estado que Vareliox no pudo leer."@,
        "La API de descarga es incompatible."@,
        "Actualiza LM Studio y vuelve a probar."@,
        false,
    )
}
pub open spec fn lm_studio_failed(message: Seq<char>) -> DiagnosticView {
    diag(
        "INVALID_RESPONSE"@,
        "LM Studio no pudo descargar el modelo"@,
        message,
        "LM Studio o la fuente original rechazÃ³ la descarga."@,
        "Revisa la conexiÃ³n, el espacio disponible y vuelve a intentarlo."@,
        true,
    )
}
pub open spec fn lm_studio_too_slow() -> DiagnosticView {
    diag(
        "RESPONSE_TIMEOUT"@,
        "La descarga tardÃ³ demasiado"@,
        "LM Studio no terminÃ³ dentro del lÃ­mite configurado."@,
        "La descarga puede seguir en segundo plano o estar detenida."@,
        "Revisa LM Studio y vuelve a abrir la biblioteca."@,
        true,
    )
}

/// The state a report gives: its status, "downloading" when it has none.
pub open spec fn job_state(status: Option<String>) -> Seq<char> {
    match status {
        Some(s) => s@,
        None => "downloading"@,
    }
}

/// What a report on an LM Studio job means: "completed" finishes, "failed"
/// fails with LM Studio's error (or a default one) and the raw `body`; any
/// other state keeps waiting, with a message for a paused job or a running
/// one.
pub fn lm_studio_step(report: &LmStudioStatus, body: &str) -> (r: Result<DownloadStep, Diagnostic>)
    ensures
        match *report {
            LmStudioStatus::Unreadable => r matches Err(d) && d@ == lm_studio_bad_status(),
            LmStudioStatus::Reply { status, error } => {
                let state = job_state(status);
                if state == "completed"@ {
                    r matches Ok(s) && s is Finished
                } else if state == "failed"@ {
                    r matches Err(d) && d@ == (DiagnosticView {
                        technical: Some(body@),
                        ..lm_studio_failed(
                            match error {
                                Some(e) => e@,
                                None => "La descarga fallÃ³."@,
                            },
                        )
                    })
                } else {
                    r matches Ok(s) && s matches DownloadStep::Waiting(m) && m@ == if state
                        == "paused"@ {
                        "Descarga pausada en LM Studio"@
                    } else {
                        "Descargando con LM Studioâ€¦"@
                    }
                }
            },
        },
{
    match report {
        LmStudioStatus::Unreadable => Err(
            Diagnostic::new(
                "INVALID_RESPONSE",
                "Estado de descarga no vÃ¡lido",
                "LM Studio enviÃ³ un estado que Vareliox no pudo leer.",
                "La API de descarga es incompatible.",
                "Actualiza LM Studio y vuelve a probar.",
                false,
            ),
        ),
        LmStudioStatus::Reply { status, error } => {
            let state = match status {
                Some(s) => s.as_str(),
                None => "downloading",
            };
            if str_eq(state, "completed") {
                return Ok(DownloadStep::Finished);
            }
            if str_eq(state, "failed") {
                let message = match error {
                    Some(e) => e.as_str(),
                    None => "La descarga fallÃ³.",
                };
                return Err(
                    Diagnostic::new(
                        "INVALID_RESPONSE",
                        "LM Studio no pudo descargar el modelo",
                        message,
                        "LM Studio o la fuente original rechazÃ³ la descarga.",
                        "Revisa la conexiÃ³n, el espacio disponible y vuelve a intentarlo.",
                        true,
                    ).technical(body),
                );
            }
            if str_eq(state, "paused") {
                Ok(DownloadStep::Waiting(owned("Descarga pausada en LM Studio")))
            } else {
                Ok(DownloadStep::Waiting(owned("Descargando con LM Studioâ€¦")))
            }
        },
    }
}

/// The report when an LM Studio download outlasts the configured limit.
pub fn lm_studio_too_slow_error() -> (r: Diagnostic)
    ensures
        r@ == lm_studio_too_slow(),
{
    Diagnostic::new(
        "RESPONSE_TIMEOUT",
        "La descarga tardÃ³ demasiado",
        "LM Studio no terminÃ³ dentro del lÃ­mite configurado.",
        "La descarga puede seguir en segundo plano o estar detenida.",
        "Revisa LM Studio y vuelve a abrir la biblioteca.",
        true,
    )
}

/// The first message of a download with a local provider.
pub fn download_opening(provider: ProviderId, model_name: &str) -> (r: String)
    ensures
        r@ == if provider == ProviderId::Ollama {
            "Preparando "@ + model_name@ + " en Ollamaâ€¦"@
        } else {
            "Solicitando "@ + model_name@ + " a LM Studioâ€¦"@
        },
{
    let (lead, tail) = match provider {
        ProviderId::Ollama => ("Preparando ", " en Ollamaâ€¦"),
        _ => ("Solicitando ", " a LM Studioâ€¦"),
    };
    let mut m = chars_of(lead);
    extend(&mut m, &chars_of(model_name));
    extend(&mut m, &chars_of(tail));
    string_of(&m)
}

} // verus!
