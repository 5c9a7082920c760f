//! The library of local models: what can be installed with Ollama or LM
//! Studio, and which image and video models ComfyUI serves.
use vstd::prelude::*;
use crate::text::{owned, starts_with};

verus! {

/// A model offered in the local library.
#[derive(Clone, Debug)]
pub struct LocalModelCatalogItem {
    pub id: String,
    pub name: String,
    pub family: String,
    pub description: String,
    pub parameters: String,
    pub size: String,
    pub ollama_id: String,
    pub lm_studio_id: String,
    pub recommended: bool,
    pub category: String,
    pub capabilities: Vec<String>,
    pub runtimes: Vec<String>,
    pub guide_url: Option<String>,
}

pub struct CatalogItemView {
    pub id: Seq<char>,
    pub name: Seq<char>,
    pub family: Seq<char>,
    pub description: Seq<char>,
    pub parameters: Seq<char>,
    pub size: Seq<char>,
    pub ollama_id: Seq<char>,
    pub lm_studio_id: Seq<char>,
    pub recommended: bool,
    pub category: Seq<char>,
    pub capabilities: Seq<Seq<char>>,
    pub runtimes: Seq<Seq<char>>,
    pub guide_url: Option<Seq<char>>,
}

impl View for LocalModelCatalogItem {
    type V = CatalogItemView;

    open spec fn view(&self) -> CatalogItemView {
        CatalogItemView {
            id: self.id@,
            name: self.name@,
            family: self.family@,
            description: self.description@,
            parameters: self.parameters@,
            size: self.size@,
            ollama_id: self.ollama_id@,
            lm_studio_id: self.lm_studio_id@,
            recommended: self.recommended,
            category: self.category@,
            capabilities: crate::text::strings_view(self.capabilities@),
            runtimes: crate::text::strings_view(self.runtimes@),
            guide_url: match self.guide_url {
                Some(g) => Some(g@),
                None => None,
            },
        }
    }
}

/// Runtimes that install chat, code and vision models.
pub open spec fn chat_runtimes() -> Seq<Seq<char>> {
    seq!["ollama"@, "lm_studio"@]
}

/// The runtime that serves image and video models.
pub open spec fn generation_runtimes() -> Seq<Seq<char>> {
    seq!["comfyui"@]
}

pub open spec fn entry(
    id: Seq<char>,
    name: Seq<char>,
    family: Seq<char>,
    description: Seq<char>,
    parameters: Seq<char>,
    size: Seq<char>,
    ollama_id: Seq<char>,
    lm_studio_id: Seq<char>,
    recommended: bool,
    category: Seq<char>,
    cap1: Seq<char>,
    cap2: Seq<char>,
    local: bool,
    guide_url: Option<Seq<char>>,
) -> CatalogItemView {
    CatalogItemView {
        id,
        name,
        family,
        description,
        parameters,
        size,
        ollama_id,
        lm_studio_id,
        recommended,
        category,
        capabilities: seq![cap1, cap2],
        runtimes: if local {
            chat_runtimes()
        } else {
            generation_runtimes()
        },
        guide_url,
    }
}

/// The library, in display order.
pub open spec fn catalog() -> Seq<CatalogItemView> {
    seq![
        entry("qwen3-4b"@, "Qwen3 4B"@, "Qwen"@, "RÃ¡pido y muy capaz para programar en equipos normales."@, "4B"@, "~2.6 GB"@, "qwen3:4b"@, "qwen/qwen3-4b"@, true, "chat"@, "Chat"@, "Texto"@, true, None),
        entry("qwen3-8b"@, "Qwen3 8B"@, "Qwen"@, "Equilibrio excelente entre calidad, velocidad y memoria."@, "8B"@, "~5.2 GB"@, "qwen3:8b"@, "qwen/qwen3-8b"@, true, "chat"@, "Chat"@, "Texto"@, true, None),
        entry("qwen3-coder-30b"@, "Qwen3 Coder 30B"@, "Qwen"@, "Modelo de programaciÃ³n avanzado para equipos potentes."@, "30B"@, "~19 GB"@, "qwen3-coder:30b"@, "qwen/qwen3-coder-30b"@, true, "code"@, "Código"@, "Texto"@, true, None),
        entry("deepseek-r1-8b"@, "DeepSeek R1 8B"@, "DeepSeek"@, "Buen razonamiento local para tareas complejas."@, "8B"@, "~5 GB"@, "deepseek-r1:8b"@, "deepseek-ai/deepseek-r1-distill-qwen-7b"@, true, "chat"@, "Chat"@, "Texto"@, true, None),
        entry("deepseek-r1-14b"@, "DeepSeek R1 14B"@, "DeepSeek"@, "Razonamiento mÃ¡s fuerte; requiere mÃ¡s RAM o VRAM."@, "14B"@, "~9 GB"@, "deepseek-r1:14b"@, "deepseek-ai/deepseek-r1-distill-qwen-14b"@, false, "chat"@, "Chat"@, "Texto"@, true, None),
        entry("gemma3-4b"@, "Gemma 3 4B"@, "Google"@, "Modelo ligero, moderno y con soporte visual segÃºn el runtime."@, "4B"@, "~3.3 GB"@, "gemma3:4b"@, "google/gemma-3-4b"@, true, "vision"@, "Texto"@, "Comprender imágenes"@, true, None),
        entry("gemma3-12b"@, "Gemma 3 12B"@, "Google"@, "Mejor calidad general para equipos con mÃ¡s memoria."@, "12B"@, "~8 GB"@, "gemma3:12b"@, "google/gemma-3-12b"@, false, "vision"@, "Texto"@, "Comprender imágenes"@, true, None),
        entry("llama32-3b"@, "Llama 3.2 3B"@, "Meta"@, "PequeÃ±o y Ã¡gil para chat y cambios sencillos."@, "3B"@, "~2 GB"@, "llama3.2:3b"@, "meta-llama/llama-3.2-3b-instruct"@, false, "chat"@, "Chat"@, "Texto"@, true, None),
        entry("llama31-8b"@, "Llama 3.1 8B"@, "Meta"@, "OpciÃ³n estable y versÃ¡til para uso general."@, "8B"@, "~4.9 GB"@, "llama3.1:8b"@, "meta-llama/llama-3.1-8b-instruct"@, true, "chat"@, "Chat"@, "Texto"@, true, None),
        entry("mistral-7b"@, "Mistral 7B"@, "Mistral"@, "Ligero, fiable y rÃ¡pido para proyectos cotidianos."@, "7B"@, "~4.1 GB"@, "mistral:7b"@, "mistralai/mistral-7b-instruct-v0.3"@, false, "chat"@, "Chat"@, "Texto"@, true, None),
        entry("ministral-8b"@, "Ministral 8B"@, "Mistral"@, "Modelo compacto para tareas de cÃ³digo y texto."@, "8B"@, "~5 GB"@, "ministral-8b"@, "mistralai/ministral-8b-instruct-2410"@, false, "chat"@, "Chat"@, "Texto"@, true, None),
        entry("phi4-mini"@, "Phi-4 Mini"@, "Microsoft"@, "Muy eficiente para portÃ¡tiles y ordenadores modestos."@, "3.8B"@, "~2.5 GB"@, "phi4-mini"@, "microsoft/phi-4-mini-instruct"@, false, "chat"@, "Chat"@, "Texto"@, true, None),
        entry("phi4-14b"@, "Phi-4 14B"@, "Microsoft"@, "Razonamiento fuerte con un tamaÃ±o todavÃ­a manejable."@, "14B"@, "~9 GB"@, "phi4"@, "microsoft/phi-4"@, false, "chat"@, "Chat"@, "Texto"@, true, None),
        entry("codegemma-7b"@, "CodeGemma 7B"@, "Google"@, "Entrenado para completar y explicar cÃ³digo."@, "7B"@, "~4.5 GB"@, "codegemma:7b"@, "google/codegemma-7b-it"@, false, "code"@, "Código"@, "Texto"@, true, None),
        entry("codellama-7b"@, "Code Llama 7B"@, "Meta"@, "Alternativa clÃ¡sica para programaciÃ³n local."@, "7B"@, "~3.8 GB"@, "codellama:7b"@, "meta-llama/codellama-7b-instruct"@, false, "code"@, "Código"@, "Texto"@, true, None),
        entry("starcoder2-7b"@, "StarCoder2 7B"@, "BigCode"@, "Especializado en muchos lenguajes de programaciÃ³n."@, "7B"@, "~4.2 GB"@, "starcoder2:7b"@, "bigcode/starcoder2-7b"@, false, "code"@, "Código"@, "Texto"@, true, None),
        entry("gpt-oss-20b"@, "gpt-oss 20B"@, "OpenAI"@, "Modelo abierto potente para razonamiento y herramientas."@, "20B"@, "~13 GB"@, "gpt-oss:20b"@, "openai/gpt-oss-20b"@, true, "chat"@, "Chat"@, "Texto"@, true, None),
        entry("granite-4-micro"@, "Granite 4 Micro"@, "IBM"@, "Muy pequeÃ±o para pruebas y equipos con poca memoria."@, "3B"@, "~2 GB"@, "granite4:3b"@, "ibm/granite-4-micro"@, false, "chat"@, "Chat"@, "Texto"@, true, None),
        entry("smollm2-1.7b"@, "SmolLM2 1.7B"@, "Hugging Face"@, "La opciÃ³n mÃ¡s ligera para probar Vareliox Code."@, "1.7B"@, "~1.1 GB"@, "smollm2:1.7b"@, "huggingface/smollm2-1.7b-instruct"@, false, "chat"@, "Chat"@, "Texto"@, true, None),
        entry("qwen3-vl-4b"@, "Qwen3-VL 4B"@, "Qwen"@, "Modelo visual ligero para comprender capturas, interfaces y documentos."@, "4B"@, "~3.3 GB"@, "qwen3-vl:4b"@, "qwen/qwen3-vl-4b"@, true, "vision"@, "Texto"@, "Comprender imágenes"@, true, None),
        entry("qwen3-vl-8b"@, "Qwen3-VL 8B"@, "Qwen"@, "Mayor calidad visual para analizar imágenes y proyectos desde capturas."@, "8B"@, "~6.1 GB"@, "qwen3-vl:8b"@, "qwen/qwen3-vl-8b"@, true, "vision"@, "Texto"@, "Comprender imágenes"@, true, None),
        entry("gemma3-27b"@, "Gemma 3 27B"@, "Google"@, "Modelo visual de alta calidad para equipos con bastante memoria."@, "27B"@, "~17 GB"@, "gemma3:27b"@, "google/gemma-3-27b"@, false, "vision"@, "Texto"@, "Comprender imágenes"@, true, None),
        entry("qwen25-coder-7b"@, "Qwen2.5 Coder 7B"@, "Qwen"@, "Modelo de código rápido para equipos de gama media."@, "7B"@, "~4.7 GB"@, "qwen2.5-coder:7b"@, "qwen/qwen2.5-coder-7b-instruct"@, true, "code"@, "Código"@, "Texto"@, true, None),
        entry("qwen25-coder-14b"@, "Qwen2.5 Coder 14B"@, "Qwen"@, "Más precisión para cambios de código grandes y explicaciones técnicas."@, "14B"@, "~9 GB"@, "qwen2.5-coder:14b"@, "qwen/qwen2.5-coder-14b-instruct"@, true, "code"@, "Código"@, "Texto"@, true, None),
        entry("flux1-schnell"@, "FLUX.1 Schnell"@, "Black Forest Labs"@, "Generación local de imágenes rápida mediante flujos de ComfyUI."@, "Imagen"@, "FP8 / completo"@, ""@, ""@, true, "image"@, "Texto a imagen"@, "Rápido"@, false, Some("https://docs.comfy.org/tutorials/flux/flux-1-text-to-image"@)),
        entry("flux2-dev"@, "FLUX.2 Dev"@, "Black Forest Labs"@, "Generador avanzado de imágenes para equipos potentes con ComfyUI."@, "Imagen"@, "Varios archivos"@, ""@, ""@, false, "image"@, "Texto a imagen"@, "Alta calidad"@, false, Some("https://docs.comfy.org/tutorials/flux/flux-2-dev"@)),
        entry("stable-diffusion-15"@, "Stable Diffusion 1.5"@, "Stability AI"@, "Generador clásico y ligero con una gran variedad de modelos compatibles."@, "Imagen"@, "~4 GB"@, ""@, ""@, false, "image"@, "Texto a imagen"@, "Ligero"@, false, Some("https://docs.comfy.org/tutorials/basic/text-to-image"@)),
        entry("wan22-ti2v-5b"@, "Wan2.2 TI2V 5B"@, "Wan"@, "Crea vídeos locales desde texto o una imagen usando ComfyUI."@, "5B"@, "Varios archivos"@, ""@, ""@, true, "video"@, "Texto a vídeo"@, "Imagen a vídeo"@, false, Some("https://docs.comfy.org/tutorials/video/wan/wan2_2"@)),
        entry("wan22-t2v-14b"@, "Wan2.2 T2V 14B"@, "Wan"@, "Vídeo desde texto con mayor calidad y requisitos de hardware altos."@, "14B"@, "Varios archivos"@, ""@, ""@, false, "video"@, "Texto a vídeo"@, "Alta calidad"@, false, Some("https://docs.comfy.org/tutorials/video/wan/wan2_2"@)),
    ]
}

fn make_item(
    id: &str,
    name: &str,
    family: &str,
    description: &str,
    parameters: &str,
    size: &str,
    ollama_id: &str,
    lm_studio_id: &str,
    recommended: bool,
    category: &str,
    cap1: &str,
    cap2: &str,
    local: bool,
    guide_url: Option<&str>,
) -> (r: LocalModelCatalogItem)
    ensures
        r@ == entry(
            id@,
            name@,
            family@,
            description@,
            parameters@,
            size@,
            ollama_id@,
            lm_studio_id@,
            recommended,
            category@,
            cap1@,
            cap2@,
            local,
            match guide_url {
                Some(g) => Some(g@),
                None => None,
            },
        ),
{
    let capabilities = vec![owned(cap1), owned(cap2)];
    let runtimes = if local {
        vec![owned("ollama"), owned("lm_studio")]
    } else {
        vec![owned("comfyui")]
    };
    let r = LocalModelCatalogItem {
        id: owned(id),
        name: owned(name),
        family: owned(family),
        description: owned(description),
        parameters: owned(parameters),
        size: owned(size),
        ollama_id: owned(ollama_id),
        lm_studio_id: owned(lm_studio_id),
        recommended,
        category: owned(category),
        capabilities,
        runtimes,
        guide_url: match guide_url {
            Some(g) => Some(owned(g)),
            None => None,
        },
    };
    assert(r@.capabilities =~= seq![cap1@, cap2@]);
    assert(r@.runtimes =~= if local {
        chat_runtimes()
    } else {
        generation_runtimes()
    });
    r
}

pub open spec fn catalog_view(v: Seq<LocalModelCatalogItem>) -> Seq<CatalogItemView> {
    v.map_values(|i: LocalModelCatalogItem| i@)
}

/// The local model library (see `catalog`).
#[verifier::rlimit(40)]
pub fn local_model_catalog() -> (r: Vec<LocalModelCatalogItem>)
    ensures
        catalog_view(r@) == catalog(),
{
    let mut items: Vec<LocalModelCatalogItem> = Vec::new();
    items.push(make_item("qwen3-4b", "Qwen3 4B", "Qwen", "RÃ¡pido y muy capaz para programar en equipos normales.", "4B", "~2.6 GB", "qwen3:4b", "qwen/qwen3-4b", true, "chat", "Chat", "Texto", true, None));
    assert(catalog_view(items@) =~= catalog().take(1));
    items.push(make_item("qwen3-8b", "Qwen3 8B", "Qwen", "Equilibrio excelente entre calidad, velocidad y memoria.", "8B", "~5.2 GB", "qwen3:8b", "qwen/qwen3-8b", true, "chat", "Chat", "Texto", true, None));
    assert(catalog_view(items@) =~= catalog().take(2));
    items.push(make_item("qwen3-coder-30b", "Qwen3 Coder 30B", "Qwen", "Modelo de programaciÃ³n avanzado para equipos potentes.", "30B", "~19 GB", "qwen3-coder:30b", "qwen/qwen3-coder-30b", true, "code", "Código", "Texto", true, None));
    assert(catalog_view(items@) =~= catalog().take(3));
    items.push(make_item("deepseek-r1-8b", "DeepSeek R1 8B", "DeepSeek", "Buen razonamiento local para tareas complejas.", "8B", "~5 GB", "deepseek-r1:8b", "deepseek-ai/deepseek-r1-distill-qwen-7b", true, "chat", "Chat", "Texto", true, None));
    assert(catalog_view(items@) =~= catalog().take(4));
    items.push(make_item("deepseek-r1-14b", "DeepSeek R1 14B", "DeepSeek", "Razonamiento mÃ¡s fuerte; requiere mÃ¡s RAM o VRAM.", "14B", "~9 GB", "deepseek-r1:14b", "deepseek-ai/deepseek-r1-distill-qwen-14b", false, "chat", "Chat", "Texto", true, None));
    assert(catalog_view(items@) =~= catalog().take(5));
    items.push(make_item("gemma3-4b", "Gemma 3 4B", "Google", "Modelo ligero, moderno y con soporte visual segÃºn el runtime.", "4B", "~3.3 GB", "gemma3:4b", "google/gemma-3-4b", true, "vision", "Texto", "Comprender imágenes", true, None));
    assert(catalog_view(items@) =~= catalog().take(6));
    items.push(make_item("gemma3-12b", "Gemma 3 12B", "Google", "Mejor calidad general para equipos con mÃ¡s memoria.", "12B", "~8 GB", "gemma3:12b", "google/gemma-3-12b", false, "vision", "Texto", "Comprender imágenes", true, None));
    assert(catalog_view(items@) =~= catalog().take(7));
    items.push(make_item("llama32-3b", "Llama 3.2 3B", "Meta", "PequeÃ±o y Ã¡gil para chat y cambios sencillos.", "3B", "~2 GB", "llama3.2:3b", "meta-llama/llama-3.2-3b-instruct", false, "chat", "Chat", "Texto", true, None));
    assert(catalog_view(items@) =~= catalog().take(8));
    items.push(make_item("llama31-8b", "Llama 3.1 8B", "Meta", "OpciÃ³n estable y versÃ¡til para uso general.", "8B", "~4.9 GB", "llama3.1:8b", "meta-llama/llama-3.1-8b-instruct", true, "chat", "Chat", "Texto", true, None));
    assert(catalog_view(items@) =~= catalog().take(9));
    items.push(make_item("mistral-7b", "Mistral 7B", "Mistral", "Ligero, fiable y rÃ¡pido para proyectos cotidianos.", "7B", "~4.1 GB", "mistral:7b", "mistralai/mistral-7b-instruct-v0.3", false, "chat", "Chat", "Texto", true, None));
    assert(catalog_view(items@) =~= catalog().take(10));
    items.push(make_item("ministral-8b", "Ministral 8B", "Mistral", "Modelo compacto para tareas de cÃ³digo y texto.", "8B", "~5 GB", "ministral-8b", "mistralai/ministral-8b-instruct-2410", false, "chat", "Chat", "Texto", true, None));
    assert(catalog_view(items@) =~= catalog().take(11));
    items.push(make_item("phi4-mini", "Phi-4 Mini", "Microsoft", "Muy eficiente para portÃ¡tiles y ordenadores modestos.", "3.8B", "~2.5 GB", "phi4-mini", "microsoft/phi-4-mini-instruct", false, "chat", "Chat", "Texto", true, None));
    assert(catalog_view(items@) =~= catalog().take(12));
    items.push(make_item("phi4-14b", "Phi-4 14B", "Microsoft", "Razonamiento fuerte con un tamaÃ±o todavÃ­a manejable.", "14B", "~9 GB", "phi4", "microsoft/phi-4", false, "chat", "Chat", "Texto", true, None));
    assert(catalog_view(items@) =~= catalog().take(13));
    items.push(make_item("codegemma-7b", "CodeGemma 7B", "Google", "Entrenado para completar y explicar cÃ³digo.", "7B", "~4.5 GB", "codegemma:7b", "google/codegemma-7b-it", false, "code", "Código", "Texto", true, None));
    assert(catalog_view(items@) =~= catalog().take(14));
    items.push(make_item("codellama-7b", "Code Llama 7B", "Meta", "Alternativa clÃ¡sica para programaciÃ³n local.", "7B", "~3.8 GB", "codellama:7b", "meta-llama/codellama-7b-instruct", false, "code", "Código", "Texto", true, None));
    assert(catalog_view(items@) =~= catalog().take(15));
    items.push(make_item("starcoder2-7b", "StarCoder2 7B", "BigCode", "Especializado en muchos lenguajes de programaciÃ³n.", "7B", "~4.2 GB", "starcoder2:7b", "bigcode/starcoder2-7b", false, "code", "Código", "Texto", true, None));
    assert(catalog_view(items@) =~= catalog().take(16));
    items.push(make_item("gpt-oss-20b", "gpt-oss 20B", "OpenAI", "Modelo abierto potente para razonamiento y herramientas.", "20B", "~13 GB", "gpt-oss:20b", "openai/gpt-oss-20b", true, "chat", "Chat", "Texto", true, None));
    assert(catalog_view(items@) =~= catalog().take(17));
    items.push(make_item("granite-4-micro", "Granite 4 Micro", "IBM", "Muy pequeÃ±o para pruebas y equipos con poca memoria.", "3B", "~2 GB", "granite4:3b", "ibm/granite-4-micro", false, "chat", "Chat", "Texto", true, None));
    assert(catalog_view(items@) =~= catalog().take(18));
    items.push(make_item("smollm2-1.7b", "SmolLM2 1.7B", "Hugging Face", "La opciÃ³n mÃ¡s ligera para probar Vareliox Code.", "1.7B", "~1.1 GB", "smollm2:1.7b", "huggingface/smollm2-1.7b-instruct", false, "chat", "Chat", "Texto", true, None));
    assert(catalog_view(items@) =~= catalog().take(19));
    items.push(make_item("qwen3-vl-4b", "Qwen3-VL 4B", "Qwen", "Modelo visual ligero para comprender capturas, interfaces y documentos.", "4B", "~3.3 GB", "qwen3-vl:4b", "qwen/qwen3-vl-4b", true, "vision", "Texto", "Comprender imágenes", true, None));
    assert(catalog_view(items@) =~= catalog().take(20));
    items.push(make_item("qwen3-vl-8b", "Qwen3-VL 8B", "Qwen", "Mayor calidad visual para analizar imágenes y proyectos desde capturas.", "8B", "~6.1 GB", "qwen3-vl:8b", "qwen/qwen3-vl-8b", true, "vision", "Texto", "Comprender imágenes", true, None));
    assert(catalog_view(items@) =~= catalog().take(21));
    items.push(make_item("gemma3-27b", "Gemma 3 27B", "Google", "Modelo visual de alta calidad para equipos con bastante memoria.", "27B", "~17 GB", "gemma3:27b", "google/gemma-3-27b", false, "vision", "Texto", "Comprender imágenes", true, None));
    assert(catalog_view(items@) =~= catalog().take(22));
    items.push(make_item("qwen25-coder-7b", "Qwen2.5 Coder 7B", "Qwen", "Modelo de código rápido para equipos de gama media.", "7B", "~4.7 GB", "qwen2.5-coder:7b", "qwen/qwen2.5-coder-7b-instruct", true, "code", "Código", "Texto", true, None));
    assert(catalog_view(items@) =~= catalog().take(23));
    items.push(make_item("qwen25-coder-14b", "Qwen2.5 Coder 14B", "Qwen", "Más precisión para cambios de código grandes y explicaciones técnicas.", "14B", "~9 GB", "qwen2.5-coder:14b", "qwen/qwen2.5-coder-14b-instruct", true, "code", "Código", "Texto", true, None));
    assert(catalog_view(items@) =~= catalog().take(24));
    items.push(make_item("flux1-schnell", "FLUX.1 Schnell", "Black Forest Labs", "Generación local de imágenes rápida mediante flujos de ComfyUI.", "Imagen", "FP8 / completo", "", "", true, "image", "Texto a imagen", "Rápido", false, Some("https://docs.comfy.org/tutorials/flux/flux-1-text-to-image")));
    assert(catalog_view(items@) =~= catalog().take(25));
    items.push(make_item("flux2-dev", "FLUX.2 Dev", "Black Forest Labs", "Generador avanzado de imágenes para equipos potentes con ComfyUI.", "Imagen", "Varios archivos", "", "", false, "image", "Texto a imagen", "Alta calidad", false, Some("https://docs.comfy.org/tutorials/flux/flux-2-dev")));
    assert(catalog_view(items@) =~= catalog().take(26));
    items.push(make_item("stable-diffusion-15", "Stable Diffusion 1.5", "Stability AI", "Generador clásico y ligero con una gran variedad de modelos compatibles.", "Imagen", "~4 GB", "", "", false, "image", "Texto a imagen", "Ligero", false, Some("https://docs.comfy.org/tutorials/basic/text-to-image")));
    assert(catalog_view(items@) =~= catalog().take(27));
    items.push(make_item("wan22-ti2v-5b", "Wan2.2 TI2V 5B", "Wan", "Crea vídeos locales desde texto o una imagen usando ComfyUI.", "5B", "Varios archivos", "", "", true, "video", "Texto a vídeo", "Imagen a vídeo", false, Some("https://docs.comfy.org/tutorials/video/wan/wan2_2")));
    assert(catalog_view(items@) =~= catalog().take(28));
    items.push(make_item("wan22-t2v-14b", "Wan2.2 T2V 14B", "Wan", "Vídeo desde texto con mayor calidad y requisitos de hardware altos.", "14B", "Varios archivos", "", "", false, "video", "Texto a vídeo", "Alta calidad", false, Some("https://docs.comfy.org/tutorials/video/wan/wan2_2")));
    assert(catalog_view(items@) =~= catalog().take(29));
    assert(catalog().take(29) =~= catalog());
    items
}

pub fn list_local_model_catalog() -> (r: Vec<LocalModelCatalogItem>)
    ensures
        catalog_view(r@) == catalog(),
{
    local_model_catalog()
}

// ---------------------------------------------------------------- ComfyUI files

/// The files ComfyUI needs for each image and video model.
pub open spec fn comfy_files(id: Seq<char>) -> Option<Seq<Seq<char>>> {
    if id == "flux1-schnell"@ {
        Some(seq!["flux1-schnell-fp8.safetensors"@])
    } else if id == "flux2-dev"@ {
        Some(seq!["mistral_3_small_flux2_bf16.safetensors"@, "flux2_dev_fp8mixed.safetensors"@, "flux2-vae.safetensors"@])
    } else if id == "stable-diffusion-15"@ {
        Some(seq!["v1-5-pruned-emaonly.ckpt"@])
    } else if id == "wan22-ti2v-5b"@ {
        Some(seq!["wan2.2_ti2v_5B_fp16.safetensors"@, "wan2.2_vae.safetensors"@, "umt5_xxl_fp8_e4m3fn_scaled.safetensors"@])
    } else if id == "wan22-t2v-14b"@ {
        Some(seq!["wan2.2_t2v_high_noise_14B_fp8_scaled.safetensors"@, "wan2.2_t2v_low_noise_14B_fp8_scaled.safetensors"@, "wan2.2_vae.safetensors"@, "umt5_xxl_fp8_e4m3fn_scaled.safetensors"@])
    } else {
        None
    }
}

fn lits(v: Vec<&'static str>) -> (r: Vec<&'static str>)
    ensures
        r@ == v@,
{
    v
}

pub open spec fn strs_view(v: Seq<&'static str>) -> Seq<Seq<char>> {
    v.map_values(|s: &'static str| s@)
}

/// The files to download for a ComfyUI model (see `comfy_files`).
pub fn comfyui_model_files(model_id: &str) -> (r: Option<Vec<&'static str>>)
    ensures
        match comfy_files(model_id@) {
            Some(f) => r matches Some(v) && strs_view(v@) == f,
            None => r is None,
        },
{
    let id = crate::text::chars_of(model_id);
    if crate::text::vec_eq(&id, &crate::text::chars_of("flux1-schnell")) {
        let r = lits(vec!["flux1-schnell-fp8.safetensors"]);
        assert(strs_view(r@) =~= seq!["flux1-schnell-fp8.safetensors"@]);
        Some(r)
    } else if crate::text::vec_eq(&id, &crate::text::chars_of("flux2-dev")) {
        let r = lits(vec!["mistral_3_small_flux2_bf16.safetensors", "flux2_dev_fp8mixed.safetensors", "flux2-vae.safetensors"]);
        assert(strs_view(r@) =~= seq!["mistral_3_small_flux2_bf16.safetensors"@, "flux2_dev_fp8mixed.safetensors"@, "flux2-vae.safetensors"@]);
        Some(r)
    } else if crate::text::vec_eq(&id, &crate::text::chars_of("stable-diffusion-15")) {
        let r = lits(vec!["v1-5-pruned-emaonly.ckpt"]);
        assert(strs_view(r@) =~= seq!["v1-5-pruned-emaonly.ckpt"@]);
        Some(r)
    } else if crate::text::vec_eq(&id, &crate::text::chars_of("wan22-ti2v-5b")) {
        let r = lits(vec!["wan2.2_ti2v_5B_fp16.safetensors", "wan2.2_vae.safetensors", "umt5_xxl_fp8_e4m3fn_scaled.safetensors"]);
        assert(strs_view(r@) =~= seq!["wan2.2_ti2v_5B_fp16.safetensors"@, "wan2.2_vae.safetensors"@, "umt5_xxl_fp8_e4m3fn_scaled.safetensors"@]);
        Some(r)
    } else if crate::text::vec_eq(&id, &crate::text::chars_of("wan22-t2v-14b")) {
        let r = lits(vec!["wan2.2_t2v_high_noise_14B_fp8_scaled.safetensors", "wan2.2_t2v_low_noise_14B_fp8_scaled.safetensors", "wan2.2_vae.safetensors", "umt5_xxl_fp8_e4m3fn_scaled.safetensors"]);
        assert(strs_view(r@) =~= seq!["wan2.2_t2v_high_noise_14B_fp8_scaled.safetensors"@, "wan2.2_t2v_low_noise_14B_fp8_scaled.safetensors"@, "wan2.2_vae.safetensors"@, "umt5_xxl_fp8_e4m3fn_scaled.safetensors"@]);
        Some(r)
    } else {
        None
    }
}

// ---------------------------------------------------------------- laws

pub open spec fn catalog_ids() -> Seq<Seq<char>> {
    catalog().map_values(|i: CatalogItemView| i.id)
}

/// `x` occurs nowhere in `s` from position `k` on.
pub open spec fn absent_from(x: Seq<char>, s: Seq<Seq<char>>, k: int) -> bool
    decreases s.len() - k,
{
    if k < 0 || k >= s.len() {
        true
    } else {
        x != s[k] && absent_from(x, s, k + 1)
    }
}

/// The elements of `s` from position `k` on are pairwise different.
pub open spec fn distinct_from(s: Seq<Seq<char>>, k: int) -> bool
    decreases s.len() - k,
{
    if k < 0 || k >= s.len() {
        true
    } else {
        absent_from(s[k], s, k + 1) && distinct_from(s, k + 1)
    }
}

proof fn lemma_absent_from(x: Seq<char>, s: Seq<Seq<char>>, k: int, j: int)
    requires
        0 <= k <= j < s.len(),
        absent_from(x, s, k),
    ensures
        x != s[j],
    decreases j - k,
{
    if k < j {
        lemma_absent_from(x, s, k + 1, j);
    }
}

proof fn lemma_distinct_from(s: Seq<Seq<char>>, k: int, i: int, j: int)
    requires
        0 <= k <= i < j < s.len(),
        distinct_from(s, k),
    ensures
        s[i] != s[j],
    decreases i - k,
{
    if k < i {
        lemma_distinct_from(s, k + 1, i, j);
    } else {
        lemma_absent_from(s[i], s, i + 1, j);
    }
}

proof fn lemma_catalog_ids_distinct()
    ensures
        distinct_from(catalog_ids(), 0),
{
    reveal_strlit("qwen3-4b");
    reveal_strlit("qwen3-8b");
    reveal_strlit("qwen3-coder-30b");
    reveal_strlit("deepseek-r1-8b");
    reveal_strlit("deepseek-r1-14b");
    reveal_strlit("gemma3-4b");
    reveal_strlit("gemma3-12b");
    reveal_strlit("llama32-3b");
    reveal_strlit("llama31-8b");
    reveal_strlit("mistral-7b");
    reveal_strlit("ministral-8b");
    reveal_strlit("phi4-mini");
    reveal_strlit("phi4-14b");
    reveal_strlit("codegemma-7b");
    reveal_strlit("codellama-7b");
    reveal_strlit("starcoder2-7b");
    reveal_strlit("gpt-oss-20b");
    reveal_strlit("granite-4-micro");
    reveal_strlit("smollm2-1.7b");
    reveal_strlit("qwen3-vl-4b");
    reveal_strlit("qwen3-vl-8b");
    reveal_strlit("gemma3-27b");
    reveal_strlit("qwen25-coder-7b");
    reveal_strlit("qwen25-coder-14b");
    reveal_strlit("flux1-schnell");
    reveal_strlit("flux2-dev");
    reveal_strlit("stable-diffusion-15");
    reveal_strlit("wan22-ti2v-5b");
    reveal_strlit("wan22-t2v-14b");
    assert("qwen3-4b"@.len() == 8);
    assert("qwen3-8b"@.len() == 8);
    assert("qwen3-coder-30b"@.len() == 15);
    assert("deepseek-r1-8b"@.len() == 14);
    assert("deepseek-r1-14b"@.len() == 15);
    assert("gemma3-4b"@.len() == 9);
    assert("gemma3-12b"@.len() == 10);
    assert("llama32-3b"@.len() == 10);
    assert("llama31-8b"@.len() == 10);
    assert("mistral-7b"@.len() == 10);
    assert("ministral-8b"@.len() == 12);
    assert("phi4-mini"@.len() == 9);
    assert("phi4-14b"@.len() == 8);
    assert("codegemma-7b"@.len() == 12);
    assert("codellama-7b"@.len() == 12);
    assert("starcoder2-7b"@.len() == 13);
    assert("gpt-oss-20b"@.len() == 11);
    assert("granite-4-micro"@.len() == 15);
    assert("smollm2-1.7b"@.len() == 12);
    assert("qwen3-vl-4b"@.len() == 11);
    assert("qwen3-vl-8b"@.len() == 11);
    assert("gemma3-27b"@.len() == 10);
    assert("qwen25-coder-7b"@.len() == 15);
    assert("qwen25-coder-14b"@.len() == 16);
    assert("flux1-schnell"@.len() == 13);
    assert("flux2-dev"@.len() == 9);
    assert("stable-diffusion-15"@.len() == 19);
    assert("wan22-ti2v-5b"@.len() == 13);
    assert("wan22-t2v-14b"@.len() == 13);
    assert("qwen3-4b"@[0] == 'q');
    assert("qwen3-4b"@[6] == '4');
    assert("qwen3-8b"@[0] == 'q');
    assert("qwen3-8b"@[6] == '8');
    assert("qwen3-coder-30b"@[0] == 'q');
    assert("qwen3-coder-30b"@[4] == '3');
    assert("deepseek-r1-14b"@[0] == 'd');
    assert("gemma3-4b"@[0] == 'g');
    assert("gemma3-12b"@[0] == 'g');
    assert("gemma3-12b"@[7] == '1');
    assert("llama32-3b"@[0] == 'l');
    assert("llama32-3b"@[6] == '2');
    assert("llama31-8b"@[0] == 'l');
    assert("llama31-8b"@[6] == '1');
    assert("mistral-7b"@[0] == 'm');
    assert("ministral-8b"@[0] == 'm');
    assert("phi4-mini"@[0] == 'p');
    assert("phi4-14b"@[0] == 'p');
    assert("codegemma-7b"@[0] == 'c');
    assert("codegemma-7b"@[4] == 'g');
    assert("codellama-7b"@[0] == 'c');
    assert("codellama-7b"@[4] == 'l');
    assert("starcoder2-7b"@[0] == 's');
    assert("gpt-oss-20b"@[0] == 'g');
    assert("granite-4-micro"@[0] == 'g');
    assert("smollm2-1.7b"@[0] == 's');
    assert("qwen3-vl-4b"@[0] == 'q');
    assert("qwen3-vl-4b"@[9] == '4');
    assert("qwen3-vl-8b"@[0] == 'q');
    assert("qwen3-vl-8b"@[9] == '8');
    assert("gemma3-27b"@[0] == 'g');
    assert("gemma3-27b"@[7] == '2');
    assert("qwen25-coder-7b"@[0] == 'q');
    assert("qwen25-coder-7b"@[4] == '2');
    assert("flux1-schnell"@[0] == 'f');
    assert("flux2-dev"@[0] == 'f');
    assert("wan22-ti2v-5b"@[0] == 'w');
    assert("wan22-ti2v-5b"@[7] == 'i');
    assert("wan22-t2v-14b"@[0] == 'w');
    assert("wan22-t2v-14b"@[7] == '2');
    let s = catalog_ids();
    assert(s =~= seq!["qwen3-4b"@, "qwen3-8b"@, "qwen3-coder-30b"@, "deepseek-r1-8b"@, "deepseek-r1-14b"@, "gemma3-4b"@, "gemma3-12b"@, "llama32-3b"@, "llama31-8b"@, "mistral-7b"@, "ministral-8b"@, "phi4-mini"@, "phi4-14b"@, "codegemma-7b"@, "codellama-7b"@, "starcoder2-7b"@, "gpt-oss-20b"@, "granite-4-micro"@, "smollm2-1.7b"@, "qwen3-vl-4b"@, "qwen3-vl-8b"@, "gemma3-27b"@, "qwen25-coder-7b"@, "qwen25-coder-14b"@, "flux1-schnell"@, "flux2-dev"@, "stable-diffusion-15"@, "wan22-ti2v-5b"@, "wan22-t2v-14b"@]);
    assert(s[0] == "qwen3-4b"@);
    assert(s[1] == "qwen3-8b"@);
    assert(s[2] == "qwen3-coder-30b"@);
    assert(s[3] == "deepseek-r1-8b"@);
    assert(s[4] == "deepseek-r1-14b"@);
    assert(s[5] == "gemma3-4b"@);
    assert(s[6] == "gemma3-12b"@);
    assert(s[7] == "llama32-3b"@);
    assert(s[8] == "llama31-8b"@);
    assert(s[9] == "mistral-7b"@);
    assert(s[10] == "ministral-8b"@);
    assert(s[11] == "phi4-mini"@);
    assert(s[12] == "phi4-14b"@);
    assert(s[13] == "codegemma-7b"@);
    assert(s[14] == "codellama-7b"@);
    assert(s[15] == "starcoder2-7b"@);
    assert(s[16] == "gpt-oss-20b"@);
    assert(s[17] == "granite-4-micro"@);
    assert(s[18] == "smollm2-1.7b"@);
    assert(s[19] == "qwen3-vl-4b"@);
    assert(s[20] == "qwen3-vl-8b"@);
    assert(s[21] == "gemma3-27b"@);
    assert(s[22] == "qwen25-coder-7b"@);
    assert(s[23] == "qwen25-coder-14b"@);
    assert(s[24] == "flux1-schnell"@);
    assert(s[25] == "flux2-dev"@);
    assert(s[26] == "stable-diffusion-15"@);
    assert(s[27] == "wan22-ti2v-5b"@);
    assert(s[28] == "wan22-t2v-14b"@);
    assert(distinct_from(s, 29));
    assert(absent_from(s[28], s, 29));
    assert(distinct_from(s, 28));
    assert(absent_from(s[27], s, 29));
    assert(absent_from(s[27], s, 28));
    assert(distinct_from(s, 27));
    assert(absent_from(s[26], s, 29));
    assert(absent_from(s[26], s, 28));
    assert(absent_from(s[26], s, 27));
    assert(distinct_from(s, 26));
    assert(absent_from(s[25], s, 29));
    assert(absent_from(s[25], s, 28));
    assert(absent_from(s[25], s, 27));
    assert(absent_from(s[25], s, 26));
    assert(distinct_from(s, 25));
    assert(absent_from(s[24], s, 29));
    assert(absent_from(s[24], s, 28));
    assert(absent_from(s[24], s, 27));
    assert(absent_from(s[24], s, 26));
    assert(absent_from(s[24], s, 25));
    assert(distinct_from(s, 24));
    assert(absent_from(s[23], s, 29));
    assert(absent_from(s[23], s, 28));
    assert(absent_from(s[23], s, 27));
    assert(absent_from(s[23], s, 26));
    assert(absent_from(s[23], s, 25));
    assert(absent_from(s[23], s, 24));
    assert(distinct_from(s, 23));
    assert(absent_from(s[22], s, 29));
    assert(absent_from(s[22], s, 28));
    assert(absent_from(s[22], s, 27));
    assert(absent_from(s[22], s, 26));
    assert(absent_from(s[22], s, 25));
    assert(absent_from(s[22], s, 24));
    assert(absent_from(s[22], s, 23));
    assert(distinct_from(s, 22));
    assert(absent_from(s[21], s, 29));
    assert(absent_from(s[21], s, 28));
    assert(absent_from(s[21], s, 27));
    assert(absent_from(s[21], s, 26));
    assert(absent_from(s[21], s, 25));
    assert(absent_from(s[21], s, 24));
    assert(absent_from(s[21], s, 23));
    assert(absent_from(s[21], s, 22));
    assert(distinct_from(s, 21));
    assert(absent_from(s[20], s, 29));
    assert(absent_from(s[20], s, 28));
    assert(absent_from(s[20], s, 27));
    assert(absent_from(s[20], s, 26));
    assert(absent_from(s[20], s, 25));
    assert(absent_from(s[20], s, 24));
    assert(absent_from(s[20], s, 23));
    assert(absent_from(s[20], s, 22));
    assert(absent_from(s[20], s, 21));
    assert(distinct_from(s, 20));
    assert(absent_from(s[19], s, 29));
    assert(absent_from(s[19], s, 28));
    assert(absent_from(s[19], s, 27));
    assert(absent_from(s[19], s, 26));
    assert(absent_from(s[19], s, 25));
    assert(absent_from(s[19], s, 24));
    assert(absent_from(s[19], s, 23));
    assert(absent_from(s[19], s, 22));
    assert(absent_from(s[19], s, 21));
    assert(absent_from(s[19], s, 20));
    assert(distinct_from(s, 19));
    assert(absent_from(s[18], s, 29));
    assert(absent_from(s[18], s, 28));
    assert(absent_from(s[18], s, 27));
    assert(absent_from(s[18], s, 26));
    assert(absent_from(s[18], s, 25));
    assert(absent_from(s[18], s, 24));
    assert(absent_from(s[18], s, 23));
    assert(absent_from(s[18], s, 22));
    assert(absent_from(s[18], s, 21));
    assert(absent_from(s[18], s, 20));
    assert(absent_from(s[18], s, 19));
    assert(distinct_from(s, 18));
    assert(absent_from(s[17], s, 29));
    assert(absent_from(s[17], s, 28));
    assert(absent_from(s[17], s, 27));
    assert(absent_from(s[17], s, 26));
    assert(absent_from(s[17], s, 25));
    assert(absent_from(s[17], s, 24));
    assert(absent_from(s[17], s, 23));
    assert(absent_from(s[17], s, 22));
    assert(absent_from(s[17], s, 21));
    assert(absent_from(s[17], s, 20));
    assert(absent_from(s[17], s, 19));
    assert(absent_from(s[17], s, 18));
    assert(distinct_from(s, 17));
    assert(absent_from(s[16], s, 29));
    assert(absent_from(s[16], s, 28));
    assert(absent_from(s[16], s, 27));
    assert(absent_from(s[16], s, 26));
    assert(absent_from(s[16], s, 25));
    assert(absent_from(s[16], s, 24));
    assert(absent_from(s[16], s, 23));
    assert(absent_from(s[16], s, 22));
    assert(absent_from(s[16], s, 21));
    assert(absent_from(s[16], s, 20));
    assert(absent_from(s[16], s, 19));
    assert(absent_from(s[16], s, 18));
    assert(absent_from(s[16], s, 17));
    assert(distinct_from(s, 16));
    assert(absent_from(s[15], s, 29));
    assert(absent_from(s[15], s, 28));
    assert(absent_from(s[15], s, 27));
    assert(absent_from(s[15], s, 26));
    assert(absent_from(s[15], s, 25));
    assert(absent_from(s[15], s, 24));
    assert(absent_from(s[15], s, 23));
    assert(absent_from(s[15], s, 22));
    assert(absent_from(s[15], s, 21));
    assert(absent_from(s[15], s, 20));
    assert(absent_from(s[15], s, 19));
    assert(absent_from(s[15], s, 18));
    assert(absent_from(s[15], s, 17));
    assert(absent_from(s[15], s, 16));
    assert(distinct_from(s, 15));
    assert(absent_from(s[14], s, 29));
    assert(absent_from(s[14], s, 28));
    assert(absent_from(s[14], s, 27));
    assert(absent_from(s[14], s, 26));
    assert(absent_from(s[14], s, 25));
    assert(absent_from(s[14], s, 24));
    assert(absent_from(s[14], s, 23));
    assert(absent_from(s[14], s, 22));
    assert(absent_from(s[14], s, 21));
    assert(absent_from(s[14], s, 20));
    assert(absent_from(s[14], s, 19));
    assert(absent_from(s[14], s, 18));
    assert(absent_from(s[14], s, 17));
    assert(absent_from(s[14], s, 16));
    assert(absent_from(s[14], s, 15));
    assert(distinct_from(s, 14));
    assert(absent_from(s[13], s, 29));
    assert(absent_from(s[13], s, 28));
    assert(absent_from(s[13], s, 27));
    assert(absent_from(s[13], s, 26));
    assert(absent_from(s[13], s, 25));
    assert(absent_from(s[13], s, 24));
    assert(absent_from(s[13], s, 23));
    assert(absent_from(s[13], s, 22));
    assert(absent_from(s[13], s, 21));
    assert(absent_from(s[13], s, 20));
    assert(absent_from(s[13], s, 19));
    assert(absent_from(s[13], s, 18));
    assert(absent_from(s[13], s, 17));
    assert(absent_from(s[13], s, 16));
    assert(absent_from(s[13], s, 15));
    assert(absent_from(s[13], s, 14));
    assert(distinct_from(s, 13));
    assert(absent_from(s[12], s, 29));
    assert(absent_from(s[12], s, 28));
    assert(absent_from(s[12], s, 27));
    assert(absent_from(s[12], s, 26));
    assert(absent_from(s[12], s, 25));
    assert(absent_from(s[12], s, 24));
    assert(absent_from(s[12], s, 23));
    assert(absent_from(s[12], s, 22));
    assert(absent_from(s[12], s, 21));
    assert(absent_from(s[12], s, 20));
    assert(absent_from(s[12], s, 19));
    assert(absent_from(s[12], s, 18));
    assert(absent_from(s[12], s, 17));
    assert(absent_from(s[12], s, 16));
    assert(absent_from(s[12], s, 15));
    assert(absent_from(s[12], s, 14));
    assert(absent_from(s[12], s, 13));
    assert(distinct_from(s, 12));
    assert(absent_from(s[11], s, 29));
    assert(absent_from(s[11], s, 28));
    assert(absent_from(s[11], s, 27));
    assert(absent_from(s[11], s, 26));
    assert(absent_from(s[11], s, 25));
    assert(absent_from(s[11], s, 24));
    assert(absent_from(s[11], s, 23));
    assert(absent_from(s[11], s, 22));
    assert(absent_from(s[11], s, 21));
    assert(absent_from(s[11], s, 20));
    assert(absent_from(s[11], s, 19));
    assert(absent_from(s[11], s, 18));
    assert(absent_from(s[11], s, 17));
    assert(absent_from(s[11], s, 16));
    assert(absent_from(s[11], s, 15));
    assert(absent_from(s[11], s, 14));
    assert(absent_from(s[11], s, 13));
    assert(absent_from(s[11], s, 12));
    assert(distinct_from(s, 11));
    assert(absent_from(s[10], s, 29));
    assert(absent_from(s[10], s, 28));
    assert(absent_from(s[10], s, 27));
    assert(absent_from(s[10], s, 26));
    assert(absent_from(s[10], s, 25));
    assert(absent_from(s[10], s, 24));
    assert(absent_from(s[10], s, 23));
    assert(absent_from(s[10], s, 22));
    assert(absent_from(s[10], s, 21));
    assert(absent_from(s[10], s, 20));
    assert(absent_from(s[10], s, 19));
    assert(absent_from(s[10], s, 18));
    assert(absent_from(s[10], s, 17));
    assert(absent_from(s[10], s, 16));
    assert(absent_from(s[10], s, 15));
    assert(absent_from(s[10], s, 14));
    assert(absent_from(s[10], s, 13));
    assert(absent_from(s[10], s, 12));
    assert(absent_from(s[10], s, 11));
    assert(distinct_from(s, 10));
    assert(absent_from(s[9], s, 29));
    assert(absent_from(s[9], s, 28));
    assert(absent_from(s[9], s, 27));
    assert(absent_from(s[9], s, 26));
    assert(absent_from(s[9], s, 25));
    assert(absent_from(s[9], s, 24));
    assert(absent_from(s[9], s, 23));
    assert(absent_from(s[9], s, 22));
    assert(absent_from(s[9], s, 21));
    assert(absent_from(s[9], s, 20));
    assert(absent_from(s[9], s, 19));
    assert(absent_from(s[9], s, 18));
    assert(absent_from(s[9], s, 17));
    assert(absent_from(s[9], s, 16));
    assert(absent_from(s[9], s, 15));
    assert(absent_from(s[9], s, 14));
    assert(absent_from(s[9], s, 13));
    assert(absent_from(s[9], s, 12));
    assert(absent_from(s[9], s, 11));
    assert(absent_from(s[9], s, 10));
    assert(distinct_from(s, 9));
    assert(absent_from(s[8], s, 29));
    assert(absent_from(s[8], s, 28));
    assert(absent_from(s[8], s, 27));
    assert(absent_from(s[8], s, 26));
    assert(absent_from(s[8], s, 25));
    assert(absent_from(s[8], s, 24));
    assert(absent_from(s[8], s, 23));
    assert(absent_from(s[8], s, 22));
    assert(absent_from(s[8], s, 21));
    assert(absent_from(s[8], s, 20));
    assert(absent_from(s[8], s, 19));
    assert(absent_from(s[8], s, 18));
    assert(absent_from(s[8], s, 17));
    assert(absent_from(s[8], s, 16));
    assert(absent_from(s[8], s, 15));
    assert(absent_from(s[8], s, 14));
    assert(absent_from(s[8], s, 13));
    assert(absent_from(s[8], s, 12));
    assert(absent_from(s[8], s, 11));
    assert(absent_from(s[8], s, 10));
    assert(absent_from(s[8], s, 9));
    assert(distinct_from(s, 8));
    assert(absent_from(s[7], s, 29));
    assert(absent_from(s[7], s, 28));
    assert(absent_from(s[7], s, 27));
    assert(absent_from(s[7], s, 26));
    assert(absent_from(s[7], s, 25));
    assert(absent_from(s[7], s, 24));
    assert(absent_from(s[7], s, 23));
    assert(absent_from(s[7], s, 22));
    assert(absent_from(s[7], s, 21));
    assert(absent_from(s[7], s, 20));
    assert(absent_from(s[7], s, 19));
    assert(absent_from(s[7], s, 18));
    assert(absent_from(s[7], s, 17));
    assert(absent_from(s[7], s, 16));
    assert(absent_from(s[7], s, 15));
    assert(absent_from(s[7], s, 14));
    assert(absent_from(s[7], s, 13));
    assert(absent_from(s[7], s, 12));
    assert(absent_from(s[7], s, 11));
    assert(absent_from(s[7], s, 10));
    assert(absent_from(s[7], s, 9));
    assert(absent_from(s[7], s, 8));
    assert(distinct_from(s, 7));
    assert(absent_from(s[6], s, 29));
    assert(absent_from(s[6], s, 28));
    assert(absent_from(s[6], s, 27));
    assert(absent_from(s[6], s, 26));
    assert(absent_from(s[6], s, 25));
    assert(absent_from(s[6], s, 24));
    assert(absent_from(s[6], s, 23));
    assert(absent_from(s[6], s, 22));
    assert(absent_from(s[6], s, 21));
    assert(absent_from(s[6], s, 20));
    assert(absent_from(s[6], s, 19));
    assert(absent_from(s[6], s, 18));
    assert(absent_from(s[6], s, 17));
    assert(absent_from(s[6], s, 16));
    assert(absent_from(s[6], s, 15));
    assert(absent_from(s[6], s, 14));
    assert(absent_from(s[6], s, 13));
    assert(absent_from(s[6], s, 12));
    assert(absent_from(s[6], s, 11));
    assert(absent_from(s[6], s, 10));
    assert(absent_from(s[6], s, 9));
    assert(absent_from(s[6], s, 8));
    assert(absent_from(s[6], s, 7));
    assert(distinct_from(s, 6));
    assert(absent_from(s[5], s, 29));
    assert(absent_from(s[5], s, 28));
    assert(absent_from(s[5], s, 27));
    assert(absent_from(s[5], s, 26));
    assert(absent_from(s[5], s, 25));
    assert(absent_from(s[5], s, 24));
    assert(absent_from(s[5], s, 23));
    assert(absent_from(s[5], s, 22));
    assert(absent_from(s[5], s, 21));
    assert(absent_from(s[5], s, 20));
    assert(absent_from(s[5], s, 19));
    assert(absent_from(s[5], s, 18));
    assert(absent_from(s[5], s, 17));
    assert(absent_from(s[5], s, 16));
    assert(absent_from(s[5], s, 15));
    assert(absent_from(s[5], s, 14));
    assert(absent_from(s[5], s, 13));
    assert(absent_from(s[5], s, 12));
    assert(absent_from(s[5], s, 11));
    assert(absent_from(s[5], s, 10));
    assert(absent_from(s[5], s, 9));
    assert(absent_from(s[5], s, 8));
    assert(absent_from(s[5], s, 7));
    assert(absent_from(s[5], s, 6));
    assert(distinct_from(s, 5));
    assert(absent_from(s[4], s, 29));
    assert(absent_from(s[4], s, 28));
    assert(absent_from(s[4], s, 27));
    assert(absent_from(s[4], s, 26));
    assert(absent_from(s[4], s, 25));
    assert(absent_from(s[4], s, 24));
    assert(absent_from(s[4], s, 23));
    assert(absent_from(s[4], s, 22));
    assert(absent_from(s[4], s, 21));
    assert(absent_from(s[4], s, 20));
    assert(absent_from(s[4], s, 19));
    assert(absent_from(s[4], s, 18));
    assert(absent_from(s[4], s, 17));
    assert(absent_from(s[4], s, 16));
    assert(absent_from(s[4], s, 15));
    assert(absent_from(s[4], s, 14));
    assert(absent_from(s[4], s, 13));
    assert(absent_from(s[4], s, 12));
    assert(absent_from(s[4], s, 11));
    assert(absent_from(s[4], s, 10));
    assert(absent_from(s[4], s, 9));
    assert(absent_from(s[4], s, 8));
    assert(absent_from(s[4], s, 7));
    assert(absent_from(s[4], s, 6));
    assert(absent_from(s[4], s, 5));
    assert(distinct_from(s, 4));
    assert(absent_from(s[3], s, 29));
    assert(absent_from(s[3], s, 28));
    assert(absent_from(s[3], s, 27));
    assert(absent_from(s[3], s, 26));
    assert(absent_from(s[3], s, 25));
    assert(absent_from(s[3], s, 24));
    assert(absent_from(s[3], s, 23));
    assert(absent_from(s[3], s, 22));
    assert(absent_from(s[3], s, 21));
    assert(absent_from(s[3], s, 20));
    assert(absent_from(s[3], s, 19));
    assert(absent_from(s[3], s, 18));
    assert(absent_from(s[3], s, 17));
    assert(absent_from(s[3], s, 16));
    assert(absent_from(s[3], s, 15));
    assert(absent_from(s[3], s, 14));
    assert(absent_from(s[3], s, 13));
    assert(absent_from(s[3], s, 12));
    assert(absent_from(s[3], s, 11));
    assert(absent_from(s[3], s, 10));
    assert(absent_from(s[3], s, 9));
    assert(absent_from(s[3], s, 8));
    assert(absent_from(s[3], s, 7));
    assert(absent_from(s[3], s, 6));
    assert(absent_from(s[3], s, 5));
    assert(absent_from(s[3], s, 4));
    assert(distinct_from(s, 3));
    assert(absent_from(s[2], s, 29));
    assert(absent_from(s[2], s, 28));
    assert(absent_from(s[2], s, 27));
    assert(absent_from(s[2], s, 26));
    assert(absent_from(s[2], s, 25));
    assert(absent_from(s[2], s, 24));
    assert(absent_from(s[2], s, 23));
    assert(absent_from(s[2], s, 22));
    assert(absent_from(s[2], s, 21));
    assert(absent_from(s[2], s, 20));
    assert(absent_from(s[2], s, 19));
    assert(absent_from(s[2], s, 18));
    assert(absent_from(s[2], s, 17));
    assert(absent_from(s[2], s, 16));
    assert(absent_from(s[2], s, 15));
    assert(absent_from(s[2], s, 14));
    assert(absent_from(s[2], s, 13));
    assert(absent_from(s[2], s, 12));
    assert(absent_from(s[2], s, 11));
    assert(absent_from(s[2], s, 10));
    assert(absent_from(s[2], s, 9));
    assert(absent_from(s[2], s, 8));
    assert(absent_from(s[2], s, 7));
    assert(absent_from(s[2], s, 6));
    assert(absent_from(s[2], s, 5));
    assert(absent_from(s[2], s, 4));
    assert(absent_from(s[2], s, 3));
    assert(distinct_from(s, 2));
    assert(absent_from(s[1], s, 29));
    assert(absent_from(s[1], s, 28));
    assert(absent_from(s[1], s, 27));
    assert(absent_from(s[1], s, 26));
    assert(absent_from(s[1], s, 25));
    assert(absent_from(s[1], s, 24));
    assert(absent_from(s[1], s, 23));
    assert(absent_from(s[1], s, 22));
    assert(absent_from(s[1], s, 21));
    assert(absent_from(s[1], s, 20));
    assert(absent_from(s[1], s, 19));
    assert(absent_from(s[1], s, 18));
    assert(absent_from(s[1], s, 17));
    assert(absent_from(s[1], s, 16));
    assert(absent_from(s[1], s, 15));
    assert(absent_from(s[1], s, 14));
    assert(absent_from(s[1], s, 13));
    assert(absent_from(s[1], s, 12));
    assert(absent_from(s[1], s, 11));
    assert(absent_from(s[1], s, 10));
    assert(absent_from(s[1], s, 9));
    assert(absent_from(s[1], s, 8));
    assert(absent_from(s[1], s, 7));
    assert(absent_from(s[1], s, 6));
    assert(absent_from(s[1], s, 5));
    assert(absent_from(s[1], s, 4));
    assert(absent_from(s[1], s, 3));
    assert(absent_from(s[1], s, 2));
    assert(distinct_from(s, 1));
    assert(absent_from(s[0], s, 29));
    assert(absent_from(s[0], s, 28));
    assert(absent_from(s[0], s, 27));
    assert(absent_from(s[0], s, 26));
    assert(absent_from(s[0], s, 25));
    assert(absent_from(s[0], s, 24));
    assert(absent_from(s[0], s, 23));
    assert(absent_from(s[0], s, 22));
    assert(absent_from(s[0], s, 21));
    assert(absent_from(s[0], s, 20));
    assert(absent_from(s[0], s, 19));
    assert(absent_from(s[0], s, 18));
    assert(absent_from(s[0], s, 17));
    assert(absent_from(s[0], s, 16));
    assert(absent_from(s[0], s, 15));
    assert(absent_from(s[0], s, 14));
    assert(absent_from(s[0], s, 13));
    assert(absent_from(s[0], s, 12));
    assert(absent_from(s[0], s, 11));
    assert(absent_from(s[0], s, 10));
    assert(absent_from(s[0], s, 9));
    assert(absent_from(s[0], s, 8));
    assert(absent_from(s[0], s, 7));
    assert(absent_from(s[0], s, 6));
    assert(absent_from(s[0], s, 5));
    assert(absent_from(s[0], s, 4));
    assert(absent_from(s[0], s, 3));
    assert(absent_from(s[0], s, 2));
    assert(absent_from(s[0], s, 1));
    assert(distinct_from(s, 0));
}

/// No two entries of the library share an id.
pub proof fn lemma_catalog_ids_unique()
    ensures
        forall|i: int, j: int|
            0 <= i < catalog().len() && 0 <= j < catalog().len() && i != j ==> catalog()[i].id
                != catalog()[j].id,
{
    lemma_catalog_ids_distinct();
    assert forall|i: int, j: int|
        0 <= i < catalog().len() && 0 <= j < catalog().len() && i != j implies catalog()[i].id
            != catalog()[j].id by {
        assert(catalog()[i].id == catalog_ids()[i]);
        assert(catalog()[j].id == catalog_ids()[j]);
        if i < j {
            lemma_distinct_from(catalog_ids(), 0, i, j);
        } else {
            lemma_distinct_from(catalog_ids(), 0, j, i);
        }
    }
}

/// Image and video entries are offered for ComfyUI only: no Ollama or LM
/// Studio id, a guide on docs.comfy.org, and a known set of files.
pub open spec fn comfy_only(it: CatalogItemView) -> bool {
    (it.category == "image"@ || it.category == "video"@) ==> {
        &&& it.runtimes == generation_runtimes()
        &&& it.ollama_id.len() == 0
        &&& it.lm_studio_id.len() == 0
        &&& it.guide_url matches Some(g) && starts_with(g, "https://docs.comfy.org/"@)
        &&& comfy_files(it.id) is Some
    }
}

/// Every entry of `s` from position `k` on is `comfy_only`.
pub open spec fn comfy_only_from(s: Seq<CatalogItemView>, k: int) -> bool
    decreases s.len() - k,
{
    if k < 0 || k >= s.len() {
        true
    } else {
        comfy_only(s[k]) && comfy_only_from(s, k + 1)
    }
}

proof fn lemma_comfy_only_from(s: Seq<CatalogItemView>, k: int, i: int)
    requires
        0 <= k <= i < s.len(),
        comfy_only_from(s, k),
    ensures
        comfy_only(s[i]),
    decreases i - k,
{
    if k < i {
        lemma_comfy_only_from(s, k + 1, i);
    }
}

/// Image and video models are not exposed to chat runtimes (see `comfy_only`).
pub proof fn lemma_generation_models_use_comfyui()
    ensures
        forall|i: int| 0 <= i < catalog().len() ==> comfy_only(#[trigger] catalog()[i]),
{
    reveal_strlit("");
    reveal_strlit("https://docs.comfy.org/");
    reveal_strlit("image");
    reveal_strlit("video");
    reveal_strlit("chat");
    reveal_strlit("code");
    reveal_strlit("vision");
    reveal_strlit("flux1-schnell");
    reveal_strlit("flux2-dev");
    reveal_strlit("stable-diffusion-15");
    reveal_strlit("wan22-ti2v-5b");
    reveal_strlit("wan22-t2v-14b");
    assert("image"@.len() == 5);
    assert("video"@.len() == 5);
    assert("chat"@.len() == 4);
    assert("code"@.len() == 4);
    assert("vision"@.len() == 6);
    assert(""@.len() == 0);
    assert("flux1-schnell"@.len() == 13);
    assert("flux2-dev"@.len() == 9);
    assert("stable-diffusion-15"@.len() == 19);
    assert("wan22-ti2v-5b"@.len() == 13);
    assert("wan22-t2v-14b"@.len() == 13);
    assert("wan22-ti2v-5b"@[7] == 'i');
    assert("wan22-t2v-14b"@[7] == '2');
    assert("flux1-schnell"@[4] == '1');
    assert("wan22-ti2v-5b"@[0] == 'w');
    assert("flux1-schnell"@[0] == 'f');
    assert("wan22-t2v-14b"@[0] == 'w');
    let s = catalog();
    reveal_strlit("https://docs.comfy.org/tutorials/basic/text-to-image");
    assert("https://docs.comfy.org/tutorials/basic/text-to-image"@.subrange(0, 23) =~= "https://docs.comfy.org/"@);
    reveal_strlit("https://docs.comfy.org/tutorials/flux/flux-1-text-to-image");
    assert("https://docs.comfy.org/tutorials/flux/flux-1-text-to-image"@.subrange(0, 23) =~= "https://docs.comfy.org/"@);
    reveal_strlit("https://docs.comfy.org/tutorials/flux/flux-2-dev");
    assert("https://docs.comfy.org/tutorials/flux/flux-2-dev"@.subrange(0, 23) =~= "https://docs.comfy.org/"@);
    reveal_strlit("https://docs.comfy.org/tutorials/video/wan/wan2_2");
    assert("https://docs.comfy.org/tutorials/video/wan/wan2_2"@.subrange(0, 23) =~= "https://docs.comfy.org/"@);
    assert(comfy_only_from(s, 29));
    assert(comfy_only(s[28]));
    assert(comfy_only_from(s, 28));
    assert(comfy_only(s[27]));
    assert(comfy_only_from(s, 27));
    assert(comfy_only(s[26]));
    assert(comfy_only_from(s, 26));
    assert(comfy_only(s[25]));
    assert(comfy_only_from(s, 25));
    assert(comfy_only(s[24]));
    assert(comfy_only_from(s, 24));
    assert(comfy_only(s[23]));
    assert(comfy_only_from(s, 23));
    assert(comfy_only(s[22]));
    assert(comfy_only_from(s, 22));
    assert(comfy_only(s[21]));
    assert(comfy_only_from(s, 21));
    assert(comfy_only(s[20]));
    assert(comfy_only_from(s, 20));
    assert(comfy_only(s[19]));
    assert(comfy_only_from(s, 19));
    assert(comfy_only(s[18]));
    assert(comfy_only_from(s, 18));
    assert(comfy_only(s[17]));
    assert(comfy_only_from(s, 17));
    assert(comfy_only(s[16]));
    assert(comfy_only_from(s, 16));
    assert(comfy_only(s[15]));
    assert(comfy_only_from(s, 15));
    assert(comfy_only(s[14]));
    assert(comfy_only_from(s, 14));
    assert(comfy_only(s[13]));
    assert(comfy_only_from(s, 13));
    assert(comfy_only(s[12]));
    assert(comfy_only_from(s, 12));
    assert(comfy_only(s[11]));
    assert(comfy_only_from(s, 11));
    assert(comfy_only(s[10]));
    assert(comfy_only_from(s, 10));
    assert(comfy_only(s[9]));
    assert(comfy_only_from(s, 9));
    assert(comfy_only(s[8]));
    assert(comfy_only_from(s, 8));
    assert(comfy_only(s[7]));
    assert(comfy_only_from(s, 7));
    assert(comfy_only(s[6]));
    assert(comfy_only_from(s, 6));
    assert(comfy_only(s[5]));
    assert(comfy_only_from(s, 5));
    assert(comfy_only(s[4]));
    assert(comfy_only_from(s, 4));
    assert(comfy_only(s[3]));
    assert(comfy_only_from(s, 3));
    assert(comfy_only(s[2]));
    assert(comfy_only_from(s, 2));
    assert(comfy_only(s[1]));
    assert(comfy_only_from(s, 1));
    assert(comfy_only(s[0]));
    assert(comfy_only_from(s, 0));
    assert forall|i: int| 0 <= i < catalog().len() implies comfy_only(#[trigger] catalog()[i]) by {
        lemma_comfy_only_from(s, 0, i);
    }
}

} // verus!
