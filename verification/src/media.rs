//! NVIDIA image and video generation: the request body for each model and
//! the reading of the artifact that comes back.
use vstd::prelude::*;
use crate::diagnostic::{diag, media_error, media_error_spec, Diagnostic, DiagnosticView};
use crate::provider::{key_for, key_outcome, stored_view, ProviderConfig, ProviderId};
use crate::text::{chars_of, ends_with, extend, has_suffix, owned, starts_with, str_has_prefix, string_of, trim, trim_vec, vec_eq};

verus! {

/// A creation request from the studio.
#[derive(Clone, Debug)]
pub struct MediaGenerationRequest {
    pub request_id: String,
    pub config: ProviderConfig,
    pub mode: String,
    pub model: String,
    pub prompt: String,
    pub image_data: Option<String>,
}

/// A value in a request body.
#[derive(Clone, Debug)]
pub enum PayloadValue {
    Text(String),
    Int(i64),
    /// A JSON number written out in decimal, for values that are not integers.
    Decimal(&'static str),
    /// A list of `{"text": .., "weight": ..}` objects.
    WeightedTexts(Vec<(String, i64)>),
}

pub enum ValueView {
    Text(Seq<char>),
    Int(i64),
    Decimal(Seq<char>),
    WeightedTexts(Seq<(Seq<char>, i64)>),
}

impl View for PayloadValue {
    type V = ValueView;

    open spec fn view(&self) -> ValueView {
        match self {
            PayloadValue::Text(t) => ValueView::Text(t@),
            PayloadValue::Int(n) => ValueView::Int(*n),
            PayloadValue::Decimal(d) => ValueView::Decimal(d@),
            PayloadValue::WeightedTexts(v) => ValueView::WeightedTexts(
                v@.map_values(|p: (String, i64)| (p.0@, p.1)),
            ),
        }
    }
}

/// A JSON object body: keys and values, each key once.
#[derive(Clone, Debug)]
pub struct MediaPayload {
    pub fields: Vec<(&'static str, PayloadValue)>,
}

pub open spec fn fields_view(f: Seq<(&'static str, PayloadValue)>) -> Seq<(Seq<char>, ValueView)> {
    f.map_values(|p: (&'static str, PayloadValue)| (p.0@, p.1@))
}

pub open spec fn text(s: Seq<char>) -> ValueView {
    ValueView::Text(s)
}

pub open spec fn number(n: i64) -> ValueView {
    ValueView::Int(n)
}

pub open spec fn image_models() -> Seq<Seq<char>> {
    seq![
        "black-forest-labs/flux.1-schnell"@,
        "black-forest-labs/flux.1-dev"@,
        "black-forest-labs/flux.2-klein-4b"@,
        "stabilityai/stable-diffusion-3-medium"@,
        "stabilityai/stable-diffusion-xl"@,
    ]
}

pub open spec fn video_models() -> Seq<Seq<char>> {
    seq!["stabilityai/stable-video-diffusion"@]
}

/// Body for Stable Diffusion 3 Medium.
pub open spec fn sd3_body(prompt: Seq<char>) -> Seq<(Seq<char>, ValueView)> {
    seq![
        ("prompt"@, text(prompt)),
        ("negative_prompt"@, text(""@)),
        ("aspect_ratio"@, text("1:1"@)),
        ("cfg_scale"@, number(5)),
        ("mode"@, text("text-to-image"@)),
        ("model"@, text("sd3"@)),
        ("output_format"@, text("jpeg"@)),
        ("seed"@, number(0)),
        ("steps"@, number(30)),
    ]
}

/// Body for Stable Diffusion XL.
pub open spec fn sdxl_body(prompt: Seq<char>) -> Seq<(Seq<char>, ValueView)> {
    seq![
        ("text_prompts"@, ValueView::WeightedTexts(seq![(prompt, 1i64), (""@, -1i64)])),
        ("cfg_scale"@, number(5)),
        ("clip_guidance_preset"@, text("NONE"@)),
        ("height"@, number(1024)),
        ("width"@, number(1024)),
        ("sampler"@, text("K_DPM_2_ANCESTRAL"@)),
        ("samples"@, number(1)),
        ("seed"@, number(0)),
        ("steps"@, number(25)),
        ("style_preset"@, text("none"@)),
    ]
}

/// Body for the FLUX models: 4 steps for schnell, 30 otherwise, with the
/// guidance and mode that dev and klein expect.
pub open spec fn flux_body(model: Seq<char>, prompt: Seq<char>) -> Seq<(Seq<char>, ValueView)> {
    let steps: i64 = if ends_with(model, "schnell"@) { 4 } else { 30 };
    let base = seq![
        ("prompt"@, text(prompt)),
        ("height"@, number(1024)),
        ("width"@, number(1024)),
        ("samples"@, number(1)),
        ("seed"@, number(0)),
        ("steps"@, number(steps)),
    ];
    if ends_with(model, "flux.1-dev"@) {
        base + seq![("cfg_scale"@, number(5)), ("mode"@, text("base"@))]
    } else if ends_with(model, "flux.2-klein-4b"@) {
        base + seq![("cfg_scale"@, number(0)), ("mode"@, text("Image Generation"@))]
    } else {
        base
    }
}

pub open spec fn video_body(image: Seq<char>) -> Seq<(Seq<char>, ValueView)> {
    seq![
        ("image"@, text(image)),
        ("seed"@, number(0)),
        ("cfg_scale"@, ValueView::Decimal("1.8"@)),
        ("motion_bucket_id"@, number(127)),
    ]
}

/// The body NVIDIA receives for a creation request, or why there is none.
pub open spec fn payload_outcome(mode: Seq<char>, model: Seq<char>, prompt: Seq<char>, image_data: Option<Seq<char>>) -> Result<Seq<(Seq<char>, ValueView)>, DiagnosticView> {
    let p = trim(prompt);
    if mode == "image"@ {
        if !image_models().contains(model) {
            Err(media_error_spec("El modelo de imagen seleccionado no está disponible."@))
        } else if p.len() == 0 || p.len() > 10000 {
            Err(media_error_spec("Escribe una descripción de hasta 10.000 caracteres."@))
        } else if model == "stabilityai/stable-diffusion-3-medium"@ {
            Ok(sd3_body(p))
        } else if model == "stabilityai/stable-diffusion-xl"@ {
            Ok(sdxl_body(p))
        } else {
            Ok(flux_body(model, p))
        }
    } else if mode == "video"@ {
        if !video_models().contains(model) {
            Err(media_error_spec("El modelo de vídeo seleccionado no está disponible."@))
        } else {
            match image_data {
                Some(img) => if !starts_with(img, "data:image/"@) {
                    Err(media_error_spec("Para animar un vídeo necesitas adjuntar una imagen PNG, JPG o WebP."@))
                } else if crate::text::byte_len(img) > 280000 {
                    Err(media_error_spec("La imagen para vídeo debe pesar menos de 200 KB."@))
                } else {
                    Ok(video_body(img))
                },
                None => Err(media_error_spec("Para animar un vídeo necesitas adjuntar una imagen PNG, JPG o WebP."@)),
            }
        }
    } else {
        Err(media_error_spec("El tipo de creación no es válido."@))
    }
}

fn is(v: &Vec<char>, lit: &str) -> (r: bool)
    ensures
        r == (v@ == lit@),
{
    vec_eq(v, &chars_of(lit))
}

fn t(s: &Vec<char>) -> (r: PayloadValue)
    ensures
        r@ == text(s@),
{
    PayloadValue::Text(string_of(s))
}

fn tl(s: &str) -> (r: PayloadValue)
    ensures
        r@ == text(s@),
{
    PayloadValue::Text(owned(s))
}

fn in_list(m: &Vec<char>, list: Vec<&'static str>) -> (r: bool)
    ensures
        r == list@.map_values(|s: &'static str| s@).contains(m@),
{
    let ghost lv = list@.map_values(|s: &'static str| s@);
    let mut i: usize = 0;
    while i < list.len()
        invariant
            i <= list.len(),
            lv == list@.map_values(|s: &'static str| s@),
            forall|k: int| 0 <= k < i ==> lv[k] != m@,
        decreases list.len() - i,
    {
        if vec_eq(m, &chars_of(list[i])) {
            assert(lv[i as int] == m@);
            return true;
        }
        i += 1;
    }
    false
}

/// The request body for NVIDIA (see `payload_outcome`).
pub fn nvidia_media_payload(request: &MediaGenerationRequest) -> (r: Result<MediaPayload, Diagnostic>)
    ensures
        match payload_outcome(request.mode@, request.model@, request.prompt@, match request.image_data {
            Some(i) => Some(i@),
            None => None,
        }) {
            Ok(f) => r matches Ok(p) && fields_view(p.fields@) == f,
            Err(d) => r matches Err(e) && e@ == d,
        },
{
    let prompt = trim_vec(&chars_of(request.prompt.as_str()));
    let mode = chars_of(request.mode.as_str());
    let model = chars_of(request.model.as_str());
    if is(&mode, "image") {
        let images = vec![
            "black-forest-labs/flux.1-schnell",
            "black-forest-labs/flux.1-dev",
            "black-forest-labs/flux.2-klein-4b",
            "stabilityai/stable-diffusion-3-medium",
            "stabilityai/stable-diffusion-xl",
        ];
        assert(images@.map_values(|s: &'static str| s@) =~= image_models());
        if !in_list(&model, images) {
            return Err(media_error("El modelo de imagen seleccionado no está disponible."));
        }
        if prompt.len() == 0 || prompt.len() > 10000 {
            return Err(media_error("Escribe una descripción de hasta 10.000 caracteres."));
        }
        let steps: i64 = if has_suffix(&model, &chars_of("schnell")) {
            4
        } else {
            30
        };
        if is(&model, "stabilityai/stable-diffusion-3-medium") {
            let fields = vec![
                ("prompt", t(&prompt)),
                ("negative_prompt", tl("")),
                ("aspect_ratio", tl("1:1")),
                ("cfg_scale", PayloadValue::Int(5)),
                ("mode", tl("text-to-image")),
                ("model", tl("sd3")),
                ("output_format", tl("jpeg")),
                ("seed", PayloadValue::Int(0)),
                ("steps", PayloadValue::Int(30)),
            ];
            assert(fields_view(fields@) =~= sd3_body(prompt@));
            return Ok(MediaPayload { fields });
        }
        if is(&model, "stabilityai/stable-diffusion-xl") {
            let prompts = vec![(string_of(&prompt), 1i64), (owned(""), -1i64)];
            let pv = PayloadValue::WeightedTexts(prompts);
            assert(pv@ == ValueView::WeightedTexts(seq![(prompt@, 1i64), (""@, -1i64)])) by {
                assert(prompts@.map_values(|p: (String, i64)| (p.0@, p.1)) =~= seq![(prompt@, 1i64), (""@, -1i64)]);
            }
            let fields = vec![
                ("text_prompts", pv),
                ("cfg_scale", PayloadValue::Int(5)),
                ("clip_guidance_preset", tl("NONE")),
                ("height", PayloadValue::Int(1024)),
                ("width", PayloadValue::Int(1024)),
                ("sampler", tl("K_DPM_2_ANCESTRAL")),
                ("samples", PayloadValue::Int(1)),
                ("seed", PayloadValue::Int(0)),
                ("steps", PayloadValue::Int(25)),
                ("style_preset", tl("none")),
            ];
            assert(fields_view(fields@) =~= sdxl_body(prompt@));
            return Ok(MediaPayload { fields });
        }
        let mut fields = vec![
            ("prompt", t(&prompt)),
            ("height", PayloadValue::Int(1024)),
            ("width", PayloadValue::Int(1024)),
            ("samples", PayloadValue::Int(1)),
            ("seed", PayloadValue::Int(0)),
            ("steps", PayloadValue::Int(steps)),
        ];
        let ghost base = fields_view(fields@);
        if has_suffix(&model, &chars_of("flux.1-dev")) {
            fields.push(("cfg_scale", PayloadValue::Int(5)));
            fields.push(("mode", tl("base")));
            assert(fields_view(fields@) =~= base + seq![("cfg_scale"@, number(5)), ("mode"@, text("base"@))]);
        } else if has_suffix(&model, &chars_of("flux.2-klein-4b")) {
            fields.push(("cfg_scale", PayloadValue::Int(0)));
            fields.push(("mode", tl("Image Generation")));
            assert(fields_view(fields@) =~= base + seq![("cfg_scale"@, number(0)), ("mode"@, text("Image Generation"@))]);
        }
        assert(fields_view(fields@) =~= flux_body(model@, prompt@));
        Ok(MediaPayload { fields })
    } else if is(&mode, "video") {
        let videos = vec!["stabilityai/stable-video-diffusion"];
        assert(videos@.map_values(|s: &'static str| s@) =~= video_models());
        if !in_list(&model, videos) {
            return Err(media_error("El modelo de vídeo seleccionado no está disponible."));
        }
        let image = match &request.image_data {
            Some(i) => i,
            None => {
                return Err(media_error("Para animar un vídeo necesitas adjuntar una imagen PNG, JPG o WebP."));
            },
        };
        if !str_has_prefix(image.as_str(), "data:image/") {
            return Err(media_error("Para animar un vídeo necesitas adjuntar una imagen PNG, JPG o WebP."));
        }
        if image.as_str().len() > 280000 {
            return Err(media_error("La imagen para vídeo debe pesar menos de 200 KB."));
        }
        let fields = vec![
            ("image", PayloadValue::Text(image.clone())),
            ("seed", PayloadValue::Int(0)),
            ("cfg_scale", PayloadValue::Decimal("1.8")),
            ("motion_bucket_id", PayloadValue::Int(127)),
        ];
        assert(fields_view(fields@) =~= video_body(image@));
        Ok(MediaPayload { fields })
    } else {
        Err(media_error("El tipo de creación no es válido."))
    }
}

/// The value under `key` in a body.
pub open spec fn field_of(f: Seq<(Seq<char>, ValueView)>, key: Seq<char>) -> Option<ValueView>
    decreases f.len(),
{
    if f.len() == 0 {
        None
    } else if f[0].0 == key {
        Some(f[0].1)
    } else {
        field_of(f.drop_first(), key)
    }
}

impl MediaPayload {
    /// The value stored under `key`, if any.
    pub fn get(&self, key: &str) -> (r: Option<&PayloadValue>)
        ensures
            match field_of(fields_view(self.fields@), key@) {
                Some(v) => r matches Some(x) && x@ == v,
                None => r is None,
            },
    {
        let ghost fv = fields_view(self.fields@);
        let k = chars_of(key);
        let mut i: usize = 0;
        assert(fv.skip(0) =~= fv);
        while i < self.fields.len()
            invariant
                i <= self.fields.len(),
                k@ == key@,
                fv == fields_view(self.fields@),
                field_of(fv, key@) == field_of(fv.skip(i as int), key@),
            decreases self.fields.len() - i,
        {
            assert(fv.skip(i as int).drop_first() =~= fv.skip(i + 1));
            assert(fv.skip(i as int)[0] == (self.fields@[i as int].0@, self.fields@[i as int].1@));
            if vec_eq(&chars_of(self.fields[i].0), &k) {
                return Some(&self.fields[i].1);
            }
            i += 1;
        }
        None
    }
}

// ---------------------------------------------------------------- results

/// One JSON value slot of a response: absent, or present with its text when
/// it is a JSON string (`None` for any other kind of value).
pub type Slot = Option<Option<String>>;

/// The three keys an artifact may carry its content under.
#[derive(Clone, Debug)]
pub struct MediaSource {
    pub base64: Slot,
    pub data: Slot,
    pub b64_json: Slot,
}

/// What a generation response holds: the first element of `artifacts` (when
/// `artifacts` is a non-empty array) with its `seed` read as an unsigned
/// integer, and the same keys at the top level.
#[derive(Clone, Debug)]
pub struct MediaResponse {
    pub artifact: Option<(MediaSource, Option<u64>)>,
    pub top: MediaSource,
}

/// A generated image or video, as a data URL.
#[derive(Clone, Debug)]
pub struct MediaGenerationResult {
    pub media_type: String,
    pub data_url: String,
    pub seed: Option<u64>,
}

pub open spec fn slot_view(s: Slot) -> Option<Option<Seq<char>>> {
    match s {
        Some(Some(t)) => Some(Some(t@)),
        Some(None) => Some(None),
        None => None,
    }
}

/// The first present key among `base64`, `data`, `b64_json`.
pub open spec fn first_slot(m: MediaSource) -> Option<Option<Seq<char>>> {
    match slot_view(m.base64) {
        Some(v) => Some(v),
        None => match slot_view(m.data) {
            Some(v) => Some(v),
            None => slot_view(m.b64_json),
        },
    }
}

/// The artifact content: from the first artifact when it has one of the keys,
/// else from the top level; it must be a JSON string.
pub open spec fn raw_content(r: MediaResponse) -> Option<Seq<char>> {
    let chosen = match r.artifact {
        Some((a, _)) => match first_slot(a) {
            Some(v) => Some(v),
            None => first_slot(r.top),
        },
        None => first_slot(r.top),
    };
    match chosen {
        Some(Some(t)) => Some(t),
        _ => None,
    }
}

/// The data URL of the content: as is when already a `data:` URL, else with
/// the MP4 prefix for videos or `image_prefix` for images.
pub open spec fn data_url_of(raw: Seq<char>, media_type: Seq<char>, image_prefix: Seq<char>) -> Seq<char> {
    if starts_with(raw, "data:"@) {
        raw
    } else if media_type == "video"@ {
        "data:video/mp4;base64,"@ + raw
    } else {
        image_prefix + raw
    }
}

/// Where a generation's content is read from: an artifact's `base64` string
/// comes first, whatever the top level holds; with no artifact, the top
/// level's `base64`, `data` or `b64_json` string, in that order; an artifact
/// key that is present but not a string hides the keys after it.
pub proof fn lemma_media_content(r: MediaResponse, seed: Option<u64>, a: MediaSource, x: String)
    ensures
        r.artifact == Some((a, seed)) && a.base64 == Some(Some(x)) ==> raw_content(r) == Some(x@),
        r.artifact is None && r.top.base64 == Some(Some(x)) ==> raw_content(r) == Some(x@),
        r.artifact is None && r.top.base64 is None && r.top.data == Some(Some(x)) ==> raw_content(r)
            == Some(x@),
        r.artifact is None && r.top.base64 is None && r.top.data is None && r.top.b64_json == Some(Some(x))
            ==> raw_content(r) == Some(x@),
        r.artifact == Some((a, seed)) && a.base64 == Some(None::<String>) ==> raw_content(r) is None,
{
}

/// What is sent to NVIDIA for a creation: an image request carries its prompt
/// trimmed (as `prompt`, or as the first weighted text for SDXL); a prompt
/// that is blank once trimmed is refused; a video request carries its image
/// as given when it is a `data:image/` URL of at most 280000 bytes, and is
/// refused without one; any other kind of creation is refused.
pub proof fn lemma_media_payload(mode: Seq<char>, model: Seq<char>, prompt: Seq<char>, image: Option<Seq<char>>)
    ensures
        mode == "image"@ && image_models().contains(model) && 0 < trim(prompt).len() <= 10000 ==> (
        payload_outcome(mode, model, prompt, image) matches Ok(f) && f.len() > 0 && if model
            == "stabilityai/stable-diffusion-xl"@ {
            f[0] == ("text_prompts"@, ValueView::WeightedTexts(seq![(trim(prompt), 1i64), (""@, -1i64)]))
        } else {
            f[0] == ("prompt"@, ValueView::Text(trim(prompt)))
        }),
        mode == "image"@ && image_models().contains(model) && trim(prompt).len() == 0 ==> payload_outcome(
            mode,
            model,
            prompt,
            image,
        ) is Err,
        mode == "video"@ && video_models().contains(model) ==> match image {
            Some(img) => if starts_with(img, "data:image/"@) && crate::text::byte_len(img) <= 280000 {
                payload_outcome(mode, model, prompt, image) matches Ok(f) && f.len() > 0 && f[0] == (
                "image"@,
                ValueView::Text(img),
                )
            } else {
                payload_outcome(mode, model, prompt, image) is Err
            },
            None => payload_outcome(mode, model, prompt, image) is Err,
        },
        mode != "image"@ && mode != "video"@ ==> payload_outcome(mode, model, prompt, image) is Err,
{
    reveal_strlit("image");
    reveal_strlit("video");
    reveal_strlit("stabilityai/stable-diffusion-3-medium");
    reveal_strlit("stabilityai/stable-diffusion-xl");
    assert("image"@[0] != "video"@[0]);
    if mode == "image"@ && image_models().contains(model) && 0 < trim(prompt).len() <= 10000 {
        let p = trim(prompt);
        if model != "stabilityai/stable-diffusion-3-medium"@ && model != "stabilityai/stable-diffusion-xl"@ {
            let fb = flux_body(model, p);
            assert(fb.len() > 0);
            assert(fb[0] == ("prompt"@, ValueView::Text(p)));
        }
    }
}

/// A generated video is labelled as MP4 whatever image prefix is in use: its
/// content becomes `data:video/mp4;base64,` followed by the content, so two
/// image prefixes give the same video URL; an image takes the image prefix;
/// content that is already a `data:` URL is kept as it is, for either kind.
pub proof fn lemma_media_labels(raw: Seq<char>, media_type: Seq<char>, p1: Seq<char>, p2: Seq<char>)
    ensures
        !starts_with(raw, "data:"@) ==> data_url_of(raw, "video"@, p1) == "data:video/mp4;base64,"@ + raw,
        data_url_of(raw, "video"@, p1) == data_url_of(raw, "video"@, p2),
        !starts_with(raw, "data:"@) && media_type != "video"@ ==> data_url_of(raw, media_type, p1)
            == p1 + raw,
        starts_with(raw, "data:"@) ==> data_url_of(raw, media_type, p1) == raw,
{
}

fn first_slot_exec(m: &MediaSource) -> (r: Option<Option<String>>)
    ensures
        slot_view(r) == first_slot(*m),
{
    match &m.base64 {
        Some(v) => return Some(v.clone()),
        None => {},
    }
    match &m.data {
        Some(v) => return Some(v.clone()),
        None => {},
    }
    match &m.b64_json {
        Some(v) => Some(v.clone()),
        None => None,
    }
}

/// Reads a generation response into a result (see `raw_content` and
/// `data_url_of`); fails when no string content is found.
pub fn nvidia_media_result(value: &MediaResponse, media_type: &str, image_prefix: &str) -> (r: Result<MediaGenerationResult, Diagnostic>)
    ensures
        match raw_content(*value) {
            None => r matches Err(e) && e@ == media_error_spec("NVIDIA respondió sin una imagen o vídeo descargable."@),
            Some(raw) => r matches Ok(m) && m.media_type@ == media_type@ && m.data_url@
                == data_url_of(raw, media_type@, image_prefix@) && m.seed == match value.artifact {
                    Some((_, seed)) => seed,
                    None => None,
                },
        },
{
    let chosen = match &value.artifact {
        Some((a, _)) => match first_slot_exec(a) {
            Some(v) => Some(v),
            None => first_slot_exec(&value.top),
        },
        None => first_slot_exec(&value.top),
    };
    let raw = match chosen {
        Some(Some(t)) => t,
        _ => return Err(media_error("NVIDIA respondió sin una imagen o vídeo descargable.")),
    };
    let mut url: Vec<char> = if str_has_prefix(raw.as_str(), "data:") {
        Vec::new()
    } else if vec_eq(&chars_of(media_type), &chars_of("video")) {
        chars_of("data:video/mp4;base64,")
    } else {
        chars_of(image_prefix)
    };
    extend(&mut url, &chars_of(raw.as_str()));
    let seed = match &value.artifact {
        Some((_, seed)) => *seed,
        None => None,
    };
    Ok(MediaGenerationResult { media_type: owned(media_type), data_url: string_of(&url), seed })
}

// ---------------------------------------------------------------- requests

/// How a creation request is sent.
#[derive(Clone, Debug)]
pub struct MediaPlan {
    pub url: String,
    pub key: String,
    pub payload: MediaPayload,
    pub timeout_secs: u64,
    pub image_prefix: &'static str,
}

pub open spec fn unsupported_provider() -> DiagnosticView {
    diag(
        "UNSUPPORTED_PROVIDER"@,
        "Este creador usa NVIDIA API"@,
        "Selecciona y configura NVIDIA API para generar imágenes o vídeos."@,
        "Los modelos de creación de esta versión usan los endpoints oficiales de NVIDIA."@,
        "Abre Proveedores, configura NVIDIA API y vuelve a intentarlo."@,
        false,
    )
}

pub open spec fn nvidia_key_missing() -> DiagnosticView {
    diag(
        "INVALID_API_KEY"@,
        "Falta la clave API"@,
        "NVIDIA API necesita una clave configurada."@,
        "La configuración está incompleta."@,
        "Guarda la clave de NVIDIA y vuelve a intentarlo."@,
        false,
    )
}

pub open spec fn clamp_media_timeout(t: u64) -> u64 {
    if t < 45 {
        45
    } else if t > 180 {
        180
    } else {
        t
    }
}

/// The JPEG prefix for Stable Diffusion 3, PNG otherwise.
pub open spec fn image_prefix_for(model: Seq<char>) -> Seq<char> {
    if model == "stabilityai/stable-diffusion-3-medium"@ {
        "data:image/jpeg;base64,"@
    } else {
        "data:image/png;base64,"@
    }
}

/// The checks made on a generation request before any key is read: its id,
/// its provider, then its payload.
pub open spec fn media_check_spec(request: MediaGenerationRequest) -> Result<Seq<(Seq<char>, ValueView)>, DiagnosticView> {
    if trim(request.request_id@).len() == 0 {
        Err(media_error_spec("Falta el identificador de la generación."@))
    } else if request.config.provider != ProviderId::Nvidia {
        Err(unsupported_provider())
    } else {
        payload_outcome(request.mode@, request.model@, request.prompt@, match request.image_data {
            Some(i) => Some(i@),
            None => None,
        })
    }
}

/// Checks a generation request without reading any key (see
/// `media_check_spec`), giving the body to send.
pub fn check_media_request(request: &MediaGenerationRequest) -> (r: Result<MediaPayload, Diagnostic>)
    ensures
        match media_check_spec(*request) {
            Ok(f) => r matches Ok(p) && fields_view(p.fields@) == f,
            Err(d) => r matches Err(e) && e@ == d,
        },
{
    if trim_vec(&chars_of(request.request_id.as_str())).len() == 0 {
        return Err(media_error("Falta el identificador de la generación."));
    }
    if request.config.provider != ProviderId::Nvidia {
        return Err(
            Diagnostic::new(
                "UNSUPPORTED_PROVIDER",
                "Este creador usa NVIDIA API",
                "Selecciona y configura NVIDIA API para generar imágenes o vídeos.",
                "Los modelos de creación de esta versión usan los endpoints oficiales de NVIDIA.",
                "Abre Proveedores, configura NVIDIA API y vuelve a intentarlo.",
                false,
            ),
        );
    }
    nvidia_media_payload(request)
}

/// Everything decided before NVIDIA is contacted: a request id, the NVIDIA
/// provider, a valid body, a stored key; then the endpoint of the model, a
/// time limit of 45..=180 s and the image prefix.
pub fn plan_media_request(request: &MediaGenerationRequest, stored_key: Result<Option<String>, String>) -> (r: Result<MediaPlan, Diagnostic>)
    ensures
        trim(request.request_id@).len() == 0 ==> (r matches Err(e) && e@ == media_error_spec("Falta el identificador de la generación."@)),
        trim(request.request_id@).len() > 0 && request.config.provider != ProviderId::Nvidia ==> (r matches Err(e) && e@ == unsupported_provider()),
        r matches Ok(plan) ==> {
            &&& trim(request.request_id@).len() > 0
            &&& request.config.provider == ProviderId::Nvidia
            &&& payload_outcome(request.mode@, request.model@, request.prompt@, match request.image_data {
                Some(i) => Some(i@),
                None => None,
            }) == Ok::<Seq<(Seq<char>, ValueView)>, DiagnosticView>(fields_view(plan.payload.fields@))
            &&& key_outcome(request.config.provider, stored_view(stored_key)) == Ok::<Option<Seq<char>>, DiagnosticView>(Some(plan.key@))
            &&& plan.url@ == "https://ai.api.nvidia.com/v1/genai/"@ + request.model@
            &&& plan.timeout_secs == clamp_media_timeout(request.config.max_response_timeout_secs)
            &&& plan.image_prefix@ == image_prefix_for(request.model@)
        },
        trim(request.request_id@).len() > 0 && request.config.provider == ProviderId::Nvidia ==> {
            match payload_outcome(request.mode@, request.model@, request.prompt@, match request.image_data {
                Some(i) => Some(i@),
                None => None,
            }) {
                Err(d) => r matches Err(e) && e@ == d,
                Ok(_) => match key_outcome(request.config.provider, stored_view(stored_key)) {
                    Err(d) => r matches Err(e) && e@ == d,
                    Ok(None) => r matches Err(e) && e@ == nvidia_key_missing(),
                    Ok(Some(_)) => r is Ok,
                },
            }
        },
{
    let payload = check_media_request(request)?;
    let key = match key_for(&request.config, stored_key)? {
        Some(k) => k,
        None => {
            return Err(
                Diagnostic::new(
                    "INVALID_API_KEY",
                    "Falta la clave API",
                    "NVIDIA API necesita una clave configurada.",
                    "La configuración está incompleta.",
                    "Guarda la clave de NVIDIA y vuelve a intentarlo.",
                    false,
                ),
            );
        },
    };
    let mut url = chars_of("https://ai.api.nvidia.com/v1/genai/");
    extend(&mut url, &chars_of(request.model.as_str()));
    let t = request.config.max_response_timeout_secs;
    let timeout_secs = if t < 45 {
        45
    } else if t > 180 {
        180
    } else {
        t
    };
    let image_prefix = if vec_eq(&chars_of(request.model.as_str()), &chars_of("stabilityai/stable-diffusion-3-medium")) {
        "data:image/jpeg;base64,"
    } else {
        "data:image/png;base64,"
    };
    Ok(MediaPlan { url: string_of(&url), key, payload, timeout_secs, image_prefix })
}

} // verus!
