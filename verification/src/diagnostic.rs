//! User-facing error reports.
use vstd::prelude::*;
use crate::text::{chars_of, extend, owned, string_of};

verus! {

/// An error explained to the user: a stable code, a title, what happened, the
/// likely cause, what to do next, and whether retrying can help.
#[derive(Clone, Debug)]
pub struct Diagnostic {
    pub code: String,
    pub title: String,
    pub explanation: String,
    pub cause: String,
    pub action: String,
    pub retryable: bool,
    pub technical: Option<String>,
}

pub struct DiagnosticView {
    pub code: Seq<char>,
    pub title: Seq<char>,
    pub explanation: Seq<char>,
    pub cause: Seq<char>,
    pub action: Seq<char>,
    pub retryable: bool,
    pub technical: Option<Seq<char>>,
}

impl View for Diagnostic {
    type V = DiagnosticView;

    open spec fn view(&self) -> DiagnosticView {
        DiagnosticView {
            code: self.code@,
            title: self.title@,
            explanation: self.explanation@,
            cause: self.cause@,
            action: self.action@,
            retryable: self.retryable,
            technical: match self.technical {
                Some(t) => Some(t@),
                None => None,
            },
        }
    }
}

/// A diagnostic without technical detail.
pub open spec fn diag(
    code: Seq<char>,
    title: Seq<char>,
    explanation: Seq<char>,
    cause: Seq<char>,
    action: Seq<char>,
    retryable: bool,
) -> DiagnosticView {
    DiagnosticView { code, title, explanation, cause, action, retryable, technical: None }
}

impl Diagnostic {
    pub fn new(
        code: &str,
        title: &str,
        explanation: &str,
        cause: &str,
        action: &str,
        retryable: bool,
    ) -> (r: Diagnostic)
        ensures
            r@ == diag(code@, title@, explanation@, cause@, action@, retryable),
    {
        Diagnostic {
            code: owned(code),
            title: owned(title),
            explanation: owned(explanation),
            cause: owned(cause),
            action: owned(action),
            retryable,
            technical: None,
        }
    }

    /// The same diagnostic carrying `detail` as technical information.
    pub fn technical(self, detail: &str) -> (r: Diagnostic)
        ensures
            r@ == (DiagnosticView { technical: Some(detail@), ..self@ }),
    {
        Diagnostic { technical: Some(owned(detail)), ..self }
    }
}

/// The report for a failure of the system credential store.
pub open spec fn secret_error_spec(error: Seq<char>) -> DiagnosticView {
    diag(
        "AUTHENTICATION_FAILED"@,
        "No se pudo usar la clave"@,
        error,
        "El almacén seguro de credenciales no está disponible o denegó el acceso."@,
        "Revisa el llavero del sistema y vuelve a intentarlo."@,
        false,
    )
}

pub fn secret_error(error: &str) -> (r: Diagnostic)
    ensures
        r@ == secret_error_spec(error@),
{
    Diagnostic::new(
        "AUTHENTICATION_FAILED",
        "No se pudo usar la clave",
        error,
        "El almacén seguro de credenciales no está disponible o denegó el acceso.",
        "Revisa el llavero del sistema y vuelve a intentarlo.",
        false,
    )
}

/// The report for a media generation that produced nothing usable.
pub open spec fn media_error_spec(message: Seq<char>) -> DiagnosticView {
    diag(
        "MEDIA_GENERATION_FAILED"@,
        "No se pudo generar el contenido"@,
        message,
        "El modelo no devolvió un archivo que Vareliox pudiera abrir."@,
        "Comprueba el modelo y vuelve a intentarlo."@,
        true,
    )
}

pub fn media_error(message: &str) -> (r: Diagnostic)
    ensures
        r@ == media_error_spec(message@),
{
    Diagnostic::new(
        "MEDIA_GENERATION_FAILED",
        "No se pudo generar el contenido",
        message,
        "El modelo no devolvió un archivo que Vareliox pudiera abrir.",
        "Comprueba el modelo y vuelve a intentarlo.",
        true,
    )
}

/// The report for a request to `service` at `endpoint` that got no answer,
/// with the transport's own words as technical detail.
pub open spec fn connection_failed_spec(service: Seq<char>, endpoint: Seq<char>, detail: Seq<char>) -> DiagnosticView {
    DiagnosticView {
        technical: Some(detail),
        ..diag(
            "CONNECTION_FAILED"@,
            "No se pudo conectar"@,
            "No se pudo conectar con "@ + service + " en "@ + endpoint + "."@,
            "El servicio no responde o la red no está disponible."@,
            "Comprueba la conexión y vuelve a intentarlo."@,
            true,
        )
    }
}

pub fn connection_failed(service: &str, endpoint: &str, detail: &str) -> (r: Diagnostic)
    ensures
        r@ == connection_failed_spec(service@, endpoint@, detail@),
{
    let mut explanation = chars_of("No se pudo conectar con ");
    extend(&mut explanation, &chars_of(service));
    extend(&mut explanation, &chars_of(" en "));
    extend(&mut explanation, &chars_of(endpoint));
    extend(&mut explanation, &chars_of("."));
    let explanation = string_of(&explanation);
    proof {
        reveal_strlit("No se pudo conectar con ");
        reveal_strlit(" en ");
        reveal_strlit(".");
    }
    Diagnostic::new(
        "CONNECTION_FAILED",
        "No se pudo conectar",
        explanation.as_str(),
        "El servicio no responde o la red no está disponible.",
        "Comprueba la conexión y vuelve a intentarlo.",
        true,
    ).technical(detail)
}

} // verus!
