//! Framing of a provider's streamed reply: where each event ends in the
//! receive buffer, and which payload an event carries.
//!
//! Providers that speak server-sent events separate events by a blank line
//! (`"\n\n"` or `"\r\n\r\n"`) and carry the payload on `data:` lines; the
//! others (Ollama) send one JSON object per line.
use vstd::prelude::*;
use crate::diagnostic::{diag, Diagnostic, DiagnosticView};
use crate::provider::ProviderId;
use crate::text::{
    byte_len, chars_of, decimal, decimal_exec, extend, find_first, find_from, join_strings, join_with, lemma_find_first,
    occurs_at, slice_vec, starts_with, string_of, strings_view, trim, trim_start,
    trim_start_vec, trim_vec, has_prefix,
};

verus! {

pub open spec fn lf() -> Seq<char> {
    seq!['\n']
}

pub open spec fn blank_lf() -> Seq<char> {
    seq!['\n', '\n']
}

pub open spec fn blank_crlf() -> Seq<char> {
    seq!['\r', '\n', '\r', '\n']
}

pub open spec fn data_tag() -> Seq<char> {
    seq!['d', 'a', 't', 'a', ':']
}

/// Where the first complete event of `s` ends, in characters: the position of
/// its separator and the separator's length. Line-delimited streams end an
/// event at the first `'\n'`; event streams at the earlier of the first
/// `"\n\n"` and the first `"\r\n\r\n"`.
pub open spec fn event_end(s: Seq<char>, sse: bool) -> Option<(int, int)> {
    if !sse {
        match find_first(s, lf(), 0) {
            Some(i) => Some((i, 1)),
            None => None,
        }
    } else {
        match (find_first(s, blank_lf(), 0), find_first(s, blank_crlf(), 0)) {
            (Some(a), Some(b)) => if a < b {
                Some((a, 2))
            } else {
                Some((b, 4))
            },
            (Some(a), None) => Some((a, 2)),
            (None, Some(b)) => Some((b, 4)),
            (None, None) => None,
        }
    }
}

/// `event_end` with the position counted in bytes of UTF-8, as `str::find`
/// reports positions.
pub open spec fn boundary_spec(s: Seq<char>, sse: bool) -> Option<(usize, usize)> {
    match event_end(s, sse) {
        Some((i, n)) => Some((byte_len(s.take(i)), n as usize)),
        None => None,
    }
}

/// The pieces of `s` between `'\n'` characters, as `str::split('\n')` gives
/// them: one more piece than there are line feeds.
pub open spec fn split_pieces(s: Seq<char>) -> Seq<Seq<char>>
    decreases s.len(),
{
    if s.len() == 0 {
        seq![Seq::empty()]
    } else {
        let p = split_pieces(s.drop_last());
        if s.last() == '\n' {
            p.push(Seq::empty())
        } else {
            p.update(p.len() - 1, p.last().push(s.last()))
        }
    }
}

pub proof fn lemma_pieces_nonempty(s: Seq<char>)
    ensures
        split_pieces(s).len() >= 1,
    decreases s.len(),
{
    if s.len() > 0 {
        lemma_pieces_nonempty(s.drop_last());
    }
}

/// A line as `str::lines` ends it: one `'\r'` before the line feed is dropped.
pub open spec fn strip_cr(l: Seq<char>) -> Seq<char> {
    if l.len() > 0 && l.last() == '\r' {
        l.drop_last()
    } else {
        l
    }
}

/// The lines of `s` as `str::lines` yields them: every piece that a `'\n'`
/// closes (without a `'\r'` just before that `'\n'`), then the rest of `s`
/// if it is not empty.
pub open spec fn lines_of(s: Seq<char>) -> Seq<Seq<char>> {
    let p = split_pieces(s);
    let closed = p.drop_last().map_values(|l: Seq<char>| strip_cr(l));
    if p.last().len() == 0 {
        closed
    } else {
        closed.push(p.last())
    }
}

/// The values of the `data:` lines among `lines`, each without the tag and
/// without the whitespace that follows it.
pub open spec fn data_values(lines: Seq<Seq<char>>) -> Seq<Seq<char>>
    decreases lines.len(),
{
    if lines.len() == 0 {
        Seq::empty()
    } else if starts_with(lines.last(), data_tag()) {
        data_values(lines.drop_last()).push(trim_start(lines.last().skip(5)))
    } else {
        data_values(lines.drop_last())
    }
}

/// The payload of one event: for event streams the values of its `data:`
/// lines joined by `'\n'`; for line-delimited streams the trimmed line.
pub open spec fn event_data(raw: Seq<char>, sse: bool) -> Seq<char> {
    if sse {
        join_with(data_values(lines_of(raw)), lf())
    } else {
        trim(raw)
    }
}

fn event_end_exec(s: &Vec<char>, sse: bool) -> (r: Option<(usize, usize)>)
    ensures
        match r {
            Some((i, n)) => event_end(s@, sse) == Some((i as int, n as int)),
            None => event_end(s@, sse) is None,
        },
{
    if !sse {
        let nl = vec!['\n'];
        assert(nl@ =~= lf());
        return match find_from(s, &nl, 0) {
            Some(i) => Some((i, 1)),
            None => None,
        };
    }
    let two = vec!['\n', '\n'];
    let four = vec!['\r', '\n', '\r', '\n'];
    assert(two@ =~= blank_lf());
    assert(four@ =~= blank_crlf());
    match (find_from(s, &two, 0), find_from(s, &four, 0)) {
        (Some(a), Some(b)) => if a < b {
            Some((a, 2))
        } else {
            Some((b, 4))
        },
        (Some(a), None) => Some((a, 2)),
        (None, Some(b)) => Some((b, 4)),
        (None, None) => None,
    }
}

/// The number of UTF-8 bytes in the first `i` characters of `s`.
fn prefix_bytes(s: &Vec<char>, i: usize) -> (r: usize)
    requires
        i <= s.len(),
    ensures
        r == byte_len(s@.take(i as int)),
{
    let head = string_of(&slice_vec(s, 0, i));
    assert(head@ =~= s@.take(i as int));
    head.as_str().len()
}

/// Where the first complete event of `buffer` ends: the byte position of its
/// separator and the separator's length in bytes, or `None` while the buffer
/// holds no complete event.
pub fn stream_boundary(buffer: &str, sse: bool) -> (r: Option<(usize, usize)>)
    ensures
        r == boundary_spec(buffer@, sse),
{
    let s = chars_of(buffer);
    match event_end_exec(&s, sse) {
        Some((i, n)) => {
            proof {
                lemma_event_end_in_range(s@, sse);
            }
            Some((prefix_bytes(&s, i), n))
        },
        None => None,
    }
}

pub proof fn lemma_event_end_in_range(s: Seq<char>, sse: bool)
    ensures
        match event_end(s, sse) {
            Some((i, n)) => 0 <= i && i + n <= s.len() && (n == 1 || n == 2 || n == 4),
            None => true,
        },
{
    lemma_find_first(s, lf(), 0);
    lemma_find_first(s, blank_lf(), 0);
    lemma_find_first(s, blank_crlf(), 0);
}

/// `str::lines` of `raw`, as strings.
fn split_lines(raw: &Vec<char>) -> (r: Vec<String>)
    ensures
        strings_view(r@) == lines_of(raw@),
{
    let mut done: Vec<String> = Vec::new();
    let mut cur: Vec<char> = Vec::new();
    let mut i: usize = 0;
    proof {
        assert(raw@.take(0) =~= Seq::<char>::empty());
    }
    while i < raw.len()
        invariant
            i <= raw.len(),
            strings_view(done@) == split_pieces(raw@.take(i as int)).drop_last().map_values(
                |l: Seq<char>| strip_cr(l),
            ),
            cur@ == split_pieces(raw@.take(i as int)).last(),
        decreases raw.len() - i,
    {
        let ghost before = raw@.take(i as int);
        let ghost p = split_pieces(before);
        proof {
            lemma_pieces_nonempty(before);
            assert(raw@.take(i + 1).drop_last() =~= before);
            assert(raw@.take(i + 1).last() == raw@[i as int]);
        }
        let c = raw[i];
        if c == '\n' {
            let line = if cur.len() > 0 && cur[cur.len() - 1] == '\r' {
                slice_vec(&cur, 0, cur.len() - 1)
            } else {
                slice_vec(&cur, 0, cur.len())
            };
            assert(line@ =~= strip_cr(cur@));
            let ghost old_done = strings_view(done@);
            done.push(string_of(&line));
            cur = Vec::new();
            proof {
                let q = split_pieces(raw@.take(i + 1));
                assert(q == p.push(Seq::empty()));
                assert(q.drop_last() =~= p);
                assert(strings_view(done@) =~= old_done.push(line@));
                assert(p.map_values(|l: Seq<char>| strip_cr(l)) =~= p.drop_last().map_values(
                    |l: Seq<char>| strip_cr(l),
                ).push(strip_cr(p.last())));
                assert(strings_view(done@) =~= q.drop_last().map_values(|l: Seq<char>| strip_cr(l)));
                assert(cur@ =~= q.last());
            }
        } else {
            cur.push(c);
            proof {
                let q = split_pieces(raw@.take(i + 1));
                assert(q == p.update(p.len() - 1, p.last().push(c)));
                assert(q.drop_last() =~= p.drop_last());
                assert(cur@ =~= q.last());
            }
        }
        i += 1;
    }
    proof {
        assert(raw@.take(raw.len() as int) =~= raw@);
        lemma_pieces_nonempty(raw@);
    }
    if cur.len() > 0 {
        done.push(string_of(&cur));
        proof {
            let p = split_pieces(raw@);
            assert(strings_view(done@) =~= p.drop_last().map_values(|l: Seq<char>| strip_cr(l)).push(
                p.last(),
            ));
        }
    }
    done
}

/// The values of the `data:` lines among `lines`.
fn data_lines(lines: &Vec<String>) -> (r: Vec<String>)
    ensures
        strings_view(r@) == data_values(strings_view(lines@)),
{
    let ghost lv = strings_view(lines@);
    let tag = vec!['d', 'a', 't', 'a', ':'];
    assert(tag@ =~= data_tag());
    let mut out: Vec<String> = Vec::new();
    let mut i: usize = 0;
    while i < lines.len()
        invariant
            i <= lines.len(),
            lv == strings_view(lines@),
            tag@ == data_tag(),
            strings_view(out@) == data_values(lv.take(i as int)),
        decreases lines.len() - i,
    {
        proof {
            assert(lv.take(i + 1).drop_last() =~= lv.take(i as int));
            assert(lv.take(i + 1).last() == lines@[i as int]@);
        }
        let line = chars_of(lines[i].as_str());
        if has_prefix(&line, &tag) {
            let rest = slice_vec(&line, 5, line.len());
            assert(rest@ =~= line@.skip(5));
            let value = trim_start_vec(&rest);
            out.push(string_of(&value));
            assert(strings_view(out@) =~= data_values(lv.take(i as int)).push(value@));
        }
        i += 1;
    }
    assert(lv.take(lines.len() as int) =~= lv);
    out
}

/// The payload carried by one raw event.
pub fn event_payload(raw: &str, sse: bool) -> (r: String)
    ensures
        r@ == event_data(raw@, sse),
{
    let chars = chars_of(raw);
    if sse {
        let lines = split_lines(&chars);
        let values = data_lines(&lines);
        proof {
            reveal_strlit("\n");
            assert("\n"@ =~= lf());
        }
        string_of(&join_strings(&values, "\n"))
    } else {
        string_of(&trim_vec(&chars))
    }
}

/// Removes the first complete event from the front of `buffer`, separator
/// included, and returns its payload; a buffer without a complete event is
/// left as it is.
pub fn take_event(buffer: &mut String, sse: bool) -> (r: Option<String>)
    ensures
        match event_end(old(buffer)@, sse) {
            Some((i, n)) => {
                &&& r is Some
                &&& r->Some_0@ == event_data(old(buffer)@.take(i + n), sse)
                &&& final(buffer)@ == old(buffer)@.skip(i + n)
            },
            None => r is None && final(buffer)@ == old(buffer)@,
        },
{
    let chars = chars_of(buffer.as_str());
    match event_end_exec(&chars, sse) {
        None => None,
        Some((i, n)) => {
            proof {
                lemma_event_end_in_range(chars@, sse);
                assert(event_end(chars@, sse) == Some((i as int, n as int)));
            }
            assert(i + n <= chars.len());
            let raw = string_of(&slice_vec(&chars, 0, i + n));
            let rest = string_of(&slice_vec(&chars, i + n, chars.len()));
            assert(raw@ =~= chars@.take(i + n));
            assert(rest@ =~= chars@.skip(i + n));
            *buffer = rest;
            Some(event_payload(raw.as_str(), sse))
        },
    }
}

/// The payload of what is left in the buffer when the stream closes, unless
/// only whitespace is left.
pub fn closing_event(buffer: &str, sse: bool) -> (r: Option<String>)
    ensures
        trim(buffer@).len() == 0 ==> r is None,
        trim(buffer@).len() > 0 ==> r is Some && r->Some_0@ == event_data(buffer@, sse),
{
    let chars = chars_of(buffer);
    if trim_vec(&chars).len() == 0 {
        None
    } else {
        Some(event_payload(buffer, sse))
    }
}


/// The payloads of the complete events at the front of `s`, in order, without
/// the empty ones, and what is left once no complete event remains.
pub open spec fn drained(s: Seq<char>, sse: bool) -> (Seq<Seq<char>>, Seq<char>)
    decreases s.len(),
{
    match event_end(s, sse) {
        None => (Seq::empty(), s),
        Some((i, n)) => {
            proof {
                lemma_event_end_in_range(s, sse);
            }
            if 0 <= i && 1 <= n && i + n <= s.len() {
                let rest = drained(s.skip(i + n), sse);
                let d = event_data(s.take(i + n), sse);
                if d.len() == 0 {
                    rest
                } else {
                    (seq![d] + rest.0, rest.1)
                }
            } else {
                (Seq::empty(), s)
            }
        },
    }
}

/// Takes every complete event off the front of `buffer` and returns their
/// payloads, skipping those that carry nothing (see `drained`).
pub fn drain_events(buffer: &mut String, sse: bool) -> (r: Vec<String>)
    ensures
        drained(old(buffer)@, sse) == (strings_view(r@), final(buffer)@),
{
    let ghost start = buffer@;
    let mut out: Vec<String> = Vec::new();
    loop
        invariant
            start == old(buffer)@,
            drained(start, sse) == (strings_view(out@) + drained(buffer@, sse).0, drained(
                buffer@,
                sse,
            ).1),
        decreases buffer@.len(),
    {
        let ghost before = buffer@;
        proof {
            lemma_event_end_in_range(before, sse);
        }
        match take_event(buffer, sse) {
            None => {
                assert(drained(buffer@, sse) == (Seq::<Seq<char>>::empty(), buffer@));
                assert(strings_view(out@) + Seq::<Seq<char>>::empty() =~= strings_view(out@));
                return out;
            },
            Some(data) => {
                let ghost collected = strings_view(out@);
                if !data.as_str().is_empty() {
                    out.push(data);
                    proof {
                        assert(strings_view(out@) =~= collected.push(data@));
                        let rest = drained(buffer@, sse);
                        assert(collected.push(data@) + rest.0 =~= collected + (seq![data@] + rest.0));
                        assert(data@.len() > 0);
                    }
                } else {
                    proof {
                        assert(data@.len() == 0);
                    }
                }
            },
        }
    }
}


// ---------------------------------------------------------------- the reply loop

/// Every provider but Ollama streams server-sent events.
pub fn uses_event_stream(provider: ProviderId) -> (r: bool)
    ensures
        r == (provider != ProviderId::Ollama),
{
    provider != ProviderId::Ollama
}

pub open spec fn no_first_response(secs: u64) -> DiagnosticView {
    diag(
        "REQUEST_TIMEOUT"@,
        "El modelo no empezó a responder"@,
        "No llegó ninguna respuesta dentro de los "@ + decimal(secs as nat) + " segundos configurados."@,
        "El modelo puede estar cargándose, ocupado o desconectado."@,
        "Vuelve a intentarlo; si sucede de nuevo, aumenta el timeout de inicio en Proveedores."@,
        true,
    )
}

/// The report when no reply starts within `secs` seconds.
pub fn no_first_response_error(secs: u64) -> (r: Diagnostic)
    ensures
        r@ == no_first_response(secs),
{
    let mut explanation = chars_of("No llegó ninguna respuesta dentro de los ");
    extend(&mut explanation, &decimal_exec(secs));
    extend(&mut explanation, &chars_of(" segundos configurados."));
    let explanation = string_of(&explanation);
    Diagnostic::new(
        "REQUEST_TIMEOUT",
        "El modelo no empezó a responder",
        explanation.as_str(),
        "El modelo puede estar cargándose, ocupado o desconectado.",
        "Vuelve a intentarlo; si sucede de nuevo, aumenta el timeout de inicio en Proveedores.",
        true,
    )
}

pub open spec fn reply_too_long() -> DiagnosticView {
    diag(
        "RESPONSE_TIMEOUT"@,
        "La generación alcanzó el límite"@,
        "La respuesta superó la duración máxima configurada."@,
        "El modelo tardó demasiado en finalizar."@,
        "Aumenta el límite o pide una respuesta más corta."@,
        true,
    )
}

/// The report when a reply outlasts the configured maximum.
pub fn reply_too_long_error() -> (r: Diagnostic)
    ensures
        r@ == reply_too_long(),
{
    Diagnostic::new(
        "RESPONSE_TIMEOUT",
        "La generación alcanzó el límite",
        "La respuesta superó la duración máxima configurada.",
        "El modelo tardó demasiado en finalizar.",
        "Aumenta el límite o pide una respuesta más corta.",
        true,
    )
}

pub open spec fn stream_stalled() -> DiagnosticView {
    diag(
        "RESPONSE_TIMEOUT"@,
        "El flujo dejó de responder"@,
        "No llegaron datos durante el tiempo de inactividad permitido."@,
        "La conexión o el modelo se quedó bloqueado."@,
        "Vuelve a intentar la respuesta."@,
        true,
    )
}

/// The report when a stream stays silent for longer than allowed.
pub fn stream_stalled_error() -> (r: Diagnostic)
    ensures
        r@ == stream_stalled(),
{
    Diagnostic::new(
        "RESPONSE_TIMEOUT",
        "El flujo dejó de responder",
        "No llegaron datos durante el tiempo de inactividad permitido.",
        "La conexión o el modelo se quedó bloqueado.",
        "Vuelve a intentar la respuesta.",
        true,
    )
}

// ---------------------------------------------------------------- NVIDIA pending replies

/// The headers that may carry the id of a pending NVIDIA request, in the
/// order they are consulted.
pub open spec fn request_id_header_names() -> Seq<Seq<char>> {
    seq!["nvcf-reqid"@, "nvcf-request-id"@, "x-nvcf-request-id"@, "request-id"@]
}

pub fn request_id_headers() -> (r: Vec<&'static str>)
    ensures
        r@.map_values(|s: &'static str| s@) == request_id_header_names(),
{
    let r = vec!["nvcf-reqid", "nvcf-request-id", "x-nvcf-request-id", "request-id"];
    assert(r@.map_values(|s: &'static str| s@) =~= request_id_header_names());
    r
}

/// The ids in the JSON body of a pending reply: `request_id_camel`
/// (`requestId`) is `Some(None)` where that key holds something other than a
/// string; `request_id_snake` (`request_id`) is kept where it is a string.
#[derive(Clone, Debug)]
pub struct PendingIds {
    pub request_id_camel: Option<Option<String>>,
    pub request_id_snake: Option<String>,
}

/// The first header value that is present and readable as text.
pub open spec fn first_header(values: Seq<Option<String>>) -> Option<Seq<char>>
    decreases values.len(),
{
    if values.len() == 0 {
        None
    } else {
        match values[0] {
            Some(v) => Some(v@),
            None => first_header(values.drop_first()),
        }
    }
}

/// The id in a body: `requestId` where that key is present, else
/// `request_id`.
pub open spec fn body_request_id(ids: Option<PendingIds>) -> Option<Seq<char>> {
    match ids {
        None => None,
        Some(i) => match i.request_id_camel {
            Some(Some(v)) => Some(v@),
            Some(None) => None,
            None => match i.request_id_snake {
                Some(v) => Some(v@),
                None => None,
            },
        },
    }
}

pub open spec fn pending_without_id() -> DiagnosticView {
    diag(
        "REQUEST_PENDING"@,
        "NVIDIA está preparando la respuesta"@,
        "NVIDIA aceptó la solicitud, pero no entregó un identificador para consultar el resultado."@,
        "El proveedor respondió con un estado pendiente incompleto."@,
        "Vuelve a intentarlo; Vareliox no mostrará una respuesta vacía como si hubiera terminado."@,
        true,
    )
}

/// The id under which a pending NVIDIA request is polled: from the headers
/// (`headers` holds the value of each of `request_id_headers`, where present
/// and readable), else from the JSON body (`ids`, `None` when the body is not
/// JSON); without one, the report carries the raw `body`.
pub fn nvidia_request_id(headers: &Vec<Option<String>>, ids: &Option<PendingIds>, body: &str) -> (r:
    Result<String, Diagnostic>)
    ensures
        match first_header(headers@) {
            Some(h) => r matches Ok(id) && id@ == h,
            None => match body_request_id(*ids) {
                Some(b) => r matches Ok(id) && id@ == b,
                None => r matches Err(d) && d@ == (DiagnosticView {
                    technical: Some(body@),
                    ..pending_without_id()
                }),
            },
        },
{
    let mut i: usize = 0;
    assert(headers@.skip(0) =~= headers@);
    while i < headers.len()
        invariant
            i <= headers.len(),
            first_header(headers@) == first_header(headers@.skip(i as int)),
        decreases headers.len() - i,
    {
        assert(headers@.skip(i as int).drop_first() =~= headers@.skip(i + 1));
        assert(headers@.skip(i as int)[0] == headers@[i as int]);
        if let Some(v) = &headers[i] {
            return Ok(v.clone());
        }
        i += 1;
    }
    let from_body = match ids {
        None => None,
        Some(found) => match &found.request_id_camel {
            Some(Some(v)) => Some(v.clone()),
            Some(None) => None,
            None => match &found.request_id_snake {
                Some(v) => Some(v.clone()),
                None => None,
            },
        },
    };
    match from_body {
        Some(id) => Ok(id),
        None => Err(
            Diagnostic::new(
                "REQUEST_PENDING",
                "NVIDIA está preparando la respuesta",
                "NVIDIA aceptó la solicitud, pero no entregó un identificador para consultar el resultado.",
                "El proveedor respondió con un estado pendiente incompleto.",
                "Vuelve a intentarlo; Vareliox no mostrará una respuesta vacía como si hubiera terminado.",
                true,
            ).technical(body),
        ),
    }
}

/// What a poll of a pending NVIDIA request answered.
#[derive(Clone, Copy, Debug, PartialEq, Eq, Structural)]
pub enum PollStep {
    /// 202: still pending, ask again later.
    Wait,
    /// Any other 2xx: the result is ready.
    Ready,
    /// Anything else: the request failed.
    Failed,
}

pub open spec fn poll_step_spec(status: u16) -> PollStep {
    if status == 202 {
        PollStep::Wait
    } else if 200 <= status <= 299 {
        PollStep::Ready
    } else {
        PollStep::Failed
    }
}

/// What the HTTP status of a poll means (see `poll_step_spec`).
pub fn poll_step(status: u16) -> (r: PollStep)
    ensures
        r == poll_step_spec(status),
{
    if status == 202 {
        PollStep::Wait
    } else if 200 <= status && status <= 299 {
        PollStep::Ready
    } else {
        PollStep::Failed
    }
}

pub open spec fn pending_too_long() -> DiagnosticView {
    diag(
        "RESPONSE_TIMEOUT"@,
        "NVIDIA tardó demasiado en preparar la respuesta"@,
        "La solicitud siguió pendiente más allá del límite configurado."@,
        "El proveedor está ocupado o el modelo tarda demasiado en iniciarse."@,
        "Vuelve a intentarlo o selecciona otro modelo de NVIDIA."@,
        true,
    )
}

/// The report when a pending NVIDIA request outlasts the configured maximum.
pub fn pending_too_long_error() -> (r: Diagnostic)
    ensures
        r@ == pending_too_long(),
{
    Diagnostic::new(
        "RESPONSE_TIMEOUT",
        "NVIDIA tardó demasiado en preparar la respuesta",
        "La solicitud siguió pendiente más allá del límite configurado.",
        "El proveedor está ocupado o el modelo tarda demasiado en iniciarse.",
        "Vuelve a intentarlo o selecciona otro modelo de NVIDIA.",
        true,
    )
}

} // verus!
