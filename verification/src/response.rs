//! The response builder: renders a handler's typed return value into a
//! wire response. Fixed bodies are written in full, JSON bodies are
//! serialized with the matching content type, and stream bodies are driven
//! chunk by chunk through a pull-based cursor - one flush per chunk, never
//! buffered into one, and a producer failure closes the connection without
//! a fabricated trailing success marker.

use vstd::prelude::*;
use crate::text;

verus! {

/// A scalar JSON value.
pub enum JsonScalar {
    Null,
    Bool(bool),
    Int(i64),
    Str(Vec<u8>),
}

/// A flat JSON object: named scalar fields in order.
pub struct JsonObject {
    pub fields: Vec<(Vec<u8>, JsonScalar)>,
}

/// The escape of one byte inside a JSON string: quote, backslash, newline,
/// carriage return and tab are escaped, everything else passes through.
pub open spec fn esc_byte(b: u8) -> Seq<u8> {
    if b == 34 {
        seq![92u8, 34u8]
    } else if b == 92 {
        seq![92u8, 92u8]
    } else if b == 10 {
        seq![92u8, 110u8]
    } else if b == 13 {
        seq![92u8, 114u8]
    } else if b == 9 {
        seq![92u8, 116u8]
    } else {
        seq![b]
    }
}

/// A byte string escaped for inclusion in a JSON string literal.
pub open spec fn json_escaped(s: Seq<u8>) -> Seq<u8>
    decreases s.len(),
{
    if s.len() == 0 {
        Seq::<u8>::empty()
    } else {
        json_escaped(s.drop_last()) + esc_byte(s.last())
    }
}

pub open spec fn lit_null() -> Seq<u8> {
    seq!['n' as u8, 'u' as u8, 'l' as u8, 'l' as u8]
}

pub open spec fn lit_true() -> Seq<u8> {
    seq!['t' as u8, 'r' as u8, 'u' as u8, 'e' as u8]
}

pub open spec fn lit_false() -> Seq<u8> {
    seq!['f' as u8, 'a' as u8, 'l' as u8, 's' as u8, 'e' as u8]
}

/// The serialized text of one scalar.
pub open spec fn scalar_text(v: JsonScalar) -> Seq<u8> {
    match v {
        JsonScalar::Null => lit_null(),
        JsonScalar::Bool(b) => if b {
            lit_true()
        } else {
            lit_false()
        },
        JsonScalar::Int(n) => text::signed_dec_digits(n as int),
        JsonScalar::Str(s) => seq![34u8] + json_escaped(s@) + seq![34u8],
    }
}

/// The serialized text of one `"name":value` field.
pub open spec fn field_text(f: (Vec<u8>, JsonScalar)) -> Seq<u8> {
    seq![34u8] + json_escaped(f.0@) + seq![34u8, 58u8] + scalar_text(f.1)
}

/// The comma-joined serialized fields.
pub open spec fn fields_text(fs: Seq<(Vec<u8>, JsonScalar)>) -> Seq<u8>
    decreases fs.len(),
{
    if fs.len() == 0 {
        Seq::<u8>::empty()
    } else if fs.len() == 1 {
        field_text(fs[0])
    } else {
        fields_text(fs.drop_last()) + seq![44u8] + field_text(fs.last())
    }
}

/// The full serialized object, braces included.
pub open spec fn object_text(o: JsonObject) -> Seq<u8> {
    seq![123u8] + fields_text(o.fields@) + seq![125u8]
}

/// Escaping changes nothing in a string free of the escaped bytes.
pub proof fn lemma_escape_plain(s: Seq<u8>)
    requires
        forall|i: int|
            0 <= i < s.len() ==> !(s[i] == 34 || s[i] == 92 || s[i] == 10 || s[i] == 13 || s[i]
                == 9),
    ensures
        json_escaped(s) == s,
    decreases s.len(),
{
    if s.len() == 0 {
        assert(json_escaped(s) =~= s);
    } else {
        lemma_escape_plain(s.drop_last());
        assert(esc_byte(s.last()) =~= seq![s.last()]);
        assert(json_escaped(s) =~= s);
    }
}

/// Escapes a byte string for inclusion in a JSON string literal.
fn escape_json(s: &[u8]) -> (r: Vec<u8>)
    ensures
        r@ == json_escaped(s@),
{
    let mut out: Vec<u8> = Vec::new();
    proof {
        assert(out@ =~= json_escaped(s@.take(0)));
    }
    let mut i: usize = 0;
    while i < s.len()
        invariant
            0 <= i <= s@.len(),
            out@ == json_escaped(s@.take(i as int)),
        decreases s@.len() - i,
    {
        proof {
            assert(s@.take(i + 1).drop_last() =~= s@.take(i as int));
            assert(s@.take(i + 1).last() == s@[i as int]);
        }
        let b = s[i];
        if b == 34 {
            out.push(92);
            out.push(34);
        } else if b == 92 {
            out.push(92);
            out.push(92);
        } else if b == 10 {
            out.push(92);
            out.push(110);
        } else if b == 13 {
            out.push(92);
            out.push(114);
        } else if b == 9 {
            out.push(92);
            out.push(116);
        } else {
            out.push(b);
        }
        proof {
            assert(out@ =~= json_escaped(s@.take(i + 1)));
        }
        i = i + 1;
    }
    proof {
        assert(s@.take(i as int) =~= s@);
    }
    out
}

/// Serializes one scalar.
fn render_scalar(v: &JsonScalar) -> (r: Vec<u8>)
    ensures
        r@ == scalar_text(*v),
{
    match v {
        JsonScalar::Null => {
            let mut out: Vec<u8> = Vec::new();
            out.push('n' as u8);
            out.push('u' as u8);
            out.push('l' as u8);
            out.push('l' as u8);
            proof {
                assert(out@ =~= lit_null());
            }
            out
        },
        JsonScalar::Bool(b) => {
            let mut out: Vec<u8> = Vec::new();
            if *b {
                out.push('t' as u8);
                out.push('r' as u8);
                out.push('u' as u8);
                out.push('e' as u8);
                proof {
                    assert(out@ =~= lit_true());
                }
            } else {
                out.push('f' as u8);
                out.push('a' as u8);
                out.push('l' as u8);
                out.push('s' as u8);
                out.push('e' as u8);
                proof {
                    assert(out@ =~= lit_false());
                }
            }
            out
        },
        JsonScalar::Int(n) => text::i64_to_dec(*n),
        JsonScalar::Str(s) => {
            let mut out: Vec<u8> = Vec::new();
            out.push(34);
            let esc = escape_json(s.as_slice());
            text::append_bytes(&mut out, esc.as_slice());
            out.push(34);
            proof {
                assert(out@ =~= scalar_text(JsonScalar::Str(*s)));
            }
            out
        },
    }
}

/// Serializes a whole object, braces included.
pub fn render_object(o: &JsonObject) -> (r: Vec<u8>)
    ensures
        r@ == object_text(*o),
{
    let mut out: Vec<u8> = Vec::new();
    out.push(123);
    proof {
        assert(out@ =~= seq![123u8] + fields_text(o.fields@.take(0)));
    }
    let mut i: usize = 0;
    while i < o.fields.len()
        invariant
            0 <= i <= o.fields@.len(),
            out@ == seq![123u8] + fields_text(o.fields@.take(i as int)),
        decreases o.fields@.len() - i,
    {
        proof {
            assert(o.fields@.take(i + 1).drop_last() =~= o.fields@.take(i as int));
            assert(o.fields@.take(i + 1).last() == o.fields@[i as int]);
        }
        if i > 0 {
            out.push(44);
        }
        out.push(34);
        let name_esc = escape_json(o.fields[i].0.as_slice());
        text::append_bytes(&mut out, name_esc.as_slice());
        out.push(34);
        out.push(58);
        let val = render_scalar(&o.fields[i].1);
        text::append_bytes(&mut out, val.as_slice());
        proof {
            assert(out@ =~= seq![123u8] + fields_text(o.fields@.take(i + 1)));
        }
        i = i + 1;
    }
    out.push(125);
    proof {
        assert(o.fields@.take(i as int) =~= o.fields@);
        assert(out@ =~= object_text(*o));
    }
    out
}

/// One pull from a stream cursor.
pub enum StreamStep {
    Chunk(Vec<u8>),
    Done,
    Failed,
}

/// A cursor over a fixed list of chunks; `fail_after` models a producer
/// that errors once that many chunks have been handed out.
pub struct ChunkCursor {
    pub chunks: Vec<Vec<u8>>,
    pub pos: usize,
    pub fail_after: Option<usize>,
}

/// A lazily produced countdown, one `data: <n>` event per step, counting
/// down to one. Each chunk is built only when pulled.
pub struct CountdownCursor {
    pub current: u32,
}

/// A lazy, non-restartable sequence of body chunks.
pub enum StreamBody {
    Chunks(ChunkCursor),
    Countdown(CountdownCursor),
}

/// Cursor sanity: the position never passes the end, nor the failure
/// point.
pub open spec fn wf_stream(s: StreamBody) -> bool {
    match s {
        StreamBody::Chunks(c) => {
            &&& c.pos <= c.chunks@.len()
            &&& match c.fail_after {
                Some(f) => c.pos <= f <= c.chunks@.len(),
                None => true,
            }
        },
        StreamBody::Countdown(_) => true,
    }
}

/// The prefix of `data: ` in a countdown event.
pub open spec fn data_prefix() -> Seq<u8> {
    seq!['d' as u8, 'a' as u8, 't' as u8, 'a' as u8, ':' as u8, ' ' as u8]
}

/// One countdown event: `data: <n>` and a blank line.
pub open spec fn countdown_chunk(n: nat) -> Seq<u8> {
    data_prefix() + text::dec_digits(n) + seq![10u8, 10u8]
}

/// The events a countdown still owes: `n`, `n - 1`, ... down to `1`.
pub open spec fn countdown_chunks(n: nat) -> Seq<Seq<u8>>
    decreases n,
{
    if n == 0 {
        Seq::<Seq<u8>>::empty()
    } else {
        seq![countdown_chunk(n)] + countdown_chunks((n - 1) as nat)
    }
}

/// The chunks a stream will still deliver before completing or failing.
pub open spec fn stream_chunks(s: StreamBody) -> Seq<Seq<u8>> {
    match s {
        StreamBody::Chunks(c) => match c.fail_after {
            Some(f) => text::views_of(c.chunks@).subrange(c.pos as int, f as int),
            None => text::views_of(c.chunks@).subrange(c.pos as int, c.chunks@.len() as int),
        },
        StreamBody::Countdown(c) => countdown_chunks(c.current as nat),
    }
}

/// Whether the stream ends in a producer failure instead of completion.
pub open spec fn stream_fails(s: StreamBody) -> bool {
    match s {
        StreamBody::Chunks(c) => c.fail_after is Some,
        StreamBody::Countdown(_) => false,
    }
}

/// Builds one countdown event.
fn countdown_event(n: u32) -> (r: Vec<u8>)
    ensures
        r@ == countdown_chunk(n as nat),
{
    let mut out: Vec<u8> = Vec::new();
    out.push('d' as u8);
    out.push('a' as u8);
    out.push('t' as u8);
    out.push('a' as u8);
    out.push(':' as u8);
    out.push(' ' as u8);
    proof {
        assert(out@ =~= data_prefix());
    }
    let digits = text::u64_to_dec(n as u64);
    text::append_bytes(&mut out, digits.as_slice());
    out.push(10);
    out.push(10);
    proof {
        assert(out@ =~= countdown_chunk(n as nat));
    }
    out
}

/// Pulls the next step from a stream: the head chunk, completion, or the
/// producer's failure. Pulling advances the cursor; streams never restart.
pub fn stream_next(s: &mut StreamBody) -> (r: StreamStep)
    requires
        wf_stream(*old(s)),
    ensures
        wf_stream(*final(s)),
        stream_fails(*final(s)) == stream_fails(*old(s)),
        match r {
            StreamStep::Chunk(c) => {
                &&& stream_chunks(*old(s)).len() > 0
                &&& c@ == stream_chunks(*old(s))[0]
                &&& stream_chunks(*final(s)) == stream_chunks(*old(s)).drop_first()
            },
            StreamStep::Done => {
                &&& stream_chunks(*old(s)).len() == 0
                &&& !stream_fails(*old(s))
                &&& stream_chunks(*final(s)).len() == 0
            },
            StreamStep::Failed => {
                &&& stream_chunks(*old(s)).len() == 0
                &&& stream_fails(*old(s))
                &&& stream_chunks(*final(s)).len() == 0
            },
        },
{
    match s {
        StreamBody::Chunks(c) => {
            let end = match c.fail_after {
                Some(f) => f,
                None => c.chunks.len(),
            };
            if c.pos < end {
                let chunk = c.chunks[c.pos].clone();
                proof {
                    assert(chunk@ == text::views_of(c.chunks@)[c.pos as int]);
                }
                c.pos = c.pos + 1;
                proof {
                    assert(stream_chunks(*s) =~= stream_chunks(*old(s)).drop_first());
                }
                StreamStep::Chunk(chunk)
            } else {
                match c.fail_after {
                    Some(_) => StreamStep::Failed,
                    None => StreamStep::Done,
                }
            }
        },
        StreamBody::Countdown(c) => {
            if c.current == 0 {
                StreamStep::Done
            } else {
                let n = c.current;
                let chunk = countdown_event(n);
                c.current = n - 1;
                proof {
                    assert(countdown_chunks(n as nat)[0] == countdown_chunk(n as nat));
                    assert(countdown_chunks(n as nat).drop_first() =~= countdown_chunks(
                        (n - 1) as nat,
                    ));
                }
                StreamStep::Chunk(chunk)
            }
        },
    }
}

/// The transport side of streaming: an ordered record of flush events,
/// and whether the connection was closed early. A closed writer accepts
/// no further flushes, so a producer is never pulled past a failure or a
/// cancelled connection.
pub struct ResponseWriter {
    pub flushes: Vec<Vec<u8>>,
    pub closed: bool,
}

impl ResponseWriter {
    pub fn new() -> (r: ResponseWriter)
        ensures
            r.flushes@.len() == 0,
            !r.closed,
    {
        ResponseWriter { flushes: Vec::new(), closed: false }
    }

    /// Records one flush event.
    pub fn flush(&mut self, chunk: Vec<u8>)
        requires
            !old(self).closed,
        ensures
            final(self).flushes@ == old(self).flushes@.push(chunk),
            !final(self).closed,
    {
        self.flushes.push(chunk);
    }

    /// Closes the connection; no trailing event is fabricated.
    pub fn close(&mut self)
        ensures
            final(self).flushes@ == old(self).flushes@,
            final(self).closed,
    {
        self.closed = true;
    }
}

/// One back-pressure step: pull at most one chunk and flush it before any
/// further pull. A closed writer (the client went away) stops the
/// producer immediately. Returns true when driving is over.
pub fn pump_stream(s: &mut StreamBody, w: &mut ResponseWriter) -> (done: bool)
    requires
        wf_stream(*old(s)),
    ensures
        wf_stream(*final(s)),
        stream_fails(*final(s)) == stream_fails(*old(s)),
        old(w).closed ==> done && *final(s) == *old(s) && *final(w) == *old(w),
        !old(w).closed ==> {
            if stream_chunks(*old(s)).len() > 0 {
                &&& !done
                &&& text::views_of(final(w).flushes@) == text::views_of(old(w).flushes@).push(
                    stream_chunks(*old(s))[0],
                )
                &&& stream_chunks(*final(s)) == stream_chunks(*old(s)).drop_first()
                &&& !final(w).closed
            } else {
                &&& done
                &&& final(w).flushes@ == old(w).flushes@
                &&& stream_chunks(*final(s)).len() == 0
                &&& final(w).closed == stream_fails(*old(s))
            }
        },
{
    if w.closed {
        return true;
    }
    match stream_next(s) {
        StreamStep::Chunk(c) => {
            w.flush(c);
            proof {
                assert(text::views_of(w.flushes@) =~= text::views_of(old(w).flushes@).push(
                    stream_chunks(*old(s))[0],
                ));
            }
            false
        },
        StreamStep::Done => true,
        StreamStep::Failed => {
            w.close();
            true
        },
    }
}

/// Drives a stream to its end: every pending chunk becomes one distinct
/// flush event, in order; a producer failure closes the connection
/// instead of completing it.
pub fn run_stream(s: StreamBody, w: &mut ResponseWriter)
    requires
        wf_stream(s),
        !old(w).closed,
    ensures
        text::views_of(final(w).flushes@) == text::views_of(old(w).flushes@) + stream_chunks(s),
        final(w).closed == stream_fails(s),
{
    let mut cur = s;
    loop
        invariant
            wf_stream(cur),
            !w.closed,
            stream_fails(cur) == stream_fails(s),
            text::views_of(w.flushes@) + stream_chunks(cur) == text::views_of(old(w).flushes@)
                + stream_chunks(s),
        decreases stream_chunks(cur).len(),
    {
        let ghost before = stream_chunks(cur);
        let ghost fl = text::views_of(w.flushes@);
        match stream_next(&mut cur) {
            StreamStep::Chunk(c) => {
                w.flush(c);
                proof {
                    assert(text::views_of(w.flushes@) =~= fl.push(before[0]));
                    assert(fl.push(before[0]) + stream_chunks(cur) =~= fl + before);
                }
            },
            StreamStep::Done => {
                proof {
                    assert(text::views_of(w.flushes@) =~= text::views_of(old(w).flushes@)
                        + stream_chunks(s));
                }
                return ;
            },
            StreamStep::Failed => {
                w.close();
                proof {
                    assert(text::views_of(w.flushes@) =~= text::views_of(old(w).flushes@)
                        + stream_chunks(s));
                }
                return ;
            },
        }
    }
}

/// A handler's strongly typed return value: a status, headers, and one of
/// the three body disciplines.
pub enum BodyKind {
    Fixed(Vec<u8>),
    Json(JsonObject),
    Stream(StreamBody),
}

pub struct ResponseSpec {
    pub status: u16,
    pub headers: Vec<(Vec<u8>, Vec<u8>)>,
    pub body: BodyKind,
}

/// A built wire response: status, headers, the ordered flush events that
/// make up the body, and whether the body ran to completion (false only
/// when a stream producer failed mid-flush).
pub struct WireResponse {
    pub status: u16,
    pub headers: Vec<(Vec<u8>, Vec<u8>)>,
    pub flushes: Vec<Vec<u8>>,
    pub completed: bool,
}

pub open spec fn header_name_content_type() -> Seq<u8> {
    seq![
        'c' as u8,
        'o' as u8,
        'n' as u8,
        't' as u8,
        'e' as u8,
        'n' as u8,
        't' as u8,
        '-' as u8,
        't' as u8,
        'y' as u8,
        'p' as u8,
        'e' as u8,
    ]
}

pub open spec fn mime_json() -> Seq<u8> {
    seq![
        'a' as u8,
        'p' as u8,
        'p' as u8,
        'l' as u8,
        'i' as u8,
        'c' as u8,
        'a' as u8,
        't' as u8,
        'i' as u8,
        'o' as u8,
        'n' as u8,
        '/' as u8,
        'j' as u8,
        's' as u8,
        'o' as u8,
        'n' as u8,
    ]
}

/// Whether a stream body would end in a producer failure.
pub open spec fn body_fails(b: BodyKind) -> bool {
    match b {
        BodyKind::Stream(s) => stream_fails(s),
        _ => false,
    }
}

/// The flush events a built response carries for each body discipline:
/// a fixed body in one flush, a JSON body serialized in one flush, a
/// stream one flush per chunk.
pub open spec fn built_flushes(b: BodyKind) -> Seq<Seq<u8>> {
    match b {
        BodyKind::Fixed(v) => seq![v@],
        BodyKind::Json(o) => seq![object_text(o)],
        BodyKind::Stream(s) => stream_chunks(s),
    }
}

/// The headers a built response carries: as given, with the JSON content
/// type appended for a JSON body.
pub open spec fn built_headers(
    headers: Seq<(Seq<u8>, Seq<u8>)>,
    b: BodyKind,
) -> Seq<(Seq<u8>, Seq<u8>)> {
    match b {
        BodyKind::Json(_) => headers.push((header_name_content_type(), mime_json())),
        _ => headers,
    }
}

fn content_type_json_header() -> (r: (Vec<u8>, Vec<u8>))
    ensures
        r.0@ == header_name_content_type(),
        r.1@ == mime_json(),
{
    let mut n: Vec<u8> = Vec::new();
    n.push('c' as u8);
    n.push('o' as u8);
    n.push('n' as u8);
    n.push('t' as u8);
    n.push('e' as u8);
    n.push('n' as u8);
    n.push('t' as u8);
    n.push('-' as u8);
    n.push('t' as u8);
    n.push('y' as u8);
    n.push('p' as u8);
    n.push('e' as u8);
    let mut v: Vec<u8> = Vec::new();
    v.push('a' as u8);
    v.push('p' as u8);
    v.push('p' as u8);
    v.push('l' as u8);
    v.push('i' as u8);
    v.push('c' as u8);
    v.push('a' as u8);
    v.push('t' as u8);
    v.push('i' as u8);
    v.push('o' as u8);
    v.push('n' as u8);
    v.push('/' as u8);
    v.push('j' as u8);
    v.push('s' as u8);
    v.push('o' as u8);
    v.push('n' as u8);
    proof {
        assert(n@ =~= header_name_content_type());
        assert(v@ =~= mime_json());
    }
    (n, v)
}

/// Renders a response specification into a wire response: the fixed or
/// serialized body as one flush, a stream driven to one flush per chunk.
pub fn build_response(response: ResponseSpec) -> (r: WireResponse)
    requires
        match response.body {
            BodyKind::Stream(s) => wf_stream(s),
            _ => true,
        },
    ensures
        r.status == response.status,
        text::pair_views(r.headers@) == built_headers(
            text::pair_views(response.headers@),
            response.body,
        ),
        text::views_of(r.flushes@) == built_flushes(response.body),
        r.completed == !body_fails(response.body),
{
    let ResponseSpec { status, mut headers, body } = response;
    match body {
        BodyKind::Fixed(v) => {
            let mut flushes: Vec<Vec<u8>> = Vec::new();
            flushes.push(v);
            proof {
                assert(text::views_of(flushes@) =~= built_flushes(response.body));
            }
            WireResponse { status, headers, flushes, completed: true }
        },
        BodyKind::Json(o) => {
            let rendered = render_object(&o);
            let ct = content_type_json_header();
            headers.push(ct);
            let mut flushes: Vec<Vec<u8>> = Vec::new();
            flushes.push(rendered);
            proof {
                assert(text::views_of(flushes@) =~= built_flushes(response.body));
                assert(text::pair_views(headers@) =~= built_headers(
                    text::pair_views(response.headers@),
                    response.body,
                ));
            }
            WireResponse { status, headers, flushes, completed: true }
        },
        BodyKind::Stream(s) => {
            let mut w = ResponseWriter::new();
            run_stream(s, &mut w);
            proof {
                assert(text::views_of(w.flushes@) =~= built_flushes(response.body));
            }
            let completed = !w.closed;
            WireResponse { status, headers, flushes: w.flushes, completed }
        },
    }
}

/// Streaming round trip: driving a fresh chunk cursor with no failure
/// point delivers exactly the producer's chunks, one flush event each, in
/// order, and the response body - the concatenation of the flush events -
/// equals the concatenation of the chunks; the connection completes.
pub proof fn lemma_stream_round_trip(chunks: Vec<Vec<u8>>, w0: ResponseWriter, w1: ResponseWriter)
    requires
        w0.flushes@.len() == 0,
        !w0.closed,
        text::views_of(w1.flushes@) == text::views_of(w0.flushes@) + stream_chunks(
            StreamBody::Chunks(ChunkCursor { chunks, pos: 0, fail_after: None }),
        ),
        w1.closed == stream_fails(
            StreamBody::Chunks(ChunkCursor { chunks, pos: 0, fail_after: None }),
        ),
    ensures
        text::views_of(w1.flushes@) == text::views_of(chunks@),
        w1.flushes@.len() == chunks@.len(),
        text::views_of(w1.flushes@).flatten() == text::views_of(chunks@).flatten(),
        !w1.closed,
{
    assert(text::views_of(w1.flushes@) =~= text::views_of(chunks@));
}

} // verus!
