//! One step of the session per frame: decode, dispatch and frame the
//! answer. Waiting out the simulated delay and the I/O belong to the caller.

use vstd::prelude::*;
use crate::dispatch::{answers, delay_of, dispatch};
use crate::frame::{
    frame_of, framed, lemma_malformed_header, lemma_truncated_body, line_end, push_all, read_frame,
    second_token, with_length, write_frame_bytes, FramingError,
};
use crate::json::{json_parse, json_text};
use crate::message::{
    decode, describes, envelope, encode, has_message_shape, DecodeError, InboundMessage,
    Malformation, OutboundMessage,
};

verus! {

/// What the session does with one frame's payload.
pub enum Action {
    /// The payload is no message: it is dropped and the session goes on.
    Skip(DecodeError),
    /// Wait `delay_ms` milliseconds, then send `frame` if there is one.
    Reply { delay_ms: u64, frame: Option<Vec<u8>> },
}

/// `frame` is what the session sends for the answer `out`: nothing where
/// there is no answer, else the frame of the answer's JSON text.
pub open spec fn sends(out: Option<OutboundMessage>, frame: Option<Vec<u8>>) -> bool {
    match out {
        None => frame.is_none(),
        Some(o) => frame matches Some(f) && exists|v: serde_json::Value|
            envelope(&o, v) && f@ == framed(json_text(v)),
    }
}

/// What handling a message decoded from `v` must do.
pub open spec fn handles(v: serde_json::Value, a: Action) -> bool {
    if has_message_shape(v) {
        exists|msg: InboundMessage, out: Option<OutboundMessage>|
            describes(v, msg) && answers(msg, out) && (a matches Action::Reply { delay_ms, frame }
                && delay_ms == delay_of(msg.method_view()) && sends(out, frame))
    } else {
        a == Action::Skip(DecodeError::Malformed(Malformation::NotAMessage))
    }
}

/// What handling the payload `b` must do.
pub open spec fn payload_action(b: Seq<u8>, a: Action) -> bool {
    match json_parse(b) {
        None => a == Action::Skip(DecodeError::Malformed(Malformation::InvalidJson)),
        Some(v) => handles(v, a),
    }
}

/// The bytes that the action `a` sends.
pub open spec fn sent_bytes(a: Action) -> Seq<u8> {
    match a {
        Action::Reply { frame: Some(f), .. } => f@,
        _ => Seq::empty(),
    }
}

/// `out` is what the session sends for the whole input `s`: for each frame,
/// in order, what handling its payload sends, and nothing from the first
/// framing error on.
pub open spec fn session_output(s: Seq<u8>, out: Seq<u8>) -> bool
    decreases s.len(),
{
    match frame_of(s) {
        Err(_) => out.len() == 0,
        Ok((b, k)) => if 0 < k <= s.len() {
            exists|i: int, a: Action|
                #![trigger payload_action(b, a), out.subrange(0, i)]
                0 <= i <= out.len() && payload_action(b, a) && out.subrange(0, i)
                    == sent_bytes(a) && session_output(
                    s.subrange(k, s.len() as int),
                    out.subrange(i, out.len() as int),
                )
        } else {
            out.len() == 0
        },
    }
}

/// Handles one frame's payload.
pub fn handle_payload(body: &[u8]) -> (a: Action)
    ensures
        payload_action(body@, a),
{
    match decode(body) {
        Err(e) => Action::Skip(e),
        Ok(msg) => {
            let delay_ms = msg.time();
            let out = dispatch(&msg);
            let frame = match &out {
                Some(o) => Some(write_frame_bytes(encode(o).as_slice())),
                None => None,
            };
            assert(sends(out, frame));
            Action::Reply { delay_ms, frame }
        },
    }
}

/// Why a session over the whole input `s` stops: the framing error met
/// after the last complete frame.
pub open spec fn stop_reason(s: Seq<u8>) -> FramingError
    decreases s.len(),
{
    match frame_of(s) {
        Err(e) => e,
        Ok((_, k)) => if 0 < k <= s.len() {
            stop_reason(s.subrange(k, s.len() as int))
        } else {
            FramingError::EndOfStream
        },
    }
}

/// Runs the session over a whole input without waiting out the delays: the
/// frames sent, one after another, and the framing error that ended it. A
/// session whose first frame is broken sends nothing.
pub fn respond_all(input: &[u8]) -> (r: (Vec<u8>, FramingError))
    ensures
        r.1 == stop_reason(input@),
        session_output(input@, r.0@),
        frame_of(input@) is Err ==> r.0@.len() == 0,
{
    let mut out: Vec<u8> = Vec::new();
    let mut pos: usize = 0;
    assert(input@.subrange(0, input@.len() as int) =~= input@);
    loop
        invariant
            pos <= input@.len(),
            stop_reason(input@.subrange(pos as int, input@.len() as int)) == stop_reason(input@),
            pos == 0 ==> out@.len() == 0,
            pos > 0 ==> frame_of(input@) is Ok,
            forall|rest_out: Seq<u8>|
                session_output(input@.subrange(pos as int, input@.len() as int), rest_out)
                    ==> session_output(input@, out@ + rest_out),
        decreases input@.len() - pos,
    {
        let rest = vstd::slice::slice_subrange(input, pos, input.len());
        match read_frame(rest) {
            Err(e) => {
                if pos == 0 {
                    assert(input@.subrange(0, input@.len() as int) =~= input@);
                }
                assert(session_output(rest@, Seq::<u8>::empty()));
                assert(out@ + Seq::<u8>::empty() =~= out@);
                return (out, e);
            },
            Ok((body, consumed)) => {
                assert(0 < consumed <= rest@.len());
                if pos == 0 {
                    assert(input@.subrange(0, input@.len() as int) =~= input@);
                }
                assert(rest@.subrange(consumed as int, rest@.len() as int) =~= input@.subrange(
                    pos + consumed,
                    input@.len() as int,
                ));
                let ghost old_out = out@;
                let a = handle_payload(body.as_slice());
                match &a {
                    Action::Reply { frame: Some(f), .. } => push_all(&mut out, f.as_slice()),
                    _ => {},
                }
                assert(out@ =~= old_out + sent_bytes(a));
                let ghost next = rest@.subrange(consumed as int, rest@.len() as int);
                assert forall|rest_out: Seq<u8>| session_output(next, rest_out) implies session_output(
                    input@,
                    out@ + rest_out,
                ) by {
                    let whole = sent_bytes(a) + rest_out;
                    let i = sent_bytes(a).len() as int;
                    assert(whole.subrange(0, i) =~= sent_bytes(a));
                    assert(whole.subrange(i, whole.len() as int) =~= rest_out);
                    assert(session_output(rest@, whole));
                    assert(old_out + whole =~= out@ + rest_out);
                }
                pos = pos + consumed;
            },
        }
    }
}

/// A session whose first line has no second whitespace-separated token
/// sends nothing and stops on a malformed header.
pub proof fn lemma_malformed_header_session(s: Seq<u8>, out: Seq<u8>)
    requires
        s.len() > 0,
        second_token(s.subrange(0, line_end(s, 0))) is None,
        session_output(s, out),
    ensures
        out.len() == 0,
        stop_reason(s) == FramingError::MalformedHeader,
{
    lemma_malformed_header(s);
}

/// A session whose first header declares more bytes than the input still
/// holds sends nothing and stops on a truncated body.
pub proof fn lemma_truncated_body_session(n: nat, b: Seq<u8>, out: Seq<u8>)
    requires
        n <= usize::MAX,
        b.len() < n,
        session_output(with_length(n, b), out),
    ensures
        out.len() == 0,
        stop_reason(with_length(n, b)) == FramingError::TruncatedBody,
{
    lemma_truncated_body(n, b);
}

} // verus!
