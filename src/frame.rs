//! Length-prefixed frames: `Content-Length: <n>`, a line break, a blank line,
//! then exactly `n` bytes of payload.

use vstd::prelude::*;

verus! {

/// Why a frame could not be cut out of the input.
#[derive(Debug, Clone, Copy, PartialEq, Eq, Structural)]
pub enum FramingError {
    /// The input ended at a frame boundary.
    EndOfStream,
    /// The header line has no second whitespace-separated token, or the line
    /// after it is not blank.
    MalformedHeader,
    /// The second token is not an unsigned decimal that fits in `usize`.
    MalformedLength,
    /// The input ended before the header, its terminator or the declared
    /// number of payload bytes were complete.
    TruncatedBody,
}

pub const NEWLINE: u8 = 10;

/// ASCII whitespace as `char::is_whitespace` sees it.
pub open spec fn is_ws(b: u8) -> bool {
    b == 32u8 || b == 9u8 || b == 10u8 || b == 11u8 || b == 12u8 || b == 13u8
}

pub open spec fn is_digit(b: u8) -> bool {
    48u8 <= b && b <= 57u8
}

pub open spec fn all_digits(t: Seq<u8>) -> bool {
    forall|i: int| 0 <= i < t.len() ==> is_digit(#[trigger] t[i])
}

pub open spec fn all_ws(t: Seq<u8>) -> bool {
    forall|i: int| 0 <= i < t.len() ==> is_ws(#[trigger] t[i])
}

/// The number that a string of decimal digits denotes.
pub open spec fn digits_value(t: Seq<u8>) -> nat
    decreases t.len(),
{
    if t.len() == 0 {
        0
    } else {
        10 * digits_value(t.drop_last()) + (t.last() - 48u8) as nat
    }
}

/// The shortest decimal spelling of `n`.
pub open spec fn decimal(n: nat) -> Seq<u8>
    decreases n,
{
    if n < 10 {
        seq![(48 + n) as u8]
    } else {
        decimal(n / 10).push((48 + n % 10) as u8)
    }
}

/// First index at or after `i` that holds a byte satisfying (or not,
/// per `ws`) the whitespace test; the length of `l` if there is none.
pub open spec fn skip_class(l: Seq<u8>, i: int, ws: bool) -> int
    decreases l.len() - i,
{
    if 0 <= i < l.len() && is_ws(l[i]) == ws {
        skip_class(l, i + 1, ws)
    } else {
        i
    }
}

/// Start of the second whitespace-separated token of `l`.
pub open spec fn second_start(l: Seq<u8>) -> int {
    skip_class(l, skip_class(l, skip_class(l, 0, true), false), true)
}

/// The second whitespace-separated token of `l`, if it has one.
pub open spec fn second_token(l: Seq<u8>) -> Option<Seq<u8>> {
    let c = second_start(l);
    if c < l.len() {
        Some(l.subrange(c, skip_class(l, c, false)))
    } else {
        None
    }
}

/// A length token without its optional leading `+`.
pub open spec fn unsigned_part(t: Seq<u8>) -> Seq<u8> {
    if t.len() > 0 && t[0] == 43u8 {
        t.drop_first()
    } else {
        t
    }
}

/// The byte count that a header line declares: an unsigned decimal with an
/// optional leading `+`, as `usize`'s `FromStr` reads it.
pub open spec fn header_length(l: Seq<u8>) -> Result<nat, FramingError> {
    match second_token(l) {
        None => Err(FramingError::MalformedHeader),
        Some(t) => {
            let d = unsigned_part(t);
            if d.len() > 0 && all_digits(d) && digits_value(d) <= usize::MAX {
                Ok(digits_value(d))
            } else {
                Err(FramingError::MalformedLength)
            }
        },
    }
}

/// Index of the first line break at or after `i`, or the length of `s`.
pub open spec fn line_end(s: Seq<u8>, i: int) -> int
    decreases s.len() - i,
{
    if 0 <= i < s.len() && s[i] != NEWLINE {
        line_end(s, i + 1)
    } else {
        i
    }
}

/// What reading one frame from the start of `s` gives: the payload and the
/// number of bytes the frame took, or why there is no frame.
pub open spec fn frame_of(s: Seq<u8>) -> Result<(Seq<u8>, int), FramingError> {
    if s.len() == 0 {
        Err(FramingError::EndOfStream)
    } else {
        let e1 = line_end(s, 0);
        match header_length(s.subrange(0, e1)) {
            Err(e) => Err(e),
            Ok(n) => {
                let e2 = line_end(s, e1 + 1);
                if e1 >= s.len() || e2 >= s.len() {
                    Err(FramingError::TruncatedBody)
                } else if !all_ws(s.subrange(e1 + 1, e2)) {
                    Err(FramingError::MalformedHeader)
                } else if e2 + 1 + n > s.len() {
                    Err(FramingError::TruncatedBody)
                } else {
                    Ok((s.subrange(e2 + 1, e2 + 1 + n), e2 + 1 + n))
                }
            },
        }
    }
}

/// The bytes of `Content-Length: `.
pub open spec fn header_prefix() -> Seq<u8> {
    seq![67u8, 111, 110, 116, 101, 110, 116, 45, 76, 101, 110, 103, 116, 104, 58, 32]
}

/// The frame that carries `b`.
pub open spec fn framed(b: Seq<u8>) -> Seq<u8> {
    header_prefix() + decimal(b.len()) + seq![NEWLINE, NEWLINE] + b
}

fn is_ws_byte(b: u8) -> (r: bool)
    ensures
        r == is_ws(b),
{
    b == 32 || b == 9 || b == 10 || b == 11 || b == 12 || b == 13
}

fn skip_bytes(l: &[u8], i: usize, ws: bool) -> (r: usize)
    requires
        i <= l@.len(),
    ensures
        r as int == skip_class(l@, i as int, ws),
        i <= r <= l@.len(),
        r < l@.len() ==> is_ws(l@[r as int]) != ws,
        i < l@.len() && is_ws(l@[i as int]) == ws ==> r > i,
    decreases l@.len() - i,
{
    let mut j = i;
    while j < l.len() && is_ws_byte(l[j]) == ws
        invariant
            i <= j <= l@.len(),
            skip_class(l@, j as int, ws) == skip_class(l@, i as int, ws),
        decreases l@.len() - j,
    {
        j = j + 1;
    }
    j
}

/// Reads the byte count declared by a header line (its line break, if
/// present, is whitespace and changes nothing).
pub fn parse_header_line(line: &[u8]) -> (r: Result<usize, FramingError>)
    ensures
        match header_length(line@) {
            Ok(n) => r == Ok::<usize, FramingError>(n as usize),
            Err(e) => r == Err::<usize, FramingError>(e),
        },
{
    let a = skip_bytes(line, 0, true);
    let b = skip_bytes(line, a, false);
    let c = skip_bytes(line, b, true);
    if c >= line.len() {
        return Err(FramingError::MalformedHeader);
    }
    let d = skip_bytes(line, c, false);
    assert(second_token(line@) == Some(line@.subrange(c as int, d as int)));
    let ghost tok = line@.subrange(c as int, d as int);
    let st = if line[c] == 43 {
        c + 1
    } else {
        c
    };
    let ghost t = line@.subrange(st as int, d as int);
    assert(tok[0] == line@[c as int]);
    assert(unsigned_part(tok) =~= t);
    if st >= d {
        return Err(FramingError::MalformedLength);
    }
    let c = st;
    let mut value: usize = 0;
    let mut k = c;
    while k < d
        invariant
            c <= k <= d <= line@.len(),
            c < d,
            t == line@.subrange(c as int, d as int),
            second_token(line@) matches Some(tok) && unsigned_part(tok) == t,
            all_digits(t.subrange(0, k - c)),
            value as nat == digits_value(t.subrange(0, k - c)),
        decreases d - k,
    {
        let byte = line[k];
        assert(t[k - c] == byte);
        assert(t.subrange(0, k + 1 - c).drop_last() =~= t.subrange(0, k - c));
        if byte < 48 || byte > 57 {
            assert(!all_digits(t));
            return Err(FramingError::MalformedLength);
        }
        let digit = (byte - 48) as usize;
        let next = match value.checked_mul(10) {
            Some(m) => m.checked_add(digit),
            None => None,
        };
        match next {
            Some(v) => {
                value = v;
            },
            None => {
                proof {
                    if all_digits(t) {
                        let p = t.subrange(0, k + 1 - c);
                        assert(p.last() == byte);
                        assert(digits_value(p) == 10 * digits_value(p.drop_last()) + digit);
                        lemma_digits_value_prefix(t, k + 1 - c);
                    }
                }
                return Err(FramingError::MalformedLength);
            },
        }
        k = k + 1;
    }
    assert(t.subrange(0, d - c) =~= t);
    Ok(value)
}

fn line_end_at(s: &[u8], i: usize) -> (r: usize)
    requires
        i <= s@.len(),
    ensures
        r as int == line_end(s@, i as int),
        i <= r <= s@.len(),
{
    let mut j = i;
    while j < s.len() && s[j] != NEWLINE
        invariant
            i <= j <= s@.len(),
            line_end(s@, j as int) == line_end(s@, i as int),
        decreases s@.len() - j,
    {
        j = j + 1;
    }
    j
}

fn all_ws_between(s: &[u8], i: usize, j: usize) -> (r: bool)
    requires
        i <= j <= s@.len(),
    ensures
        r == all_ws(s@.subrange(i as int, j as int)),
{
    let mut k = i;
    while k < j
        invariant
            i <= k <= j <= s@.len(),
            all_ws(s@.subrange(i as int, k as int)),
        decreases j - k,
    {
        if !is_ws_byte(s[k]) {
            assert(s@.subrange(i as int, j as int)[k - i] == s@[k as int]);
            return false;
        }
        assert(s@.subrange(i as int, k + 1) =~= s@.subrange(i as int, k as int).push(s@[k as int]));
        k = k + 1;
    }
    true
}

/// Cuts one frame from the start of `s`: its payload and how many bytes of
/// `s` the frame took.
pub fn read_frame(s: &[u8]) -> (r: Result<(Vec<u8>, usize), FramingError>)
    ensures
        match frame_of(s@) {
            Ok((b, k)) => r.is_ok() && r.unwrap().0@ == b && r.unwrap().1 as int == k,
            Err(e) => r == Err::<(Vec<u8>, usize), FramingError>(e),
        },
        r matches Ok((_, k)) ==> 0 < k <= s@.len(),
{
    if s.len() == 0 {
        return Err(FramingError::EndOfStream);
    }
    let e1 = line_end_at(s, 0);
    let n = match parse_header_line(vstd::slice::slice_subrange(s, 0, e1)) {
        Ok(n) => n,
        Err(e) => {
            return Err(e);
        },
    };
    if e1 >= s.len() {
        return Err(FramingError::TruncatedBody);
    }
    let e2 = line_end_at(s, e1 + 1);
    if e2 >= s.len() {
        return Err(FramingError::TruncatedBody);
    }
    if !all_ws_between(s, e1 + 1, e2) {
        return Err(FramingError::MalformedHeader);
    }
    let start = e2 + 1;
    if n > s.len() - start {
        return Err(FramingError::TruncatedBody);
    }
    let body = vstd::slice::slice_to_vec(vstd::slice::slice_subrange(s, start, start + n));
    Ok((body, start + n))
}

/// The decimal spelling of `n`.
pub fn decimal_bytes(n: usize) -> (r: Vec<u8>)
    ensures
        r@ == decimal(n as nat),
    decreases n,
{
    if n < 10 {
        let mut v: Vec<u8> = Vec::new();
        v.push(48 + n as u8);
        assert(v@ =~= decimal(n as nat));
        v
    } else {
        let mut v = decimal_bytes(n / 10);
        v.push(48 + (n % 10) as u8);
        v
    }
}

/// Appends the bytes of `src` to `out`.
pub(crate) fn push_all(out: &mut Vec<u8>, src: &[u8])
    ensures
        final(out)@ == old(out)@ + src@,
{
    let mut i: usize = 0;
    while i < src.len()
        invariant
            i <= src@.len(),
            out@ == old(out)@ + src@.subrange(0, i as int),
        decreases src@.len() - i,
    {
        out.push(src[i]);
        assert(src@.subrange(0, i + 1) =~= src@.subrange(0, i as int).push(src@[i as int]));
        i = i + 1;
    }
    assert(src@.subrange(0, src@.len() as int) =~= src@);
}

/// The frame that carries `b`: `Content-Length: <len>`, a line break, a blank
/// line, then `b`.
pub fn write_frame_bytes(b: &[u8]) -> (r: Vec<u8>)
    ensures
        r@ == framed(b@),
{
    let mut out: Vec<u8> = Vec::new();
    out.push(67);
    out.push(111);
    out.push(110);
    out.push(116);
    out.push(101);
    out.push(110);
    out.push(116);
    out.push(45);
    out.push(76);
    out.push(101);
    out.push(110);
    out.push(103);
    out.push(116);
    out.push(104);
    out.push(58);
    out.push(32);
    assert(out@ =~= header_prefix());
    let digits = decimal_bytes(b.len());
    push_all(&mut out, digits.as_slice());
    out.push(NEWLINE);
    out.push(NEWLINE);
    push_all(&mut out, b);
    assert(out@ =~= framed(b@));
    out
}

/// A digit string is worth at least each of its prefixes.
proof fn lemma_digits_value_prefix(t: Seq<u8>, k: int)
    requires
        0 <= k <= t.len(),
        all_digits(t),
    ensures
        digits_value(t.subrange(0, k)) <= digits_value(t),
    decreases t.len() - k,
{
    if k < t.len() {
        lemma_digits_value_prefix(t, k + 1);
        let p = t.subrange(0, k + 1);
        assert(p.drop_last() =~= t.subrange(0, k));
    } else {
        assert(t.subrange(0, k) =~= t);
    }
}

proof fn lemma_skip_class_run(l: Seq<u8>, i: int, j: int, ws: bool)
    requires
        0 <= i <= j <= l.len(),
        forall|k: int| i <= k < j ==> is_ws(#[trigger] l[k]) == ws,
        j == l.len() || is_ws(l[j]) != ws,
    ensures
        skip_class(l, i, ws) == j,
    decreases j - i,
{
    if i < j {
        lemma_skip_class_run(l, i + 1, j, ws);
    }
}

proof fn lemma_line_end_run(s: Seq<u8>, i: int, j: int)
    requires
        0 <= i <= j < s.len(),
        forall|k: int| i <= k < j ==> #[trigger] s[k] != NEWLINE,
        s[j] == NEWLINE,
    ensures
        line_end(s, i) == j,
    decreases j - i,
{
    if i < j {
        lemma_line_end_run(s, i + 1, j);
    }
}

/// The decimal spelling of `n` is a non-empty digit string worth `n`.
proof fn lemma_decimal(n: nat)
    ensures
        decimal(n).len() > 0,
        all_digits(decimal(n)),
        digits_value(decimal(n)) == n,
    decreases n,
{
    if n >= 10 {
        lemma_decimal(n / 10);
        let d = decimal(n);
        assert(d.drop_last() =~= decimal(n / 10));
        assert(d.last() == (48 + n % 10) as u8);
        assert((d.last() - 48u8) as nat == n % 10);
        assert(10 * (n / 10) + n % 10 == n);
        assert(digits_value(d) == 10 * digits_value(d.drop_last()) + (d.last() - 48u8) as nat);
    } else {
        let d = decimal(n);
        assert(d.drop_last() =~= Seq::<u8>::empty());
        assert(digits_value(d.drop_last()) == 0);
        assert(digits_value(d) == 10 * digits_value(d.drop_last()) + (d.last() - 48u8) as nat);
    }
}

/// A frame header declaring `n` bytes, followed by `b`.
pub open spec fn with_length(n: nat, b: Seq<u8>) -> Seq<u8> {
    header_prefix() + decimal(n) + seq![NEWLINE, NEWLINE] + b
}

/// The header of `with_length(n, b)` is read as declaring `n` bytes, and is
/// followed by a blank line.
proof fn lemma_header_layout(n: nat, b: Seq<u8>)
    requires
        n <= usize::MAX,
    ensures
        ({
            let s = with_length(n, b);
            let e1: int = 16 + decimal(n).len() as int;
            &&& line_end(s, 0) == e1
            &&& e1 + 1 < s.len()
            &&& header_length(s.subrange(0, e1)) == Ok::<nat, FramingError>(n)
            &&& line_end(s, e1 + 1) == e1 + 1
            &&& all_ws(s.subrange(e1 + 1, e1 + 1))
            &&& s.len() == e1 + 2 + b.len()
            &&& s.subrange(e1 + 2, s.len() as int) == b
        }),
{
    let p = header_prefix();
    let d = decimal(n);
    let s = with_length(n, b);
    lemma_decimal(n);
    let e1: int = 16 + d.len() as int;
    assert(forall|k: int| 0 <= k < 16 ==> s[k] == p[k]);
    assert(forall|k: int| 0 <= k < d.len() ==> s[16 + k] == d[k]);
    assert(s[e1] == NEWLINE);
    assert(s[e1 + 1] == NEWLINE);
    assert forall|k: int| 0 <= k < e1 implies #[trigger] s[k] != NEWLINE by {
        if k >= 16 {
            assert(s[16 + (k - 16)] == d[k - 16]);
            assert(is_digit(d[k - 16]));
        }
    }
    lemma_line_end_run(s, 0, e1);
    let l = s.subrange(0, e1);
    assert(l =~= p + d);
    assert(forall|k: int| 0 <= k < 15 ==> !is_ws(#[trigger] l[k]));
    assert(is_ws(l[15]));
    assert forall|k: int| 16 <= k < l.len() implies !is_ws(#[trigger] l[k]) by {
        assert(l[k] == d[k - 16]);
        assert(is_digit(d[k - 16]));
    }
    lemma_skip_class_run(l, 0, 0, true);
    lemma_skip_class_run(l, 0, 15, false);
    lemma_skip_class_run(l, 15, 16, true);
    lemma_skip_class_run(l, 16, l.len() as int, false);
    assert(l.subrange(16, l.len() as int) =~= d);
    assert(second_token(l) == Some(d));
    assert(is_digit(d[0]));
    assert(unsigned_part(d) == d);
    assert(header_length(l) == Ok::<nat, FramingError>(n));
    lemma_line_end_run(s, e1 + 1, e1 + 1);
    assert(s.subrange(e1 + 1, e1 + 1) =~= Seq::<u8>::empty());
    assert(s.subrange(e1 + 2, s.len() as int) =~= b);
}

/// Reading a frame back from the bytes `write_frame_bytes` produced for `b`
/// gives `b`, and the frame takes exactly those bytes.
pub proof fn lemma_frame_round_trip(b: Seq<u8>)
    requires
        b.len() <= usize::MAX,
    ensures
        frame_of(framed(b)) == Ok::<(Seq<u8>, int), FramingError>((b, framed(b).len() as int)),
{
    lemma_header_layout(b.len(), b);
    assert(framed(b) == with_length(b.len(), b));
    let s = framed(b);
    assert(s.subrange(s.len() - b.len(), s.len() as int) =~= b);
}

/// A header that declares more bytes than follow it gives no frame: the
/// body is truncated.
pub proof fn lemma_truncated_body(n: nat, b: Seq<u8>)
    requires
        n <= usize::MAX,
        b.len() < n,
    ensures
        frame_of(with_length(n, b)) == Err::<(Seq<u8>, int), FramingError>(
            FramingError::TruncatedBody,
        ),
{
    lemma_header_layout(n, b);
}

/// An input whose first line has no second whitespace-separated token gives
/// no frame: its header is malformed.
pub proof fn lemma_malformed_header(s: Seq<u8>)
    requires
        s.len() > 0,
        second_token(s.subrange(0, line_end(s, 0))) is None,
    ensures
        frame_of(s) == Err::<(Seq<u8>, int), FramingError>(FramingError::MalformedHeader),
{
}

} // verus!
