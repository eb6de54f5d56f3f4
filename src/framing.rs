use vstd::prelude::*;

verus! {

/// Largest body the hardened reader accepts: 8 MiB.
pub const MAX_MESSAGE_SIZE: usize = 8388608;

/// Why a frame could not be read.
#[derive(Clone, Copy, Debug, PartialEq, Eq, Structural)]
pub enum FrameError {
    /// The stream ended before a whole frame arrived.
    StreamClosed,
    /// The header block ended without a `Content-Length` header.
    MissingContentLength,
    /// A `Content-Length` header held something other than a decimal number.
    InvalidContentLength,
    /// The declared body length is over the reader's cap.
    MessageTooLarge,
}

impl FrameError {
    /// A human readable description of the error.
    pub fn message(&self) -> (r: String)
        ensures
            *self == FrameError::StreamClosed ==> r@ == "stream closed"@,
            *self == FrameError::MissingContentLength ==> r@ == "missing Content-Length"@,
            *self == FrameError::InvalidContentLength ==> r@ == "invalid Content-Length"@,
            *self == FrameError::MessageTooLarge ==> r@ == "message too large"@,
    {
        match self {
            FrameError::StreamClosed => String::from_str("stream closed"),
            FrameError::MissingContentLength => String::from_str("missing Content-Length"),
            FrameError::InvalidContentLength => String::from_str("invalid Content-Length"),
            FrameError::MessageTooLarge => String::from_str("message too large"),
        }
    }
}

/// A body taken off the front of a buffer, with the number of bytes it used.
pub struct Frame {
    pub body: Vec<u8>,
    pub consumed: usize,
}

/// The bytes `Content-Length:`.
pub open spec fn length_label() -> Seq<u8> {
    seq![67u8, 111u8, 110u8, 116u8, 101u8, 110u8, 116u8, 45u8, 76u8, 101u8, 110u8, 103u8, 116u8, 104u8, 58u8]
}

pub open spec fn is_digit(b: u8) -> bool {
    48 <= b <= 57
}

/// The decimal digits of `n`, most significant first, without leading zeros.
pub open spec fn digits_of(n: nat) -> Seq<u8>
    decreases n,
{
    if n < 10 {
        seq![(48 + n) as u8]
    } else {
        digits_of(n / 10).push((48 + n % 10) as u8)
    }
}

/// The number that a string of decimal digits denotes.
pub open spec fn decimal_value(s: Seq<u8>) -> nat
    decreases s.len(),
{
    if s.len() == 0 {
        0
    } else {
        decimal_value(s.drop_last()) * 10 + (s.last() - 48) as nat
    }
}

/// The header block that announces a body of `n` bytes.
pub open spec fn header_of(n: nat) -> Seq<u8> {
    length_label() + seq![32u8] + digits_of(n) + seq![13u8, 10u8, 13u8, 10u8]
}

/// A whole frame: the header block, then the body.
pub open spec fn frame_of(body: Seq<u8>) -> Seq<u8> {
    header_of(body.len()) + body
}

pub open spec fn is_blank(b: u8) -> bool {
    b == 32 || b == 9
}

pub open spec fn trim_start(s: Seq<u8>) -> Seq<u8>
    decreases s.len(),
{
    if s.len() > 0 && is_blank(s[0]) {
        trim_start(s.drop_first())
    } else {
        s
    }
}

pub open spec fn trim_end(s: Seq<u8>) -> Seq<u8>
    decreases s.len(),
{
    if s.len() > 0 && is_blank(s.last()) {
        trim_end(s.drop_last())
    } else {
        s
    }
}

/// A header line without the carriage return that may end it.
pub open spec fn strip_cr(line: Seq<u8>) -> Seq<u8> {
    if line.len() > 0 && line.last() == 13 {
        line.drop_last()
    } else {
        line
    }
}

/// What one header line says of the length: nothing (another header),
/// an invalid value, or a length.
pub enum LengthHeader {
    Other,
    Invalid,
    Length(nat),
}

pub open spec fn length_header(line: Seq<u8>) -> LengthHeader {
    if line.len() >= 15 && line.subrange(0, 15) == length_label() {
        let v = trim_end(trim_start(line.subrange(15, line.len() as int)));
        if v.len() > 0 && (forall|i: int| 0 <= i < v.len() ==> is_digit(#[trigger] v[i]))
            && decimal_value(v) <= usize::MAX {
            LengthHeader::Length(decimal_value(v))
        } else {
            LengthHeader::Invalid
        }
    } else {
        LengthHeader::Other
    }
}

/// Where reading the header block of a buffer ends.
pub enum HeaderScan {
    /// No blank line yet: more bytes are needed.
    Incomplete,
    /// A `Content-Length` header was not a number.
    Invalid,
    /// The blank line was found; the body starts at `body_start`.
    Done { body_start: nat, length: Option<nat> },
}

/// Reads the header lines of `buf`: `line_start` is where the current line
/// began, `pos` the next byte to look at, `length` the last length seen.
pub open spec fn scan_headers(buf: Seq<u8>, line_start: int, pos: int, length: Option<nat>) -> HeaderScan
    decreases buf.len() - pos,
{
    if pos < 0 || pos >= buf.len() {
        HeaderScan::Incomplete
    } else if buf[pos] == 10 {
        let line = strip_cr(buf.subrange(line_start, pos));
        if line.len() == 0 {
            HeaderScan::Done { body_start: (pos + 1) as nat, length }
        } else {
            match length_header(line) {
                LengthHeader::Other => scan_headers(buf, pos + 1, pos + 1, length),
                LengthHeader::Invalid => HeaderScan::Invalid,
                LengthHeader::Length(n) => scan_headers(buf, pos + 1, pos + 1, Some(n)),
            }
        }
    } else {
        scan_headers(buf, line_start, pos + 1, length)
    }
}

/// What the front of `buf` holds: a frame's body and the bytes it used,
/// `None` where more bytes are needed, or an error. `cap` bounds the body.
pub open spec fn decode_spec(buf: Seq<u8>, cap: Option<usize>) -> Result<Option<(Seq<u8>, nat)>, FrameError> {
    match scan_headers(buf, 0, 0, None) {
        HeaderScan::Incomplete => Ok(None),
        HeaderScan::Invalid => Err(FrameError::InvalidContentLength),
        HeaderScan::Done { body_start, length } => match length {
            None => Err(FrameError::MissingContentLength),
            Some(n) => if cap is Some && n > cap->0 {
                Err(FrameError::MessageTooLarge)
            } else if body_start + n <= buf.len() {
                Ok(Some((buf.subrange(body_start as int, body_start + n as int), body_start + n)))
            } else {
                Ok(None)
            },
        },
    }
}

pub open spec fn decoded_view(r: Result<Option<Frame>, FrameError>) -> Result<Option<(Seq<u8>, nat)>, FrameError> {
    match r {
        Ok(Some(f)) => Ok(Some((f.body@, f.consumed as nat))),
        Ok(None) => Ok(None),
        Err(e) => Err(e),
    }
}

proof fn lemma_digits_of(n: nat)
    ensures
        digits_of(n).len() >= 1,
        forall|i: int| 0 <= i < digits_of(n).len() ==> is_digit(#[trigger] digits_of(n)[i]),
        decimal_value(digits_of(n)) == n,
        is_digit(digits_of(n)[0]),
    decreases n,
{
    if n >= 10 {
        lemma_digits_of(n / 10);
        let d = digits_of(n);
        assert(d.drop_last() == digits_of(n / 10));
        assert(n == (n / 10) * 10 + n % 10) by (nonlinear_arith);
        assert(d.last() == (48 + n % 10) as u8);
        assert((d.last() - 48) as nat == n % 10);
        assert(decimal_value(d) == decimal_value(digits_of(n / 10)) * 10 + n % 10);
        assert forall|i: int| 0 <= i < d.len() implies is_digit(#[trigger] d[i]) by {
            if i < d.len() - 1 {
                assert(d[i] == digits_of(n / 10)[i]);
            }
        }
    } else {
        let d = digits_of(n);
        assert(d.drop_last() =~= Seq::<u8>::empty());
        assert(decimal_value(d.drop_last()) == 0);
        assert((d.last() - 48) as nat == n);
    }
    assert(is_digit(digits_of(n)[0]));
}

/// Appends the decimal digits of `n` to `out`.
pub fn push_decimal(out: &mut Vec<u8>, n: usize)
    ensures
        final(out)@ == old(out)@ + digits_of(n as nat),
    decreases n,
{
    if n < 10 {
        out.push((48 + n) as u8);
        assert(final(out)@ =~= old(out)@ + digits_of(n as nat));
    } else {
        push_decimal(out, n / 10);
        out.push((48 + n % 10) as u8);
        assert(final(out)@ =~= old(out)@ + digits_of(n as nat));
    }
}

/// Frames `body`: a `Content-Length` header giving its byte count, a blank
/// line, then the body itself.
pub fn encode_frame(body: &[u8]) -> (r: Vec<u8>)
    ensures
        r@ == frame_of(body@),
{
    let mut out: Vec<u8> = vec![67u8, 111u8, 110u8, 116u8, 101u8, 110u8, 116u8, 45u8, 76u8, 101u8, 110u8, 103u8, 116u8, 104u8, 58u8, 32u8];
    assert(out@ =~= length_label() + seq![32u8]);
    push_decimal(&mut out, body.len());
    out.push(13u8);
    out.push(10u8);
    out.push(13u8);
    out.push(10u8);
    assert(out@ =~= header_of(body@.len()));
    let mut i: usize = 0;
    while i < body.len()
        invariant
            i <= body@.len(),
            out@ == header_of(body@.len()) + body@.subrange(0, i as int),
        decreases body@.len() - i,
    {
        out.push(body[i]);
        i = i + 1;
        assert(out@ =~= header_of(body@.len()) + body@.subrange(0, i as int));
    }
    assert(body@.subrange(0, body@.len() as int) =~= body@);
    out
}

/// Drops blanks (spaces and tabs) from both ends of `s[start..end]`, returning the new bounds.
fn trim_bounds(s: &[u8], start: usize, end: usize) -> (r: (usize, usize))
    requires
        start <= end <= s@.len(),
    ensures
        start <= r.0 <= r.1 <= end,
        s@.subrange(r.0 as int, r.1 as int) == trim_end(trim_start(s@.subrange(start as int, end as int))),
{
    let mut a = start;
    while a < end && (s[a] == 32u8 || s[a] == 9u8)
        invariant
            start <= a <= end <= s@.len(),
            trim_start(s@.subrange(start as int, end as int)) == trim_start(s@.subrange(a as int, end as int)),
        decreases end - a,
    {
        assert(s@.subrange(a as int, end as int).drop_first() =~= s@.subrange(a + 1, end as int));
        a = a + 1;
    }
    let mut b = end;
    while b > a && (s[b - 1] == 32u8 || s[b - 1] == 9u8)
        invariant
            start <= a <= b <= end <= s@.len(),
            trim_end(trim_start(s@.subrange(start as int, end as int))) == trim_end(s@.subrange(a as int, b as int)),
        decreases b - a,
    {
        assert(s@.subrange(a as int, b as int).drop_last() =~= s@.subrange(a as int, b - 1));
        b = b - 1;
    }
    (a, b)
}

/// Reads `s[start..end]` as a decimal number, if it is one that fits in `usize`.
fn parse_decimal(s: &[u8], start: usize, end: usize) -> (r: Option<usize>)
    requires
        start <= end <= s@.len(),
    ensures
        ({
            let v = s@.subrange(start as int, end as int);
            r == (if v.len() > 0 && (forall|i: int| 0 <= i < v.len() ==> is_digit(#[trigger] v[i]))
                && decimal_value(v) <= usize::MAX {
                Some(decimal_value(v) as usize)
            } else {
                None::<usize>
            })
        }),
{
    let ghost v = s@.subrange(start as int, end as int);
    if start == end {
        return None;
    }
    let mut acc: usize = 0;
    let mut i = start;
    while i < end
        invariant
            start <= i <= end <= s@.len(),
            v == s@.subrange(start as int, end as int),
            forall|k: int| start <= k < i ==> is_digit(#[trigger] s@[k]),
            acc as nat == decimal_value(s@.subrange(start as int, i as int)),
        decreases end - i,
    {
        let b = s[i];
        if b < 48u8 || b > 57u8 {
            assert(!is_digit(v[i - start]));
            return None;
        }
        let d = (b - 48u8) as usize;
        assert(s@.subrange(start as int, i + 1).drop_last() =~= s@.subrange(start as int, i as int));
        if acc > (usize::MAX - d) / 10 {
            proof {
                assert(acc * 10 + d > usize::MAX) by (nonlinear_arith)
                    requires acc > (usize::MAX - d) / 10, d <= 9;
                lemma_decimal_prefix_bound(v, (i + 1 - start) as nat);
                assert(v.subrange(0, (i + 1 - start) as int) =~= s@.subrange(start as int, i + 1));
            }
            return None;
        }
        assert(acc * 10 + d <= usize::MAX) by (nonlinear_arith)
            requires acc <= (usize::MAX - d) / 10, d <= 9;
        acc = acc * 10 + d;
        i = i + 1;
    }
    assert(s@.subrange(start as int, end as int) =~= v);
    Some(acc)
}

/// A prefix of a digit string never denotes more than the whole string.
proof fn lemma_decimal_prefix_bound(v: Seq<u8>, k: nat)
    requires
        k <= v.len(),
        forall|i: int| 0 <= i < k ==> is_digit(#[trigger] v[i]),
    ensures
        (forall|i: int| 0 <= i < v.len() ==> is_digit(#[trigger] v[i])) ==> decimal_value(v.subrange(0, k as int)) <= decimal_value(v),
    decreases v.len() - k,
{
    if k < v.len() && (forall|i: int| 0 <= i < v.len() ==> is_digit(#[trigger] v[i])) {
        lemma_decimal_prefix_bound(v, k + 1);
        assert(v.subrange(0, k + 1 as int).drop_last() =~= v.subrange(0, k as int));
        let a = decimal_value(v.subrange(0, k as int));
        assert(a <= a * 10 + (v[k as int] - 48) as nat) by (nonlinear_arith);
    } else if k == v.len() {
        assert(v.subrange(0, k as int) =~= v);
    }
}

/// Classifies one header line, `buf[start..end]` with its carriage return removed.
fn read_length_header(buf: &[u8], start: usize, end: usize) -> (r: (u8, usize))
    requires
        start <= end <= buf@.len(),
    ensures
        match length_header(buf@.subrange(start as int, end as int)) {
            LengthHeader::Other => r.0 == 0,
            LengthHeader::Invalid => r.0 == 1,
            LengthHeader::Length(n) => r.0 == 2 && r.1 as nat == n,
        },
{
    let ghost line = buf@.subrange(start as int, end as int);
    if end - start < 15 {
        return (0, 0);
    }
    let label: Vec<u8> = vec![67u8, 111u8, 110u8, 116u8, 101u8, 110u8, 116u8, 45u8, 76u8, 101u8, 110u8, 103u8, 116u8, 104u8, 58u8];
    assert(label@ =~= length_label());
    let mut k: usize = 0;
    while k < 15
        invariant
            k <= 15,
            start + 15 <= end <= buf@.len(),
            label@ == length_label(),
            line == buf@.subrange(start as int, end as int),
            forall|j: int| 0 <= j < k ==> line[j] == length_label()[j],
        decreases 15 - k,
    {
        if buf[start + k] != label[k] {
            assert(line.subrange(0, 15)[k as int] != length_label()[k as int]);
            return (0, 0);
        }
        k = k + 1;
    }
    assert(line.subrange(0, 15) =~= length_label());
    let (a, b) = trim_bounds(buf, start + 15, end);
    assert(line.subrange(15, line.len() as int) =~= buf@.subrange(start + 15, end as int));
    match parse_decimal(buf, a, b) {
        Some(n) => (2, n),
        None => (1, 0),
    }
}

/// Takes the first frame off the front of `buf`. `Ok(None)` means the buffer
/// holds only part of a frame so far; `cap`, where given, bounds the body length.
pub fn decode_frame(buf: &[u8], cap: Option<usize>) -> (r: Result<Option<Frame>, FrameError>)
    ensures
        decoded_view(r) == decode_spec(buf@, cap),
        r matches Ok(Some(f)) ==> f.consumed <= buf@.len(),
{
    let mut line_start: usize = 0;
    let mut pos: usize = 0;
    let mut length: Option<usize> = None;
    let ghost spec_length: Option<nat> = None;
    let mut body_start: usize = 0;
    let mut done = false;
    while pos < buf.len() && !done
        invariant
            line_start <= pos <= buf@.len(),
            spec_length == (match length {
                Some(n) => Some(n as nat),
                None => None::<nat>,
            }),
            !done ==> scan_headers(buf@, 0, 0, None) == scan_headers(buf@, line_start as int, pos as int, spec_length),
            done ==> scan_headers(buf@, 0, 0, None) == (HeaderScan::Done { body_start: body_start as nat, length: spec_length }),
            done ==> body_start <= buf@.len(),
        decreases buf@.len() - pos,
    {
        if buf[pos] == 10u8 {
            let mut end = pos;
            if end > line_start && buf[end - 1] == 13u8 {
                end = end - 1;
            }
            assert(buf@.subrange(line_start as int, end as int) =~= strip_cr(buf@.subrange(line_start as int, pos as int)));
            if end == line_start {
                body_start = pos + 1;
                done = true;
                pos = pos + 1;
                line_start = pos;
            } else {
                let (kind, n) = read_length_header(buf, line_start, end);
                if kind == 1 {
                    return Err(FrameError::InvalidContentLength);
                }
                if kind == 2 {
                    length = Some(n);
                    proof {
                        spec_length = Some(n as nat);
                    }
                }
                pos = pos + 1;
                line_start = pos;
            }
        } else {
            pos = pos + 1;
        }
    }
    if !done {
        return Ok(None);
    }
    match length {
        None => Err(FrameError::MissingContentLength),
        Some(n) => {
            if let Some(c) = cap {
                if n > c {
                    return Err(FrameError::MessageTooLarge);
                }
            }
            if n > buf.len() - body_start {
                return Ok(None);
            }
            let mut body: Vec<u8> = Vec::new();
            let mut i = body_start;
            let stop = body_start + n;
            while i < stop
                invariant
                    stop == body_start + n,
                    body_start <= i <= stop <= buf@.len(),
                    body@ == buf@.subrange(body_start as int, i as int),
                decreases stop - i,
            {
                body.push(buf[i]);
                i = i + 1;
                assert(body@ =~= buf@.subrange(body_start as int, i as int));
            }
            Ok(Some(Frame { body, consumed: stop }))
        },
    }
}

/// Scanning over bytes that are not line feeds changes nothing.
proof fn lemma_scan_skip(buf: Seq<u8>, line_start: int, pos: int, end: int, length: Option<nat>)
    requires
        0 <= pos <= end < buf.len(),
        forall|i: int| pos <= i < end ==> buf[i] != 10,
    ensures
        scan_headers(buf, line_start, pos, length) == scan_headers(buf, line_start, end, length),
    decreases end - pos,
{
    if pos < end {
        lemma_scan_skip(buf, line_start, pos + 1, end, length);
    }
}

proof fn lemma_trim_digits(d: Seq<u8>)
    requires
        d.len() >= 1,
        forall|i: int| 0 <= i < d.len() ==> is_digit(#[trigger] d[i]),
    ensures
        trim_end(trim_start(seq![32u8] + d)) == d,
{
    let s = seq![32u8] + d;
    assert(s.drop_first() =~= d);
    assert(is_digit(d[0]));
    assert(trim_start(d) == d);
    assert(is_digit(d.last()));
}

/// Decoding a frame built by `encode_frame` gives back exactly its body,
/// whatever follows it in the buffer, unless the body is over the cap.
pub proof fn lemma_frame_round_trip(body: Seq<u8>, rest: Seq<u8>, cap: Option<usize>)
    requires
        body.len() <= usize::MAX,
        cap is None || body.len() <= cap->0,
    ensures
        decode_spec(frame_of(body) + rest, cap) == Ok::<Option<(Seq<u8>, nat)>, FrameError>(
            Some((body, frame_of(body).len())),
        ),
{
    let n = body.len();
    let d = digits_of(n);
    lemma_digits_of(n);
    let buf = frame_of(body) + rest;
    let first_line = length_label() + seq![32u8] + d;
    let e: int = first_line.len() as int + 1;
    assert(buf.subrange(0, first_line.len() as int) =~= first_line);
    assert(buf[e - 1] == 13u8);
    assert(buf[e] == 10u8);
    assert(buf[e + 1] == 13u8);
    assert(buf[e + 2] == 10u8);
    assert forall|i: int| 0 <= i < e implies buf[i] != 10 by {
        if i < 16 {
            assert(buf[i] == (length_label() + seq![32u8])[i]);
        } else if i < e - 1 {
            assert(buf[i] == d[i - 16]);
            assert(is_digit(d[i - 16]));
        }
    }
    lemma_scan_skip(buf, 0, 0, e, None);
    let line = strip_cr(buf.subrange(0, e));
    assert(buf.subrange(0, e).drop_last() =~= first_line);
    assert(line == first_line);
    assert(line.subrange(0, 15) =~= length_label());
    assert(line.subrange(15, line.len() as int) =~= seq![32u8] + d);
    lemma_trim_digits(d);
    assert(length_header(line) == LengthHeader::Length(n));
    assert(buf.subrange(e + 1, e + 2) =~= seq![13u8]);
    assert(strip_cr(buf.subrange(e + 1, e + 2)).len() == 0);
    lemma_scan_skip(buf, e + 1, e + 1, e + 2, Some(n));
    assert(scan_headers(buf, 0, 0, None) == (HeaderScan::Done { body_start: (e + 3) as nat, length: Some(n) }));
    assert(frame_of(body).len() == e + 3 + n);
    assert(buf.subrange(e + 3, e + 3 + n as int) =~= body);
}

} // verus!
