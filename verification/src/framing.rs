//! `Content-Length`-delimited framing over a byte stream.
//!
//! A frame is a block of header lines, an empty line and a body of as many
//! bytes as the `Content-Length` header says.
use crate::text::{
    chars_of, concat3, decimal, decimal_of, eq_ignore_ascii_case, is_digit, is_space, number,
    parse_usize, position_in, same_ignoring_ascii_case, split_once, text_of, trim, trim_start,
    trimmed,
};
use vstd::prelude::*;
use vstd::string::*;
use vstd::utf8::*;

verus! {

/// Largest block of header lines, in bytes, that a reader buffers: a guard
/// against a peer that sends header lines without end. Of a block that is over
/// it, one byte more is taken.
pub const MAX_HEADER_BYTES: usize = 8192;

/// Largest body, in bytes, that a reader buffers: a guard against a peer that
/// announces more than there is memory for.
pub const MAX_BODY_BYTES: usize = 67108864;

/// Why no frame could be read.
#[derive(Debug, Clone, Copy, PartialEq, Eq, Structural)]
pub enum FrameError {
    /// A header line is not UTF-8.
    NotText,
    /// The input ends inside the header block.
    HeaderEof,
    /// The header block is longer than [`MAX_HEADER_BYTES`].
    HeaderTooLarge,
    /// A header line has no colon.
    MalformedHeader,
    /// The `Content-Length` header does not hold a length.
    InvalidLength,
    /// There is no `Content-Length` header.
    MissingLength,
    /// The body is longer than [`MAX_BODY_BYTES`].
    BodyTooLarge,
    /// The input ends inside the body.
    BodyEof,
}

/// Bytes that are read from the front. Their end counts as the end of the
/// stream; while more may arrive, [`ByteReader::wants_more`] says when to wait
/// for it.
pub struct ByteReader {
    data: Vec<u8>,
    pos: usize,
}

impl View for ByteReader {
    type V = Seq<u8>;

    /// The bytes that have not been read yet.
    closed spec fn view(&self) -> Seq<u8> {
        self.data@.skip(self.pos as int)
    }
}

impl ByteReader {
    #[verifier::type_invariant]
    spec fn inv(self) -> bool {
        self.pos <= self.data@.len()
    }

    /// A reader at the front of `data`.
    pub fn new(data: Vec<u8>) -> (r: ByteReader)
        ensures
            r@ == data@,
    {
        proof {
            assert(data@.skip(0) =~= data@);
        }
        ByteReader { data, pos: 0 }
    }

    /// Append bytes that arrived on the stream. A frame that is not complete yet
    /// has to be fed to its end before it is read.
    pub fn feed(&mut self, bytes: &[u8])
        ensures
            final(self)@ == old(self)@ + bytes@,
    {
        proof {
            use_type_invariant(&*self);
        }
        let mut data: Vec<u8> = Vec::new();
        let mut i: usize = self.pos;
        let n: usize = self.data.len();
        while i < n
            invariant
                n == self.data@.len(),
                self.pos <= i <= n,
                data@ == self.data@.subrange(self.pos as int, i as int),
            decreases n - i,
        {
            data.push(self.data[i]);
            i = i + 1;
        }
        let mut j: usize = 0;
        while j < bytes.len()
            invariant
                j <= bytes@.len(),
                self.pos <= self.data@.len(),
                data@ == self.data@.skip(self.pos as int) + bytes@.take(j as int),
            decreases bytes@.len() - j,
        {
            data.push(bytes[j]);
            j = j + 1;
        }
        let next = ByteReader { data, pos: 0 };
        proof {
            assert(bytes@.take(j as int) =~= bytes@);
            assert(next@ =~= data@);
        }
        *self = next;
    }
}

// ─── The format ────────────────────────────────────────────────────────

/// Number of bytes of the first line, with its line feed.
pub open spec fn line_len(b: Seq<u8>) -> nat
    decreases b.len(),
{
    if b.len() == 0 {
        0
    } else if b[0] == 10 {
        1
    } else {
        1 + line_len(b.drop_first())
    }
}

pub proof fn lemma_line_len_bound(b: Seq<u8>)
    ensures
        line_len(b) <= b.len(),
        b.len() > 0 ==> line_len(b) > 0,
    decreases b.len(),
{
    if b.len() > 0 {
        lemma_line_len_bound(b.drop_first());
    }
}

/// `s` without the carriage returns and line feeds at its end.
pub open spec fn trim_line_end(s: Seq<char>) -> Seq<char>
    decreases s.len(),
{
    if s.len() > 0 && (s.last() == '\r' || s.last() == '\n') {
        trim_line_end(s.drop_last())
    } else {
        s
    }
}

/// What one header line says.
pub enum HeaderLine {
    /// The empty line that ends the block.
    End,
    /// A `Content-Length` header.
    Length(usize),
    /// Any other header.
    Other,
}

/// The meaning of a header line, given with its line ending.
pub open spec fn header_line(line: Seq<char>) -> Result<HeaderLine, FrameError> {
    let text = trim_line_end(line);
    if text.len() == 0 {
        Ok(HeaderLine::End)
    } else {
        match split_once(text, ':') {
            None => Err(FrameError::MalformedHeader),
            Some((name, value)) => if same_ignoring_ascii_case(
                trimmed(name),
                "content-length"@,
            ) {
                match number(trimmed(value), usize::MAX as nat) {
                    Some(n) => Ok(HeaderLine::Length(n as usize)),
                    None => Err(FrameError::InvalidLength),
                }
            } else {
                Ok(HeaderLine::Other)
            },
        }
    }
}

/// The header block from byte `at` on, where the lines before announced
/// `length`: the last announced length, and where the body starts.
pub open spec fn header_block(b: Seq<u8>, at: nat, length: Option<usize>) -> Result<
    (Option<usize>, nat),
    FrameError,
>
    decreases b.len() - at,
{
    if at >= b.len() {
        Err(FrameError::HeaderEof)
    } else {
        let next = at + line_len(b.skip(at as int));
        let line = b.subrange(at as int, next as int);
        proof {
            lemma_line_len_bound(b.skip(at as int));
        }
        if next > MAX_HEADER_BYTES {
            Err(FrameError::HeaderTooLarge)
        } else if !valid_utf8(line) {
            Err(FrameError::NotText)
        } else {
            match header_line(decode_utf8(line)) {
                Err(e) => Err(e),
                Ok(HeaderLine::End) => Ok((length, next)),
                Ok(HeaderLine::Length(n)) => header_block(b, next, Some(n)),
                Ok(HeaderLine::Other) => header_block(b, next, length),
            }
        }
    }
}

/// Where the reading of a header block stops that goes on at byte `at`: behind
/// the line that ends the block or is at fault, or at the end of the input. A
/// block that is over the limit is read to one byte behind the limit.
pub open spec fn header_stop(b: Seq<u8>, at: nat) -> nat
    decreases b.len() - at,
{
    if at >= b.len() {
        at
    } else {
        let next = at + line_len(b.skip(at as int));
        let line = b.subrange(at as int, next as int);
        proof {
            lemma_line_len_bound(b.skip(at as int));
        }
        if next > MAX_HEADER_BYTES {
            (MAX_HEADER_BYTES + 1) as nat
        } else if !valid_utf8(line) {
            next
        } else {
            match header_line(decode_utf8(line)) {
                Err(_) => next,
                Ok(HeaderLine::End) => next,
                _ => header_stop(b, next),
            }
        }
    }
}

/// What is left to read once reading a frame failed with `e`: the header lines
/// that were read are gone, and where the body is cut short all of it is.
pub open spec fn left_after(b: Seq<u8>, e: FrameError) -> Seq<u8> {
    if e == FrameError::BodyEof {
        seq![]
    } else {
        b.skip(header_stop(b, 0) as int)
    }
}

/// The first frame of `b`: its body and the bytes behind it; `None` when `b`
/// is empty.
pub open spec fn first_frame(b: Seq<u8>) -> Result<Option<(Seq<u8>, Seq<u8>)>, FrameError> {
    if b.len() == 0 {
        Ok(None)
    } else {
        match header_block(b, 0, None) {
            Err(e) => Err(e),
            Ok((None, _)) => Err(FrameError::MissingLength),
            Ok((Some(n), start)) => if n > MAX_BODY_BYTES {
                Err(FrameError::BodyTooLarge)
            } else if start + n > b.len() {
                Err(FrameError::BodyEof)
            } else {
                Ok(Some((b.subrange(start as int, start + n), b.skip(start + n))))
            },
        }
    }
}

/// Whether more bytes behind `b` may change what reading a frame of it gives:
/// there is nothing yet, the header block or the body goes on, or the last line
/// that was read has no line feed yet.
pub open spec fn is_open(b: Seq<u8>) -> bool {
    b.len() == 0 || match first_frame(b) {
        Err(FrameError::HeaderTooLarge) => false,
        Err(FrameError::HeaderEof) => true,
        Err(FrameError::BodyEof) => true,
        _ => header_stop(b, 0) == b.len() && b.last() != 10,
    }
}

/// The header block that announces `n` bytes.
pub open spec fn frame_header(n: nat) -> Seq<char> {
    "Content-Length: "@ + decimal(n) + "\r\n\r\n"@
}

/// The bytes of a frame with the given body.
pub open spec fn frame(body: Seq<u8>) -> Seq<u8> {
    encode_utf8(frame_header(body.len())) + body
}

// ─── Reading and writing ───────────────────────────────────────────────

/// `std::str::from_utf8`, with the text copied: it succeeds exactly on valid
/// UTF-8, with the text that those bytes encode.
#[verifier::external_body]
fn utf8_text(bytes: &[u8]) -> (r: Option<String>)
    ensures
        valid_utf8(bytes@) ==> r is Some && r->0@ == decode_utf8(bytes@),
        !valid_utf8(bytes@) ==> r is None,
{
    std::str::from_utf8(bytes).ok().map(|text| text.to_owned())
}

proof fn lemma_line_len(b: Seq<u8>, k: int)
    requires
        0 <= k < b.len(),
        forall|i: int| 0 <= i < k ==> b[i] != 10,
        b[k] == 10 || k + 1 == b.len(),
    ensures
        line_len(b) == k + 1,
    decreases k,
{
    reveal_with_fuel(line_len, 2);
    if k > 0 {
        let t = b.drop_first();
        assert forall|i: int| 0 <= i < k - 1 implies t[i] != 10 by {
            assert(t[i] == b[i + 1]);
        }
        lemma_line_len(t, k - 1);
    } else if b[0] != 10 {
        assert(b.drop_first().len() == 0);
    }
}

/// The first line goes to the first line feed, or to the end.
proof fn lemma_line_shape(b: Seq<u8>)
    ensures
        line_len(b) <= b.len(),
        b.len() > 0 ==> line_len(b) > 0,
        forall|i: int| 0 <= i < line_len(b) - 1 ==> b[i] != 10,
        line_len(b) < b.len() ==> b[line_len(b) - 1] == 10,
    decreases b.len(),
{
    if b.len() > 0 && b[0] != 10 {
        let t = b.drop_first();
        lemma_line_shape(t);
        assert forall|i: int| 0 <= i < line_len(b) - 1 implies b[i] != 10 by {
            if i > 0 {
                assert(b[i] == t[i - 1]);
            }
        }
    }
}

/// Write a single frame at the end of `w`: `Content-Length: N`, an empty line
/// and the body.
pub fn write_frame(w: &mut Vec<u8>, body: &[u8])
    ensures
        final(w)@ == old(w)@ + frame(body@),
{
    let number = decimal_of(body.len() as u64);
    let header = concat3("Content-Length: ", number.as_str(), "\r\n\r\n");
    let mut head = header.as_str().as_bytes_vec();
    w.append(&mut head);
    let ghost start = w@;
    let mut i: usize = 0;
    while i < body.len()
        invariant
            i <= body@.len(),
            w@ == start + body@.take(i as int),
        decreases body@.len() - i,
    {
        w.push(body[i]);
        i = i + 1;
    }
    proof {
        assert(body@.take(i as int) =~= body@);
    }
}

/// The meaning of a header line.
fn read_header_line(line: &str) -> (r: Result<HeaderLine, FrameError>)
    ensures
        r == header_line(line@),
{
    let v = chars_of(line);
    let mut end: usize = v.len();
    proof {
        assert(v@.take(end as int) =~= v@);
    }
    while end > 0 && (v[end - 1] == '\r' || v[end - 1] == '\n')
        invariant
            v@ == line@,
            end <= v@.len(),
            trim_line_end(line@) == trim_line_end(v@.take(end as int)),
        decreases end,
    {
        proof {
            assert(v@.take(end as int).drop_last() =~= v@.take(end - 1));
        }
        end = end - 1;
    }
    let text = text_of(v.as_slice(), 0, end);
    proof {
        assert(text@ =~= v@.take(end as int));
    }
    if end == 0 {
        return Ok(HeaderLine::End);
    }
    let t = chars_of(text.as_str());
    let colon: usize = position_in(t.as_slice(), ':');
    if colon >= t.len() {
        return Err(FrameError::MalformedHeader);
    }
    let name = text_of(t.as_slice(), 0, colon);
    let value = text_of(t.as_slice(), colon + 1, t.len());
    proof {
        assert(name@ =~= text@.take(colon as int));
        assert(value@ =~= text@.skip(colon + 1));
    }
    let name = trim(name.as_str());
    if eq_ignore_ascii_case(name.as_str(), "content-length") {
        let value = trim(value.as_str());
        match parse_usize(value.as_str()) {
            Some(n) => Ok(HeaderLine::Length(n)),
            None => Err(FrameError::InvalidLength),
        }
    } else {
        Ok(HeaderLine::Other)
    }
}

impl ByteReader {
    /// Look for the first frame: where its body starts and ends, or why there is
    /// none, and where the reading of its header block stopped. No more is
    /// looked at of a header block than [`MAX_HEADER_BYTES`].
    fn scan(&self) -> (r: (Result<Option<(usize, usize)>, FrameError>, usize))
        ensures
            r.1 <= self.data@.len(),
            r.1 == self.pos + header_stop(self@, 0),
            match first_frame(self@) {
                Err(e) => r.0 == Err::<Option<(usize, usize)>, FrameError>(e),
                Ok(None) => r.0 == Ok::<Option<(usize, usize)>, FrameError>(None),
                Ok(Some((body, rest))) => (r.0 matches Ok(Some((start, end))) && self.pos <= start
                    <= end <= self.data@.len() && body == self.data@.subrange(
                    start as int,
                    end as int,
                ) && rest == self.data@.skip(end as int)),
            },
    {
        proof {
            use_type_invariant(self);
        }
        let ghost b = self@;
        let base: usize = self.pos;
        let total: usize = self.data.len();
        if base == total {
            return (Ok(None), base);
        }
        let limit: usize = if total - base > MAX_HEADER_BYTES {
            base + MAX_HEADER_BYTES
        } else {
            total
        };
        let mut at: usize = base;
        let mut length: Option<usize> = None;
        loop
            invariant_except_break
                self.data@.len() == total,
                base == self.pos,
                base < total,
                b == self.data@.skip(base as int),
                b == self@,
                limit == base + MAX_HEADER_BYTES && limit < total || limit == total && total - base
                    <= MAX_HEADER_BYTES,
                base <= at <= limit,
                header_block(b, (at - base) as nat, length) == header_block(b, 0, None),
                header_stop(b, (at - base) as nat) == header_stop(b, 0),
            ensures
                self.data@.len() == total,
                base == self.pos,
                base < total,
                b == self.data@.skip(base as int),
                b == self@,
                base <= at <= total,
                header_block(b, 0, None) == Ok::<(Option<usize>, nat), FrameError>(
                    (length, (at - base) as nat),
                ),
                header_stop(b, 0) == at - base,
            decreases total - at,
        {
            if at == total {
                return (Err(FrameError::HeaderEof), at);
            }
            let mut end: usize = at;
            while end < limit && self.data[end] != 10
                invariant
                    self.data@.len() == total,
                    at <= end <= limit <= total,
                    forall|i: int| at <= i < end ==> self.data@[i] != 10,
                decreases limit - end,
            {
                end = end + 1;
            }
            let ghost here = b.skip(at - base);
            proof {
                lemma_line_shape(here);
                assert forall|i: int| 0 <= i < end - at implies here[i] != 10 by {
                    assert(here[i] == self.data@[at + i]);
                }
            }
            if end == limit && limit < total {
                return (Err(FrameError::HeaderTooLarge), limit + 1);
            }
            let next: usize = if end < limit {
                end + 1
            } else {
                end
            };
            proof {
                lemma_line_len(here, next - at - 1);
            }
            let mut line: Vec<u8> = Vec::new();
            let mut k: usize = at;
            while k < next
                invariant
                    self.data@.len() == total,
                    at <= k <= next <= total,
                    line@ == self.data@.subrange(at as int, k as int),
                decreases next - k,
            {
                line.push(self.data[k]);
                k = k + 1;
            }
            proof {
                assert(line@ =~= b.subrange(at - base, next - base));
            }
            let text = match utf8_text(line.as_slice()) {
                Some(text) => text,
                None => {
                    return (Err(FrameError::NotText), next);
                },
            };
            match read_header_line(text.as_str()) {
                Err(e) => {
                    return (Err(e), next);
                },
                Ok(HeaderLine::End) => {
                    at = next;
                    break;
                },
                Ok(HeaderLine::Length(n)) => {
                    length = Some(n);
                    at = next;
                },
                Ok(HeaderLine::Other) => {
                    at = next;
                },
            }
        }
        let n: usize = match length {
            Some(n) => n,
            None => {
                return (Err(FrameError::MissingLength), at);
            },
        };
        if n > MAX_BODY_BYTES {
            return (Err(FrameError::BodyTooLarge), at);
        }
        if n > total - at {
            return (Err(FrameError::BodyEof), at);
        }
        proof {
            assert(b.subrange(at - base, at - base + n) =~= self.data@.subrange(
                at as int,
                at + n,
            ));
            assert(b.skip(at - base + n) =~= self.data@.skip(at + n));
        }
        (Ok(Some((at, at + n))), at)
    }

    /// Whether the first frame is not complete yet, so that more bytes may
    /// change what reading it gives.
    pub fn wants_more(&self) -> (r: bool)
        ensures
            r == is_open(self@),
    {
        proof {
            use_type_invariant(self);
        }
        let total: usize = self.data.len();
        if self.pos == total {
            return true;
        }
        let (found, stop) = self.scan();
        proof {
            assert(self@.last() == self.data@[total - 1]);
        }
        match found {
            Err(FrameError::HeaderTooLarge) => false,
            Err(FrameError::HeaderEof) => true,
            Err(FrameError::BodyEof) => true,
            _ => stop == total && self.data[total - 1] != 10,
        }
    }
}

/// Read a single frame's body. It is `None` at the end of the input, where no
/// frame has begun. The end of the bytes counts as the end of the input, so on a
/// live stream a frame is read once [`ByteReader::wants_more`] is false. A
/// failed read consumes the header lines that it read, and what there is of a
/// body that is cut short; of header lines over the limit it consumes one byte
/// more than the limit.
pub fn read_frame(r: &mut ByteReader) -> (result: Result<Option<Vec<u8>>, FrameError>)
    ensures
        match first_frame(old(r)@) {
            Err(e) => result == Err::<Option<Vec<u8>>, FrameError>(e) && final(r)@ == left_after(
                old(r)@,
                e,
            ),
            Ok(None) => result == Ok::<Option<Vec<u8>>, FrameError>(None) && final(r)@ == old(r)@,
            Ok(Some((body, rest))) => result is Ok && result->Ok_0 is Some && result->Ok_0->0@ == body
                && final(r)@ == rest,
        },
{
    proof {
        use_type_invariant(&*r);
    }
    let ghost b = r@;
    let ghost base = r.pos;
    let (found, stop) = r.scan();
    match found {
        Ok(None) => Ok(None),
        Ok(Some((start, end))) => {
            let mut body: Vec<u8> = Vec::new();
            let mut k: usize = start;
            while k < end
                invariant
                    start <= k <= end <= r.data@.len(),
                    body@ == r.data@.subrange(start as int, k as int),
                decreases end - k,
            {
                body.push(r.data[k]);
                k = k + 1;
            }
            r.pos = end;
            Ok(Some(body))
        },
        Err(e) => {
            if e == FrameError::BodyEof {
                r.pos = r.data.len();
                proof {
                    assert(r@ =~= seq![]);
                }
            } else {
                r.pos = stop;
                proof {
                    assert(r@ =~= b.skip(stop - base));
                }
            }
            Err(e)
        },
    }
}

// ─── Laws ──────────────────────────────────────────────────────────────

/// ASCII characters are encoded one byte each.
proof fn lemma_ascii_bytes(s: Seq<char>)
    requires
        is_ascii_chars(s),
    ensures
        encode_utf8(s).len() == s.len(),
        forall|i: int| 0 <= i < s.len() ==> encode_utf8(s)[i] == #[trigger] s[i] as u8,
        valid_utf8(encode_utf8(s)),
        decode_utf8(encode_utf8(s)) == s,
{
    is_ascii_chars_encode_utf8(s);
    encode_utf8_valid_utf8(s);
    encode_utf8_decode_utf8(s);
}

/// Text that neither starts nor ends with white space is left alone.
proof fn lemma_trimmed_tight(s: Seq<char>)
    requires
        s.len() > 0 ==> !is_space(s[0]) && !is_space(s.last()),
    ensures
        trimmed(s) == s,
{
}

/// A header line splits at its first colon.
proof fn lemma_split_at(name: Seq<char>, value: Seq<char>)
    requires
        forall|i: int| 0 <= i < name.len() ==> name[i] != ':',
    ensures
        split_once(name + seq![':'] + value, ':') == Some((name, value)),
{
    let text = name + seq![':'] + value;
    crate::text::lemma_position_is(text, ':', name.len() as int);
    assert(text.take(name.len() as int) =~= name);
    assert(text.skip(name.len() as int + 1) =~= value);
}

/// Both characters of the line ending go.
proof fn lemma_trim_crlf(text: Seq<char>)
    requires
        text.len() > 0 ==> text.last() != '\r' && text.last() != '\n',
    ensures
        trim_line_end(text + "\r\n"@) == text,
{
    reveal_strlit("\r\n");
    let line = text + "\r\n"@;
    assert(line.drop_last() =~= text.push('\r'));
    assert(text.push('\r').drop_last() =~= text);
    assert(trim_line_end(line) == trim_line_end(text.push('\r')));
    assert(trim_line_end(text.push('\r')) == trim_line_end(text));
}

/// The line `Content-Length: n` announces `n` bytes.
proof fn lemma_length_line(n: nat)
    requires
        n <= usize::MAX,
    ensures
        header_line("Content-Length: "@ + decimal(n) + "\r\n"@) == Ok::<HeaderLine, FrameError>(
            HeaderLine::Length(n as usize),
        ),
{
    let d = decimal(n);
    let name = "Content-Length"@;
    let value = seq![' '] + d;
    let text = "Content-Length: "@ + d;
    crate::text::lemma_decimal(n);
    assert(is_digit(d[0]) && is_digit(d.last()));
    assert(trim_line_end(text + "\r\n"@) == text) by {
        assert(text.last() == d.last());
        lemma_trim_crlf(text);
    }
    assert(text =~= name + seq![':'] + value && text.len() > 0) by {
        reveal_strlit("Content-Length: ");
        reveal_strlit("Content-Length");
    }
    assert(split_once(text, ':') == Some((name, value))) by {
        reveal_strlit("Content-Length");
        lemma_split_at(name, value);
    }
    assert(trimmed(name) == name && same_ignoring_ascii_case(name, "content-length"@)) by {
        reveal_strlit("Content-Length");
        reveal_strlit("content-length");
        lemma_trimmed_tight(name);
    }
    assert(trimmed(value) == d) by {
        assert(value.drop_first() =~= d);
        assert(trim_start(value) == trim_start(d));
        lemma_trimmed_tight(d);
    }
    crate::text::lemma_number_of_decimal(n, usize::MAX as nat);
}

/// One line of ASCII text, with its line feed, is one line of the stream.
proof fn lemma_line_at(b: Seq<u8>, at: int, line: Seq<char>)
    requires
        is_ascii_chars(line),
        line.len() > 0,
        line.last() == '\n',
        forall|i: int| 0 <= i < line.len() - 1 ==> line[i] != '\n',
        0 <= at,
        at + line.len() <= b.len(),
        b.subrange(at, at + line.len()) == encode_utf8(line),
    ensures
        line_len(b.skip(at)) == line.len(),
        valid_utf8(b.subrange(at, at + line.len())),
        decode_utf8(b.subrange(at, at + line.len())) == line,
{
    lemma_ascii_bytes(line);
    let c = b.skip(at);
    let k = line.len() - 1;
    assert forall|i: int| 0 <= i <= k implies c[i] == #[trigger] line[i] as u8 by {
        assert(c[i] == b.subrange(at, at + line.len())[i]);
    }
    assert forall|i: int| 0 <= i < k implies c[i] != 10 by {
        assert(c[i] == line[i] as u8);
        assert('\0' <= line[i] <= '\u{7f}');
    }
    assert(c[k] == line[k] as u8);
    lemma_line_len(c, k);
}

/// The first line of the written header block.
spec fn length_line(n: nat) -> Seq<char> {
    "Content-Length: "@ + decimal(n) + "\r\n"@
}

proof fn lemma_length_line_ascii(n: nat)
    ensures
        is_ascii_chars(length_line(n)),
        length_line(n).len() == 18 + decimal(n).len(),
        length_line(n).last() == '\n',
        forall|i: int| 0 <= i < length_line(n).len() - 1 ==> length_line(n)[i] != '\n',
{
    reveal_strlit("Content-Length: ");
    reveal_strlit("\r\n");
    crate::text::lemma_decimal(n);
    let d = decimal(n);
    let l = length_line(n);
    assert forall|i: int| 0 <= i < l.len() implies '\0' <= #[trigger] l[i] <= '\u{7f}' && (i < l.len() - 1
        ==> l[i] != '\n') by {
        if 16 <= i < 16 + d.len() {
            assert(l[i] == d[i - 16]);
            assert(is_digit(d[i - 16]));
        }
    }
}

/// The header block is its two lines.
proof fn lemma_header_lines(n: nat)
    ensures
        is_ascii_chars("\r\n"@),
        frame_header(n) == length_line(n) + "\r\n"@,
        encode_utf8(frame_header(n)) == encode_utf8(length_line(n)) + encode_utf8("\r\n"@),
        encode_utf8(length_line(n)).len() == length_line(n).len(),
        encode_utf8("\r\n"@).len() == 2,
{
    reveal_strlit("\r\n");
    reveal_strlit("\r\n\r\n");
    lemma_length_line_ascii(n);
    let l1 = length_line(n);
    let l2 = "\r\n"@;
    let h = frame_header(n);
    assert(h =~= l1 + l2);
    assert forall|i: int| 0 <= i < h.len() implies '\0' <= #[trigger] h[i] <= '\u{7f}' by {
        if i < l1.len() {
            assert(h[i] == l1[i]);
        } else {
            assert(h[i] == l2[i - l1.len()]);
        }
    }
    lemma_ascii_bytes(h);
    lemma_ascii_bytes(l1);
    lemma_ascii_bytes(l2);
    assert(encode_utf8(h) =~= encode_utf8(l1) + encode_utf8(l2)) by {
        assert forall|i: int| 0 <= i < h.len() implies encode_utf8(h)[i] == (encode_utf8(l1)
            + encode_utf8(l2))[i] by {
            assert(encode_utf8(h)[i] == h[i] as u8);
            if i < l1.len() {
                assert(h[i] == l1[i]);
            } else {
                assert(h[i] == l2[i - l1.len()]);
            }
        }
    }
}

/// The bytes of the written header block, followed by anything, read back as
/// that header block.
proof fn lemma_header_round_trip(n: nat, tail: Seq<u8>)
    requires
        n <= usize::MAX,
        encode_utf8(frame_header(n)).len() <= MAX_HEADER_BYTES,
    ensures
        header_block(encode_utf8(frame_header(n)) + tail, 0, None) == Ok::<
            (Option<usize>, nat),
            FrameError,
        >((Some(n as usize), encode_utf8(frame_header(n)).len())),
{
    let l1 = length_line(n);
    let l2 = "\r\n"@;
    let b = encode_utf8(frame_header(n)) + tail;
    let k = l1.len();
    lemma_header_lines(n);
    lemma_length_line_ascii(n);
    lemma_length_line(n);
    assert(b.subrange(0, k as int) =~= encode_utf8(l1));
    lemma_line_at(b, 0, l1);
    assert(header_block(b, 0, None) == header_block(b, k, Some(n as usize)));
    assert(b.subrange(k as int, k as int + 2) =~= encode_utf8(l2));
    assert(l2.len() == 2 && l2[0] == '\r' && l2[1] == '\n') by {
        reveal_strlit("\r\n");
    }
    lemma_line_at(b, k as int, l2);
    assert(header_line(l2) == Ok::<HeaderLine, FrameError>(HeaderLine::End)) by {
        lemma_trim_crlf(seq![]);
        assert(seq![] + l2 =~= l2);
    }
}

/// What is written is read back: a frame of at most [`MAX_BODY_BYTES`] yields
/// its body, and leaves exactly the bytes that follow it.
pub proof fn law_read_gives_back_what_was_written(body: Seq<u8>, rest: Seq<u8>)
    requires
        body.len() <= MAX_BODY_BYTES,
    ensures
        first_frame(frame(body) + rest) == Ok::<Option<(Seq<u8>, Seq<u8>)>, FrameError>(
            Some((body, rest)),
        ),
{
    let n = body.len();
    let h = encode_utf8(frame_header(n));
    let b = frame(body) + rest;
    lemma_header_len(n);
    lemma_header_round_trip(n, body + rest);
    assert(b =~= h + (body + rest));
    assert(b.subrange(h.len() as int, (h.len() + n) as int) =~= body);
    assert(b.skip((h.len() + n) as int) =~= rest);
}

/// Frames written one after another are read back one after another, and then
/// the input is at its end.
pub proof fn law_frames_read_back_in_order(first: Seq<u8>, second: Seq<u8>)
    requires
        first.len() <= MAX_BODY_BYTES,
        second.len() <= MAX_BODY_BYTES,
    ensures
        first_frame(frame(first) + frame(second)) == Ok::<Option<(Seq<u8>, Seq<u8>)>, FrameError>(
            Some((first, frame(second))),
        ),
        first_frame(frame(second)) == Ok::<Option<(Seq<u8>, Seq<u8>)>, FrameError>(
            Some((second, seq![])),
        ),
        first_frame(seq![]) == Ok::<Option<(Seq<u8>, Seq<u8>)>, FrameError>(None),
{
    law_read_gives_back_what_was_written(first, frame(second));
    law_read_gives_back_what_was_written(second, seq![]);
    assert(frame(second) + seq![] =~= frame(second));
}

/// Reading a header block goes on until it has read something of it, and no
/// further than one byte behind the limit.
proof fn lemma_header_stop(b: Seq<u8>, at: nat)
    requires
        at <= b.len(),
        at <= MAX_HEADER_BYTES,
    ensures
        at <= header_stop(b, at) <= b.len(),
        header_stop(b, at) <= MAX_HEADER_BYTES + 1,
        at < b.len() ==> at < header_stop(b, at),
    decreases b.len() - at,
{
    if at < b.len() {
        lemma_line_len_bound(b.skip(at as int));
        let next = at + line_len(b.skip(at as int));
        if next <= MAX_HEADER_BYTES {
            lemma_header_stop(b, next);
        }
    }
}

/// What a header block says is settled once its last line is: more bytes behind
/// it make no difference.
proof fn lemma_header_settled(b: Seq<u8>, more: Seq<u8>, at: nat, length: Option<usize>)
    requires
        at <= b.len(),
        header_block(b, at, length) != Err::<(Option<usize>, nat), FrameError>(
            FrameError::HeaderEof,
        ),
        header_block(b, at, length) == Err::<(Option<usize>, nat), FrameError>(
            FrameError::HeaderTooLarge,
        ) || header_stop(b, at) != b.len() || b.last() == 10,
    ensures
        header_block(b + more, at, length) == header_block(b, at, length),
        header_stop(b + more, at) == header_stop(b, at),
        header_block(b, at, length) is Ok ==> header_stop(b, at)
            == header_block(b, at, length)->Ok_0.1 && header_stop(b, at) <= b.len(),
    decreases b.len() - at,
{
    let c = b + more;
    let here = b.skip(at as int);
    let there = c.skip(at as int);
    assert(there =~= here + more);
    lemma_line_shape(here);
    lemma_line_shape(there);
    let next = at + line_len(here);
    if here[line_len(here) - 1] == 10 {
        lemma_line_len(there, line_len(here) - 1);
        assert(c.subrange(at as int, next as int) =~= b.subrange(at as int, next as int));
        if next <= MAX_HEADER_BYTES && valid_utf8(b.subrange(at as int, next as int)) {
            match header_line(decode_utf8(b.subrange(at as int, next as int))) {
                Ok(HeaderLine::Length(n)) => lemma_header_settled(b, more, next, Some(n)),
                Ok(HeaderLine::Other) => lemma_header_settled(b, more, next, length),
                _ => {},
            }
        }
    } else {
        assert(next == b.len());
        assert(b.last() == here.last());
        assert(line_len(there) >= line_len(here)) by {
            if line_len(there) < line_len(here) {
                assert(there[line_len(there) - 1] == here[line_len(there) - 1]);
            }
        }
    }
}

/// What is buffered of a header block is bounded, however much a peer sends:
/// reading one takes at most one byte more than [`MAX_HEADER_BYTES`], and it
/// takes as many where no line feed comes.
pub proof fn law_the_header_block_is_bounded(b: Seq<u8>)
    ensures
        header_stop(b, 0) <= MAX_HEADER_BYTES + 1,
        header_stop(b, 0) <= b.len(),
        b.len() > MAX_HEADER_BYTES && (forall|i: int| 0 <= i < b.len() ==> b[i] != 10)
            ==> first_frame(b) == Err::<Option<(Seq<u8>, Seq<u8>)>, FrameError>(
            FrameError::HeaderTooLarge,
        ) && left_after(b, FrameError::HeaderTooLarge) == b.skip(MAX_HEADER_BYTES + 1),
{
    lemma_header_stop(b, 0);
    assert(b.skip(0) =~= b);
    lemma_line_shape(b);
}

/// A frame that is complete is read the same, whatever arrives behind it: its
/// body or its fault stays, and what arrived is left to read.
pub proof fn law_what_is_complete_stays(b: Seq<u8>, more: Seq<u8>)
    requires
        !is_open(b),
    ensures
        match first_frame(b) {
            Ok(Some((body, rest))) => first_frame(b + more) == Ok::<
                Option<(Seq<u8>, Seq<u8>)>,
                FrameError,
            >(Some((body, rest + more))),
            Ok(None) => false,
            Err(e) => first_frame(b + more) == Err::<Option<(Seq<u8>, Seq<u8>)>, FrameError>(e)
                && left_after(b + more, e) == left_after(b, e) + more,
        },
{
    let c = b + more;
    lemma_header_settled(b, more, 0, None);
    lemma_header_stop(b, 0);
    let stop = header_stop(b, 0) as int;
    assert(c.skip(stop) =~= b.skip(stop) + more);
    match first_frame(b) {
        Ok(Some((body, rest))) => {
            let n = body.len() as int;
            assert(c.subrange(stop, stop + n) =~= b.subrange(stop, stop + n));
            assert(c.skip(stop + n) =~= b.skip(stop + n) + more);
        },
        _ => {},
    }
}

/// A failed read moves on: it leaves the end of what there was, and less of it,
/// so that reading again and again comes to the end of the input.
pub proof fn law_a_failed_read_moves_on(b: Seq<u8>)
    requires
        first_frame(b) is Err,
    ensures
        left_after(b, first_frame(b)->Err_0).len() < b.len(),
        left_after(b, first_frame(b)->Err_0).is_suffix_of(b),
{
    lemma_header_stop(b, 0);
}

/// A header line without a colon is skipped: the next read starts behind it.
pub proof fn law_reading_resumes_behind_a_malformed_line(line: Seq<u8>, rest: Seq<u8>)
    requires
        0 < line.len() <= MAX_HEADER_BYTES,
        line.last() == 10,
        forall|i: int| 0 <= i < line.len() - 1 ==> line[i] != 10,
        valid_utf8(line),
        header_line(decode_utf8(line)) == Err::<HeaderLine, FrameError>(
            FrameError::MalformedHeader,
        ),
    ensures
        first_frame(line + rest) == Err::<Option<(Seq<u8>, Seq<u8>)>, FrameError>(
            FrameError::MalformedHeader,
        ),
        left_after(line + rest, FrameError::MalformedHeader) == rest,
{
    let b = line + rest;
    assert(b.skip(0) =~= b);
    lemma_line_len(b, line.len() - 1);
    assert(b.subrange(0, line.len() as int) =~= line);
    assert(b.skip(line.len() as int) =~= rest);
}

/// The header block of an accepted body is itself accepted.
proof fn lemma_header_len(n: nat)
    requires
        n <= MAX_BODY_BYTES,
    ensures
        encode_utf8(frame_header(n)).len() <= MAX_HEADER_BYTES,
{
    lemma_header_lines(n);
    lemma_length_line_ascii(n);
    assert(decimal(n).len() <= 8) by {
        reveal_with_fuel(decimal, 9);
    }
}

/// A frame announces the bytes of its body by their number, in a header block of
/// one line, and the body follows as it is. A header block takes at most 8 KiB,
/// and a body at most 64 MiB.
pub proof fn law_a_frame_announces_its_body(body: Seq<u8>)
    ensures
        frame(body) == encode_utf8("Content-Length: "@ + decimal(body.len()) + "\r\n\r\n"@) + body,
        MAX_HEADER_BYTES == 8 * 1024,
        MAX_BODY_BYTES == 64 * 1024 * 1024,
{
}

/// A body that is cut short is no frame, and neither is one that is announced as
/// larger than a body may be, however much of it is there.
pub proof fn law_an_announced_body_must_be_there(n: nat, body: Seq<u8>)
    requires
        n <= usize::MAX,
        n > MAX_BODY_BYTES || body.len() < n,
    ensures
        first_frame(
            encode_utf8("Content-Length: "@ + decimal(n) + "\r\n\r\n"@) + body,
        ) == Err::<Option<(Seq<u8>, Seq<u8>)>, FrameError>(
            if n > MAX_BODY_BYTES {
                FrameError::BodyTooLarge
            } else {
                FrameError::BodyEof
            },
        ),
{
    lemma_header_lines(n);
    lemma_length_line_ascii(n);
    assert(decimal(n).len() <= 20) by {
        reveal_with_fuel(decimal, 21);
    }
    lemma_header_round_trip(n, body);
    let h = encode_utf8(frame_header(n));
    let b = h + body;
    assert(b.len() == h.len() + body.len());
}

/// A header line is a name and a value with a colon between them; only the
/// content length counts, whatever the case of its name and the blanks around its
/// value, and it must be a number. Any other header is passed over, and a line
/// without a colon is at fault.
pub proof fn law_a_header_line_is_a_name_and_a_value(name: Seq<char>, value: Seq<char>)
    requires
        forall|i: int| 0 <= i < name.len() ==> name[i] != ':',
        value.len() > 0 ==> value.last() != '\r' && value.last() != '\n',
    ensures
        ({
            let read = header_line(name + seq![':'] + value + "\r\n"@);
            &&& same_ignoring_ascii_case(trimmed(name), "content-length"@) && number(
                trimmed(value),
                usize::MAX as nat,
            ) is Some ==> read == Ok::<HeaderLine, FrameError>(
                HeaderLine::Length(number(trimmed(value), usize::MAX as nat)->0 as usize),
            )
            &&& same_ignoring_ascii_case(trimmed(name), "content-length"@) && number(
                trimmed(value),
                usize::MAX as nat,
            ) is None ==> read == Err::<HeaderLine, FrameError>(FrameError::InvalidLength)
            &&& !same_ignoring_ascii_case(trimmed(name), "content-length"@) ==> read == Ok::<
                HeaderLine,
                FrameError,
            >(HeaderLine::Other)
        }),
        name.len() > 0 && name.last() != '\r' && name.last() != '\n' ==> header_line(
            name + "\r\n"@,
        ) == Err::<HeaderLine, FrameError>(FrameError::MalformedHeader),
        header_line("\r\n"@) == Ok::<HeaderLine, FrameError>(HeaderLine::End),
{
    let text = name + seq![':'] + value;
    reveal_strlit("\r\n");
    assert(text.last() != '\r' && text.last() != '\n') by {
        if value.len() == 0 {
            assert(text.last() == ':');
        } else {
            assert(text.last() == value.last());
        }
    }
    lemma_trim_crlf(text);
    crate::text::lemma_position_is(text, ':', name.len() as int);
    assert(text.take(name.len() as int) =~= name);
    assert(text.skip(name.len() as int + 1) =~= value);
    if name.len() > 0 && name.last() != '\r' && name.last() != '\n' {
        lemma_trim_crlf(name);
        crate::text::lemma_position_is(name, ':', name.len() as int);
    }
    lemma_trim_crlf(seq![]);
    assert(seq![] + "\r\n"@ =~= "\r\n"@);
}

} // verus!
