//! Incremental decoding of HTTP/1.1 chunked transfer encoding.
//!
//! The decoder is a state machine fed with whatever fragments the transport
//! hands over. Its state after any number of feeds is a function of the
//! concatenated input alone (`decode_run`), so the way the transport splits
//! the stream cannot change what comes out.

use vstd::prelude::*;
use crate::error::IpfsErrorKind;

verus! {

pub open spec fn is_hex_digit(b: u8) -> bool {
    (0x30 <= b && b <= 0x39) || (0x61 <= b && b <= 0x66) || (0x41 <= b && b <= 0x46)
}

pub open spec fn hex_digit_value(b: u8) -> nat {
    if 0x30 <= b && b <= 0x39 {
        (b - 0x30) as nat
    } else if 0x61 <= b && b <= 0x66 {
        (b - 0x61 + 10) as nat
    } else {
        (b - 0x41 + 10) as nat
    }
}

/// The number that a run of hex digits spells, most significant first.
pub open spec fn hex_value(s: Seq<u8>) -> nat
    decreases s.len(),
{
    if s.len() == 0 {
        0
    } else {
        hex_value(s.drop_last()) * 16 + hex_digit_value(s.last())
    }
}

/// What the size line at the head of a buffer says.
pub enum ChunkHead {
    /// The line is whole: the chunk's data begins at `pos`.
    Complete { pos: nat, size: nat },
    /// The buffer ends before the line does.
    Partial,
    /// The line is malformed.
    Invalid,
}

pub open spec fn is_blank(b: u8) -> bool {
    b == 0x09 || b == 0x20
}

/// The chunk-size line read from position `i` on: hex digits (at most 16),
/// then optional blanks, then an optional `;` extension of any bytes, then
/// CRLF. `in_size` holds while digits may still come, `in_ext` once the
/// extension has begun.
pub open spec fn scan_size_line(
    buf: Seq<u8>,
    i: nat,
    size: nat,
    count: nat,
    in_size: bool,
    in_ext: bool,
) -> ChunkHead
    decreases buf.len() - i,
{
    if i >= buf.len() {
        ChunkHead::Partial
    } else {
        let b = buf[i as int];
        if is_hex_digit(b) && in_size {
            if count > 15 {
                ChunkHead::Invalid
            } else {
                scan_size_line(buf, i + 1, size * 16 + hex_digit_value(b), count + 1, in_size, in_ext)
            }
        } else if b == 0x0d {
            if i + 1 >= buf.len() {
                ChunkHead::Partial
            } else if buf[i + 1int] == 0x0a {
                ChunkHead::Complete { pos: i + 2, size }
            } else {
                ChunkHead::Invalid
            }
        } else if b == 0x3b && !in_ext {
            scan_size_line(buf, i + 1, size, count, false, true)
        } else if is_blank(b) && !in_ext && !in_size {
            scan_size_line(buf, i + 1, size, count, in_size, in_ext)
        } else if is_blank(b) && in_size {
            scan_size_line(buf, i + 1, size, count, false, in_ext)
        } else if in_ext {
            scan_size_line(buf, i + 1, size, count, in_size, in_ext)
        } else {
            ChunkHead::Invalid
        }
    }
}

pub open spec fn chunk_head(buf: Seq<u8>) -> ChunkHead {
    scan_size_line(buf, 0, 0, 0, true, false)
}

/// The decoder's abstract state.
pub enum DecodeState {
    /// Payload decoded so far, and the bytes not yet consumed.
    Waiting { out: Seq<u8>, rest: Seq<u8> },
    /// The terminating zero-size chunk was seen.
    Done { out: Seq<u8> },
    /// The framing is broken.
    Failed,
}

/// Consume every whole chunk at the head of `rest`.
pub open spec fn decode_run(out: Seq<u8>, rest: Seq<u8>) -> DecodeState
    decreases rest.len(),
{
    match chunk_head(rest) {
        ChunkHead::Invalid => DecodeState::Failed,
        ChunkHead::Partial => DecodeState::Waiting { out, rest },
        ChunkHead::Complete { pos, size } => {
            let end = pos + size;
            if size == 0 {
                DecodeState::Done { out }
            } else if rest.len() < end + 2 {
                DecodeState::Waiting { out, rest }
            } else if rest[end as int] != 0x0d || rest[end + 1int] != 0x0a {
                DecodeState::Failed
            } else {
                decode_run(out + rest.subrange(pos as int, end as int), rest.skip(end + 2int))
            }
        },
    }
}

/// One feed: a waiting decoder takes the fragment; a finished one ignores it.
pub open spec fn feed_step(s: DecodeState, fragment: Seq<u8>) -> DecodeState {
    match s {
        DecodeState::Waiting { out, rest } => decode_run(out, rest + fragment),
        _ => s,
    }
}

pub open spec fn initial_state() -> DecodeState {
    DecodeState::Waiting { out: Seq::empty(), rest: Seq::empty() }
}

/// The state after feeding the fragments one by one.
pub open spec fn feed_all(fragments: Seq<Seq<u8>>) -> DecodeState
    decreases fragments.len(),
{
    if fragments.len() == 0 {
        initial_state()
    } else {
        feed_step(feed_all(fragments.drop_last()), fragments.last())
    }
}

/// Lower-case hex digits of `n`, without leading zeros.
pub open spec fn hex_digit_of(d: nat) -> u8 {
    if d < 10 {
        (0x30 + d) as u8
    } else {
        (0x61 + d - 10) as u8
    }
}

pub open spec fn hex_of(n: nat) -> Seq<u8>
    decreases n,
{
    if n < 16 {
        seq![hex_digit_of(n)]
    } else {
        hex_of(n / 16).push(hex_digit_of(n % 16))
    }
}

pub open spec fn crlf() -> Seq<u8> {
    seq![0x0du8, 0x0au8]
}

/// One chunk on the wire.
pub open spec fn encode_chunk(data: Seq<u8>) -> Seq<u8> {
    hex_of(data.len()) + crlf() + data + crlf()
}

/// A whole chunked body: each chunk, then the zero-size chunk and the empty
/// trailer.
pub open spec fn encode_chunked(chunks: Seq<Seq<u8>>) -> Seq<u8>
    decreases chunks.len(),
{
    if chunks.len() == 0 {
        seq![0x30u8] + crlf() + crlf()
    } else {
        encode_chunk(chunks[0]) + encode_chunked(chunks.drop_first())
    }
}

pub open spec fn valid_chunks(chunks: Seq<Seq<u8>>) -> bool {
    forall|i: int|
        0 <= i < chunks.len() ==> 0 < #[trigger] chunks[i].len() < 0x1_0000_0000_0000_0000
}

/// A size line that is whole, or malformed, stays so as bytes arrive.
proof fn lemma_scan_extend(
    b: Seq<u8>,
    c: Seq<u8>,
    i: nat,
    size: nat,
    count: nat,
    in_size: bool,
    in_ext: bool,
)
    requires
        !(scan_size_line(b, i, size, count, in_size, in_ext) is Partial),
    ensures
        scan_size_line(b + c, i, size, count, in_size, in_ext) == scan_size_line(
            b,
            i,
            size,
            count,
            in_size,
            in_ext,
        ),
    decreases b.len() - i,
{
    let x = b[i as int];
    assert((b + c)[i as int] == x);
    if i + 1 < b.len() {
        assert((b + c)[i + 1int] == b[i + 1int]);
    }
    if is_hex_digit(x) && in_size {
        if count <= 15 {
            lemma_scan_extend(b, c, i + 1, size * 16 + hex_digit_value(x), count + 1, in_size, in_ext);
        }
    } else if x == 0x0d {
    } else if x == 0x3b && !in_ext {
        lemma_scan_extend(b, c, i + 1, size, count, false, true);
    } else if is_blank(x) && !in_ext && !in_size {
        lemma_scan_extend(b, c, i + 1, size, count, in_size, in_ext);
    } else if is_blank(x) && in_size {
        lemma_scan_extend(b, c, i + 1, size, count, false, in_ext);
    } else if in_ext {
        lemma_scan_extend(b, c, i + 1, size, count, in_size, in_ext);
    }
}

proof fn lemma_chunk_head_extend(b: Seq<u8>, c: Seq<u8>)
    requires
        !(chunk_head(b) is Partial),
    ensures
        chunk_head(b + c) == chunk_head(b),
{
    lemma_scan_extend(b, c, 0, 0, 0, true, false);
}

/// A line of `k` hex digits and CRLF is read as the digits' value.
proof fn lemma_scan_digits(buf: Seq<u8>, k: nat, j: nat)
    requires
        j <= k <= 16,
        k + 2 <= buf.len(),
        forall|i: int| 0 <= i < k ==> is_hex_digit(#[trigger] buf[i]),
        buf[k as int] == 0x0d,
        buf[k + 1int] == 0x0a,
    ensures
        scan_size_line(buf, j, hex_value(buf.take(j as int)), j, true, false) == (ChunkHead::Complete {
            pos: k + 2,
            size: hex_value(buf.take(k as int)),
        }),
    decreases k - j,
{
    if j < k {
        assert(buf.take(j + 1int).drop_last() =~= buf.take(j as int));
        assert(buf.take(j + 1int).last() == buf[j as int]);
        lemma_scan_digits(buf, k, j + 1);
    }
}

proof fn lemma_hex_of_digits(n: nat)
    ensures
        forall|i: int| 0 <= i < hex_of(n).len() ==> is_hex_digit(#[trigger] hex_of(n)[i]),
        hex_value(hex_of(n)) == n,
        hex_of(n).len() >= 1,
    decreases n,
{
    if n >= 16 {
        lemma_hex_of_digits(n / 16);
        let h = hex_of(n / 16);
        assert(hex_of(n).drop_last() =~= h);
        assert(hex_digit_value(hex_digit_of(n % 16)) == n % 16);
        assert((n / 16) * 16 + n % 16 == n);
        assert(hex_of(n).last() == hex_digit_of(n % 16));
        assert(hex_value(hex_of(n)) == hex_value(h) * 16 + hex_digit_value(hex_digit_of(n % 16)));
    } else {
        assert(hex_of(n).drop_last() =~= Seq::<u8>::empty());
        assert(hex_digit_value(hex_digit_of(n)) == n);
        assert(hex_value(Seq::<u8>::empty()) == 0);
        assert(hex_value(hex_of(n)) == hex_value(Seq::<u8>::empty()) * 16 + hex_digit_value(hex_digit_of(n)));
    }
}

pub open spec fn pow16(k: nat) -> nat
    decreases k,
{
    if k == 0 {
        1
    } else {
        16 * pow16((k - 1) as nat)
    }
}

proof fn lemma_hex_of_len(n: nat, k: nat)
    requires
        n < pow16(k),
        k >= 1,
    ensures
        hex_of(n).len() <= k,
    decreases k,
{
    if n >= 16 {
        let p = pow16((k - 1) as nat);
        assert(n / 16 < p) by (nonlinear_arith)
            requires
                n < 16 * p,
        ;
        lemma_hex_of_len(n / 16, (k - 1) as nat);
    }
}

proof fn lemma_hex_of_short(n: nat)
    requires
        n < 0x1_0000_0000_0000_0000,
    ensures
        hex_of(n).len() <= 16,
{
    reveal_with_fuel(pow16, 17);
    assert(pow16(16) == 0x1_0000_0000_0000_0000);
    lemma_hex_of_len(n, 16);
}

/// The size line that the encoder writes is read back as the same size.
proof fn lemma_head_of_size_line(n: nat, rest: Seq<u8>)
    requires
        n < 0x1_0000_0000_0000_0000,
    ensures
        chunk_head(hex_of(n) + crlf() + rest) == (ChunkHead::Complete {
            pos: hex_of(n).len() + 2,
            size: n,
        }),
{
    let h = hex_of(n);
    lemma_hex_of_digits(n);
    lemma_hex_of_short(n);
    let buf = hex_of(n) + crlf() + rest;
    let k = h.len();
    assert forall|i: int| 0 <= i < k implies is_hex_digit(#[trigger] buf[i]) by {
        assert(buf[i] == h[i]);
    }
    assert(buf.take(k as int) =~= h);
    assert(buf.take(0) =~= Seq::<u8>::empty());
    lemma_scan_digits(buf, k, 0);
}

/// Feeding more bytes continues the run where it stopped.
pub proof fn lemma_decode_run_append(out: Seq<u8>, b1: Seq<u8>, b2: Seq<u8>)
    ensures
        match decode_run(out, b1) {
            DecodeState::Waiting { out: o, rest: r } => decode_run(out, b1 + b2) == decode_run(
                o,
                r + b2,
            ),
            other => decode_run(out, b1 + b2) == other,
        },
    decreases b1.len(),
{
    let h = chunk_head(b1);
    if !(h is Partial) {
        lemma_chunk_head_extend(b1, b2);
        match h {
            ChunkHead::Complete { pos, size } => {
                if size != 0 && b1.len() >= pos + size + 2 {
                    let b = b1 + b2;
                    let end = (pos + size) as int;
                    assert(b[end] == b1[end]);
                    assert(b[end + 1] == b1[end + 1]);
                    assert(b.subrange(pos as int, end) =~= b1.subrange(pos as int, end));
                    assert(b.skip(end + 2) =~= b1.skip(end + 2) + b2);
                    lemma_decode_run_append(out + b1.subrange(pos as int, end), b1.skip(end + 2), b2);
                }
            },
            _ => {},
        }
    }
}

/// Law: the decoder's state depends only on the concatenation of what it was
/// fed, never on where the transport split the stream.
pub proof fn lemma_feed_all_split_independent(fragments: Seq<Seq<u8>>)
    ensures
        feed_all(fragments) == decode_run(Seq::empty(), fragments.flatten_alt()),
    decreases fragments.len(),
{
    if fragments.len() == 0 {
        assert(decode_run(Seq::empty(), Seq::empty()) == initial_state());
    } else {
        let init = fragments.drop_last();
        lemma_feed_all_split_independent(init);
        lemma_decode_run_append(Seq::empty(), init.flatten_alt(), fragments.last());
    }
}

/// A well-formed chunked stream decodes to the concatenation of its chunks.
proof fn lemma_decode_encoded(out: Seq<u8>, chunks: Seq<Seq<u8>>)
    requires
        valid_chunks(chunks),
    ensures
        decode_run(out, encode_chunked(chunks)) == (DecodeState::Done { out: out + chunks.flatten() }),
    decreases chunks.len(),
{
    if chunks.len() == 0 {
        lemma_head_of_size_line(0, crlf());
        assert(hex_of(0) =~= seq![0x30u8]);
        assert(out + chunks.flatten() =~= out);
    } else {
        let c = chunks[0];
        let tail = chunks.drop_first();
        assert(valid_chunks(tail)) by {
            assert forall|i: int| 0 <= i < tail.len() implies 0 < #[trigger] tail[i].len()
                < 0x1_0000_0000_0000_0000 by {
                assert(tail[i] == chunks[i + 1]);
            }
        }
        let h = hex_of(c.len());
        let rest = encode_chunked(chunks);
        let after = c + crlf() + encode_chunked(tail);
        assert(rest =~= h + crlf() + after);
        lemma_head_of_size_line(c.len(), after);
        let pos = h.len() as int + 2;
        let end = pos + c.len() as int;
        assert(rest[end] == 0x0d);
        assert(rest[end + 1] == 0x0a);
        assert(rest.subrange(pos, end) =~= c);
        assert(rest.skip(end + 2) =~= encode_chunked(tail));
        lemma_decode_encoded(out + c, tail);
        assert(out + c + tail.flatten() =~= out + chunks.flatten());
    }
}

/// Law: however a well-formed chunked stream is split into reads, feeding the
/// reads in order ends with exactly the concatenated chunk payloads.
pub proof fn lemma_chunked_decode_correct(chunks: Seq<Seq<u8>>, fragments: Seq<Seq<u8>>)
    requires
        valid_chunks(chunks),
        fragments.flatten() == encode_chunked(chunks),
    ensures
        feed_all(fragments) == (DecodeState::Done { out: chunks.flatten() }),
{
    fragments.lemma_flatten_and_flatten_alt_are_equivalent();
    lemma_feed_all_split_independent(fragments);
    lemma_decode_encoded(Seq::empty(), chunks);
    assert(Seq::<u8>::empty() + chunks.flatten() =~= chunks.flatten());
}

#[verifier::external_type_specification]
#[verifier::external_body]
pub struct ExInvalidChunkSize(httparse::InvalidChunkSize);

/// Relies on httparse::parse_chunk_size: it reads the size line as
/// `scan_size_line` states (hex digits, blanks, a `;` extension, CRLF), with
/// the data starting right after the CRLF; a buffer that ends inside the
/// line asks for more bytes, and a malformed line is an error.
#[verifier::external_body]
fn parse_chunk_size(buf: &[u8]) -> (r: Result<Option<(usize, u64)>, httparse::InvalidChunkSize>)
    ensures
        match chunk_head(buf@) {
            ChunkHead::Complete { pos, size } => r matches Ok(Some((p, n))) && p == pos && n
                == size,
            ChunkHead::Partial => r matches Ok(None),
            ChunkHead::Invalid => r is Err,
        },
        r matches Ok(Some((p, n))) ==> 2 <= p <= buf@.len(),
{
    match httparse::parse_chunk_size(buf) {
        Ok(httparse::Status::Complete((pos, size))) => Ok(Some((pos, size))),
        Ok(httparse::Status::Partial) => Ok(None),
        Err(e) => Err(e),
    }
}

/// Appends `src[from..to]` to `dst`.
pub(crate) fn push_range(dst: &mut Vec<u8>, src: &[u8], from: usize, to: usize)
    requires
        from <= to <= src@.len(),
    ensures
        final(dst)@ == old(dst)@ + src@.subrange(from as int, to as int),
{
    let mut i = from;
    while i < to
        invariant
            from <= i <= to <= src@.len(),
            dst@ == old(dst)@ + src@.subrange(from as int, i as int),
        decreases to - i,
    {
        dst.push(src[i]);
        i = i + 1;
        assert(dst@ =~= old(dst)@ + src@.subrange(from as int, i as int));
    }
}

/// Where a decoder stands.
#[derive(Debug, Clone, Copy, PartialEq, Eq, Structural)]
pub enum DecodePhase {
    Waiting,
    Done,
    Failed,
}

/// Chunked-body decoder fed by the transport's reads, in order.
pub struct ChunkedDecoder {
    out: Vec<u8>,
    rest: Vec<u8>,
    phase: DecodePhase,
}

impl View for ChunkedDecoder {
    type V = DecodeState;

    closed spec fn view(&self) -> DecodeState {
        match self.phase {
            DecodePhase::Waiting => DecodeState::Waiting { out: self.out@, rest: self.rest@ },
            DecodePhase::Done => DecodeState::Done { out: self.out@ },
            DecodePhase::Failed => DecodeState::Failed,
        }
    }
}

/// What a feed reports for the state it leaves.
pub open spec fn feed_report(s: DecodeState) -> Result<bool, IpfsErrorKind> {
    match s {
        DecodeState::Done { .. } => Ok(true),
        DecodeState::Failed => Err(IpfsErrorKind::RequestError),
        _ => Ok(false),
    }
}

impl ChunkedDecoder {
    pub fn new() -> (r: ChunkedDecoder)
        ensures
            r@ == initial_state(),
    {
        ChunkedDecoder { out: Vec::new(), rest: Vec::new(), phase: DecodePhase::Waiting }
    }

    pub fn phase(&self) -> (r: DecodePhase)
        ensures
            r == DecodePhase::Waiting <==> self@ is Waiting,
            r == DecodePhase::Done <==> self@ is Done,
            r == DecodePhase::Failed <==> self@ is Failed,
    {
        self.phase
    }

    /// The payload decoded so far.
    pub fn decoded(&self) -> (r: &Vec<u8>)
        ensures
            self@ matches DecodeState::Waiting { out, .. } ==> r@ == out,
            self@ matches DecodeState::Done { out } ==> r@ == out,
    {
        &self.out
    }

    /// Takes the next read of the body. Reports `Ok(true)` once the
    /// terminating chunk has been seen, `Ok(false)` while more is needed, and
    /// `RequestError` on broken framing.
    pub fn feed(&mut self, fragment: &[u8]) -> (r: Result<bool, IpfsErrorKind>)
        ensures
            final(self)@ == feed_step(old(self)@, fragment@),
            r == feed_report(final(self)@),
    {
        match self.phase {
            DecodePhase::Done => {
                return Ok(true);
            },
            DecodePhase::Failed => {
                return Err(IpfsErrorKind::RequestError);
            },
            DecodePhase::Waiting => {},
        }
        let ghost target = feed_step(self@, fragment@);
        let len = fragment.len();
        push_range(&mut self.rest, fragment, 0, len);
        assert(fragment@.subrange(0, len as int) =~= fragment@);
        loop
            invariant
                self@ is Waiting,
                target == feed_step(old(self)@, fragment@),
                decode_run(self.out@, self.rest@) == target,
            decreases self.rest@.len(),
        {
            let head = parse_chunk_size(self.rest.as_slice());
            match head {
                Err(_) => {
                    assert(target is Failed);
                    self.phase = DecodePhase::Failed;
                    return Err(IpfsErrorKind::RequestError);
                },
                Ok(None) => {
                    return Ok(false);
                },
                Ok(Some((pos, size))) => {
                    assert(chunk_head(self.rest@) is Complete);
                    if size == 0 {
                        assert(target == DecodeState::Done { out: self.out@ });
                        self.phase = DecodePhase::Done;
                        return Ok(true);
                    }
                    let avail = self.rest.len() - pos;
                    if (avail as u128) < (size as u128) + 2 {
                        assert(self@ == target);
                        return Ok(false);
                    }
                    let end = pos + size as usize;
                    if self.rest[end] != 0x0d || self.rest[end + 1] != 0x0a {
                        assert(target is Failed);
                        self.phase = DecodePhase::Failed;
                        return Err(IpfsErrorKind::RequestError);
                    }
                    push_range(&mut self.out, self.rest.as_slice(), pos, end);
                    let tail = self.rest.split_off(end + 2);
                    self.rest = tail;
                },
            }
        }
    }
}

impl ChunkedDecoder {
    /// Takes one read of the transport; `eof` says the transport has ended,
    /// so a body still waiting for bytes is a `RequestError`.
    pub fn feed_read(&mut self, fragment: &[u8], eof: bool) -> (r: Result<bool, IpfsErrorKind>)
        ensures
            final(self)@ == (if eof && feed_step(old(self)@, fragment@) is Waiting {
                DecodeState::Failed
            } else {
                feed_step(old(self)@, fragment@)
            }),
            r == feed_report(final(self)@),
    {
        let done = self.feed(fragment);
        if eof && self.phase == DecodePhase::Waiting {
            self.phase = DecodePhase::Failed;
            return Err(IpfsErrorKind::RequestError);
        }
        done
    }
}

/// Decodes a chunked body that arrives as the given reads, in order.
/// Succeeds with the payload once the terminating chunk is seen; fails with
/// `RequestError` on broken framing or when the reads end before it.
pub fn decode_chunked(fragments: &Vec<Vec<u8>>) -> (r: Result<Vec<u8>, IpfsErrorKind>)
    ensures
        match decode_run(Seq::empty(), fragments@.map_values(|f: Vec<u8>| f@).flatten()) {
            DecodeState::Done { out } => r matches Ok(v) && v@ == out,
            _ => r == Err::<Vec<u8>, IpfsErrorKind>(IpfsErrorKind::RequestError),
        },
{
    let ghost frags = fragments@.map_values(|f: Vec<u8>| f@);
    let mut decoder = ChunkedDecoder::new();
    let mut i: usize = 0;
    while i < fragments.len()
        invariant
            0 <= i <= fragments@.len(),
            frags == fragments@.map_values(|f: Vec<u8>| f@),
            decoder@ == feed_all(frags.take(i as int)),
        decreases fragments@.len() - i,
    {
        assert(frags.take(i + 1).drop_last() =~= frags.take(i as int));
        assert(frags.take(i + 1).last() == fragments@[i as int]@);
        let _ = decoder.feed(fragments[i].as_slice());
        i = i + 1;
    }
    assert(frags.take(i as int) =~= frags);
    proof {
        lemma_feed_all_split_independent(frags);
        frags.lemma_flatten_and_flatten_alt_are_equivalent();
    }
    match decoder.phase() {
        DecodePhase::Done => {
            let out = decoder.decoded().clone();
            Ok(out)
        },
        _ => Err(IpfsErrorKind::RequestError),
    }
}

} // verus!
