//! OpenSSH orchestration decisions: argument arrays, bounded capture, per-target results and
//! batch reports. Spawning, waiting and reading child processes stay with the caller.
use crate::error::{
    hinted_error, io_error_kind, io_error_kind_name, io_error_view, plain_error, AppError, AppErrorView,
    ErrorCode,
};
use crate::model::{same_environment, EnvironmentRef};
use crate::provider::{SshTarget, SshTargetView};
use crate::text::{char_from_ascii_code, decimal_digits, push_char, push_decimal, push_str, str_eq, string_from_utf8};
use vstd::prelude::*;
use vstd::utf8::{decode_utf8, encode_utf8, valid_utf8};

verus! {

broadcast use vstd::seq_lib::group_seq_properties;

/// Default number of concurrent SSH children used for fan-out execution.
pub const DEFAULT_JOBS: usize = 8;

/// Maximum bytes retained from each stream for ordinary-sized batches.
pub const MAX_STREAM_CAPTURE_BYTES: usize = 1048576;

/// Maximum raw stdout and stderr bytes retained across one batch.
pub const MAX_BATCH_CAPTURE_BYTES: usize = 67108864;

// ---------------------------------------------------------------------------------------------
// Bounded capture
// ---------------------------------------------------------------------------------------------
/// Bytes read from one child stream, cut off at a limit.
#[derive(Debug)]
pub struct RawCapture {
    pub bytes: Vec<u8>,
    pub truncated: bool,
    pub read_failed: bool,
}

/// How many bytes of an incoming read are kept when `held` bytes are already stored.
pub open spec fn kept_len(held: int, incoming: int, limit: int) -> int {
    let remaining = if limit > held {
        limit - held
    } else {
        0
    };
    if remaining < incoming {
        remaining
    } else {
        incoming
    }
}

/// All bytes of a stream delivered as successive reads.
pub open spec fn joined(reads: Seq<Seq<u8>>) -> Seq<u8>
    decreases reads.len(),
{
    if reads.len() == 0 {
        seq![]
    } else {
        joined(reads.drop_last()) + reads.last()
    }
}

pub open spec fn min_int(a: int, b: int) -> int {
    if a < b {
        a
    } else {
        b
    }
}

impl RawCapture {
    /// Nothing captured yet.
    pub fn empty() -> (r: RawCapture)
        ensures
            r.bytes@ == Seq::<u8>::empty(),
            !r.truncated,
            !r.read_failed,
    {
        RawCapture { bytes: Vec::new(), truncated: false, read_failed: false }
    }

    /// A capture whose stream could not be read.
    pub fn failed() -> (r: RawCapture)
        ensures
            r.bytes@ == Seq::<u8>::empty(),
            !r.truncated,
            r.read_failed,
    {
        RawCapture { bytes: Vec::new(), truncated: false, read_failed: true }
    }

    /// Keep as much of one read as the limit allows; the rest is drained and only noted.
    pub fn absorb(&mut self, chunk: &[u8], limit: usize)
        ensures
            final(self).bytes@ == old(self).bytes@ + chunk@.take(
                kept_len(old(self).bytes@.len() as int, chunk@.len() as int, limit as int),
            ),
            final(self).truncated == (old(self).truncated || kept_len(
                old(self).bytes@.len() as int,
                chunk@.len() as int,
                limit as int,
            ) < chunk@.len()),
            final(self).read_failed == old(self).read_failed,
    {
        let held = self.bytes.len();
        let remaining = if limit > held {
            limit - held
        } else {
            0
        };
        let kept = if remaining < chunk.len() {
            remaining
        } else {
            chunk.len()
        };
        let mut i: usize = 0;
        while i < kept
            invariant
                kept <= chunk@.len(),
                i <= kept,
                self.bytes@ == old(self).bytes@ + chunk@.take(i as int),
                self.truncated == old(self).truncated,
                self.read_failed == old(self).read_failed,
            decreases kept - i,
        {
            self.bytes.push(chunk[i]);
            i = i + 1;
            assert(chunk@.take(i as int) =~= chunk@.take(i - 1).push(chunk@[i - 1]));
        }
        self.truncated = self.truncated || kept < chunk.len();
    }
}

/// What one read of a child stream gave: bytes, the end of the stream, an interruption to
/// retry, or a failure.
#[derive(Debug)]
pub enum ReadOutcome {
    Data(Vec<u8>),
    End,
    Interrupted,
    Failed,
}

/// Reading stops at the end of the stream or at a failure.
pub open spec fn is_stop(o: ReadOutcome) -> bool {
    o is End || o is Failed
}

/// The bytes one read delivered.
pub open spec fn outcome_bytes(o: ReadOutcome) -> Seq<u8> {
    match o {
        ReadOutcome::Data(chunk) => chunk@,
        _ => Seq::<u8>::empty(),
    }
}

/// All bytes delivered by a sequence of reads.
pub open spec fn data_of(reads: Seq<ReadOutcome>) -> Seq<u8>
    decreases reads.len(),
{
    if reads.len() == 0 {
        Seq::<u8>::empty()
    } else {
        data_of(reads.drop_last()) + outcome_bytes(reads.last())
    }
}

/// The index of the first read that ends the stream, or the number of reads if none does.
pub open spec fn first_stop(reads: Seq<ReadOutcome>) -> nat
    decreases reads.len(),
{
    if reads.len() == 0 {
        0
    } else if is_stop(reads[0]) {
        0
    } else {
        1 + first_stop(reads.drop_first())
    }
}

proof fn lemma_first_stop(reads: Seq<ReadOutcome>, i: int)
    requires
        0 <= i <= reads.len(),
        forall|j: int| 0 <= j < i ==> !is_stop(#[trigger] reads[j]),
        i == reads.len() || is_stop(reads[i]),
    ensures
        first_stop(reads) == i,
    decreases i,
{
    if i > 0 {
        let rest = reads.drop_first();
        assert forall|j: int| 0 <= j < i - 1 implies !is_stop(#[trigger] rest[j]) by {
            assert(rest[j] == reads[j + 1]);
        }
        if i < reads.len() {
            assert(rest[i - 1] == reads[i]);
        }
        lemma_first_stop(rest, i - 1);
    }
}

impl RawCapture {
    /// Take one read: keep what the limit allows of its bytes, note a failure, and say whether
    /// to read again. An interruption changes nothing and reading goes on.
    pub fn read_step(&mut self, outcome: &ReadOutcome, limit: usize) -> (r: bool)
        ensures
            r == !is_stop(*outcome),
            final(self).bytes@ == old(self).bytes@ + outcome_bytes(*outcome).take(
                kept_len(
                    old(self).bytes@.len() as int,
                    outcome_bytes(*outcome).len() as int,
                    limit as int,
                ),
            ),
            final(self).truncated == (old(self).truncated || kept_len(
                old(self).bytes@.len() as int,
                outcome_bytes(*outcome).len() as int,
                limit as int,
            ) < outcome_bytes(*outcome).len()),
            final(self).read_failed == (old(self).read_failed || *outcome is Failed),
    {
        match outcome {
            ReadOutcome::Data(chunk) => {
                self.absorb(chunk.as_slice(), limit);
                true
            },
            ReadOutcome::Interrupted => {
                assert(self.bytes@ =~= self.bytes@ + Seq::<u8>::empty().take(0));
                true
            },
            ReadOutcome::End => {
                assert(self.bytes@ =~= self.bytes@ + Seq::<u8>::empty().take(0));
                false
            },
            ReadOutcome::Failed => {
                assert(self.bytes@ =~= self.bytes@ + Seq::<u8>::empty().take(0));
                self.read_failed = true;
                false
            },
        }
    }
}

/// Keep at most `limit` bytes of the successful reads of a stream, while taking all of them.
pub fn read_chunks(reads: &[Vec<u8>], limit: usize) -> (r: RawCapture)
    ensures
        r.bytes@ == joined(reads@.map_values(|v: Vec<u8>| v@)).take(
            min_int(limit as int, joined(reads@.map_values(|v: Vec<u8>| v@)).len() as int),
        ),
        r.truncated == (joined(reads@.map_values(|v: Vec<u8>| v@)).len() > limit),
        !r.read_failed,
{
    let ghost all = reads@.map_values(|v: Vec<u8>| v@);
    let mut capture = RawCapture::empty();
    let mut i: usize = 0;
    while i < reads.len()
        invariant
            i <= reads@.len(),
            all == reads@.map_values(|v: Vec<u8>| v@),
            capture.bytes@ == joined(all.take(i as int)).take(
                min_int(limit as int, joined(all.take(i as int)).len() as int),
            ),
            capture.truncated == (joined(all.take(i as int)).len() > limit),
            !capture.read_failed,
        decreases reads@.len() - i,
    {
        let ghost before = joined(all.take(i as int));
        let ghost chunk = all[i as int];
        assert(all.take(i + 1).drop_last() =~= all.take(i as int));
        assert(joined(all.take(i + 1)) == before + chunk);
        capture.absorb(reads[i].as_slice(), limit);
        proof {
            let after = before + chunk;
            if before.len() < limit {
                assert(capture.bytes@ =~= after.take(min_int(limit as int, after.len() as int)));
            } else {
                assert(after.take(limit as int) =~= before.take(limit as int));
            }
        }
        i = i + 1;
    }
    assert(all.take(reads@.len() as int) =~= all);
    capture
}

/// Capture a stream read by successive reads: everything is read until the end of the stream
/// or a failure, at most `limit` bytes are kept, interruptions are retried, and a failure is
/// noted.
pub fn read_bounded(reads: &[ReadOutcome], limit: usize) -> (r: RawCapture)
    ensures
        r.bytes@ == data_of(reads@.take(first_stop(reads@) as int)).take(
            min_int(limit as int, data_of(reads@.take(first_stop(reads@) as int)).len() as int),
        ),
        r.truncated == (data_of(reads@.take(first_stop(reads@) as int)).len() > limit),
        r.read_failed == (first_stop(reads@) < reads@.len() && reads@[first_stop(reads@) as int] is Failed),
{
    let mut capture = RawCapture::empty();
    let mut i: usize = 0;
    while i < reads.len()
        invariant
            i <= reads@.len(),
            forall|j: int| 0 <= j < i ==> !is_stop(#[trigger] reads@[j]),
            capture.bytes@ == data_of(reads@.take(i as int)).take(
                min_int(limit as int, data_of(reads@.take(i as int)).len() as int),
            ),
            capture.truncated == (data_of(reads@.take(i as int)).len() > limit),
            !capture.read_failed,
        decreases reads@.len() - i,
    {
        let ghost before = data_of(reads@.take(i as int));
        let ghost chunk = outcome_bytes(reads@[i as int]);
        let more = capture.read_step(&reads[i], limit);
        if !more {
            proof {
                lemma_first_stop(reads@, i as int);
            }
            return capture;
        }
        proof {
            assert(reads@.take(i + 1).drop_last() =~= reads@.take(i as int));
            assert(data_of(reads@.take(i + 1)) == before + chunk);
            let after = before + chunk;
            if before.len() < limit {
                assert(capture.bytes@ =~= after.take(min_int(limit as int, after.len() as int)));
            } else {
                assert(after.take(limit as int) =~= before.take(limit as int));
                assert(capture.bytes@ =~= after.take(min_int(limit as int, after.len() as int)));
            }
        }
        i = i + 1;
    }
    proof {
        lemma_first_stop(reads@, i as int);
        assert(reads@.take(i as int) =~= reads@);
    }
    capture
}

// ---------------------------------------------------------------------------------------------
// Base64
// ---------------------------------------------------------------------------------------------
/// The standard base64 alphabet.
pub open spec fn base64_symbol(i: int) -> char {
    if i < 26 {
        (('A' as int) + i) as char
    } else if i < 52 {
        (('a' as int) + (i - 26)) as char
    } else if i < 62 {
        (('0' as int) + (i - 52)) as char
    } else if i == 62 {
        '+'
    } else {
        '/'
    }
}

/// Base64 of one group of one to three bytes, padded with `=`.
pub open spec fn base64_group(s: Seq<u8>) -> Seq<char> {
    let first = s[0] as int;
    let second = if s.len() > 1 {
        s[1] as int
    } else {
        0
    };
    let third = if s.len() > 2 {
        s[2] as int
    } else {
        0
    };
    seq![
        base64_symbol(first / 4),
        base64_symbol((first % 4) * 16 + second / 16),
        if s.len() > 1 {
            base64_symbol((second % 16) * 4 + third / 64)
        } else {
            '='
        },
        if s.len() > 2 {
            base64_symbol(third % 64)
        } else {
            '='
        },
    ]
}

/// Standard padded base64 encoding.
pub open spec fn base64(s: Seq<u8>) -> Seq<char>
    decreases s.len(),
{
    if s.len() == 0 {
        seq![]
    } else if s.len() <= 3 {
        base64_group(s)
    } else {
        base64_group(s.take(3)) + base64(s.skip(3))
    }
}

/// The value of a base64 symbol (standard alphabet).
pub open spec fn symbol_value(c: char) -> int {
    if 'A' <= c && c <= 'Z' {
        c as int - 'A' as int
    } else if 'a' <= c && c <= 'z' {
        c as int - 'a' as int + 26
    } else if '0' <= c && c <= '9' {
        c as int - '0' as int + 52
    } else if c == '+' {
        62
    } else {
        63
    }
}

/// The bytes of one padded group of four symbols.
pub open spec fn decode_group(g: Seq<char>) -> Seq<u8> {
    let a = symbol_value(g[0]);
    let b = symbol_value(g[1]);
    let c = symbol_value(g[2]);
    let d = symbol_value(g[3]);
    let first = (a * 4 + b / 16) as u8;
    let second = ((b % 16) * 16 + c / 4) as u8;
    let third = ((c % 4) * 64 + d) as u8;
    if g[2] == '=' {
        seq![first]
    } else if g[3] == '=' {
        seq![first, second]
    } else {
        seq![first, second, third]
    }
}

/// Standard base64 decoding of padded text, four symbols at a time.
pub open spec fn base64_decode(t: Seq<char>) -> Seq<u8>
    decreases t.len(),
{
    if t.len() < 4 {
        Seq::<u8>::empty()
    } else {
        decode_group(t.take(4)) + base64_decode(t.skip(4))
    }
}

/// A symbol of the standard base64 alphabet.
pub open spec fn in_base64_alphabet(c: char) -> bool {
    ('A' <= c && c <= 'Z') || ('a' <= c && c <= 'z') || ('0' <= c && c <= '9') || c == '+' || c
        == '/'
}

/// The number of `=` that pad the encoding of `n` bytes.
pub open spec fn base64_padding(n: nat) -> nat {
    if n % 3 == 0 {
        0
    } else {
        (3 - n % 3) as nat
    }
}

/// Every symbol before the padding is in the alphabet; the rest are `=`.
pub open spec fn padded_alphabet(t: Seq<char>, padding: nat) -> bool {
    forall|i: int|
        0 <= i < t.len() ==> if i < t.len() - padding {
            in_base64_alphabet(#[trigger] t[i])
        } else {
            t[i] == '='
        }
}

proof fn lemma_symbol(i: int)
    requires
        0 <= i < 64,
    ensures
        symbol_value(base64_symbol(i)) == i,
        base64_symbol(i) != '=',
        in_base64_alphabet(base64_symbol(i)),
{
}

proof fn lemma_group_roundtrip(s: Seq<u8>)
    requires
        1 <= s.len() <= 3,
    ensures
        base64_group(s).len() == 4,
        decode_group(base64_group(s)) == s,
        padded_alphabet(base64_group(s), (3 - s.len()) as nat),
{
    let first = s[0] as int;
    let second = if s.len() > 1 { s[1] as int } else { 0 };
    let third = if s.len() > 2 { s[2] as int } else { 0 };
    let a = first / 4;
    let b = (first % 4) * 16 + second / 16;
    let c = (second % 16) * 4 + third / 64;
    let d = third % 64;
    assert(0 <= a < 64 && 0 <= b < 64 && 0 <= c < 64 && 0 <= d < 64 && a * 4 + b / 16 == first
        && (b % 16) * 16 + c / 4 == second && (c % 4) * 64 + d == third) by (nonlinear_arith)
        requires
            0 <= first < 256,
            0 <= second < 256,
            0 <= third < 256,
            a == first / 4,
            b == (first % 4) * 16 + second / 16,
            c == (second % 16) * 4 + third / 64,
            d == third % 64,
    ;
    lemma_symbol(a);
    lemma_symbol(b);
    lemma_symbol(c);
    lemma_symbol(d);
    let g = base64_group(s);
    if s.len() == 1 {
        assert(decode_group(g) =~= s);
    } else if s.len() == 2 {
        assert(decode_group(g) =~= s);
    } else {
        assert(decode_group(g) =~= s);
    }
}

/// Standard base64: four symbols for every started group of three bytes, all from the base64
/// alphabet except the trailing `=` padding, and decoding the encoding gives the bytes back.
#[verifier::spinoff_prover]
pub proof fn lemma_base64_roundtrip(s: Seq<u8>)
    ensures
        base64(s).len() == 4 * ((s.len() + 2) / 3),
        padded_alphabet(base64(s), base64_padding(s.len())),
        base64_decode(base64(s)) == s,
    decreases s.len(),
{
    if s.len() == 0 {
        assert(base64_decode(base64(s)) =~= s);
    } else if s.len() <= 3 {
        lemma_group_roundtrip(s);
        let g = base64(s);
        assert(g.take(4) =~= g);
        assert(g.skip(4) =~= Seq::<char>::empty());
        assert(base64_decode(g.skip(4)) =~= Seq::<u8>::empty());
        assert(base64_decode(g) == decode_group(g) + Seq::<u8>::empty());
        assert(base64_decode(g) =~= s);
    } else {
        let head = s.take(3);
        let rest = s.skip(3);
        lemma_group_roundtrip(head);
        lemma_base64_roundtrip(rest);
        let g = base64_group(head);
        let t = base64(s);
        assert(t == g + base64(rest));
        assert(t.take(4) =~= g);
        assert(t.skip(4) =~= base64(rest));
        assert(head + rest =~= s);
        assert((s.len() + 2) / 3 == (rest.len() + 2) / 3 + 1);
        assert(base64_padding(s.len()) == base64_padding(rest.len()));
        lemma_padded_concat(g, base64(rest), base64_padding(rest.len()));
    }
}

proof fn lemma_padded_concat(g: Seq<char>, rest: Seq<char>, padding: nat)
    requires
        g.len() == 4,
        padded_alphabet(g, 0),
        padded_alphabet(rest, padding),
        padding <= rest.len(),
    ensures
        padded_alphabet(g + rest, padding),
{
    let t = g + rest;
    assert forall|i: int| 0 <= i < t.len() implies if i < t.len() - padding {
        in_base64_alphabet(#[trigger] t[i])
    } else {
        t[i] == '='
    } by {
        if i < 4 {
            assert(t[i] == g[i]);
        } else {
            assert(t[i] == rest[i - 4]);
        }
    }
}

fn base64_char(i: u8) -> (c: char)
    requires
        i < 64,
    ensures
        c == base64_symbol(i as int),
{
    if i < 26 {
        char_from_ascii_code(65 + i as u32)
    } else if i < 52 {
        char_from_ascii_code(97 + (i - 26) as u32)
    } else if i < 62 {
        char_from_ascii_code(48 + (i - 52) as u32)
    } else if i == 62 {
        '+'
    } else {
        '/'
    }
}

/// Standard padded base64 encoding of `input`.
#[verifier::spinoff_prover]
#[verifier::rlimit(40)]
pub fn encode_base64(input: &[u8]) -> (r: String)
    ensures
        r@ == base64(input@),
{
    let mut encoded = String::new();
    let mut i: usize = 0;
    let n = input.len();
    while i < n
        invariant
            n == input@.len(),
            i <= n,
            encoded@ + base64(input@.skip(i as int)) == base64(input@),
        decreases n - i,
    {
        let rest = n - i;
        let first = input[i];
        let second = if rest > 1 {
            input[i + 1]
        } else {
            0
        };
        let third = if rest > 2 {
            input[i + 2]
        } else {
            0
        };
        let ghost tail = input@.skip(i as int);
        let ghost group = if rest <= 3 {
            tail
        } else {
            tail.take(3)
        };
        assert(base64(tail) == base64_group(group) + base64(
            if rest <= 3 {
                Seq::<u8>::empty()
            } else {
                tail.skip(3)
            },
        )) by {
            if rest <= 3 {
                assert(base64(Seq::<u8>::empty()) =~= Seq::<char>::empty());
                assert(base64_group(tail) + Seq::<char>::empty() =~= base64_group(tail));
            }
        }
        push_char(&mut encoded, base64_char(first / 4));
        push_char(&mut encoded, base64_char((first % 4) * 16 + second / 16));
        if rest > 1 {
            push_char(&mut encoded, base64_char((second % 16) * 4 + third / 64));
        } else {
            push_char(&mut encoded, '=');
        }
        if rest > 2 {
            push_char(&mut encoded, base64_char(third % 64));
        } else {
            push_char(&mut encoded, '=');
        }
        let step: usize = if rest < 3 {
            rest
        } else {
            3
        };
        proof {
            assert(group[0] == first);
            if rest > 1 {
                assert(group[1] == second);
            }
            if rest > 2 {
                assert(group[2] == third);
            }
            if rest > 3 {
                assert(tail.skip(3) =~= input@.skip(i + 3));
            } else {
                assert(input@.skip(i + step) =~= Seq::<u8>::empty());
            }
        }
        i = i + step;
    }
    assert(input@.skip(n as int) =~= Seq::<u8>::empty());
    encoded
}

// ---------------------------------------------------------------------------------------------
// Captured streams
// ---------------------------------------------------------------------------------------------
/// Encoding used by one captured stream.
#[derive(Debug, Clone, Copy, PartialEq, Eq, Structural)]
pub enum CaptureEncoding {
    Text,
    Base64,
}

/// JSON-safe bounded process output.
#[derive(Debug)]
pub struct CapturedStream {
    pub encoding: CaptureEncoding,
    pub data: String,
    pub truncated: bool,
    pub captured_bytes: usize,
}

/// Nothing was captured.
pub open spec fn stream_is_empty(s: CapturedStream) -> bool {
    s.encoding == CaptureEncoding::Text && s.data@ == Seq::<char>::empty() && !s.truncated
        && s.captured_bytes == 0
}

/// The stream carries `bytes`: as text when they are UTF-8, else base64-encoded.
pub open spec fn stream_of(s: CapturedStream, bytes: Seq<u8>, truncated: bool) -> bool {
    &&& s.captured_bytes == bytes.len()
    &&& s.truncated == truncated
    &&& if valid_utf8(bytes) {
        s.encoding == CaptureEncoding::Text && s.data@ == decode_utf8(bytes)
    } else {
        s.encoding == CaptureEncoding::Base64 && s.data@ == base64(bytes)
    }
}

impl CapturedStream {
    pub fn empty() -> (r: CapturedStream)
        ensures
            stream_is_empty(r),
    {
        CapturedStream {
            encoding: CaptureEncoding::Text,
            data: String::new(),
            truncated: false,
            captured_bytes: 0,
        }
    }

    /// Text when the captured bytes are UTF-8; otherwise base64 of the exact bytes.
    pub fn from_raw(raw: RawCapture) -> (r: CapturedStream)
        ensures
            stream_of(r, raw.bytes@, raw.truncated),
    {
        let captured_bytes = raw.bytes.len();
        match string_from_utf8(raw.bytes) {
            Ok(data) => CapturedStream {
                encoding: CaptureEncoding::Text,
                data,
                truncated: raw.truncated,
                captured_bytes,
            },
            Err(bytes) => CapturedStream {
                encoding: CaptureEncoding::Base64,
                data: encode_base64(bytes.as_slice()),
                truncated: raw.truncated,
                captured_bytes,
            },
        }
    }
}

impl Clone for CapturedStream {
    fn clone(&self) -> (r: Self)
        ensures
            r.encoding == self.encoding,
            r.data@ == self.data@,
            r.truncated == self.truncated,
            r.captured_bytes == self.captured_bytes,
    {
        CapturedStream {
            encoding: self.encoding,
            data: self.data.clone(),
            truncated: self.truncated,
            captured_bytes: self.captured_bytes,
        }
    }
}

// ---------------------------------------------------------------------------------------------
// Capture budget
// ---------------------------------------------------------------------------------------------
/// Number of captured streams in a batch of `target_count` targets (at least one).
pub open spec fn capture_stream_count(target_count: usize) -> int {
    let doubled = if 2 * target_count > usize::MAX {
        usize::MAX as int
    } else {
        2 * target_count
    };
    if doubled < 1 {
        1
    } else {
        doubled
    }
}

/// Per-stream byte limit: the batch budget shared fairly, capped per stream.
pub open spec fn stream_capture_limit(target_count: usize) -> int {
    min_int(
        MAX_STREAM_CAPTURE_BYTES as int,
        MAX_BATCH_CAPTURE_BYTES as int / capture_stream_count(target_count),
    )
}

/// Per-stream byte limit for a batch of `target_count` targets.
pub fn effective_stream_capture_limit(target_count: usize) -> (r: usize)
    ensures
        r == stream_capture_limit(target_count),
{
    let doubled = if target_count > usize::MAX / 2 {
        usize::MAX
    } else {
        target_count * 2
    };
    let streams = if doubled < 1 {
        1
    } else {
        doubled
    };
    let share = MAX_BATCH_CAPTURE_BYTES / streams;
    if MAX_STREAM_CAPTURE_BYTES < share {
        MAX_STREAM_CAPTURE_BYTES
    } else {
        share
    }
}

/// All streams of a batch together never hold more than the batch budget.
pub proof fn lemma_capture_budget_is_shared(target_count: usize)
    requires
        target_count >= 1,
    ensures
        stream_capture_limit(target_count) * (2 * target_count) <= MAX_BATCH_CAPTURE_BYTES,
        stream_capture_limit(target_count) <= MAX_STREAM_CAPTURE_BYTES,
{
    let streams = capture_stream_count(target_count);
    let share = MAX_BATCH_CAPTURE_BYTES as int / streams;
    vstd::arithmetic::div_mod::lemma_fundamental_div_mod(
        MAX_BATCH_CAPTURE_BYTES as int,
        streams,
    );
    assert(share * streams <= MAX_BATCH_CAPTURE_BYTES) by (nonlinear_arith)
        requires
            streams >= 1,
            share == MAX_BATCH_CAPTURE_BYTES as int / streams,
            MAX_BATCH_CAPTURE_BYTES as int == streams * share + MAX_BATCH_CAPTURE_BYTES as int
                % streams,
            MAX_BATCH_CAPTURE_BYTES as int % streams >= 0,
    ;
    if 2 * target_count > usize::MAX {
        assert(streams == usize::MAX);
        assert(share == 0) by {
            vstd::arithmetic::div_mod::lemma_basic_div(MAX_BATCH_CAPTURE_BYTES as int, streams);
        }
        assert(stream_capture_limit(target_count) == 0);
        assert(0 * (2 * target_count) == 0);
    } else {
        let limit = stream_capture_limit(target_count);
        assert(limit <= share);
        assert(limit * streams <= share * streams) by (nonlinear_arith)
            requires
                limit <= share,
                streams >= 1,
                limit >= 0,
        ;
    }
}

// ---------------------------------------------------------------------------------------------
// Execution results
// ---------------------------------------------------------------------------------------------
/// How a child process is connected to local standard streams.
#[derive(Debug, Clone, Copy, PartialEq, Eq, Structural)]
pub enum IoMode {
    /// An interactive login session with inherited standard streams.
    Interactive,
    /// A one-shot human command with inherited standard streams.
    Inherited,
    /// A non-interactive command with bounded stdout and stderr capture.
    Captured,
}

/// Stable state for an inherited or captured SSH process.
#[derive(Debug, Clone, Copy, PartialEq, Eq, Structural)]
pub enum ExecutionState {
    Succeeded,
    Failed,
    TimedOut,
    Cancelled,
    Skipped,
}

/// Stable reason for a per-target execution failure.
#[derive(Debug, Clone, Copy, PartialEq, Eq, Structural)]
pub enum ExecutionFailureCode {
    TargetUnavailable,
    InvalidTarget,
    SpawnFailed,
    WaitFailed,
    CaptureFailed,
    RemoteExit,
    TimedOut,
    Cancelled,
    FailFast,
}

/// Curated failure data. Raw process errors and remote output never enter this value.
#[derive(Debug)]
pub struct ExecutionFailure {
    pub code: ExecutionFailureCode,
    pub message: String,
}

impl ExecutionFailure {
    pub fn new(code: ExecutionFailureCode, message: &str) -> (r: ExecutionFailure)
        ensures
            r.code == code,
            r.message@ == message@,
    {
        ExecutionFailure { code, message: message.to_owned() }
    }
}

impl Clone for ExecutionFailure {
    fn clone(&self) -> (r: Self)
        ensures
            r == *self,
    {
        ExecutionFailure { code: self.code, message: self.message.clone() }
    }
}

/// The failure carries exactly this code and message.
pub open spec fn failure_is(f: Option<ExecutionFailure>, code: ExecutionFailureCode, message: Seq<
    char,
>) -> bool {
    match f {
        Some(x) => x.code == code && x.message@ == message,
        None => false,
    }
}

/// The failure matches an optional (code, message) pair.
pub open spec fn failure_matches(
    f: Option<ExecutionFailure>,
    expected: Option<(ExecutionFailureCode, Seq<char>)>,
) -> bool {
    match expected {
        Some((code, message)) => failure_is(f, code, message),
        None => f is None,
    }
}

/// How a local SSH child ended, as observed by the caller.
#[derive(Debug, Clone, Copy, PartialEq, Eq)]
pub enum ProcessOutcome {
    /// The child exited; `success` is the platform's success test, `code` its exit code if any.
    Exited { success: bool, code: Option<i32> },
    TimedOut,
    Cancelled,
    CaptureFailed,
}

pub open spec fn remote_exit_message() -> Seq<char> {
    "the remote command exited unsuccessfully"@
}

pub open spec fn timed_out_message() -> Seq<char> {
    "the SSH command exceeded its timeout"@
}

pub open spec fn cancelled_message() -> Seq<char> {
    "the SSH command was cancelled"@
}

pub open spec fn capture_failed_message() -> Seq<char> {
    "failed while capturing SSH command output"@
}

/// The state an outcome is reported as.
pub open spec fn outcome_state(o: ProcessOutcome) -> ExecutionState {
    match o {
        ProcessOutcome::Exited { success, .. } => if success {
            ExecutionState::Succeeded
        } else {
            ExecutionState::Failed
        },
        ProcessOutcome::TimedOut => ExecutionState::TimedOut,
        ProcessOutcome::Cancelled => ExecutionState::Cancelled,
        ProcessOutcome::CaptureFailed => ExecutionState::Failed,
    }
}

/// The exit code reported for an outcome: only an exited child has one.
pub open spec fn outcome_exit_code(o: ProcessOutcome) -> Option<i32> {
    match o {
        ProcessOutcome::Exited { code, .. } => code,
        _ => None,
    }
}

/// The failure reported for an outcome.
pub open spec fn outcome_failure(o: ProcessOutcome) -> Option<(ExecutionFailureCode, Seq<char>)> {
    match o {
        ProcessOutcome::Exited { success, .. } => if success {
            None
        } else {
            Some((ExecutionFailureCode::RemoteExit, remote_exit_message()))
        },
        ProcessOutcome::TimedOut => Some((ExecutionFailureCode::TimedOut, timed_out_message())),
        ProcessOutcome::Cancelled => Some((ExecutionFailureCode::Cancelled, cancelled_message())),
        ProcessOutcome::CaptureFailed => Some(
            (ExecutionFailureCode::CaptureFailed, capture_failed_message()),
        ),
    }
}

/// Only a successful exit is reported as succeeded. An unsuccessful exit is reported as failed,
/// keeps its exit code and carries a remote-exit failure; every outcome that is not a success
/// carries some failure.
pub proof fn lemma_only_successful_exit_succeeds(o: ProcessOutcome)
    ensures
        outcome_state(o) == ExecutionState::Succeeded <==> (o matches ProcessOutcome::Exited {
            success: true,
            ..
        }),
        outcome_failure(o) is None <==> outcome_state(o) == ExecutionState::Succeeded,
        o matches ProcessOutcome::Exited { code, .. } ==> outcome_exit_code(o) == code,
        !(o is Exited) ==> outcome_exit_code(o) is None && outcome_state(o) != ExecutionState::Succeeded,
        o matches ProcessOutcome::Exited { success: false, code } ==> {
            &&& outcome_state(o) == ExecutionState::Failed
            &&& outcome_exit_code(o) == code
            &&& outcome_failure(o) matches Some((failure, _)) && failure
                == ExecutionFailureCode::RemoteExit
        },
{
}

fn outcome_verdict(o: ProcessOutcome) -> (r: (ExecutionState, Option<i32>, Option<ExecutionFailure>))
    ensures
        r.0 == outcome_state(o),
        r.1 == outcome_exit_code(o),
        failure_matches(r.2, outcome_failure(o)),
{
    match o {
        ProcessOutcome::Exited { success, code } => if success {
            (ExecutionState::Succeeded, code, None)
        } else {
            (
                ExecutionState::Failed,
                code,
                Some(
                    ExecutionFailure::new(
                        ExecutionFailureCode::RemoteExit,
                        "the remote command exited unsuccessfully",
                    ),
                ),
            )
        },
        ProcessOutcome::TimedOut => (
            ExecutionState::TimedOut,
            None,
            Some(
                ExecutionFailure::new(
                    ExecutionFailureCode::TimedOut,
                    "the SSH command exceeded its timeout",
                ),
            ),
        ),
        ProcessOutcome::Cancelled => (
            ExecutionState::Cancelled,
            None,
            Some(
                ExecutionFailure::new(ExecutionFailureCode::Cancelled, "the SSH command was cancelled"),
            ),
        ),
        ProcessOutcome::CaptureFailed => (
            ExecutionState::Failed,
            None,
            Some(
                ExecutionFailure::new(
                    ExecutionFailureCode::CaptureFailed,
                    "failed while capturing SSH command output",
                ),
            ),
        ),
    }
}

/// Milliseconds, saturated to `u64::MAX`.
pub open spec fn millis(elapsed_ms: u128) -> u64 {
    if elapsed_ms > u64::MAX {
        u64::MAX
    } else {
        elapsed_ms as u64
    }
}

/// Elapsed milliseconds as reported, saturating at `u64::MAX`.
pub fn duration_millis(elapsed_ms: u128) -> (r: u64)
    ensures
        r == millis(elapsed_ms),
{
    if elapsed_ms > u64::MAX as u128 {
        u64::MAX
    } else {
        elapsed_ms as u64
    }
}

/// Result of a one-shot command whose standard streams were inherited.
#[derive(Debug)]
pub struct InheritedOutcome {
    pub state: ExecutionState,
    pub exit_code: Option<i32>,
    pub duration_ms: u64,
    pub failure: Option<ExecutionFailure>,
}

/// Report an inherited command's outcome.
pub fn inherited_outcome(outcome: ProcessOutcome, elapsed_ms: u128) -> (r: InheritedOutcome)
    ensures
        r.state == outcome_state(outcome),
        r.exit_code == outcome_exit_code(outcome),
        r.duration_ms == millis(elapsed_ms),
        failure_matches(r.failure, outcome_failure(outcome)),
{
    let (state, exit_code, failure) = outcome_verdict(outcome);
    InheritedOutcome { state, exit_code, duration_ms: duration_millis(elapsed_ms), failure }
}

/// The exit code of an outcome, if the child exited.
pub fn process_exit_code(outcome: &ProcessOutcome) -> (r: Option<i32>)
    ensures
        r == outcome_exit_code(*outcome),
{
    match outcome {
        ProcessOutcome::Exited { code, .. } => *code,
        _ => None,
    }
}

/// Ordered result for one target in a fan-out operation.
#[derive(Debug)]
pub struct TargetExecution {
    pub environment: EnvironmentRef,
    pub state: ExecutionState,
    pub exit_code: Option<i32>,
    pub duration_ms: u64,
    pub stdout: CapturedStream,
    pub stderr: CapturedStream,
    pub failure: Option<ExecutionFailure>,
}

/// A target that never ran: skipped after a failure, or cancelled before it started.
pub open spec fn is_unstarted(t: TargetExecution, environment: EnvironmentRef, cancelled: bool) -> bool {
    &&& t.environment == environment
    &&& t.exit_code is None
    &&& t.duration_ms == 0
    &&& stream_is_empty(t.stdout)
    &&& stream_is_empty(t.stderr)
    &&& if cancelled {
        t.state == ExecutionState::Cancelled && failure_is(
            t.failure,
            ExecutionFailureCode::Cancelled,
            "SSH command was cancelled before it started"@,
        )
    } else {
        t.state == ExecutionState::Skipped && failure_is(
            t.failure,
            ExecutionFailureCode::FailFast,
            "SSH command was not started after an earlier target failed"@,
        )
    }
}

impl TargetExecution {
    /// A target whose provider reported no usable SSH access.
    pub fn target_unavailable(environment: EnvironmentRef) -> (r: TargetExecution)
        ensures
            r.environment == environment,
            r.state == ExecutionState::Failed,
            r.exit_code is None,
            r.duration_ms == 0,
            stream_is_empty(r.stdout),
            stream_is_empty(r.stderr),
            failure_is(
                r.failure,
                ExecutionFailureCode::TargetUnavailable,
                "SSH access is unavailable for this environment"@,
            ),
    {
        TargetExecution {
            environment,
            state: ExecutionState::Failed,
            exit_code: None,
            duration_ms: 0,
            stdout: CapturedStream::empty(),
            stderr: CapturedStream::empty(),
            failure: Some(
                ExecutionFailure::new(
                    ExecutionFailureCode::TargetUnavailable,
                    "SSH access is unavailable for this environment",
                ),
            ),
        }
    }

    /// A target left unstarted because an earlier target failed under fail-fast.
    pub fn fail_fast_skipped(environment: EnvironmentRef) -> (r: TargetExecution)
        ensures
            is_unstarted(r, environment, false),
    {
        Self::skipped(environment, false)
    }

    /// A target that was never started.
    pub fn skipped(environment: EnvironmentRef, cancelled: bool) -> (r: TargetExecution)
        ensures
            is_unstarted(r, environment, cancelled),
    {
        let (state, code, message) = if cancelled {
            (
                ExecutionState::Cancelled,
                ExecutionFailureCode::Cancelled,
                "SSH command was cancelled before it started",
            )
        } else {
            (
                ExecutionState::Skipped,
                ExecutionFailureCode::FailFast,
                "SSH command was not started after an earlier target failed",
            )
        };
        TargetExecution {
            environment,
            state,
            exit_code: None,
            duration_ms: 0,
            stdout: CapturedStream::empty(),
            stderr: CapturedStream::empty(),
            failure: Some(ExecutionFailure::new(code, message)),
        }
    }

    pub fn succeeded(&self) -> (r: bool)
        ensures
            r == (self.state == ExecutionState::Succeeded),
    {
        self.state == ExecutionState::Succeeded
    }
}

/// A result built from a process outcome and its two captured streams.
pub fn execution_with_capture(
    environment: EnvironmentRef,
    state: ExecutionState,
    exit_code: Option<i32>,
    elapsed_ms: u128,
    stdout: RawCapture,
    stderr: RawCapture,
    failure: Option<ExecutionFailure>,
) -> (r: TargetExecution)
    ensures
        r.environment == environment,
        r.state == state,
        r.exit_code == exit_code,
        r.duration_ms == millis(elapsed_ms),
        stream_of(r.stdout, stdout.bytes@, stdout.truncated),
        stream_of(r.stderr, stderr.bytes@, stderr.truncated),
        r.failure == failure,
{
    TargetExecution {
        environment,
        state,
        exit_code,
        duration_ms: duration_millis(elapsed_ms),
        stdout: CapturedStream::from_raw(stdout),
        stderr: CapturedStream::from_raw(stderr),
        failure,
    }
}

/// A result for a target that failed before any output was captured.
pub fn failed_execution(
    environment: EnvironmentRef,
    state: ExecutionState,
    code: ExecutionFailureCode,
    message: &str,
    elapsed_ms: u128,
) -> (r: TargetExecution)
    ensures
        r.environment == environment,
        r.state == state,
        r.exit_code is None,
        r.duration_ms == millis(elapsed_ms),
        stream_is_empty(r.stdout),
        stream_is_empty(r.stderr),
        failure_is(r.failure, code, message@),
{
    let r = execution_with_capture(
        environment,
        state,
        None,
        elapsed_ms,
        RawCapture::empty(),
        RawCapture::empty(),
        Some(ExecutionFailure::new(code, message)),
    );
    proof {
        assert(valid_utf8(Seq::<u8>::empty()));
        assert(decode_utf8(Seq::<u8>::empty()) =~= Seq::<char>::empty());
    }
    r
}

/// What the caller must do with the child process handle after a captured run.
#[derive(Debug, Clone, Copy, PartialEq, Eq, Structural)]
pub enum ChildCleanup {
    /// The child exited normally: release it so connection sharing keeps working.
    Release,
    /// Output capture failed: kill and reap the process group now.
    TerminateAndReap,
    /// Keep the guard armed; dropping it kills and reaps anything still running.
    LeaveArmed,
}

/// A captured run's result and the cleanup it calls for.
#[derive(Debug)]
pub struct CapturedFinish {
    pub execution: TargetExecution,
    pub cleanup: ChildCleanup,
}

pub open spec fn wait_failed_message() -> Seq<char> {
    "failed while waiting for the local SSH client"@
}

/// Turn a captured run into its reported result. `outcome` is `None` when waiting for the child
/// failed.
pub fn finish_captured(
    environment: EnvironmentRef,
    outcome: Option<ProcessOutcome>,
    stdout: RawCapture,
    stderr: RawCapture,
    elapsed_ms: u128,
) -> (r: CapturedFinish)
    ensures
        r.execution.environment == environment,
        r.execution.duration_ms == millis(elapsed_ms),
        stream_of(r.execution.stdout, stdout.bytes@, stdout.truncated),
        stream_of(r.execution.stderr, stderr.bytes@, stderr.truncated),
        match outcome {
            None => {
                &&& r.execution.state == ExecutionState::Failed
                &&& r.execution.exit_code is None
                &&& failure_is(
                    r.execution.failure,
                    ExecutionFailureCode::WaitFailed,
                    wait_failed_message(),
                )
                &&& r.cleanup == ChildCleanup::LeaveArmed
            },
            Some(o) => if o == ProcessOutcome::CaptureFailed || stdout.read_failed
                || stderr.read_failed {
                &&& r.execution.state == ExecutionState::Failed
                &&& r.execution.exit_code == outcome_exit_code(o)
                &&& failure_is(
                    r.execution.failure,
                    ExecutionFailureCode::CaptureFailed,
                    capture_failed_message(),
                )
                &&& r.cleanup == ChildCleanup::TerminateAndReap
            } else {
                &&& r.execution.state == outcome_state(o)
                &&& r.execution.exit_code == outcome_exit_code(o)
                &&& failure_matches(r.execution.failure, outcome_failure(o))
                &&& r.cleanup == (if o is Exited {
                    ChildCleanup::Release
                } else {
                    ChildCleanup::LeaveArmed
                })
            },
        },
{
    let process_outcome = match outcome {
        None => {
            let execution = execution_with_capture(
                environment,
                ExecutionState::Failed,
                None,
                elapsed_ms,
                stdout,
                stderr,
                Some(
                    ExecutionFailure::new(
                        ExecutionFailureCode::WaitFailed,
                        "failed while waiting for the local SSH client",
                    ),
                ),
            );
            return CapturedFinish { execution, cleanup: ChildCleanup::LeaveArmed };
        },
        Some(o) => o,
    };
    let capture_failed = match process_outcome {
        ProcessOutcome::CaptureFailed => true,
        _ => false,
    };
    if capture_failed || stdout.read_failed || stderr.read_failed {
        let exit_code = process_exit_code(&process_outcome);
        let execution = execution_with_capture(
            environment,
            ExecutionState::Failed,
            exit_code,
            elapsed_ms,
            stdout,
            stderr,
            Some(
                ExecutionFailure::new(
                    ExecutionFailureCode::CaptureFailed,
                    "failed while capturing SSH command output",
                ),
            ),
        );
        return CapturedFinish { execution, cleanup: ChildCleanup::TerminateAndReap };
    }
    let cleanup = match process_outcome {
        ProcessOutcome::Exited { .. } => ChildCleanup::Release,
        _ => ChildCleanup::LeaveArmed,
    };
    let (state, exit_code, failure) = outcome_verdict(process_outcome);
    let execution = execution_with_capture(
        environment,
        state,
        exit_code,
        elapsed_ms,
        stdout,
        stderr,
        failure,
    );
    CapturedFinish { execution, cleanup }
}

// ---------------------------------------------------------------------------------------------
// Batches
// ---------------------------------------------------------------------------------------------
/// Complete ordered fan-out report.
#[derive(Debug)]
pub struct BatchReport {
    pub results: Vec<TargetExecution>,
    pub stream_capture_limit_bytes: usize,
}

impl BatchReport {
    pub fn from_results(results: Vec<TargetExecution>) -> (r: BatchReport)
        ensures
            r.results@ == results@,
            r.stream_capture_limit_bytes == stream_capture_limit(results@.len() as usize),
    {
        let limit = effective_stream_capture_limit(results.len());
        BatchReport { stream_capture_limit_bytes: limit, results }
    }

    /// Every target succeeded.
    pub fn succeeded(&self) -> (r: bool)
        ensures
            r == (forall|i: int|
                0 <= i < self.results@.len() ==> #[trigger] self.results@[i].state
                    == ExecutionState::Succeeded),
    {
        let mut i: usize = 0;
        while i < self.results.len()
            invariant
                i <= self.results@.len(),
                forall|k: int| 0 <= k < i ==> #[trigger] self.results@[k].state
                    == ExecutionState::Succeeded,
            decreases self.results@.len() - i,
        {
            if !self.results[i].succeeded() {
                return false;
            }
            i = i + 1;
        }
        true
    }
}

/// Concurrency and capture limits for one validated batch.
#[derive(Debug, Clone, Copy, PartialEq, Eq)]
pub struct BatchPlan {
    pub workers: usize,
    pub stream_limit: usize,
}

pub open spec fn command_missing(command: Seq<Seq<u8>>) -> bool {
    command.len() == 0 || command[0].len() == 0
}

/// Validate a fan-out request and size its worker pool.
pub fn plan_batch(target_count: usize, jobs: usize, remote_command: &[Vec<u8>]) -> (r: Result<
    BatchPlan,
    AppError,
>)
    ensures
        r is Ok <==> target_count > 0 && jobs > 0 && !command_missing(
            remote_command@.map_values(|v: Vec<u8>| v@),
        ),
        r matches Ok(plan) ==> plan.workers == min_int(jobs as int, target_count as int)
            && plan.stream_limit == stream_capture_limit(target_count),
        r matches Err(e) ==> if target_count == 0 {
            plain_error(e@, ErrorCode::InvalidInput, "at least one SSH target is required"@)
        } else if jobs == 0 {
            plain_error(
                e@,
                ErrorCode::InvalidArguments,
                "SSH concurrency must be greater than zero"@,
            )
        } else {
            plain_error(e@, ErrorCode::InvalidArguments, "an SSH remote command is required"@)
        },
{
    if target_count == 0 {
        return Err(AppError::new(ErrorCode::InvalidInput, "at least one SSH target is required"));
    }
    if jobs == 0 {
        return Err(
            AppError::new(ErrorCode::InvalidArguments, "SSH concurrency must be greater than zero"),
        );
    }
    if remote_command.len() == 0 || remote_command[0].len() == 0 {
        return Err(AppError::new(ErrorCode::InvalidArguments, "an SSH remote command is required"));
    }
    let workers = if jobs < target_count {
        jobs
    } else {
        target_count
    };
    Ok(BatchPlan { workers, stream_limit: effective_stream_capture_limit(target_count) })
}

/// Whether a worker may start another queued target.
pub fn keep_scheduling(cancelled: bool, fail_fast: bool, failure_seen: bool) -> (r: bool)
    ensures
        r == (!cancelled && !(fail_fast && failure_seen)),
{
    !cancelled && !(fail_fast && failure_seen)
}

/// Each started slot holds the result for the environment at its index.
pub open spec fn slots_in_order(slots: Seq<Option<TargetExecution>>, environments: Seq<EnvironmentRef>) -> bool {
    &&& slots.len() == environments.len()
    &&& forall|i: int|
        0 <= i < slots.len() ==> (#[trigger] slots[i] matches Some(t) ==> same_environment(
            t.environment,
            environments[i],
        ))
}

/// Whether the slots of a finished batch are in target order.
pub fn slots_match_targets(slots: &Vec<Option<TargetExecution>>, environments: &Vec<EnvironmentRef>) -> (r: bool)
    ensures
        r == slots_in_order(slots@, environments@),
{
    if slots.len() != environments.len() {
        return false;
    }
    let mut i: usize = 0;
    while i < slots.len()
        invariant
            i <= slots@.len(),
            slots@.len() == environments@.len(),
            forall|k: int|
                0 <= k < i ==> (#[trigger] slots@[k] matches Some(t) ==> same_environment(
                    t.environment,
                    environments@[k],
                )),
        decreases slots@.len() - i,
    {
        if let Some(t) = &slots[i] {
            if !t.environment.same(&environments[i]) {
                return false;
            }
        }
        i = i + 1;
    }
    true
}

/// Assemble the ordered report: started targets keep their results, the rest are reported as
/// unstarted (cancelled when the batch was cancelled, otherwise skipped by fail-fast).
pub fn assemble_batch(
    slots: Vec<Option<TargetExecution>>,
    environments: &Vec<EnvironmentRef>,
    cancelled: bool,
) -> (r: BatchReport)
    requires
        slots_in_order(slots@, environments@),
    ensures
        r.results@.len() == slots@.len(),
        forall|i: int|
            0 <= i < slots@.len() ==> same_environment(
                #[trigger] r.results@[i].environment,
                environments@[i],
            ),
        r.stream_capture_limit_bytes == stream_capture_limit(slots@.len() as usize),
        forall|i: int|
            0 <= i < slots@.len() ==> match #[trigger] slots@[i] {
                Some(t) => r.results@[i] == t,
                None => is_unstarted(r.results@[i], environments@[i], cancelled),
            },
{
    let ghost original = slots@;
    let n = slots.len();
    let mut slots = slots;
    let mut results: Vec<TargetExecution> = Vec::new();
    let mut i: usize = 0;
    while i < n
        invariant
            n == original.len(),
            n == environments@.len(),
            i <= n,
            slots@ == original.skip(i as int),
            results@.len() == i,
            forall|k: int|
                0 <= k < i ==> match #[trigger] original[k] {
                    Some(t) => results@[k] == t,
                    None => is_unstarted(results@[k], environments@[k], cancelled),
                },
        decreases n - i,
    {
        let slot = slots.remove(0);
        assert(slot == original[i as int]);
        let result = match slot {
            Some(t) => t,
            None => TargetExecution::skipped(environments[i].clone(), cancelled),
        };
        results.push(result);
        assert(slots@ =~= original.skip(i + 1));
        i = i + 1;
    }
    let report = BatchReport::from_results(results);
    proof {
        assert forall|k: int| 0 <= k < n implies same_environment(
            #[trigger] report.results@[k].environment,
            environments@[k],
        ) by {
            match original[k] {
                Some(t) => assert(same_environment(t.environment, environments@[k])),
                None => {},
            }
        }
    }
    report
}

/// One poll of a running child: the first of exit, cancellation, timeout and capture failure
/// decides the outcome; `None` means keep waiting.
pub fn poll_step(
    exited: Option<(bool, Option<i32>)>,
    cancelled: bool,
    elapsed_ms: u128,
    timeout_ms: Option<u128>,
    capture_failed: bool,
) -> (r: Option<ProcessOutcome>)
    ensures
        r == (match exited {
            Some((success, code)) => Some(ProcessOutcome::Exited { success, code }),
            None => if cancelled {
                Some(ProcessOutcome::Cancelled)
            } else if timeout_ms matches Some(limit) && elapsed_ms >= limit {
                Some(ProcessOutcome::TimedOut)
            } else if capture_failed {
                Some(ProcessOutcome::CaptureFailed)
            } else {
                None
            },
        }),
{
    if let Some((success, code)) = exited {
        return Some(ProcessOutcome::Exited { success, code });
    }
    if cancelled {
        return Some(ProcessOutcome::Cancelled);
    }
    if let Some(limit) = timeout_ms {
        if elapsed_ms >= limit {
            return Some(ProcessOutcome::TimedOut);
        }
    }
    if capture_failed {
        return Some(ProcessOutcome::CaptureFailed);
    }
    None
}

// ---------------------------------------------------------------------------------------------
// OpenSSH argument arrays
// ---------------------------------------------------------------------------------------------
/// Warning emitted when safe OpenSSH multiplexing cannot be configured locally.
#[derive(Debug)]
pub struct PoolWarning {
    pub code: String,
    pub message: String,
}

/// Connection-sharing configuration: a private control socket path, if one could be secured.
#[derive(Debug)]
pub struct ControlPool {
    pub control_path: Option<Vec<u8>>,
    pub warning: Option<PoolWarning>,
}

impl ControlPool {
    /// The pool after discovery: sharing with the secured path, or a warning when none exists.
    pub fn discovered(control_path: Option<Vec<u8>>) -> (r: ControlPool)
        ensures
            r.control_path == control_path,
            r.warning is Some <==> control_path is None,
            r.warning matches Some(w) ==> w.code@ == "ssh_pool_unavailable"@ && w.message@
                == "secure SSH multiplexing is unavailable; continuing without pooling"@,
    {
        match control_path {
            Some(path) => ControlPool { control_path: Some(path), warning: None },
            None => ControlPool {
                control_path: None,
                warning: Some(
                    PoolWarning {
                        code: "ssh_pool_unavailable".to_owned(),
                        message: "secure SSH multiplexing is unavailable; continuing without pooling".to_owned(),
                    },
                ),
            },
        }
    }

    /// No connection sharing and no warning.
    pub fn disabled() -> (r: ControlPool)
        ensures
            r.control_path is None,
            r.warning is None,
    {
        ControlPool { control_path: None, warning: None }
    }
}

/// OpenSSH process transport: the client executable and its connection-sharing setup.
#[derive(Debug)]
pub struct OpenSsh {
    pub binary: Vec<u8>,
    pub pool: ControlPool,
}

/// The UTF-8 bytes of a text.
pub open spec fn text_bytes(s: Seq<char>) -> Seq<u8> {
    encode_utf8(s)
}

fn literal_bytes(s: &str) -> (r: Vec<u8>)
    ensures
        r@ == text_bytes(s@),
{
    vstd::slice::slice_to_vec(s.as_bytes())
}

fn copy_bytes(v: &Vec<u8>) -> (r: Vec<u8>)
    ensures
        r@ == v@,
{
    vstd::slice::slice_to_vec(v.as_slice())
}

/// Options that make a captured command non-interactive.
pub open spec fn batch_options(mode: IoMode) -> Seq<Seq<u8>> {
    if mode == IoMode::Captured {
        seq![text_bytes("-T"@), text_bytes("-o"@), text_bytes("BatchMode=yes"@)]
    } else {
        seq![]
    }
}

/// Options that share one connection per host through a private control socket.
pub open spec fn pooling_options(control_path: Option<Seq<u8>>, pooling: bool) -> Seq<Seq<u8>> {
    match control_path {
        Some(path) => if pooling {
            seq![
                text_bytes("-o"@),
                text_bytes("ControlMaster=auto"@),
                text_bytes("-o"@),
                text_bytes("ControlPersist=60s"@),
                text_bytes("-o"@),
                text_bytes("ControlPath="@) + path,
            ]
        } else {
            seq![]
        },
        None => seq![],
    }
}

/// The complete argument array: options, port, `user@host`, then the remote command words as
/// separate arguments (never joined into a shell string).
pub open spec fn ssh_arguments(
    control_path: Option<Seq<u8>>,
    target: SshTargetView,
    command: Seq<Seq<u8>>,
    mode: IoMode,
    pooling: bool,
) -> Seq<Seq<u8>> {
    batch_options(mode) + pooling_options(control_path, pooling) + seq![
        text_bytes("-p"@),
        text_bytes(decimal_digits(target.port as nat)),
        text_bytes(target.user + "@"@ + target.host),
    ] + command
}

/// Why an argument array cannot be built, if it cannot.
pub open spec fn ssh_arguments_error(
    target: SshTargetView,
    command: Seq<Seq<u8>>,
    mode: IoMode,
) -> Option<AppErrorView> {
    if mode != IoMode::Interactive && command.len() == 0 {
        Some(
            AppErrorView {
                code: ErrorCode::InvalidArguments,
                message: "an SSH remote command is required"@,
                hint: None,
            },
        )
    } else if command.len() > 0 && command[0].len() == 0 {
        Some(
            AppErrorView {
                code: ErrorCode::InvalidArguments,
                message: "the SSH remote command name cannot be empty"@,
                hint: None,
            },
        )
    } else if target.working_directory is Some {
        Some(
            AppErrorView {
                code: ErrorCode::Unsupported,
                message: "SSH working-directory changes are not supported by the process transport"@,
                hint: Some("Run an explicit, safely quoted remote shell command if needed."@),
            },
        )
    } else {
        None
    }
}

pub open spec fn byte_words(v: Seq<Vec<u8>>) -> Seq<Seq<u8>> {
    v.map_values(|w: Vec<u8>| w@)
}

pub open spec fn optional_bytes(v: Option<Vec<u8>>) -> Option<Seq<u8>> {
    match v {
        Some(p) => Some(p@),
        None => None,
    }
}

fn push_words(out: &mut Vec<Vec<u8>>, words: &[Vec<u8>])
    ensures
        byte_words(final(out)@) == byte_words(old(out)@) + byte_words(words@),
{
    let mut i: usize = 0;
    while i < words.len()
        invariant
            i <= words@.len(),
            byte_words(out@) == byte_words(old(out)@) + byte_words(words@.take(i as int)),
        decreases words@.len() - i,
    {
        let ghost before = out@;
        out.push(copy_bytes(&words[i]));
        assert(byte_words(out@) =~= byte_words(before).push(words@[i as int]@));
        assert(byte_words(words@.take(i + 1)) =~= byte_words(words@.take(i as int)).push(
            words@[i as int]@,
        ));
        i = i + 1;
    }
    assert(words@.take(words@.len() as int) =~= words@);
}

fn push_word(out: &mut Vec<Vec<u8>>, word: Vec<u8>)
    ensures
        byte_words(final(out)@) == byte_words(old(out)@).push(word@),
{
    out.push(word);
    assert(byte_words(out@) =~= byte_words(old(out)@).push(word@));
}

impl OpenSsh {
    pub fn new(binary: Vec<u8>, pool: ControlPool) -> (r: OpenSsh)
        ensures
            r.binary == binary,
            r.pool == pool,
    {
        OpenSsh { binary, pool }
    }

    pub fn pool_warning(&self) -> (r: Option<&PoolWarning>)
        ensures
            r == match self.pool.warning {
                Some(w) => Some(&w),
                None => None::<&PoolWarning>,
            },
    {
        match &self.pool.warning {
            Some(w) => Some(w),
            None => None,
        }
    }

    /// The exact OpenSSH argument array for inspection or execution.
    pub fn build_arguments(
        &self,
        target: &SshTarget,
        remote_command: &[Vec<u8>],
        mode: IoMode,
        pooling: bool,
    ) -> (r: Result<Vec<Vec<u8>>, AppError>)
        ensures
            r is Err <==> ssh_arguments_error(target@, byte_words(remote_command@), mode) is Some,
            r matches Err(e) ==> Some(e@) == ssh_arguments_error(
                target@,
                byte_words(remote_command@),
                mode,
            ),
            r matches Ok(args) ==> byte_words(args@) == ssh_arguments(
                optional_bytes(self.pool.control_path),
                target@,
                byte_words(remote_command@),
                mode,
                pooling,
            ),
    {
        let ghost command = byte_words(remote_command@);
        if mode != IoMode::Interactive && remote_command.len() == 0 {
            return Err(AppError::new(ErrorCode::InvalidArguments, "an SSH remote command is required"));
        }
        if remote_command.len() > 0 && remote_command[0].len() == 0 {
            assert(command[0] == remote_command@[0]@);
            return Err(
                AppError::new(
                    ErrorCode::InvalidArguments,
                    "the SSH remote command name cannot be empty",
                ),
            );
        }
        proof {
            if command.len() > 0 {
                assert(command[0] == remote_command@[0]@);
            }
        }
        if target.working_directory().is_some() {
            let e = AppError::new(
                ErrorCode::Unsupported,
                "SSH working-directory changes are not supported by the process transport",
            ).with_hint("Run an explicit, safely quoted remote shell command if needed.");
            return Err(e);
        }
        let mut arguments: Vec<Vec<u8>> = Vec::new();
        if mode == IoMode::Captured {
            push_word(&mut arguments, literal_bytes("-T"));
            push_word(&mut arguments, literal_bytes("-o"));
            push_word(&mut arguments, literal_bytes("BatchMode=yes"));
        }
        assert(byte_words(arguments@) =~= batch_options(mode));
        if pooling {
            if let Some(control_path) = &self.pool.control_path {
                push_word(&mut arguments, literal_bytes("-o"));
                push_word(&mut arguments, literal_bytes("ControlMaster=auto"));
                push_word(&mut arguments, literal_bytes("-o"));
                push_word(&mut arguments, literal_bytes("ControlPersist=60s"));
                push_word(&mut arguments, literal_bytes("-o"));
                let mut value = literal_bytes("ControlPath=");
                let mut k: usize = 0;
                while k < control_path.len()
                    invariant
                        k <= control_path@.len(),
                        value@ == text_bytes("ControlPath="@) + control_path@.take(k as int),
                    decreases control_path@.len() - k,
                {
                    value.push(control_path[k]);
                    assert(control_path@.take(k + 1) =~= control_path@.take(k as int).push(
                        control_path@[k as int],
                    ));
                    k = k + 1;
                }
                assert(control_path@.take(control_path@.len() as int) =~= control_path@);
                push_word(&mut arguments, value);
            }
        }
        assert(byte_words(arguments@) =~= batch_options(mode) + pooling_options(
            optional_bytes(self.pool.control_path),
            pooling,
        ));
        push_word(&mut arguments, literal_bytes("-p"));
        let mut port = String::new();
        push_decimal(&mut port, target.port() as u64);
        push_word(&mut arguments, literal_bytes(port.as_str()));
        let mut destination = target.user().to_owned();
        push_str(&mut destination, "@");
        push_str(&mut destination, target.host());
        push_word(&mut arguments, literal_bytes(destination.as_str()));
        push_words(&mut arguments, remote_command);
        assert(port@ =~= decimal_digits(target@.port as nat));
        assert(byte_words(arguments@) =~= ssh_arguments(
            optional_bytes(self.pool.control_path),
            target@,
            command,
            mode,
            pooling,
        ));
        Ok(arguments)
    }
}

/// The result of the local client's availability check (`ssh -V`), given whether it succeeded.
pub fn availability_result(status_success: bool) -> (r: Result<(), AppError>)
    ensures
        r is Ok <==> status_success,
        r matches Err(e) ==> plain_error(
            e@,
            ErrorCode::DependencyMissing,
            "the local SSH client did not pass its availability check"@,
        ),
{
    if status_success {
        Ok(())
    } else {
        Err(
            AppError::new(
                ErrorCode::DependencyMissing,
                "the local SSH client did not pass its availability check",
            ),
        )
    }
}

/// Why the local SSH client could not be started, given the name of the I/O error kind.
pub open spec fn spawn_failure(kind: Seq<char>) -> AppErrorView {
    if kind == "NotFound"@ {
        AppErrorView {
            code: ErrorCode::DependencyMissing,
            message: "a local OpenSSH client could not be found"@,
            hint: Some("Install OpenSSH and ensure `ssh` is available on PATH."@),
        }
    } else {
        io_error_view("could not start the local SSH client"@, kind)
    }
}

/// A missing client (`NotFound`) is a missing dependency; any other spawn failure is an I/O
/// error that names its kind.
pub fn spawn_error(kind: &str) -> (r: AppError)
    ensures
        r@ == spawn_failure(kind@),
{
    if str_eq(kind, "NotFound") {
        AppError::new(ErrorCode::DependencyMissing, "a local OpenSSH client could not be found").with_hint(
            "Install OpenSSH and ensure `ssh` is available on PATH.",
        )
    } else {
        AppError::io_kind("could not start the local SSH client", kind)
    }
}

/// The error for a failed spawn of the SSH client: `spawn_error` of the error kind's `Debug`
/// name, which for `ErrorKind::NotFound` is `NotFound`.
pub fn map_spawn_error(error: &std::io::Error) -> (r: AppError)
    ensures
        exists|kind: Seq<char>| r@ == spawn_failure(kind),
{
    let kind = io_error_kind_name(io_error_kind(error));
    spawn_error(kind.as_str())
}

// ---------------------------------------------------------------------------------------------
// Control socket directory checks
// ---------------------------------------------------------------------------------------------
/// The parent of the control directory cannot be swapped out by another local user: it is a
/// real directory owned by the user or root, and not writable by others unless sticky.
pub open spec fn parent_protected(is_dir: bool, is_symlink: bool, mode: u32, owner: u32, uid: u32) -> bool {
    &&& is_dir && !is_symlink
    &&& owner == uid || owner == 0
    &&& (mode & 0o022u32) == 0 || (mode & 0o1000u32) != 0
}

pub fn control_parent_protected(
    is_dir: bool,
    is_symlink: bool,
    mode: u32,
    owner: u32,
    uid: u32,
) -> (r: bool)
    ensures
        r == parent_protected(is_dir, is_symlink, mode, owner, uid),
{
    let writable_by_others = mode & 0o022u32 != 0;
    let sticky = mode & 0o1000u32 != 0;
    let trusted_owner = owner == uid || owner == 0;
    is_dir && !is_symlink && trusted_owner && (!writable_by_others || sticky)
}

/// The control directory itself is private to the user: a real directory owned by the user with
/// no group or other permission bits.
pub open spec fn directory_private(is_dir: bool, is_symlink: bool, mode: u32, owner: u32, uid: u32) -> bool {
    is_dir && !is_symlink && owner == uid && (mode & 0o077u32) == 0
}

pub fn control_directory_private(
    is_dir: bool,
    is_symlink: bool,
    mode: u32,
    owner: u32,
    uid: u32,
) -> (r: bool)
    ensures
        r == directory_private(is_dir, is_symlink, mode, owner, uid),
{
    is_dir && !is_symlink && owner == uid && mode & 0o077u32 == 0
}

/// Length of a control path once OpenSSH expands `%C` to a 40-character digest.
pub fn expanded_control_path_len(path_len: usize) -> (r: usize)
    ensures
        r == if path_len + 38 > usize::MAX {
            usize::MAX as int
        } else {
            path_len + 38
        },
{
    if path_len > usize::MAX - 38 {
        usize::MAX
    } else {
        path_len + 38
    }
}

/// Whether a control path still fits the Unix socket path limit once expanded.
pub fn control_path_fits(path_len: usize) -> (r: bool)
    ensures
        r == (path_len + 38 <= 96),
{
    expanded_control_path_len(path_len) <= 96
}

/// The exit code remembered by a termination signal handler; zero means none was recorded.
pub fn signal_exit_code(raw: usize) -> (r: Option<u8>)
    ensures
        r == if 0 < raw && raw <= 255 {
            Some(raw as u8)
        } else {
            None::<u8>
        },
{
    if raw == 0 || raw > 255 {
        None
    } else {
        Some(raw as u8)
    }
}

} // verus!
