//! Checks on signed requests: a detached signature over the request body, a
//! timestamp and a client-chosen nonce that may be used once within a window.
use vstd::prelude::*;
use vstd::string::*;
use crate::authorizer::Authorizer;
use crate::crypto::{
    clock_now, compact_json, json_compact, json_quote, json_string_literal, parse_rfc3339, rfc3339_instant, sha256,
    sha256_digest,
};
use crate::encoding::{decode_hex, hex_decoded};

verus! {

/// How long a request's timestamp and nonce stay valid, in nanoseconds (30 s).
pub const REQUEST_WINDOW_NANOS: i128 = 30_000_000_000;

pub const NANOS_PER_SECOND: i128 = 1_000_000_000;

/// An instant as nanoseconds since the Unix epoch.
pub open spec fn instant_nanos(t: (i64, u32)) -> int {
    t.0 * 1_000_000_000 + t.1
}

pub fn to_nanos(t: (i64, u32)) -> (r: i128)
    ensures
        r == instant_nanos(t),
{
    assert(-9223372036854775808 * 1_000_000_000 <= t.0 * 1_000_000_000 <= 9223372036854775807
        * 1_000_000_000) by (nonlinear_arith)
        requires
            -9223372036854775808 <= t.0 <= 9223372036854775807,
    ;
    (t.0 as i128) * NANOS_PER_SECOND + (t.1 as i128)
}

pub open spec fn is_digit(c: char) -> bool {
    48 <= c as u32 <= 57
}

/// The value of a string of decimal digits.
pub open spec fn digits_value(s: Seq<char>) -> nat
    decreases s.len(),
{
    if s.len() == 0 {
        0
    } else {
        digits_value(s.drop_last()) * 10 + ((s.last() as u32) - 48) as nat
    }
}

/// The digits of a decimal text after an optional `+`.
pub open spec fn unsigned_digits(s: Seq<char>) -> Seq<char> {
    if s.len() > 0 && s[0] == '+' {
        s.drop_first()
    } else {
        s
    }
}

/// The `u64` that a decimal text denotes, as `u64::from_str` reads it.
pub open spec fn parsed_u64(s: Seq<char>) -> Option<u64> {
    let d = unsigned_digits(s);
    if d.len() > 0 && (forall|i: int| 0 <= i < d.len() ==> is_digit(#[trigger] d[i]))
        && digits_value(d) <= u64::MAX {
        Some(digits_value(d) as u64)
    } else {
        None
    }
}

proof fn lemma_digits_grow(d: Seq<char>, i: int, j: int)
    requires
        0 <= i <= j <= d.len(),
        forall|k: int| 0 <= k < j ==> is_digit(#[trigger] d[k]),
    ensures
        digits_value(d.take(i)) <= digits_value(d.take(j)),
    decreases j - i,
{
    if i < j {
        lemma_digits_grow(d, i, j - 1);
        assert(d.take(j).drop_last() =~= d.take(j - 1));
    }
}

/// Reads a decimal `u64` as `u64::from_str` does: an optional `+`, then digits.
pub fn parse_u64(s: &str) -> (r: Option<u64>)
    ensures
        r == parsed_u64(s@),
{
    let n = s.unicode_len();
    let mut i: usize = 0;
    if n > 0 && s.get_char(0) == '+' {
        i = 1;
    }
    let start = i;
    let ghost d = unsigned_digits(s@);
    assert(d =~= s@.subrange(start as int, n as int));
    if start == n {
        return None;
    }
    let mut acc: u64 = 0;
    while i < n
        invariant
            n == s@.len(),
            start <= i <= n,
            start < n,
            d == s@.subrange(start as int, n as int),
            d == unsigned_digits(s@),
            forall|k: int| 0 <= k < i - start ==> is_digit(#[trigger] d[k]),
            acc == digits_value(d.take(i - start)),
        decreases n - i,
    {
        let c = s.get_char(i);
        assert(c == d[i - start]);
        if !((c as u32) >= 48 && (c as u32) <= 57) {
            assert(!is_digit(d[i - start]));
            return None;
        }
        let v = ((c as u32) - 48) as u64;
        assert(d.take(i - start + 1).drop_last() =~= d.take(i - start));
        if acc > (u64::MAX - v) / 10 {
            proof {
                assert(acc * 10 + v > u64::MAX) by (nonlinear_arith)
                    requires
                        acc > (u64::MAX - v) / 10,
                        v <= 9,
                ;
                if forall|k: int| 0 <= k < d.len() ==> is_digit(#[trigger] d[k]) {
                    lemma_digits_grow(d, i - start + 1, d.len() as int);
                    assert(d.take(d.len() as int) =~= d);
                }
            }
            return None;
        }
        acc = acc * 10 + v;
        i += 1;
    }
    assert(d.take(n - start) =~= d);
    Some(acc)
}

/// The decimal digits of a number, as bytes.
pub open spec fn decimal(n: nat) -> Seq<u8>
    decreases n,
{
    if n < 10 {
        seq![(48 + n) as u8]
    } else {
        decimal(n / 10).push((48 + n % 10) as u8)
    }
}

/// Appends the decimal digits of `n`.
pub fn push_decimal(out: &mut Vec<u8>, n: u64)
    ensures
        final(out)@ == old(out)@ + decimal(n as nat),
    decreases n,
{
    if n >= 10 {
        push_decimal(out, n / 10);
    }
    out.push((48 + n % 10) as u8);
    proof {
        if n >= 10 {
            assert(final(out)@ =~= old(out)@ + decimal(n as nat)) by {
                assert(decimal(n as nat) == decimal((n / 10) as nat).push((48 + n % 10) as u8));
            }
        }
    }
}

/// Appends bytes.
pub fn push_bytes(out: &mut Vec<u8>, b: &[u8])
    ensures
        final(out)@ == old(out)@ + b@,
{
    let mut i: usize = 0;
    while i < b.len()
        invariant
            0 <= i <= b@.len(),
            out@ == old(out)@ + b@.take(i as int),
        decreases b@.len() - i,
    {
        out.push(b[i]);
        i += 1;
        assert(out@ =~= old(out)@ + b@.take(i as int));
    }
    assert(b@.take(b@.len() as int) =~= b@);
}

/// `{"data":`
pub open spec fn data_open() -> Seq<u8> {
    seq![123u8, 34, 100, 97, 116, 97, 34, 58]
}

/// `,"nonce":`
pub open spec fn nonce_field() -> Seq<u8> {
    seq![44u8, 34, 110, 111, 110, 99, 101, 34, 58]
}

/// `,"timestamp":`
pub open spec fn timestamp_field() -> Seq<u8> {
    seq![44u8, 34, 116, 105, 109, 101, 115, 116, 97, 109, 112, 34, 58]
}

/// The bytes that a request's signature covers, before hashing: the JSON object
/// `{"data":<body>,"nonce":<nonce>,"timestamp":"<timestamp>"}`, keys in order.
pub open spec fn canonical_payload(body: Seq<u8>, timestamp: Seq<char>, nonce: u64) -> Seq<u8> {
    data_open() + body + nonce_field() + decimal(nonce as nat) + timestamp_field()
        + json_string_literal(timestamp) + seq![125u8]
}

/// Builds the signed payload of a request from the body's compact JSON text, the
/// timestamp text and the nonce.
pub fn signed_payload(body: &[u8], timestamp: &str, nonce: u64) -> (r: Vec<u8>)
    ensures
        r@ == canonical_payload(body@, timestamp@, nonce),
{
    let quoted = json_quote(timestamp).unwrap();
    let mut out: Vec<u8> = vec![123u8, 34, 100, 97, 116, 97, 34, 58];
    assert(out@ =~= data_open());
    push_bytes(&mut out, body);
    let nf: Vec<u8> = vec![44u8, 34, 110, 111, 110, 99, 101, 34, 58];
    assert(nf@ =~= nonce_field());
    push_bytes(&mut out, nf.as_slice());
    push_decimal(&mut out, nonce);
    let tf: Vec<u8> = vec![44u8, 34, 116, 105, 109, 101, 115, 116, 97, 109, 112, 34, 58];
    assert(tf@ =~= timestamp_field());
    push_bytes(&mut out, tf.as_slice());
    push_bytes(&mut out, quoted.as_slice());
    out.push(125u8);
    assert(out@ =~= canonical_payload(body@, timestamp@, nonce));
    out
}

/// Why a signed request is turned away.
#[derive(Clone, Copy, Debug, PartialEq, Eq, Structural)]
pub enum Rejection {
    MissingSignature,
    InvalidSignatureFormat,
    MissingNonce,
    InvalidNonceFormat,
    MissingTimestamp,
    InvalidTimestampFormat,
    TimestampTooOld,
    NonceReused,
    InvalidBody,
    Unauthorized,
}

impl Rejection {
    /// The HTTP status that answers the request.
    pub open spec fn spec_status(self) -> u16 {
        match self {
            Rejection::TimestampTooOld | Rejection::NonceReused | Rejection::Unauthorized => 401,
            _ => 400,
        }
    }

    pub fn status(&self) -> (r: u16)
        ensures
            r == self.spec_status(),
    {
        match self {
            Rejection::TimestampTooOld | Rejection::NonceReused | Rejection::Unauthorized => 401,
            _ => 400,
        }
    }

    pub fn message(&self) -> &'static str {
        match self {
            Rejection::MissingSignature => "Missing x-signature header",
            Rejection::InvalidSignatureFormat => "Invalid signature format",
            Rejection::MissingNonce => "Missing X-Nonce header",
            Rejection::InvalidNonceFormat => "Invalid nonce format",
            Rejection::MissingTimestamp => "Missing X-Timestamp header",
            Rejection::InvalidTimestampFormat => "Invalid timestamp format",
            Rejection::TimestampTooOld => "Timestamp too old",
            Rejection::NonceReused => "Invalid nonce",
            Rejection::InvalidBody => "Invalid JSON body",
            Rejection::Unauthorized => "Unauthorized",
        }
    }
}

/// The entries of a replay set that are still live at `now`, in order.
pub open spec fn swept(s: Seq<(u64, i128)>, now: int) -> Seq<(u64, i128)>
    decreases s.len(),
{
    if s.len() == 0 {
        s
    } else {
        let r = swept(s.drop_last(), now);
        if s.last().1 > now {
            r.push(s.last())
        } else {
            r
        }
    }
}

/// Whether a nonce has an entry.
pub open spec fn has_nonce(s: Seq<(u64, i128)>, nonce: u64) -> bool {
    exists|i: int| 0 <= i < s.len() && (#[trigger] s[i]).0 == nonce
}

/// The request nonces seen lately, each with the instant it expires.
#[derive(Debug)]
pub struct ReplaySet {
    entries: Vec<(u64, i128)>,
}

impl View for ReplaySet {
    type V = Seq<(u64, i128)>;

    closed spec fn view(&self) -> Seq<(u64, i128)> {
        self.entries@
    }
}

impl ReplaySet {
    pub fn new() -> (r: ReplaySet)
        ensures
            r@ == Seq::<(u64, i128)>::empty(),
    {
        ReplaySet { entries: Vec::new() }
    }

    /// Drops the entries that expired at or before `now`.
    pub fn sweep(&mut self, now: i128)
        ensures
            final(self)@ == swept(old(self)@, now as int),
    {
        let mut kept: Vec<(u64, i128)> = Vec::new();
        let mut i: usize = 0;
        while i < self.entries.len()
            invariant
                0 <= i <= self.entries@.len(),
                self.entries@ == old(self).entries@,
                kept@ == swept(self.entries@.take(i as int), now as int),
            decreases self.entries@.len() - i,
        {
            assert(self.entries@.take(i as int + 1).drop_last() =~= self.entries@.take(i as int));
            let e = self.entries[i];
            if e.1 > now {
                kept.push(e);
            }
            i += 1;
        }
        assert(self.entries@.take(i as int) =~= self.entries@);
        self.entries = kept;
    }

    /// Whether `nonce` has an entry.
    pub fn contains(&self, nonce: u64) -> (r: bool)
        ensures
            r == has_nonce(self@, nonce),
    {
        let mut i: usize = 0;
        while i < self.entries.len()
            invariant
                0 <= i <= self.entries@.len(),
                forall|j: int| 0 <= j < i ==> (#[trigger] self.entries@[j]).0 != nonce,
            decreases self.entries@.len() - i,
        {
            if self.entries[i].0 == nonce {
                return true;
            }
            i += 1;
        }
        false
    }

    /// Records `nonce` with its expiry.
    pub fn record(&mut self, nonce: u64, expiry: i128)
        ensures
            final(self)@ == old(self)@.push((nonce, expiry)),
    {
        self.entries.push((nonce, expiry));
    }
}

pub open spec fn opt_str_view(o: Option<&str>) -> Option<Seq<char>> {
    match o {
        Some(s) => Some(s@),
        None => None,
    }
}

pub open spec fn opt_bytes_view(o: Option<&[u8]>) -> Option<Seq<u8>> {
    match o {
        Some(b) => Some(b@),
        None => None,
    }
}

/// The body's JSON text as it is signed: the compact form of the JSON value it holds.
pub open spec fn signed_body(body: Option<Seq<u8>>) -> Option<Seq<u8>> {
    match body {
        Some(b) => json_compact(b),
        None => None,
    }
}

/// What the three headers of a signed request carry: the 64 signature bytes, the
/// nonce and the timestamp's instant; or why they are missing or malformed.
pub open spec fn read_headers(
    signature: Option<Seq<char>>,
    nonce: Option<Seq<char>>,
    timestamp: Option<Seq<char>>,
) -> Result<(Seq<u8>, u64, (i64, u32)), Rejection> {
    match signature {
        None => Err(Rejection::MissingSignature),
        Some(s) => match hex_decoded(s) {
            None => Err(Rejection::InvalidSignatureFormat),
            Some(sig) => if sig.len() != 64 {
                Err(Rejection::InvalidSignatureFormat)
            } else {
                match nonce {
                    None => Err(Rejection::MissingNonce),
                    Some(n) => match parsed_u64(n) {
                        None => Err(Rejection::InvalidNonceFormat),
                        Some(nv) => match timestamp {
                            None => Err(Rejection::MissingTimestamp),
                            Some(t) => match rfc3339_instant(t) {
                                None => Err(Rejection::InvalidTimestampFormat),
                                Some(instant) => Ok((sig, nv, instant)),
                            },
                        },
                    },
                }
            },
        },
    }
}

/// Whether a request stamped at `stamp` is too old at `now`: more than the window ago.
pub open spec fn is_stale(stamp: (i64, u32), now: (i64, u32)) -> bool {
    instant_nanos(now) - instant_nanos(stamp) > REQUEST_WINDOW_NANOS
}

/// The answer to a signed request and the replay set after it. Headers are read
/// first; then a stale timestamp is refused; then expired nonces are swept and a
/// nonce still present is refused; otherwise the nonce is recorded until the window
/// ends, and the request passes when the body holds a JSON value and the store accepts
/// the signature over the SHA-256 digest of the canonical payload of that value's
/// compact text.
pub open spec fn verdict(
    replay: Seq<(u64, i128)>,
    authorizer: Authorizer,
    signature: Option<Seq<char>>,
    nonce: Option<Seq<char>>,
    timestamp: Option<Seq<char>>,
    body: Option<Seq<u8>>,
    now: (i64, u32),
) -> (Result<(), Rejection>, Seq<(u64, i128)>) {
    match read_headers(signature, nonce, timestamp) {
        Err(e) => (Err(e), replay),
        Ok((sig, n, stamp)) => if is_stale(stamp, now) {
            (Err(Rejection::TimestampTooOld), replay)
        } else {
            let live = swept(replay, instant_nanos(now));
            if has_nonce(live, n) {
                (Err(Rejection::NonceReused), live)
            } else {
                let next = live.push((n, (instant_nanos(now) + REQUEST_WINDOW_NANOS) as i128));
                match signed_body(body) {
                    None => (Err(Rejection::InvalidBody), next),
                    Some(b) => if authorizer.accepts(
                        sha256_digest(canonical_payload(b, timestamp.unwrap(), n)),
                        sig,
                    ) {
                        (Ok(()), next)
                    } else {
                        (Err(Rejection::Unauthorized), next)
                    },
                }
            }
        },
    }
}

fn to_signature(b: &Vec<u8>) -> (r: [u8; 64])
    requires
        b@.len() == 64,
    ensures
        r@ == b@,
{
    let mut arr = [0u8; 64];
    let mut i: usize = 0;
    while i < 64
        invariant
            0 <= i <= 64,
            b@.len() == 64,
            arr@.len() == 64,
            forall|j: int| 0 <= j < i ==> arr@[j] == b@[j],
        decreases 64 - i,
    {
        arr[i] = b[i];
        i += 1;
    }
    assert(arr@ =~= b@);
    arr
}

/// Reads the signature, nonce and timestamp headers.
pub fn parse_headers(
    signature: Option<&str>,
    nonce: Option<&str>,
    timestamp: Option<&str>,
) -> (r: Result<([u8; 64], u64, (i64, u32)), Rejection>)
    ensures
        match r {
            Ok((sig, n, stamp)) => read_headers(opt_str_view(signature), opt_str_view(nonce), opt_str_view(timestamp))
                == Ok::<(Seq<u8>, u64, (i64, u32)), Rejection>((sig@, n, stamp)),
            Err(e) => read_headers(opt_str_view(signature), opt_str_view(nonce), opt_str_view(timestamp))
                == Err::<(Seq<u8>, u64, (i64, u32)), Rejection>(e),
        },
{
    let sig_text = match signature {
        None => return Err(Rejection::MissingSignature),
        Some(s) => s,
    };
    let sig_bytes = match decode_hex(sig_text) {
        None => return Err(Rejection::InvalidSignatureFormat),
        Some(b) => b,
    };
    if sig_bytes.len() != 64 {
        return Err(Rejection::InvalidSignatureFormat);
    }
    let sig = to_signature(&sig_bytes);
    let nonce_text = match nonce {
        None => return Err(Rejection::MissingNonce),
        Some(n) => n,
    };
    let n = match parse_u64(nonce_text) {
        None => return Err(Rejection::InvalidNonceFormat),
        Some(n) => n,
    };
    let stamp_text = match timestamp {
        None => return Err(Rejection::MissingTimestamp),
        Some(t) => t,
    };
    let stamp = match parse_rfc3339(stamp_text) {
        None => return Err(Rejection::InvalidTimestampFormat),
        Some(t) => t,
    };
    Ok((sig, n, stamp))
}

/// Decides a signed request at instant `now` and updates the replay set, as `verdict`
/// says. `body` is the request body's bytes, none when it could not be read.
pub fn check_signed_request_at(
    replay: &mut ReplaySet,
    authorizer: &Authorizer,
    signature: Option<&str>,
    nonce: Option<&str>,
    timestamp: Option<&str>,
    body: Option<&[u8]>,
    now: (i64, u32),
) -> (r: Result<(), Rejection>)
    ensures
        (r, final(replay)@) == verdict(old(replay)@, *authorizer, opt_str_view(signature), opt_str_view(nonce),
            opt_str_view(timestamp), opt_bytes_view(body), now),
{
    let (sig, n, stamp) = match parse_headers(signature, nonce, timestamp) {
        Err(e) => return Err(e),
        Ok(h) => h,
    };
    let now_nanos = to_nanos(now);
    let stamp_nanos = to_nanos(stamp);
    if now_nanos - stamp_nanos > REQUEST_WINDOW_NANOS {
        return Err(Rejection::TimestampTooOld);
    }
    replay.sweep(now_nanos);
    if replay.contains(n) {
        return Err(Rejection::NonceReused);
    }
    replay.record(n, now_nanos + REQUEST_WINDOW_NANOS);
    let raw = match body {
        None => return Err(Rejection::InvalidBody),
        Some(b) => b,
    };
    let b = match compact_json(raw) {
        None => return Err(Rejection::InvalidBody),
        Some(b) => b,
    };
    let payload = signed_payload(b.as_slice(), timestamp.unwrap(), n);
    let digest = sha256(payload.as_slice());
    if authorizer.is_authorized(&sig, digest.as_slice()) {
        Ok(())
    } else {
        Err(Rejection::Unauthorized)
    }
}

/// Decides a signed request at the current time: the answer and replay set are those
/// that `verdict` gives at some instant.
pub fn check_signed_request(
    replay: &mut ReplaySet,
    authorizer: &Authorizer,
    signature: Option<&str>,
    nonce: Option<&str>,
    timestamp: Option<&str>,
    body: Option<&[u8]>,
) -> (r: Result<(), Rejection>)
    ensures
        exists|now: (i64, u32)| (r, final(replay)@) == #[trigger] verdict(old(replay)@, *authorizer,
            opt_str_view(signature), opt_str_view(nonce), opt_str_view(timestamp),
            opt_bytes_view(body), now),
{
    let now = clock_now();
    check_signed_request_at(replay, authorizer, signature, nonce, timestamp, body, now)
}

/// A request that passed is refused, with status 401, when the same request comes
/// again before its nonce's window has ended.
pub proof fn replayed_request_is_refused(
    replay: Seq<(u64, i128)>,
    authorizer: Authorizer,
    signature: Option<Seq<char>>,
    nonce: Option<Seq<char>>,
    timestamp: Option<Seq<char>>,
    body: Option<Seq<u8>>,
    first: (i64, u32),
    second: (i64, u32),
)
    requires
        verdict(replay, authorizer, signature, nonce, timestamp, body, first).0 == Ok::<(), Rejection>(()),
        instant_nanos(second) < instant_nanos(first) + REQUEST_WINDOW_NANOS,
    ensures
        ({
            let after = verdict(replay, authorizer, signature, nonce, timestamp, body, first).1;
            let again = verdict(after, authorizer, signature, nonce, timestamp, body, second).0;
            &&& again == Err::<(), Rejection>(Rejection::NonceReused) || again == Err::<(), Rejection>(
                Rejection::TimestampTooOld)
            &&& again.unwrap_err().spec_status() == 401
        }),
{
    let (sig, n, stamp) = read_headers(signature, nonce, timestamp).unwrap();
    let live = swept(replay, instant_nanos(first));
    let after = live.push((n, (instant_nanos(first) + REQUEST_WINDOW_NANOS) as i128));
    assert(after.drop_last() =~= live);
    let again_live = swept(after, instant_nanos(second));
    assert(again_live.last() == (n, (instant_nanos(first) + REQUEST_WINDOW_NANOS) as i128));
    assert(has_nonce(again_live, n));
}

/// A request whose timestamp is fresh, whose nonce has no live entry, whose body holds
/// JSON and whose signature the store accepts over its payload passes; in particular
/// a request that differs from an earlier one only in a new nonce passes again.
pub proof fn fresh_request_passes(
    replay: Seq<(u64, i128)>,
    authorizer: Authorizer,
    signature: Option<Seq<char>>,
    nonce: Option<Seq<char>>,
    timestamp: Option<Seq<char>>,
    body: Option<Seq<u8>>,
    now: (i64, u32),
)
    requires
        read_headers(signature, nonce, timestamp) is Ok,
        !is_stale(read_headers(signature, nonce, timestamp).unwrap().2, now),
        !has_nonce(swept(replay, instant_nanos(now)), read_headers(signature, nonce, timestamp).unwrap().1),
        signed_body(body) is Some,
        authorizer.accepts(
            sha256_digest(canonical_payload(signed_body(body).unwrap(), timestamp.unwrap(), read_headers(signature, nonce, timestamp).unwrap().1)),
            read_headers(signature, nonce, timestamp).unwrap().0,
        ),
    ensures
        verdict(replay, authorizer, signature, nonce, timestamp, body, now).0 == Ok::<(), Rejection>(()),
{
}

/// A request whose timestamp is more than the window old is refused with status 401,
/// whatever its nonce and signature.
pub proof fn stale_request_is_refused(
    replay: Seq<(u64, i128)>,
    authorizer: Authorizer,
    signature: Option<Seq<char>>,
    nonce: Option<Seq<char>>,
    timestamp: Option<Seq<char>>,
    body: Option<Seq<u8>>,
    now: (i64, u32),
)
    requires
        read_headers(signature, nonce, timestamp) is Ok,
        is_stale(read_headers(signature, nonce, timestamp).unwrap().2, now),
    ensures
        verdict(replay, authorizer, signature, nonce, timestamp, body, now) == (Err::<(), Rejection>(
            Rejection::TimestampTooOld), replay),
        Rejection::TimestampTooOld.spec_status() == 401,
{
}

/// Whether every check on a request succeeds: headers well-formed, timestamp fresh,
/// nonce without a live entry, body holding JSON, and a signature the store accepts.
pub open spec fn all_checks_pass(
    replay: Seq<(u64, i128)>,
    authorizer: Authorizer,
    signature: Option<Seq<char>>,
    nonce: Option<Seq<char>>,
    timestamp: Option<Seq<char>>,
    body: Option<Seq<u8>>,
    now: (i64, u32),
) -> bool {
    &&& read_headers(signature, nonce, timestamp) is Ok
    &&& !is_stale(read_headers(signature, nonce, timestamp).unwrap().2, now)
    &&& !has_nonce(swept(replay, instant_nanos(now)), read_headers(signature, nonce, timestamp).unwrap().1)
    &&& signed_body(body) is Some
    &&& authorizer.accepts(
        sha256_digest(canonical_payload(signed_body(body).unwrap(), timestamp.unwrap(), read_headers(signature, nonce, timestamp).unwrap().1)),
        read_headers(signature, nonce, timestamp).unwrap().0,
    )
}

/// A request passes exactly when every check on it succeeds; otherwise it is refused
/// with status 400 or 401.
pub proof fn request_passes_exactly_when_checks_pass(
    replay: Seq<(u64, i128)>,
    authorizer: Authorizer,
    signature: Option<Seq<char>>,
    nonce: Option<Seq<char>>,
    timestamp: Option<Seq<char>>,
    body: Option<Seq<u8>>,
    now: (i64, u32),
)
    ensures
        (verdict(replay, authorizer, signature, nonce, timestamp, body, now).0 is Ok)
            == all_checks_pass(replay, authorizer, signature, nonce, timestamp, body, now),
        verdict(replay, authorizer, signature, nonce, timestamp, body, now).0 is Err ==> {
            let st = verdict(replay, authorizer, signature, nonce, timestamp, body, now).0.unwrap_err().spec_status();
            st == 400 || st == 401
        },
{
}

/// A well-formed, fresh request with an unused nonce and a JSON body, whose signature
/// no authorized key makes, is refused with status 401.
pub proof fn unauthorized_signature_is_refused(
    replay: Seq<(u64, i128)>,
    authorizer: Authorizer,
    signature: Option<Seq<char>>,
    nonce: Option<Seq<char>>,
    timestamp: Option<Seq<char>>,
    body: Option<Seq<u8>>,
    now: (i64, u32),
)
    requires
        read_headers(signature, nonce, timestamp) is Ok,
        !is_stale(read_headers(signature, nonce, timestamp).unwrap().2, now),
        !has_nonce(swept(replay, instant_nanos(now)), read_headers(signature, nonce, timestamp).unwrap().1),
        signed_body(body) is Some,
        !authorizer.accepts(
            sha256_digest(canonical_payload(signed_body(body).unwrap(), timestamp.unwrap(), read_headers(signature, nonce, timestamp).unwrap().1)),
            read_headers(signature, nonce, timestamp).unwrap().0,
        ),
    ensures
        verdict(replay, authorizer, signature, nonce, timestamp, body, now).0 == Err::<(), Rejection>(Rejection::Unauthorized),
        Rejection::Unauthorized.spec_status() == 401,
{
}

} // verus!
