//! The authentication handshake: server-issued nonces, each bound to the key that
//! asked for it, redeemed once by a signature for a session.
use vstd::prelude::*;
use vstd::string::*;
use vstd::utf8::encode_utf8;
use crate::authorizer::{entry_key, file_contents, is_blank, parse_public_key, same_key, text_is_blank, Authorizer, PublicKey};
use crate::crypto::{
    clock_now, ed25519_key_valid, ed25519_verifies, ed25519_verifies_strict, random_bytes,
    signature_verifies, signature_verifies_strict,
};
use crate::encoding::{encode_prefixed_hex, prefixed_hex};
use crate::signed_request::{instant_nanos, to_nanos, NANOS_PER_SECOND};

verus! {

/// Why authentication failed.
#[derive(Clone, Copy, Debug, PartialEq, Eq, Structural)]
pub enum AuthError {
    InvalidToken,
    MissingAuthorizationHeader,
    Unauthorized,
    NonceNotFound,
    InvalidSignature,
    EmptyPublicKey,
}

impl AuthError {
    pub fn message(&self) -> &'static str {
        match self {
            AuthError::InvalidToken => "Invalid token",
            AuthError::MissingAuthorizationHeader => "Missing authorization header",
            AuthError::Unauthorized => "Unauthorized",
            AuthError::NonceNotFound => "Public key for nonce not found",
            AuthError::InvalidSignature => "Signature is invalid",
            AuthError::EmptyPublicKey => "Public key is empty",
        }
    }
}

/// The number of random bytes in an issued nonce.
pub const NONCE_SIZE: usize = 32;

/// A ledger entry: a nonce's text, the key it was issued to, and when it expires
/// (nanoseconds since the Unix epoch).
pub struct NonceEntry {
    pub nonce: Seq<char>,
    pub key: Seq<u8>,
    pub expiry: int,
}

/// The entries left once those for `nonce` are removed.
pub open spec fn without(s: Seq<NonceEntry>, nonce: Seq<char>) -> Seq<NonceEntry>
    decreases s.len(),
{
    if s.len() == 0 {
        s
    } else {
        let r = without(s.drop_last(), nonce);
        if s.last().nonce == nonce {
            r
        } else {
            r.push(s.last())
        }
    }
}

/// The latest entry for `nonce`.
pub open spec fn entry_for(s: Seq<NonceEntry>, nonce: Seq<char>) -> Option<NonceEntry>
    decreases s.len(),
{
    if s.len() == 0 {
        None
    } else if s.last().nonce == nonce {
        Some(s.last())
    } else {
        entry_for(s.drop_last(), nonce)
    }
}

/// Once the entries for a nonce are removed, none is found for it.
pub proof fn removed_nonce_is_gone(s: Seq<NonceEntry>, nonce: Seq<char>)
    ensures
        entry_for(without(s, nonce), nonce).is_none(),
    decreases s.len(),
{
    if s.len() > 0 {
        removed_nonce_is_gone(s.drop_last(), nonce);
        let r = without(s.drop_last(), nonce);
        if s.last().nonce != nonce {
            assert(r.push(s.last()).drop_last() =~= r);
        }
    }
}

struct LedgerEntry {
    nonce: String,
    key: PublicKey,
    expiry: i128,
}

spec fn entry_view(e: LedgerEntry) -> NonceEntry {
    NonceEntry { nonce: e.nonce@, key: e.key@, expiry: e.expiry as int }
}

spec fn ledger_view(v: Seq<LedgerEntry>) -> Seq<NonceEntry> {
    v.map_values(|e: LedgerEntry| entry_view(e))
}

/// Whether two texts are equal.
pub fn same_text(a: &str, b: &str) -> (r: bool)
    ensures
        r == (a@ == b@),
{
    let n = a.unicode_len();
    if n != b.unicode_len() {
        return false;
    }
    let mut i: usize = 0;
    while i < n
        invariant
            n == a@.len(),
            n == b@.len(),
            0 <= i <= n,
            forall|j: int| 0 <= j < i ==> a@[j] == b@[j],
        decreases n - i,
    {
        if a.get_char(i) != b.get_char(i) {
            return false;
        }
        i += 1;
    }
    assert(a@ =~= b@);
    true
}

/// The issued nonces that are not redeemed yet.
pub struct NonceLedger {
    entries: Vec<LedgerEntry>,
}

pub open spec fn entries_ledger_view(e: Seq<(Seq<char>, Seq<u8>, i128)>) -> Seq<NonceEntry> {
    e.map_values(|x: (Seq<char>, Seq<u8>, i128)| NonceEntry { nonce: x.0, key: x.1, expiry: x.2 as int })
}

impl View for NonceLedger {
    type V = Seq<NonceEntry>;

    closed spec fn view(&self) -> Seq<NonceEntry> {
        ledger_view(self.entries@)
    }
}

/// What a successful validation yields: the key, its text form as the subject and
/// the session's expiry in seconds since the Unix epoch.
#[derive(Debug)]
pub struct SessionClaims {
    pub subject: String,
    pub expiration: i128,
    pub key: PublicKey,
}

/// A nonce handed out: its text form and how many seconds it stays valid.
#[derive(Debug)]
pub struct IssuedNonce {
    pub nonce: String,
    pub expiration: u64,
}

impl NonceLedger {
    pub fn new() -> (r: NonceLedger)
        ensures
            r@ == Seq::<NonceEntry>::empty(),
    {
        let r = NonceLedger { entries: Vec::new() };
        assert(r@ =~= Seq::<NonceEntry>::empty());
        r
    }

    /// The latest entry for `nonce`, as the key and the expiry.
    fn find(&self, nonce: &str) -> (r: Option<(PublicKey, i128)>)
        ensures
            match r {
                Some((k, e)) => entry_for(self@, nonce@) == Some(NonceEntry { nonce: nonce@, key: k@, expiry: e as int }),
                None => entry_for(self@, nonce@).is_none(),
            },
    {
        let mut i: usize = self.entries.len();
        assert(self@.take(i as int) =~= self@);
        while i > 0
            invariant
                0 <= i <= self.entries@.len(),
                entry_for(self@, nonce@) == entry_for(self@.take(i as int), nonce@),
            decreases i,
        {
            assert(self@.take(i as int).drop_last() =~= self@.take(i as int - 1));
            let e = &self.entries[i - 1];
            assert(self@[i - 1] == entry_view(self.entries@[i - 1]));
            if same_text(e.nonce.as_str(), nonce) {
                return Some((e.key, e.expiry));
            }
            i -= 1;
        }
        None
    }

    /// Removes the entries for `nonce`.
    fn remove(&mut self, nonce: &str)
        ensures
            final(self)@ == without(old(self)@, nonce@),
    {
        let mut kept: Vec<LedgerEntry> = Vec::new();
        let n = self.entries.len();
        let mut i: usize = 0;
        while i < n
            invariant
                n == self.entries@.len(),
                self.entries@ == old(self).entries@,
                ledger_view(self.entries@) == old(self)@,
                0 <= i <= n,
                ledger_view(kept@) == without(old(self)@.take(i as int), nonce@),
            decreases n - i,
        {
            assert(old(self)@.take(i as int + 1).drop_last() =~= old(self)@.take(i as int));
            let e = &self.entries[i];
            assert(old(self)@[i as int] == entry_view(self.entries@[i as int]));
            if !same_text(e.nonce.as_str(), nonce) {
                let c = LedgerEntry { nonce: e.nonce.clone(), key: e.key, expiry: e.expiry };
                let ghost before = kept@;
                kept.push(c);
                assert(ledger_view(kept@) =~= ledger_view(before).push(old(self)@[i as int]));
            }
            i += 1;
        }
        assert(old(self)@.take(n as int) =~= old(self)@);
        self.entries = kept;
    }

    /// Hands out a nonce with the given bytes to `key`, valid for `lifetime` seconds
    /// from `now`; an unauthorized key gets none.
    pub fn generate_nonce_with(
        &mut self,
        authorizer: &Authorizer,
        key: &PublicKey,
        bytes: &[u8; 32],
        now: (i64, u32),
        lifetime: u64,
    ) -> (r: Result<IssuedNonce, AuthError>)
        ensures
            match r {
                Ok(issued) => authorizer.authorized().contains(key@)
                    && issued.nonce@ == prefixed_hex(bytes@)
                    && issued.expiration == lifetime
                    && final(self)@ == without(old(self)@, issued.nonce@).push(NonceEntry {
                        nonce: issued.nonce@,
                        key: key@,
                        expiry: instant_nanos(now) + lifetime * NANOS_PER_SECOND,
                    }),
                Err(e) => !authorizer.authorized().contains(key@) && e == AuthError::Unauthorized
                    && final(self)@ == old(self)@,
            },
    {
        if !authorizer.is_key_authorized(key) {
            return Err(AuthError::Unauthorized);
        }
        let text = encode_prefixed_hex(bytes);
        self.remove(text.as_str());
        let expiry = to_nanos(now) + (lifetime as i128) * NANOS_PER_SECOND;
        let ghost before = self.entries@;
        self.entries.push(LedgerEntry { nonce: text.clone(), key: *key, expiry });
        assert(ledger_view(self.entries@) =~= ledger_view(before).push(entry_view(self.entries@.last())));
        Ok(IssuedNonce { nonce: text, expiration: lifetime })
    }

    /// Hands out a fresh random nonce to `key`, valid for `lifetime` seconds from now;
    /// an unauthorized key gets none.
    pub fn generate_nonce(&mut self, authorizer: &Authorizer, key: &PublicKey, lifetime: u64) -> (r: Result<IssuedNonce, AuthError>)
        ensures
            match r {
                Ok(issued) => authorizer.authorized().contains(key@) && issued.expiration == lifetime
                    && (exists|b: Seq<u8>| b.len() == 32 && issued.nonce@ == #[trigger] prefixed_hex(b))
                    && exists|expiry: int| final(self)@ == #[trigger] without(old(self)@, issued.nonce@).push(NonceEntry {
                        nonce: issued.nonce@,
                        key: key@,
                        expiry,
                    }),
                Err(e) => !authorizer.authorized().contains(key@) && e == AuthError::Unauthorized
                    && final(self)@ == old(self)@,
            },
    {
        let bytes = random_bytes();
        let now = clock_now();
        self.generate_nonce_with(authorizer, key, &bytes, now, lifetime)
    }

    /// Redeems `nonce` with a signature over its text at instant `now`: the nonce must
    /// have a live entry, and the key it was issued to must verify the signature. On
    /// success the nonce is removed, and the session lasts `session` seconds.
    pub fn validate_signature_at(&mut self, nonce: &str, signature: &[u8; 64], now: (i64, u32), session: u64) -> (r: Result<SessionClaims, AuthError>)
        ensures
            redeemed(old(self)@, final(self)@, r, nonce@, signature@, now, session),
    {
        let (key, expiry) = match self.find(nonce) {
            None => return Err(AuthError::NonceNotFound),
            Some(found) => found,
        };
        if expiry <= to_nanos(now) {
            return Err(AuthError::NonceNotFound);
        }
        if !signature_verifies(&key.bytes, nonce.as_bytes(), signature) {
            return Err(AuthError::InvalidSignature);
        }
        self.remove(nonce);
        let subject = encode_prefixed_hex(&key.bytes);
        Ok(SessionClaims { subject, expiration: (now.0 as i128) + (session as i128), key })
    }

    /// Redeems `nonce` now; the answer is the one `validate_signature_at` gives at some instant.
    pub fn validate_signature(&mut self, nonce: &str, signature: &[u8; 64], session: u64) -> (r: Result<SessionClaims, AuthError>)
        ensures
            exists|now: (i64, u32)| #[trigger] redeemed(old(self)@, final(self)@, r, nonce@, signature@, now, session),
    {
        let now = clock_now();
        self.validate_signature_at(nonce, signature, now, session)
    }
}

/// Whether `r` and `after` are what redeeming `nonce` with `signature` at `now` gives
/// on `before`: the validation's key with its claims and the nonce removed, or the
/// validation's error with the ledger unchanged.
pub open spec fn redeemed(
    before: Seq<NonceEntry>,
    after: Seq<NonceEntry>,
    r: Result<SessionClaims, AuthError>,
    nonce: Seq<char>,
    signature: Seq<u8>,
    now: (i64, u32),
    session: u64,
) -> bool {
    match r {
        Ok(claims) => validation(before, nonce, signature, now) == Ok::<Seq<u8>, AuthError>(claims.key@)
            && claims.subject@ == prefixed_hex(claims.key@)
            && claims.expiration == now.0 + session
            && after == without(before, nonce),
        Err(e) => validation(before, nonce, signature, now) == Err::<Seq<u8>, AuthError>(e)
            && after == before,
    }
}

/// The key a nonce redeems for, or why it does not: no live entry, or a signature
/// over the nonce's text that the entry's key does not verify.
pub open spec fn validation(ledger: Seq<NonceEntry>, nonce: Seq<char>, signature: Seq<u8>, now: (i64, u32)) -> Result<Seq<u8>, AuthError> {
    match entry_for(ledger, nonce) {
        None => Err(AuthError::NonceNotFound),
        Some(e) => if e.expiry <= instant_nanos(now) {
            Err(AuthError::NonceNotFound)
        } else if !(ed25519_key_valid(e.key) && ed25519_verifies(e.key, encode_utf8(nonce), signature)) {
            Err(AuthError::InvalidSignature)
        } else {
            Ok(e.key)
        },
    }
}

/// A nonce redeems at most once: after a successful validation, any later
/// validation of it, with any signature, finds no entry.
pub proof fn nonce_is_single_use(
    ledger: Seq<NonceEntry>,
    nonce: Seq<char>,
    first: Seq<u8>,
    second: Seq<u8>,
    then: (i64, u32),
    later: (i64, u32),
)
    requires
        validation(ledger, nonce, first, then) is Ok,
    ensures
        validation(without(ledger, nonce), nonce, second, later) == Err::<Seq<u8>, AuthError>(AuthError::NonceNotFound),
{
    removed_nonce_is_gone(ledger, nonce);
}

/// A nonce whose entry has expired validates with no signature.
pub proof fn expired_nonce_fails(ledger: Seq<NonceEntry>, nonce: Seq<char>, signature: Seq<u8>, now: (i64, u32))
    requires
        entry_for(ledger, nonce) is Some,
        entry_for(ledger, nonce).unwrap().expiry <= instant_nanos(now),
    ensures
        validation(ledger, nonce, signature, now) == Err::<Seq<u8>, AuthError>(AuthError::NonceNotFound),
{
}

/// The key that a nonce request names as `0x`-prefixed hex text: blank text is
/// refused as empty, and text that names no key as unauthorized.
pub fn requested_key(text: &str) -> (r: Result<PublicKey, AuthError>)
    ensures
        is_blank(text@) ==> r == Err::<PublicKey, AuthError>(AuthError::EmptyPublicKey),
        !is_blank(text@) ==> match r {
            Ok(k) => entry_key(text@) == Ok::<Seq<u8>, crate::authorizer::AuthorizerError>(k@),
            Err(e) => e == AuthError::Unauthorized && entry_key(text@) is Err,
        },
{
    if text_is_blank(text) {
        return Err(AuthError::EmptyPublicKey);
    }
    match parse_public_key(text) {
        Ok(k) => Ok(k),
        Err(_) => Err(AuthError::Unauthorized),
    }
}

/// Why a key registration was refused.
#[derive(Clone, Copy, Debug, PartialEq, Eq, Structural)]
pub enum RegistrationError {
    /// The authority is not an admin key.
    Unauthorized,
    /// The authority's signature over the new key does not verify strictly.
    InvalidSignature,
}

/// Whether a list of keys holds `k`.
pub open spec fn lists_key(keys: Seq<PublicKey>, k: Seq<u8>) -> bool {
    exists|i: int| 0 <= i < keys.len() && (#[trigger] keys[i])@ == k
}

/// Adds `new_key` to the store when an admin key `authority` signed the new key's bytes
/// (strict verification). The `Ok` value is what `Authorizer::authorize` returned.
pub fn register(
    admin_keys: &Vec<PublicKey>,
    authorizer: &mut Authorizer,
    authority: &PublicKey,
    new_key: PublicKey,
    signature: &[u8; 64],
) -> (r: Result<Option<String>, RegistrationError>)
    ensures
        !lists_key(admin_keys@, authority@) ==> r == Err::<Option<String>, RegistrationError>(RegistrationError::Unauthorized),
        lists_key(admin_keys@, authority@) && !(ed25519_key_valid(authority@) && ed25519_verifies_strict(authority@, new_key@, signature@))
            ==> r == Err::<Option<String>, RegistrationError>(RegistrationError::InvalidSignature),
        lists_key(admin_keys@, authority@) && ed25519_key_valid(authority@) && ed25519_verifies_strict(authority@, new_key@, signature@)
            ==> r is Ok,
        r is Ok ==> final(authorizer).authorized() == old(authorizer).authorized().insert(new_key@),
        r is Ok ==> match *old(authorizer) {
            Authorizer::Persistent(f) => match r.unwrap() {
                Some(c) => !f.keys@.contains(new_key@) && c@ == file_contents(f.keys.listed().push(new_key@)),
                None => f.keys@.contains(new_key@),
            },
            _ => r.unwrap().is_none(),
        },
        !(r is Ok) ==> final(authorizer).authorized() == old(authorizer).authorized(),
{
    let mut i: usize = 0;
    let mut found = false;
    while i < admin_keys.len()
        invariant
            0 <= i <= admin_keys@.len(),
            found == exists|j: int| 0 <= j < i && (#[trigger] admin_keys@[j])@ == authority@,
        decreases admin_keys@.len() - i,
    {
        if same_key(&admin_keys[i], authority) {
            found = true;
        }
        i += 1;
    }
    if !found {
        return Err(RegistrationError::Unauthorized);
    }
    if !signature_verifies_strict(&authority.bytes, &new_key.bytes, signature) {
        return Err(RegistrationError::InvalidSignature);
    }
    Ok(authorizer.authorize(new_key))
}

} // verus!
