//! The authorization store: which public keys may authenticate.
use vstd::prelude::*;
use vstd::string::*;
use crate::crypto::{
    ed25519_key_valid, ed25519_verifies, json_of_string_list, json_string_list, key_is_valid,
    parse_string_list, render_string_list, signature_verifies, strings_view,
};
use crate::encoding::{decode_prefixed_hex, encode_prefixed_hex, prefixed_hex, prefixed_hex_decoded};

verus! {

/// A 32-byte ed25519 verifying key, compared by its bytes.
#[derive(Clone, Copy, Debug)]
pub struct PublicKey {
    pub bytes: [u8; 32],
}

impl View for PublicKey {
    type V = Seq<u8>;

    open spec fn view(&self) -> Seq<u8> {
        self.bytes@
    }
}

/// Byte equality of two keys.
pub fn same_key(a: &PublicKey, b: &PublicKey) -> (r: bool)
    ensures
        r == (a@ == b@),
{
    let mut i: usize = 0;
    while i < 32
        invariant
            0 <= i <= 32,
            a@.len() == 32,
            b@.len() == 32,
            forall|j: int| 0 <= j < i ==> a@[j] == b@[j],
        decreases 32 - i,
    {
        if a.bytes[i] != b.bytes[i] {
            return false;
        }
        i += 1;
    }
    assert(a@ =~= b@);
    true
}

/// Why a key store could not be read or written.
#[derive(Clone, Copy, Debug, PartialEq, Eq, Structural)]
pub enum AuthorizerError {
    FileAccessError,
    FormatError,
    MissingAuthorizationHeader,
    PrefixHexConversionError,
    VerifyingKeyError,
    DataError,
}

impl AuthorizerError {
    pub fn message(&self) -> &'static str {
        match self {
            AuthorizerError::FileAccessError => "file read error",
            AuthorizerError::FormatError => "invalid file format",
            AuthorizerError::MissingAuthorizationHeader => "Missing authorization header",
            AuthorizerError::PrefixHexConversionError => "invalid hex key",
            AuthorizerError::VerifyingKeyError => "invalid verifying key",
            AuthorizerError::DataError => "Conversion to Vec<u8> failed",
        }
    }
}

/// Whether one of `keys` verifies `signature` over `data`.
pub open spec fn some_key_verifies(keys: Set<Seq<u8>>, data: Seq<u8>, signature: Seq<u8>) -> bool {
    exists|k: Seq<u8>| #[trigger] keys.contains(k) && ed25519_key_valid(k) && ed25519_verifies(k, data, signature)
}

/// A set of keys held in memory, in the order they were added.
#[derive(Debug)]
pub struct KeySet {
    keys: Vec<PublicKey>,
}

pub open spec fn keys_view(s: Seq<PublicKey>) -> Seq<Seq<u8>> {
    s.map_values(|k: PublicKey| k@)
}

impl View for KeySet {
    type V = Set<Seq<u8>>;

    closed spec fn view(&self) -> Set<Seq<u8>> {
        keys_view(self.keys@).to_set()
    }
}

impl KeySet {
    /// The keys in the order they were added.
    pub closed spec fn listed(&self) -> Seq<Seq<u8>> {
        keys_view(self.keys@)
    }

    pub proof fn lemma_listed(&self)
        ensures
            self@ == self.listed().to_set(),
    {
    }

    pub fn new() -> (r: KeySet)
        ensures
            r@ == Set::<Seq<u8>>::empty(),
            r.listed() == Seq::<Seq<u8>>::empty(),
    {
        let r = KeySet { keys: Vec::new() };
        assert(r@ =~= Set::<Seq<u8>>::empty());
        r
    }

    pub fn len(&self) -> (r: usize)
        ensures
            r == self.listed().len(),
    {
        self.keys.len()
    }

    pub fn contains(&self, key: &PublicKey) -> (r: bool)
        ensures
            r == self@.contains(key@),
    {
        let mut i: usize = 0;
        while i < self.keys.len()
            invariant
                0 <= i <= self.keys@.len(),
                forall|j: int| 0 <= j < i ==> self.keys@[j]@ != key@,
            decreases self.keys@.len() - i,
        {
            if same_key(&self.keys[i], key) {
                assert(keys_view(self.keys@)[i as int] == key@);
                return true;
            }
            i += 1;
        }
        assert(!keys_view(self.keys@).contains(key@));
        false
    }

    /// Adds a key at the end of the list, unless it is already there.
    pub fn insert(&mut self, key: PublicKey)
        ensures
            final(self)@ == old(self)@.insert(key@),
            old(self)@.contains(key@) ==> final(self).listed() == old(self).listed(),
            !old(self)@.contains(key@) ==> final(self).listed() == old(self).listed().push(key@),
    {
        if !self.contains(&key) {
            self.keys.push(key);
            assert(keys_view(self.keys@) =~= keys_view(old(self).keys@).push(key@));
            proof {
                keys_view(old(self).keys@).lemma_push_to_set_commute(key@);
            }
        } else {
            assert(old(self)@.insert(key@) =~= old(self)@);
        }
    }

    /// Whether some key of the set verifies `signature` over `data`.
    pub fn any_verifies(&self, signature: &[u8; 64], data: &[u8]) -> (r: bool)
        ensures
            r == some_key_verifies(self@, data@, signature@),
    {
        let mut i: usize = 0;
        while i < self.keys.len()
            invariant
                0 <= i <= self.keys@.len(),
                forall|j: int| 0 <= j < i ==> !(ed25519_key_valid(#[trigger] self.keys@[j]@) && ed25519_verifies(self.keys@[j]@, data@, signature@)),
            decreases self.keys@.len() - i,
        {
            if signature_verifies(&self.keys[i].bytes, data, signature) {
                assert(keys_view(self.keys@)[i as int] == self.keys@[i as int]@);
                assert(self@.contains(self.keys@[i as int]@));
                return true;
            }
            i += 1;
        }
        assert forall|k: Seq<u8>| #[trigger] self@.contains(k) implies !(ed25519_key_valid(k) && ed25519_verifies(k, data@, signature@)) by {
            let j = choose|j: int| 0 <= j < keys_view(self.keys@).len() && keys_view(self.keys@)[j] == k;
            assert(self.keys@[j]@ == k);
        }
        false
    }
}

/// Unicode White_Space, the characters that `str::trim` removes.
pub open spec fn is_white_space(c: char) -> bool {
    let n = c as u32;
    (9 <= n <= 13) || n == 32 || n == 0x85 || n == 0xA0 || n == 0x1680 || (0x2000 <= n <= 0x200A)
        || n == 0x2028 || n == 0x2029 || n == 0x202F || n == 0x205F || n == 0x3000
}

pub open spec fn is_blank(s: Seq<char>) -> bool {
    forall|i: int| 0 <= i < s.len() ==> is_white_space(#[trigger] s[i])
}

fn char_is_white_space(c: char) -> (r: bool)
    ensures
        r == is_white_space(c),
{
    let n = c as u32;
    (9 <= n && n <= 13) || n == 32 || n == 0x85 || n == 0xA0 || n == 0x1680 || (0x2000 <= n && n
        <= 0x200A) || n == 0x2028 || n == 0x2029 || n == 0x202F || n == 0x205F || n == 0x3000
}

/// Whether a text holds white space only.
pub fn text_is_blank(s: &str) -> (r: bool)
    ensures
        r == is_blank(s@),
{
    let n = s.unicode_len();
    let mut i: usize = 0;
    while i < n
        invariant
            n == s@.len(),
            0 <= i <= n,
            forall|j: int| 0 <= j < i ==> is_white_space(#[trigger] s@[j]),
        decreases n - i,
    {
        if !char_is_white_space(s.get_char(i)) {
            return false;
        }
        i += 1;
    }
    true
}

/// The key that one entry of a key file stands for: `0x` and 64 hex digits of a valid key.
pub open spec fn entry_key(entry: Seq<char>) -> Result<Seq<u8>, AuthorizerError> {
    match prefixed_hex_decoded(entry) {
        None => Err(AuthorizerError::PrefixHexConversionError),
        Some(b) => if b.len() != 32 {
            Err(AuthorizerError::DataError)
        } else if !ed25519_key_valid(b) {
            Err(AuthorizerError::VerifyingKeyError)
        } else {
            Ok(b)
        },
    }
}

/// The keys of a list of entries, or the error of the first entry that is no key.
pub open spec fn entries_keys(l: Seq<Seq<char>>) -> Result<Seq<Seq<u8>>, AuthorizerError>
    decreases l.len(),
{
    if l.len() == 0 {
        Ok(Seq::empty())
    } else {
        match entries_keys(l.drop_last()) {
            Err(e) => Err(e),
            Ok(r) => match entry_key(l.last()) {
                Err(e) => Err(e),
                Ok(k) => Ok(r.push(k)),
            },
        }
    }
}

/// The keys that a key file's contents list: a blank file lists none; otherwise
/// the contents are a JSON array of `0x`-prefixed hex keys.
pub open spec fn file_keys(contents: Seq<char>) -> Result<Seq<Seq<u8>>, AuthorizerError> {
    if is_blank(contents) {
        Ok(Seq::empty())
    } else {
        match json_string_list(contents) {
            None => Err(AuthorizerError::FormatError),
            Some(l) => entries_keys(l),
        }
    }
}

/// The contents of a key file that lists `keys`.
pub open spec fn file_contents(keys: Seq<Seq<u8>>) -> Seq<char> {
    json_of_string_list(keys.map_values(|k: Seq<u8>| prefixed_hex(k)))
}

/// The key that a `0x`-prefixed hex text stands for.
pub fn parse_public_key(entry: &str) -> (r: Result<PublicKey, AuthorizerError>)
    ensures
        match r {
            Ok(k) => entry_key(entry@) == Ok::<Seq<u8>, AuthorizerError>(k@),
            Err(e) => entry_key(entry@) == Err::<Seq<u8>, AuthorizerError>(e),
        },
{
    if entry.unicode_len() == 1 && (entry.get_char(0) as u32) >= 0x80 {
        return Err(AuthorizerError::PrefixHexConversionError);
    }
    let bytes = match decode_prefixed_hex(entry) {
        None => return Err(AuthorizerError::PrefixHexConversionError),
        Some(b) => b,
    };
    if bytes.len() != 32 {
        return Err(AuthorizerError::DataError);
    }
    let mut arr = [0u8; 32];
    let mut i: usize = 0;
    while i < 32
        invariant
            0 <= i <= 32,
            bytes@.len() == 32,
            arr@.len() == 32,
            forall|j: int| 0 <= j < i ==> arr@[j] == bytes@[j],
        decreases 32 - i,
    {
        arr[i] = bytes[i];
        i += 1;
    }
    assert(arr@ =~= bytes@);
    if !key_is_valid(&arr) {
        return Err(AuthorizerError::VerifyingKeyError);
    }
    Ok(PublicKey { bytes: arr })
}

proof fn lemma_first_error_stays(l: Seq<Seq<char>>, n: int)
    requires
        0 <= n <= l.len(),
        entries_keys(l.take(n)).is_err(),
    ensures
        entries_keys(l) == entries_keys(l.take(n)),
    decreases l.len() - n,
{
    if n < l.len() {
        assert(l.take(n + 1).drop_last() =~= l.take(n));
        lemma_first_error_stays(l, n + 1);
    } else {
        assert(l.take(n) =~= l);
    }
}

/// A key store kept in a file; it holds the file's keys as last read or written.
#[derive(Debug)]
pub struct FileAuthorizer {
    pub path: String,
    pub keys: KeySet,
}

impl FileAuthorizer {
    /// The file contents that list these keys followed by `extra`, if any.
    fn contents_with(&self, extra: Option<PublicKey>) -> (r: String)
        ensures
            r@ == file_contents(match extra {
                Some(k) => self.keys.listed().push(k@),
                None => self.keys.listed(),
            }),
    {
        let ghost want = match extra {
            Some(k) => self.keys.listed().push(k@),
            None => self.keys.listed(),
        };
        let mut entries: Vec<String> = Vec::new();
        let mut i: usize = 0;
        while i < self.keys.keys.len()
            invariant
                0 <= i <= self.keys.keys@.len(),
                entries@.len() == i,
                forall|j: int| 0 <= j < i ==> #[trigger] entries@[j]@ == prefixed_hex(self.keys.keys@[j]@),
            decreases self.keys.keys@.len() - i,
        {
            entries.push(encode_prefixed_hex(&self.keys.keys[i].bytes));
            i += 1;
        }
        match extra {
            Some(k) => entries.push(encode_prefixed_hex(&k.bytes)),
            None => {},
        }
        assert(strings_view(entries@) =~= want.map_values(|k: Seq<u8>| prefixed_hex(k)));
        render_string_list(&entries).unwrap()
    }

    /// The contents of the file that lists this store's keys.
    pub fn contents(&self) -> (r: String)
        ensures
            r@ == file_contents(self.keys.listed()),
    {
        self.contents_with(None)
    }

    /// Adds `key`. When it is new, returns the contents that the file must then hold.
    pub fn authorize(&mut self, key: PublicKey) -> (r: Option<String>)
        ensures
            final(self).path == old(self).path,
            final(self).keys@ == old(self).keys@.insert(key@),
            match r {
                None => old(self).keys@.contains(key@) && final(self).keys.listed() == old(self).keys.listed(),
                Some(c) => !old(self).keys@.contains(key@)
                    && final(self).keys.listed() == old(self).keys.listed().push(key@)
                    && c@ == file_contents(final(self).keys.listed()),
            },
    {
        if self.keys.contains(&key) {
            proof { self.keys.lemma_listed(); }
            assert(old(self).keys@.insert(key@) =~= old(self).keys@);
            return None;
        }
        let c = self.contents_with(Some(key));
        self.keys.insert(key);
        Some(c)
    }

    /// The store for the file at `path` whose contents are `contents`.
    pub fn load(path: String, contents: &str) -> (r: Result<FileAuthorizer, AuthorizerError>)
        ensures
            match r {
                Ok(f) => f.path@ == path@ && file_keys(contents@) == Ok::<Seq<Seq<u8>>, AuthorizerError>(f.keys.listed()),
                Err(e) => file_keys(contents@) == Err::<Seq<Seq<u8>>, AuthorizerError>(e),
            },
    {
        let mut keys = KeySet::new();
        if text_is_blank(contents) {
            return Ok(FileAuthorizer { path, keys });
        }
        let entries = match parse_string_list(contents) {
            None => return Err(AuthorizerError::FormatError),
            Some(l) => l,
        };
        let ghost l = strings_view(entries@);
        let mut listed: Vec<PublicKey> = Vec::new();
        let mut i: usize = 0;
        assert(file_keys(contents@) == entries_keys(l));
        assert(l.take(0) =~= Seq::<Seq<char>>::empty());
        assert(keys_view(listed@) =~= Seq::<Seq<u8>>::empty());
        while i < entries.len()
            invariant
                0 <= i <= entries@.len(),
                l == strings_view(entries@),
                file_keys(contents@) == entries_keys(l),
                entries_keys(l.take(i as int)) == Ok::<Seq<Seq<u8>>, AuthorizerError>(keys_view(listed@)),
            decreases entries@.len() - i,
        {
            assert(l.take(i as int + 1).drop_last() =~= l.take(i as int));
            assert(l.take(i as int + 1).last() == entries@[i as int]@);
            match parse_public_key(entries[i].as_str()) {
                Err(e) => {
                    assert(entries_keys(l.take(i as int + 1)) == Err::<Seq<Seq<u8>>, AuthorizerError>(e));
                    proof { lemma_first_error_stays(l, i as int + 1); }
                    assert(file_keys(contents@) == entries_keys(l));
                    return Err(e);
                },
                Ok(k) => {
                    let ghost prev = listed@;
                    listed.push(k);
                    assert(keys_view(listed@) =~= keys_view(prev).push(k@));
                },
            }
            i += 1;
        }
        assert(l.take(entries@.len() as int) =~= l);
        Ok(FileAuthorizer { path, keys: KeySet { keys: listed } })
    }
}

/// A store of authorized keys, in one of four forms.
#[derive(Debug)]
pub enum Authorizer {
    /// Every key is authorized.
    Open,
    /// The keys held in memory.
    Memory(KeySet),
    /// The keys of a file, which each new key is written back to.
    Persistent(FileAuthorizer),
    /// The keys of a file that is only read, together with keys added in memory.
    Overlay(FileAuthorizer, KeySet),
}

/// The keys authorized once each key of `later` is added, in order, to `keys`.
pub open spec fn after_authorizing(keys: Set<Seq<u8>>, later: Seq<Seq<u8>>) -> Set<Seq<u8>>
    decreases later.len(),
{
    if later.len() == 0 {
        keys
    } else {
        after_authorizing(keys, later.drop_last()).insert(later.last())
    }
}

/// Once a key is authorized, adding further keys never takes it away.
pub proof fn authorization_is_monotone(keys: Set<Seq<u8>>, k: Seq<u8>, later: Seq<Seq<u8>>)
    ensures
        after_authorizing(keys.insert(k), later).contains(k),
    decreases later.len(),
{
    if later.len() > 0 {
        authorization_is_monotone(keys, k, later.drop_last());
    }
}

impl Authorizer {
    /// The keys that this store authorizes.
    pub open spec fn authorized(&self) -> Set<Seq<u8>> {
        match self {
            Authorizer::Open => Set::full(),
            Authorizer::Memory(s) => s@,
            Authorizer::Persistent(f) => f.keys@,
            Authorizer::Overlay(f, s) => f.keys@ + s@,
        }
    }

    /// Whether the store accepts `signature` over `data`: an open store accepts
    /// anything, another accepts when one of its keys verifies the signature.
    pub open spec fn accepts(&self, data: Seq<u8>, signature: Seq<u8>) -> bool {
        self is Open || some_key_verifies(self.authorized(), data, signature)
    }

    /// Whether `key` is authorized.
    pub fn is_key_authorized(&self, key: &PublicKey) -> (r: bool)
        ensures
            r == self.authorized().contains(key@),
    {
        match self {
            Authorizer::Open => true,
            Authorizer::Memory(s) => s.contains(key),
            Authorizer::Persistent(f) => f.keys.contains(key),
            Authorizer::Overlay(f, s) => f.keys.contains(key) || s.contains(key),
        }
    }

    /// Authorizes `key`. For a file-backed store whose file gains the key, the result
    /// holds the contents that the file must then hold; the overlay's file is never written.
    pub fn authorize(&mut self, key: PublicKey) -> (r: Option<String>)
        ensures
            final(self).authorized() == old(self).authorized().insert(key@),
            match *old(self) {
                Authorizer::Persistent(f) => match r {
                    Some(c) => !f.keys@.contains(key@)
                        && c@ == file_contents(f.keys.listed().push(key@)),
                    None => f.keys@.contains(key@),
                },
                _ => r.is_none(),
            },
            match (*old(self), *final(self)) {
                (Authorizer::Open, Authorizer::Open) => true,
                (Authorizer::Memory(_), Authorizer::Memory(_)) => true,
                (Authorizer::Persistent(f0), Authorizer::Persistent(f1)) => f0.path == f1.path,
                (Authorizer::Overlay(f0, _), Authorizer::Overlay(f1, _)) => f0.path == f1.path
                    && f0.keys@ == f1.keys@,
                _ => false,
            },
    {
        match self {
            Authorizer::Open => {
                assert(Set::<Seq<u8>>::full().insert(key@) =~= Set::<Seq<u8>>::full());
                None
            },
            Authorizer::Memory(s) => {
                s.insert(key);
                None
            },
            Authorizer::Persistent(f) => f.authorize(key),
            Authorizer::Overlay(f, s) => {
                let ghost before = s@;
                s.insert(key);
                assert(f.keys@ + s@ =~= (f.keys@ + before).insert(key@));
                None
            },
        }
    }

    /// Whether the store accepts `signature` over `data_hash`: an open store accepts
    /// anything, another accepts when one of its keys verifies the signature.
    pub fn is_authorized(&self, signature: &[u8; 64], data_hash: &[u8]) -> (r: bool)
        ensures
            r == self.accepts(data_hash@, signature@),
    {
        match self {
            Authorizer::Open => true,
            Authorizer::Memory(s) => s.any_verifies(signature, data_hash),
            Authorizer::Persistent(f) => f.keys.any_verifies(signature, data_hash),
            Authorizer::Overlay(f, s) => {
                let a = f.keys.any_verifies(signature, data_hash);
                let b = s.any_verifies(signature, data_hash);
                proof {
                    if a {
                        let k = choose|k: Seq<u8>| #[trigger] f.keys@.contains(k) && ed25519_key_valid(k) && ed25519_verifies(k, data_hash@, signature@);
                        assert(self.authorized().contains(k));
                    }
                    if b {
                        let k = choose|k: Seq<u8>| #[trigger] s@.contains(k) && ed25519_key_valid(k) && ed25519_verifies(k, data_hash@, signature@);
                        assert(self.authorized().contains(k));
                    }
                    if !a && !b {
                        assert forall|k: Seq<u8>| #[trigger] self.authorized().contains(k) implies !(
                        ed25519_key_valid(k) && ed25519_verifies(k, data_hash@, signature@)) by {
                            if f.keys@.contains(k) {
                            } else {
                                assert(s@.contains(k));
                            }
                        }
                    }
                }
                a || b
            },
        }
    }
}

} // verus!
