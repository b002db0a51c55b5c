//! What identifies a stored model: its SHA-1 hash, where it lives, who
//! made it and when.
use vstd::prelude::*;
use vstd::string::StringSliceAdditionalSpecFns;
use crate::net::Timestamp;
use crate::text::{hex_digit, push_char, to_owned_string};
use crypto::digest::Digest;

verus! {

/// Why a text is no SHA-1 hash.
#[derive(Debug, Clone, Copy, PartialEq, Eq, Structural)]
pub enum Sha1HashParseError {
    /// It is not 40 bytes long.
    InvalidLength,
    /// Some byte is no hexadecimal digit.
    InvalidValue,
}

/// A SHA-1 hash: 20 bytes.
#[derive(Debug, Clone, Copy, PartialEq, Eq, PartialOrd, Ord, Hash)]
pub struct Sha1Hash(pub [u8; 20]);

impl View for Sha1Hash {
    type V = Seq<u8>;

    open spec fn view(&self) -> Seq<u8> {
        self.0@
    }
}

/// The value of a hexadecimal digit byte (either case).
pub open spec fn hex_value(b: u8) -> Option<nat> {
    if 48 <= b <= 57 {
        Some((b - 48) as nat)
    } else if 97 <= b <= 102 {
        Some((b - 87) as nat)
    } else if 65 <= b <= 70 {
        Some((b - 55) as nat)
    } else {
        None
    }
}

/// The hash a text's bytes give: 40 hexadecimal digits, two per byte, the
/// high one first.
pub open spec fn sha1_of_text(bytes: Seq<u8>) -> Result<Seq<u8>, Sha1HashParseError> {
    if bytes.len() != 40 {
        Err(Sha1HashParseError::InvalidLength)
    } else if exists|i: int| 0 <= i < 40 && #[trigger] hex_value(bytes[i]) is None {
        Err(Sha1HashParseError::InvalidValue)
    } else {
        Ok(
            Seq::new(
                20,
                |i: int| (16 * hex_value(bytes[2 * i])->0 + hex_value(bytes[2 * i + 1])->0) as u8,
            ),
        )
    }
}

/// The text of bytes: two lower-case hexadecimal digits each, the high one
/// first.
pub open spec fn hex_text(bytes: Seq<u8>) -> Seq<char>
    decreases bytes.len(),
{
    if bytes.len() == 0 {
        Seq::empty()
    } else {
        hex_text(bytes.drop_last()) + seq![
            hex_digit((bytes.last() / 16) as nat),
            hex_digit((bytes.last() % 16) as nat),
        ]
    }
}

/// The hexadecimal value of a byte, where it is a digit.
fn hex_value_of(b: u8) -> (v: Option<u8>)
    ensures
        match v {
            Some(d) => hex_value(b) == Some(d as nat) && d < 16,
            None => hex_value(b) is None,
        },
{
    if 48 <= b && b <= 57 {
        Some(b - 48)
    } else if 97 <= b && b <= 102 {
        Some(b - 87)
    } else if 65 <= b && b <= 70 {
        Some(b - 55)
    } else {
        None
    }
}

/// The lower-case digit of a value below 16.
fn hex_char(d: u8) -> (c: char)
    requires
        d < 16,
    ensures
        c == hex_digit(d as nat),
{
    if d == 0 { '0' } else if d == 1 { '1' } else if d == 2 { '2' } else if d == 3 { '3' }
    else if d == 4 { '4' } else if d == 5 { '5' } else if d == 6 { '6' } else if d == 7 { '7' }
    else if d == 8 { '8' } else if d == 9 { '9' } else if d == 10 { 'a' } else if d == 11 { 'b' }
    else if d == 12 { 'c' } else if d == 13 { 'd' } else if d == 14 { 'e' } else { 'f' }
}

/// The SHA-1 hasher of rust-crypto.
#[verifier::external_type_specification]
#[verifier::external_body]
pub struct ExSha1(crypto::sha1::Sha1);

/// The bytes a hasher was fed since it was made or last reset.
pub uninterp spec fn sha1_input(hasher: crypto::sha1::Sha1) -> Seq<u8>;

/// The SHA-1 digest of a byte sequence.
pub uninterp spec fn sha1_digest(data: Seq<u8>) -> Seq<u8>;

/// `Digest::result` of rust-crypto's `Sha1`: writes the digest of all bytes
/// fed since the last reset (padding the state the first time) and leaves
/// what was fed as it was.
#[verifier::external_body]
fn sha1_result(hasher: &mut crypto::sha1::Sha1) -> (out: [u8; 20])
    ensures
        out@ == sha1_digest(sha1_input(*old(hasher))),
        sha1_input(*final(hasher)) == sha1_input(*old(hasher)),
{
    let mut out = [0u8; 20];
    hasher.result(&mut out);
    out
}

impl Sha1Hash {
    /// The hash that `sha1` computes over what it was fed.
    pub fn result(sha1: &mut crypto::sha1::Sha1) -> (h: Sha1Hash)
        ensures
            h@ == sha1_digest(sha1_input(*old(sha1))),
            sha1_input(*final(sha1)) == sha1_input(*old(sha1)),
    {
        Sha1Hash(sha1_result(sha1))
    }

    /// The hash of all zeros.
    pub fn nil() -> (h: Sha1Hash)
        ensures
            h@ == Seq::new(20, |i: int| 0u8),
    {
        let h = Sha1Hash([0u8; 20]);
        assert(h@ =~= Seq::new(20, |i: int| 0u8));
        h
    }

    /// Whether all bytes are zero.
    pub fn is_nil(&self) -> (b: bool)
        ensures
            b == (forall|i: int| 0 <= i < 20 ==> #[trigger] self@[i] == 0),
    {
        let mut i: usize = 0;
        while i < 20
            invariant
                i <= 20,
                self@.len() == 20,
                forall|j: int| 0 <= j < i ==> #[trigger] self@[j] == 0,
            decreases 20 - i,
        {
            if self.0[i] != 0 {
                return false;
            }
            i = i + 1;
        }
        true
    }

    /// The bytes of the hash.
    pub fn as_bytes(&self) -> (b: &[u8; 20])
        ensures
            b@ == self@,
    {
        &self.0
    }

    /// The hash a text gives: 40 hexadecimal digits in either case.
    pub fn from_str(s: &str) -> (r: Result<Sha1Hash, Sha1HashParseError>)
        ensures
            match r {
                Ok(h) => sha1_of_text(s.spec_bytes()) == Ok::<_, Sha1HashParseError>(h@),
                Err(e) => sha1_of_text(s.spec_bytes()) == Err::<Seq<u8>, _>(e),
            },
    {
        let bytes = s.as_bytes();
        if bytes.len() != 40 {
            return Err(Sha1HashParseError::InvalidLength);
        }
        let mut h = [0u8; 20];
        let mut i: usize = 0;
        while i < 20
            invariant
                i <= 20,
                bytes@ == s.spec_bytes(),
                bytes@.len() == 40,
                h@.len() == 20,
                forall|j: int| 0 <= j < 2 * i ==> #[trigger] hex_value(bytes@[j]) is Some,
                forall|j: int| 0 <= j < i ==> #[trigger] h@[j] == (16 * hex_value(bytes@[2 * j])->0 + hex_value(bytes@[2 * j + 1])->0) as u8,
            decreases 20 - i,
        {
            let hi = match hex_value_of(bytes[2 * i]) {
                Some(d) => d,
                None => return Err(Sha1HashParseError::InvalidValue),
            };
            let lo = match hex_value_of(bytes[2 * i + 1]) {
                Some(d) => d,
                None => return Err(Sha1HashParseError::InvalidValue),
            };
            h[i] = hi * 16 + lo;
            i = i + 1;
        }
        let r = Sha1Hash(h);
        assert(r@ =~= sha1_of_text(s.spec_bytes())->Ok_0);
        Ok(r)
    }

    /// The hash's text: 40 lower-case hexadecimal digits.
    pub fn to_string(&self) -> (s: String)
        ensures
            s@ == hex_text(self@),
    {
        let mut s = String::new();
        let mut i: usize = 0;
        while i < 20
            invariant
                i <= 20,
                self@.len() == 20,
                s@ == hex_text(self@.take(i as int)),
            decreases 20 - i,
        {
            let b = self.0[i];
            push_char(&mut s, hex_char(b / 16));
            push_char(&mut s, hex_char(b % 16));
            assert(self@.take(i + 1).drop_last() =~= self@.take(i as int));
            i = i + 1;
        }
        assert(self@.take(20) =~= self@);
        s
    }
}

/// The text of `n` bytes has two digits per byte, in order.
pub proof fn lemma_hex_text(bytes: Seq<u8>)
    ensures
        hex_text(bytes).len() == 2 * bytes.len(),
        forall|i: int| 0 <= i < bytes.len() ==> #[trigger] hex_text(bytes)[2 * i] == hex_digit((bytes[i] / 16) as nat)
            && hex_text(bytes)[2 * i + 1] == hex_digit((bytes[i] % 16) as nat),
    decreases bytes.len(),
{
    if bytes.len() > 0 {
        lemma_hex_text(bytes.drop_last());
        assert forall|i: int| 0 <= i < bytes.len() implies #[trigger] hex_text(bytes)[2 * i] == hex_digit((bytes[i] / 16) as nat)
            && hex_text(bytes)[2 * i + 1] == hex_digit((bytes[i] % 16) as nat) by {
            if i < bytes.len() - 1 {
                assert(bytes.drop_last()[i] == bytes[i]);
            }
        }
    }
}

/// Reading the text of a hash gives the hash back: the text a hash is
/// written as parses to the same 20 bytes.
pub proof fn law_hash_text_round_trip(h: Seq<u8>)
    requires
        h.len() == 20,
    ensures
        sha1_of_text(Seq::new(40, |i: int| hex_text(h)[i] as u8)) == Ok::<_, Sha1HashParseError>(h),
{
    lemma_hex_text(h);
    let t = Seq::new(40, |i: int| hex_text(h)[i] as u8);
    assert forall|k: int| 0 <= k < 40 implies #[trigger] hex_value(t[k]) is Some by {
        let i = k / 2;
        assert(k == 2 * i || k == 2 * i + 1);
        assert(hex_text(h)[2 * i] == hex_digit((h[i] / 16) as nat));
        assert(hex_text(h)[2 * i + 1] == hex_digit((h[i] % 16) as nat));
    }
    assert forall|i: int| 0 <= i < 20 implies #[trigger] h[i] == (16 * hex_value(t[2 * i])->0 + hex_value(t[2 * i + 1])->0) as u8 by {
        assert(hex_text(h)[2 * i] == hex_digit((h[i] / 16) as nat));
        assert(hex_text(h)[2 * i + 1] == hex_digit((h[i] % 16) as nat));
        assert(h[i] == 16 * (h[i] / 16) + h[i] % 16);
    }
    assert(sha1_of_text(t)->Ok_0 =~= h);
}

/// A byte with ASCII upper-case letters made lower-case.
pub open spec fn ascii_lower(b: u8) -> u8 {
    if 65 <= b <= 90 { (b + 32) as u8 } else { b }
}

/// A hexadecimal digit byte printed back by its value is the byte in lower case.
proof fn lemma_digit_round(b: u8)
    requires
        hex_value(b) is Some,
    ensures
        hex_value(b)->0 < 16,
        hex_digit(hex_value(b)->0) as u8 == ascii_lower(b),
{
    if b == 48 {
    } else if b == 49 {
    } else if b == 50 {
    } else if b == 51 {
    } else if b == 52 {
    } else if b == 53 {
    } else if b == 54 {
    } else if b == 55 {
    } else if b == 56 {
    } else if b == 57 {
    } else if b == 65 {
    } else if b == 66 {
    } else if b == 67 {
    } else if b == 68 {
    } else if b == 69 {
    } else if b == 70 {
    } else if b == 97 {
    } else if b == 98 {
    } else if b == 99 {
    } else if b == 100 {
    } else if b == 101 {
    } else if b == 102 {
    }
}

/// Printing a hash read from a text gives the text in lower case: every
/// text of 40 hexadecimal digits, in either case, parses to a hash whose
/// text is that text with its letters made lower-case.
pub proof fn law_hash_text_lower_case(t: Seq<u8>)
    requires
        sha1_of_text(t) is Ok,
    ensures
        Seq::new(40, |k: int| hex_text(sha1_of_text(t)->Ok_0)[k] as u8) == t.map_values(|b: u8| ascii_lower(b)),
{
    let h = sha1_of_text(t)->Ok_0;
    assert(t.len() == 40);
    assert(forall|k: int| 0 <= k < 40 ==> #[trigger] hex_value(t[k]) is Some);
    lemma_hex_text(h);
    assert forall|k: int| 0 <= k < 40 implies #[trigger] hex_text(h)[k] as u8 == ascii_lower(t[k]) by {
        let i = k / 2;
        assert(k == 2 * i || k == 2 * i + 1);
        lemma_digit_round(t[2 * i]);
        lemma_digit_round(t[2 * i + 1]);
        let hi = hex_value(t[2 * i])->0;
        let lo = hex_value(t[2 * i + 1])->0;
        assert(h[i] == (16 * hi + lo) as u8);
        assert(16 * hi + lo < 256) by (nonlinear_arith)
            requires
                hi < 16,
                lo < 16,
        ;
        assert((16 * hi + lo) / 16 == hi && (16 * hi + lo) % 16 == lo) by (nonlinear_arith)
            requires
                hi < 16,
                lo < 16,
        ;
        assert(hex_text(h)[2 * i] == hex_digit((h[i] / 16) as nat));
        assert(hex_text(h)[2 * i + 1] == hex_digit((h[i] % 16) as nat));
    }
    assert(Seq::new(40, |k: int| hex_text(h)[k] as u8) =~= t.map_values(|b: u8| ascii_lower(b)));
}

/// Who made a model: a user id and name.
#[derive(Debug)]
pub struct User {
    uid: usize,
    username: String,
}

/// The id of the user running this process, from the `users` crate.
#[verifier::external_body]
fn current_uid() -> u32 {
    users::get_current_uid()
}

impl User {
    /// The user with id `uid` and name `username`.
    pub fn new(uid: usize, username: String) -> (u: User)
        ensures
            u.uid() == uid,
            u.username_v() == username@,
    {
        User { uid, username }
    }

    /// The user's name, as a value.
    pub closed spec fn username_v(&self) -> Seq<char> {
        self.username@
    }

    /// The user with the id `uid` and the name `name` that the system reports
    /// for a process; an empty name where it reports none.
    pub fn from_process(uid: u32, name: Option<String>) -> (u: User)
        ensures
            u.uid() == uid,
            u.username_v() == match name {
                Some(n) => n@,
                None => Seq::<char>::empty(),
            },
    {
        let username = match name {
            Some(n) => n,
            None => String::new(),
        };
        User::new(uid as usize, username)
    }

    /// The user running this process; an empty name where it has none.
    pub fn current() -> (u: User)
        ensures
            u.uid() <= u32::MAX,
    {
        let uid = current_uid();
        let name = crate::command::ssh::current_username();
        User::from_process(uid, name)
    }

    /// The user id.
    #[verifier::when_used_as_spec(uid_spec)]
    pub fn uid(&self) -> (n: usize)
        ensures
            n == self.uid_spec(),
    {
        self.uid
    }

    /// The user id, as a value.
    pub closed spec fn uid_spec(&self) -> usize {
        self.uid
    }

    /// The user name.
    pub fn username(&self) -> (s: &str)
        ensures
            s@ == self.username_v(),
    {
        self.username.as_str()
    }

    /// The user with id 0 and an empty name.
    pub fn default_user() -> (u: User)
        ensures
            u.uid() == 0,
            u.username_v() == Seq::<char>::empty(),
    {
        User { uid: 0, username: String::new() }
    }
}

/// What identifies a stored model: its hash, the path of its repository,
/// who made it and when, and whether it was stored.
#[derive(Debug)]
pub struct Metadata {
    id: Sha1Hash,
    path: String,
    user: User,
    timestamp: Timestamp,
    stored: bool,
}

impl Metadata {
    /// The hash, as a value.
    pub closed spec fn id_v(&self) -> Seq<u8> {
        self.id@
    }

    /// The repository path, as a value.
    pub closed spec fn path_v(&self) -> Seq<char> {
        self.path@
    }

    /// The maker's id and name, as values.
    pub closed spec fn user_v(&self) -> (usize, Seq<char>) {
        (self.user.uid, self.user.username@)
    }

    /// The time, as a value.
    pub closed spec fn timestamp_v(&self) -> Timestamp {
        self.timestamp
    }

    /// Whether it was stored, as a value.
    pub closed spec fn stored_v(&self) -> bool {
        self.stored
    }

    /// The metadata of a model not stored yet.
    pub fn new(id: Sha1Hash, path: String, user: User, timestamp: Timestamp) -> (m: Metadata)
        ensures
            m.id_v() == id@,
            m.path_v() == path@,
            m.user_v() == (user.uid(), user.username_v()),
            m.timestamp_v() == timestamp,
            !m.stored_v(),
    {
        Metadata { id, path, user, timestamp, stored: false }
    }

    /// The model's hash.
    pub fn id(&self) -> (h: Sha1Hash)
        ensures
            h@ == self.id_v(),
    {
        self.id
    }

    /// Gives the model another hash.
    pub fn set_id(&mut self, id: Sha1Hash)
        ensures
            final(self).id_v() == id@,
            final(self).path_v() == old(self).path_v(),
            final(self).user_v() == old(self).user_v(),
            final(self).timestamp_v() == old(self).timestamp_v(),
            final(self).stored_v() == old(self).stored_v(),
    {
        self.id = id;
    }

    /// Who made the model.
    pub fn user(&self) -> (u: &User)
        ensures
            (u.uid(), u.username_v()) == self.user_v(),
    {
        &self.user
    }

    /// When the model was made.
    pub fn timestamp(&self) -> (t: Timestamp)
        ensures
            t == self.timestamp_v(),
    {
        self.timestamp
    }

    /// The path of the model's repository.
    pub fn path(&self) -> (p: &str)
        ensures
            p@ == self.path_v(),
    {
        self.path.as_str()
    }

    /// Gives the model another repository path.
    pub fn set_path(&mut self, path: String)
        ensures
            final(self).path_v() == path@,
            final(self).id_v() == old(self).id_v(),
            final(self).user_v() == old(self).user_v(),
            final(self).timestamp_v() == old(self).timestamp_v(),
            final(self).stored_v() == old(self).stored_v(),
    {
        self.path = path;
    }

    /// Whether the model was stored.
    pub fn is_stored(&self) -> (b: bool)
        ensures
            b == self.stored_v(),
    {
        self.stored
    }

    /// Records whether the model was stored.
    pub fn set_stored(&mut self, stored: bool)
        ensures
            final(self).stored_v() == stored,
            final(self).id_v() == old(self).id_v(),
            final(self).path_v() == old(self).path_v(),
            final(self).user_v() == old(self).user_v(),
            final(self).timestamp_v() == old(self).timestamp_v(),
    {
        self.stored = stored;
    }

    /// The metadata of nothing: the nil hash, an empty path, the default
    /// user, the start of the epoch, not stored.
    pub fn default_metadata() -> (m: Metadata)
        ensures
            m.id_v() == Seq::new(20, |i: int| 0u8),
            m.path_v() == Seq::<char>::empty(),
            m.user_v() == (0usize, Seq::<char>::empty()),
            m.timestamp_v() == (Timestamp { secs: 0, nanos: 0 }),
            !m.stored_v(),
    {
        Metadata {
            id: Sha1Hash::nil(),
            path: String::new(),
            user: User::default_user(),
            timestamp: Timestamp { secs: 0, nanos: 0 },
            stored: false,
        }
    }
}

} // verus!
