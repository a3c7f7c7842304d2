//! API keys: hashing, comparison that takes the same time whatever the key, and key sets.
use vstd::prelude::*;
use vstd::utf8::{encode_utf8, encode_utf8_decode_utf8};

verus! {

/// How keys are hashed before they are stored.
#[derive(Debug, Clone, Copy, PartialEq, Eq, Structural)]
pub enum HashAlgorithm {
    Sha256,
}

/// The SHA-256 digest of some bytes.
pub uninterp spec fn sha256(bytes: Seq<u8>) -> Seq<u8>;

/// Calls `Sha256::digest`: the digest has 32 bytes.
#[verifier::external_body]
fn digest(bytes: &[u8]) -> (out: Vec<u8>)
    ensures
        out@ == sha256(bytes@),
        out@.len() == 32,
{
    <sha2::Sha256 as sha2::Digest>::digest(bytes).to_vec()
}

/// Calls `ct_eq` of `subtle` on two byte slices: whether they are equal.
#[verifier::external_body]
fn equal_in_constant_time(a: &[u8], b: &[u8]) -> (equal: bool)
    ensures
        equal == (a@ == b@),
{
    subtle::ConstantTimeEq::ct_eq(a, b).into()
}

/// The character of a hexadecimal digit, in lower case.
pub open spec fn hex_digit(d: u8) -> char {
    if d < 10 {
        (48 + d) as char
    } else {
        (87 + d) as char
    }
}

/// The bytes in hexadecimal, two lower-case digits each.
pub open spec fn hex(bytes: Seq<u8>) -> Seq<char>
    decreases bytes.len(),
{
    if bytes.len() == 0 {
        Seq::<char>::empty()
    } else {
        hex(bytes.drop_last()).push(hex_digit(bytes.last() / 16)).push(hex_digit(bytes.last() % 16))
    }
}

/// What a key is stored as.
pub open spec fn hashed_key(key: Seq<char>, algorithm: Option<HashAlgorithm>) -> Seq<char> {
    match algorithm {
        Some(HashAlgorithm::Sha256) => hex(sha256(encode_utf8(key))),
        None => key,
    }
}

fn hex_char(d: u8) -> (c: char)
    requires
        d < 16,
    ensures
        c == hex_digit(d),
{
    if d < 10 {
        (48 + d) as char
    } else {
        (87 + d) as char
    }
}

fn hex_text(bytes: &[u8]) -> (text: String)
    ensures
        text@ == hex(bytes@),
{
    let mut text = String::new();
    let mut i: usize = 0;
    while i < bytes.len()
        invariant
            i <= bytes.len(),
            text@ == hex(bytes@.take(i as int)),
        decreases bytes.len() - i,
    {
        let b: u8 = bytes[i];
        text.push(hex_char(b / 16));
        text.push(hex_char(b % 16));
        assert(bytes@.take(i + 1).drop_last() == bytes@.take(i as int));
        i = i + 1;
    }
    assert(bytes@.take(bytes@.len() as int) == bytes@);
    text
}

/// Applies a hash algorithm to a key.
pub fn hash_key(key: &str, algorithm: Option<&HashAlgorithm>) -> (hashed: String)
    ensures
        hashed@ == hashed_key(
            key@,
            match algorithm {
                Some(a) => Some(*a),
                None => None,
            },
        ),
{
    match algorithm {
        Some(HashAlgorithm::Sha256) => {
            let out = digest(key.as_bytes());
            hex_text(out.as_slice())
        },
        None => key.to_owned(),
    }
}

/// A string whose comparison takes a time that depends on its length alone.
#[derive(Debug)]
pub struct ConstantTimeString(String);

impl View for ConstantTimeString {
    type V = Seq<char>;

    closed spec fn view(&self) -> Seq<char> {
        self.0@
    }
}

impl vstd::std_specs::convert::FromSpecImpl<String> for ConstantTimeString {
    open spec fn obeys_from_spec() -> bool {
        true
    }

    closed spec fn from_spec(s: String) -> ConstantTimeString {
        ConstantTimeString(s)
    }
}

impl From<String> for ConstantTimeString {
    fn from(s: String) -> (wrapped: ConstantTimeString)
        ensures
            wrapped@ == s@,
    {
        ConstantTimeString(s)
    }
}

impl ConstantTimeString {
    /// Whether two strings are the same.
    pub fn same(&self, other: &ConstantTimeString) -> (same: bool)
        ensures
            same == (self@ == other@),
    {
        let equal = equal_in_constant_time(self.0.as_str().as_bytes(), other.0.as_str().as_bytes());
        proof {
            encode_utf8_decode_utf8(self@);
            encode_utf8_decode_utf8(other@);
        }
        equal
    }
}

/// A set of keys.
#[derive(Debug)]
pub struct KeySet {
    keys: Vec<ConstantTimeString>,
}

impl View for KeySet {
    type V = Set<Seq<char>>;

    closed spec fn view(&self) -> Set<Seq<char>> {
        Set::new(|key: Seq<char>| exists|i: int| 0 <= i < self.keys@.len() && (#[trigger] self.keys@[i])@ == key)
    }
}

impl KeySet {
    /// A set without keys.
    pub fn new() -> (set: KeySet)
        ensures
            set@ == Set::<Seq<char>>::empty(),
    {
        KeySet { keys: Vec::new() }
    }

    /// Adds a key.
    pub fn insert(&mut self, key: ConstantTimeString)
        ensures
            final(self)@ == old(self)@.insert(key@),
    {
        if !self.contains(&key) {
            let ghost before = self.keys@;
            self.keys.push(key);
            proof {
                assert forall|k: Seq<char>| self@.contains(k) <==> old(self)@.insert(key@).contains(k) by {
                    if old(self)@.contains(k) {
                        let i = choose|i: int|
                            0 <= i < before.len() && (#[trigger] before[i])@ == k;
                        assert(self.keys@[i]@ == k);
                    }
                    if k == key@ {
                        assert(self.keys@[before.len() as int]@ == k);
                    }
                    if self@.contains(k) {
                        let i = choose|i: int|
                            0 <= i < self.keys@.len() && (#[trigger] self.keys@[i])@ == k;
                        if i < before.len() {
                            assert(before[i]@ == k);
                        }
                    }
                }
                assert(self@ =~= old(self)@.insert(key@));
            }
        } else {
            assert(self@ =~= old(self)@.insert(key@));
        }
    }

    /// Whether a key is in the set. Every key of the set is compared, so the time taken does not
    /// tell which one matched.
    pub fn contains(&self, key: &ConstantTimeString) -> (found: bool)
        ensures
            found == self@.contains(key@),
    {
        let mut found = false;
        let mut i: usize = 0;
        while i < self.keys.len()
            invariant
                i <= self.keys.len(),
                found == exists|j: int| 0 <= j < i && (#[trigger] self.keys@[j])@ == key@,
            decreases self.keys.len() - i,
        {
            let same = self.keys[i].same(key);
            if same {
                assert(self.keys@[i as int]@ == key@);
                found = true;
            }
            i = i + 1;
        }
        found
    }
}

/// Whether a bearer token is one of the keys, once hashed as the keys are.
pub fn validate_bearer_token(
    keys: &KeySet,
    token: &str,
    hash_algorithm: Option<&HashAlgorithm>,
) -> (valid: bool)
    ensures
        valid == keys@.contains(
            hashed_key(
                token@,
                match hash_algorithm {
                    Some(a) => Some(*a),
                    None => None,
                },
            ),
        ),
{
    let processed = hash_key(token, hash_algorithm);
    keys.contains(&ConstantTimeString::from(processed))
}

/// The hexadecimal form has two digits for each byte, all of them in lower case.
pub proof fn law_hex_digits(bytes: Seq<u8>)
    ensures
        hex(bytes).len() == 2 * bytes.len(),
        forall|i: int|
            0 <= i < hex(bytes).len() ==> '0' <= (#[trigger] hex(bytes)[i]) <= '9' || 'a' <= hex(
                bytes,
            )[i] <= 'f',
    decreases bytes.len(),
{
    if bytes.len() > 0 {
        law_hex_digits(bytes.drop_last());
    }
}

/// Different bytes have different hexadecimal forms.
pub proof fn law_hex_injective(a: Seq<u8>, b: Seq<u8>)
    requires
        hex(a) == hex(b),
    ensures
        a == b,
    decreases a.len(),
{
    law_hex_digits(a);
    law_hex_digits(b);
    if a.len() > 0 {
        let x = hex(a);
        let y = hex(b);
        assert(x.drop_last().drop_last() == hex(a.drop_last()));
        assert(y.drop_last().drop_last() == hex(b.drop_last()));
        law_hex_injective(a.drop_last(), b.drop_last());
        assert(x[x.len() - 1] == hex_digit(a.last() % 16));
        assert(y[y.len() - 1] == hex_digit(b.last() % 16));
        assert(x[x.len() - 2] == hex_digit(a.last() / 16));
        assert(y[y.len() - 2] == hex_digit(b.last() / 16));
        assert(a.last() == b.last());
        assert(a == a.drop_last().push(a.last()));
        assert(b == b.drop_last().push(b.last()));
    } else {
        assert(a =~= b);
    }
}

/// Each byte is spelled by two digits, the higher one first: decimal digits for values below ten, the
/// letters from `a` for the others.
pub proof fn law_hex_spells_bytes(bytes: Seq<u8>, b: u8, d: u8)
    ensures
        hex(Seq::<u8>::empty()).len() == 0,
        hex(bytes.push(b)) == hex(bytes) + seq![hex_digit(b / 16), hex_digit(b % 16)],
        d < 10 ==> hex_digit(d) as int == '0' as int + d,
        10 <= d < 16 ==> hex_digit(d) as int == 'a' as int + (d - 10),
{
    assert(bytes.push(b).drop_last() =~= bytes);
    assert(hex(bytes).push(hex_digit(b / 16)).push(hex_digit(b % 16)) =~= hex(bytes) + seq![
        hex_digit(b / 16),
        hex_digit(b % 16),
    ]);
}

/// Without an algorithm a key stands for itself; with one it is the digest of its bytes, spelled out.
pub proof fn law_hashed_keys(key: Seq<char>)
    ensures
        hashed_key(key, None) == key,
        hashed_key(key, Some(HashAlgorithm::Sha256)) == hex(sha256(encode_utf8(key))),
{
}

} // verus!
