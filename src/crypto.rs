use vstd::prelude::*;
use vstd::string::StringSliceAdditionalSpecFns;

use data_encoding::{Encoding, HEXLOWER};
use ring::rand::SecureRandom;
use ring::{hmac, pbkdf2};
use std::num::NonZeroU32;
use rand::Rng;
use subtle::ConstantTimeEq;

verus! {

/// Length in bytes of every freshly computed password hash.
pub const OUTPUT_LEN: usize = 32;

/// The PBKDF2-HMAC-SHA256 key of `len` bytes derived from `secret` and `salt`.
pub uninterp spec fn pbkdf2_sha256_of(secret: Seq<u8>, salt: Seq<u8>, iterations: u32, len: nat) -> Seq<u8>;

/// The Argon2id (version 0x13) hash of `len` bytes of `secret` and `salt`, with no secret key
/// and no associated data.
pub uninterp spec fn argon2id_of(
    secret: Seq<u8>,
    salt: Seq<u8>,
    iterations: u32,
    memory: u32,
    parallelism: u32,
    len: nat,
) -> Seq<u8>;

/// The HMAC-SHA1 tag of `data` under `key`.
pub uninterp spec fn hmac_sha1_of(key: Seq<u8>, data: Seq<u8>) -> Seq<u8>;

/// Cost parameters with no memory and no lanes select the legacy PBKDF2 derivation.
pub open spec fn is_legacy(memory: u32, parallelism: u32) -> bool {
    memory == 0 && parallelism == 0
}

/// Inputs on which PBKDF2 derives a key of `len` bytes.
pub open spec fn pbkdf2_accepts(secret_len: nat, salt_len: nat, iterations: u32, len: nat) -> bool {
    &&& iterations >= 1
    &&& secret_len <= u32::MAX
    &&& salt_len <= u32::MAX
    &&& len <= u32::MAX
}

/// Inputs on which Argon2id computes a hash of `len` bytes.
pub open spec fn argon2_accepts(
    secret_len: nat,
    salt_len: nat,
    iterations: u32,
    memory: u32,
    parallelism: u32,
    len: nat,
) -> bool {
    &&& 1 <= parallelism <= 0xFF_FFFF
    &&& memory >= 8 * parallelism
    &&& iterations >= 1
    &&& secret_len <= u32::MAX
    &&& 8 <= salt_len <= u32::MAX
    &&& 4 <= len <= u32::MAX
}

/// Inputs on which the derivation selected by the cost parameters yields `len` bytes.
pub open spec fn derivation_accepts(
    secret_len: nat,
    salt_len: nat,
    iterations: u32,
    memory: u32,
    parallelism: u32,
    len: nat,
) -> bool {
    if is_legacy(memory, parallelism) {
        pbkdf2_accepts(secret_len, salt_len, iterations, len)
    } else {
        argon2_accepts(secret_len, salt_len, iterations, memory, parallelism, len)
    }
}

/// The `len`-byte key that the cost parameters select.
pub open spec fn derived_key(
    secret: Seq<u8>,
    salt: Seq<u8>,
    iterations: u32,
    memory: u32,
    parallelism: u32,
    len: nat,
) -> Seq<u8> {
    if is_legacy(memory, parallelism) {
        pbkdf2_sha256_of(secret, salt, iterations, len)
    } else {
        argon2id_of(secret, salt, iterations, memory, parallelism, len)
    }
}

/// Whether `previous` is the key derived from `secret` under the given parameters, at the
/// length of `previous`. An empty `previous` never matches under the legacy derivation.
pub open spec fn hash_matches(
    secret: Seq<u8>,
    salt: Seq<u8>,
    previous: Seq<u8>,
    iterations: u32,
    memory: u32,
    parallelism: u32,
) -> bool {
    &&& !(is_legacy(memory, parallelism) && previous.len() == 0)
    &&& derived_key(secret, salt, iterations, memory, parallelism, previous.len()) == previous
}

/// Relies on ring's `pbkdf2::derive` with PBKDF2_HMAC_SHA256, which fills the whole output
/// buffer with the derived key.
#[verifier::external_body]
fn pbkdf2_derive(iterations: u32, salt: &[u8], secret: &[u8], len: usize) -> (r: Vec<u8>)
    requires
        pbkdf2_accepts(secret@.len(), salt@.len(), iterations, len as nat),
    ensures
        r@ == pbkdf2_sha256_of(secret@, salt@, iterations, len as nat),
        r@.len() == len,
{
    let mut out = vec![0u8; len];
    let iterations = NonZeroU32::new(iterations).unwrap();
    pbkdf2::derive(pbkdf2::PBKDF2_HMAC_SHA256, iterations, salt, secret, &mut out);
    out
}

/// Relies on ring's `pbkdf2::verify` with PBKDF2_HMAC_SHA256: it succeeds exactly when
/// `previous` is non-empty and equals the key derived at the length of `previous`.
#[verifier::external_body]
fn pbkdf2_check(iterations: u32, salt: &[u8], secret: &[u8], previous: &[u8]) -> (r: bool)
    requires
        pbkdf2_accepts(secret@.len(), salt@.len(), iterations, previous@.len()),
    ensures
        r == (previous@.len() > 0 && pbkdf2_sha256_of(secret@, salt@, iterations, previous@.len())
            == previous@),
{
    let iterations = NonZeroU32::new(iterations).unwrap();
    pbkdf2::verify(pbkdf2::PBKDF2_HMAC_SHA256, iterations, salt, secret, previous).is_ok()
}

/// Relies on rust-argon2's `hash_raw` with Argon2id, version 0x13, no secret key and no
/// associated data: on accepted parameters it returns the hash of the configured length.
#[verifier::external_body]
fn argon2_hash(
    secret: &[u8],
    salt: &[u8],
    iterations: u32,
    memory: u32,
    parallelism: u32,
    len: u32,
) -> (r: Option<Vec<u8>>)
    ensures
        argon2_accepts(secret@.len(), salt@.len(), iterations, memory, parallelism, len as nat)
            ==> r is Some && r->0@ == argon2id_of(
            secret@,
            salt@,
            iterations,
            memory,
            parallelism,
            len as nat,
        ) && r->0@.len() == len,
{
    let config = argon2::Config {
        variant: argon2::Variant::Argon2id,
        version: argon2::Version::Version13,
        mem_cost: memory,
        time_cost: iterations,
        lanes: parallelism,
        secret: &[],
        ad: &[],
        hash_length: len,
    };
    argon2::hash_raw(secret, salt, &config).ok()
}

/// Relies on rust-argon2's `verify_raw` with Argon2id, version 0x13, no secret key and no
/// associated data: on accepted parameters it recomputes the hash at the length of
/// `previous` and reports whether the two are equal.
#[verifier::external_body]
fn argon2_check(
    secret: &[u8],
    salt: &[u8],
    previous: &[u8],
    iterations: u32,
    memory: u32,
    parallelism: u32,
) -> (r: Option<bool>)
    ensures
        argon2_accepts(secret@.len(), salt@.len(), iterations, memory, parallelism, previous@.len())
            ==> r == Some(
            argon2id_of(secret@, salt@, iterations, memory, parallelism, previous@.len())
                == previous@,
        ),
{
    let config = argon2::Config {
        variant: argon2::Variant::Argon2id,
        version: argon2::Version::Version13,
        mem_cost: memory,
        time_cost: iterations,
        lanes: parallelism,
        secret: &[],
        ad: &[],
        hash_length: previous.len() as u32,
    };
    argon2::verify_raw(secret, salt, previous, &config).ok()
}

/// Hash of `secret` under `salt`. No memory and no lanes select the legacy PBKDF2-HMAC-SHA256
/// derivation with `iterations` rounds; otherwise Argon2id runs with `iterations` passes over
/// `memory` KiB in `parallelism` lanes. Either way the hash is `OUTPUT_LEN` bytes long.
pub fn hash_password(secret: &[u8], salt: &[u8], iterations: u32, memory: u32, parallelism: u32) -> (r: Vec<u8>)
    requires
        derivation_accepts(secret@.len(), salt@.len(), iterations, memory, parallelism, OUTPUT_LEN as nat),
    ensures
        r@ == derived_key(secret@, salt@, iterations, memory, parallelism, OUTPUT_LEN as nat),
        r@.len() == OUTPUT_LEN,
{
    if memory == 0 && parallelism == 0 {
        return pbkdf2_derive(iterations, salt, secret, OUTPUT_LEN);
    }
    match argon2_hash(secret, salt, iterations, memory, parallelism, OUTPUT_LEN as u32) {
        Some(hash) => hash,
        None => {
            proof {
                assert(false);
            }
            Vec::new()
        },
    }
}

/// Whether `previous` is the hash of `secret` under `salt` and the given cost parameters,
/// which select the derivation as in `hash_password`. The comparison takes constant time.
pub fn verify_password_hash(
    secret: &[u8],
    salt: &[u8],
    previous: &[u8],
    iterations: u32,
    memory: u32,
    parallelism: u32,
) -> (r: bool)
    requires
        derivation_accepts(secret@.len(), salt@.len(), iterations, memory, parallelism, previous@.len()),
    ensures
        r == hash_matches(secret@, salt@, previous@, iterations, memory, parallelism),
{
    if memory == 0 && parallelism == 0 {
        return pbkdf2_check(iterations, salt, secret, previous);
    }
    match argon2_check(secret, salt, previous, iterations, memory, parallelism) {
        Some(ok) => ok,
        None => {
            proof {
                assert(false);
            }
            false
        },
    }
}


/// Lowercase hexadecimal digit for a value below 16.
pub open spec fn hex_digit(n: int) -> char {
    seq!['0', '1', '2', '3', '4', '5', '6', '7', '8', '9', 'a', 'b', 'c', 'd', 'e', 'f'][n]
}

/// Lowercase hexadecimal text of a byte string: two digits per byte, high nibble first.
pub open spec fn hex_lower(b: Seq<u8>) -> Seq<char>
    decreases b.len(),
{
    if b.len() == 0 {
        Seq::empty()
    } else {
        hex_lower(b.drop_last()) + seq![
            hex_digit(b.last() as int / 16),
            hex_digit(b.last() as int % 16),
        ]
    }
}

/// Relies on ring's `SystemRandom::fill`: the buffer keeps its length and is overwritten with
/// bytes from the operating system's secure source. A failure of that source aborts, since
/// nothing can safely go on without entropy.
#[verifier::external_body]
fn fill_random(buf: &mut [u8])
    ensures
        final(buf)@.len() == old(buf)@.len(),
{
    ring::rand::SystemRandom::new().fill(buf).expect("Error generating random values");
}

/// Relies on ring's `hmac::sign` with HMAC_SHA1_FOR_LEGACY_USE_ONLY: the tag of `data` under
/// `key`, 20 bytes long.
#[verifier::external_body]
fn hmac_sha1(key: &[u8], data: &[u8]) -> (r: Vec<u8>)
    ensures
        r@ == hmac_sha1_of(key@, data@),
        r@.len() == 20,
{
    let key = hmac::Key::new(hmac::HMAC_SHA1_FOR_LEGACY_USE_ONLY, key);
    hmac::sign(&key, data).as_ref().to_vec()
}

/// Relies on data-encoding's `HEXLOWER.encode`: two lowercase hexadecimal digits per byte,
/// high nibble first.
#[verifier::external_body]
fn hex_encode(b: &[u8]) -> (r: String)
    ensures
        r@ == hex_lower(b@),
{
    HEXLOWER.encode(b)
}

/// data-encoding's `Encoding`, carried through unread.
#[verifier::external_type_specification]
#[verifier::external_body]
pub struct ExEncoding(Encoding);

/// Relies on `Encoding::encode` of data-encoding with the given encoding.
#[verifier::external_body]
fn encode_with(e: &Encoding, b: &[u8]) -> String {
    e.encode(b)
}

/// Relies on subtle's `ConstantTimeEq` for byte slices: true exactly when both slices have the
/// same length and the same bytes, in time that depends on the lengths alone.
#[verifier::external_body]
fn slices_ct_eq(a: &[u8], b: &[u8]) -> (r: bool)
    ensures
        r == (a@ == b@),
{
    a.ct_eq(b).into()
}

/// Relies on rand's `Rng::random_range` on the thread-local generator: a value below `n`.
#[verifier::external_body]
fn random_below(n: usize) -> (r: usize)
    requires
        n > 0,
    ensures
        r < n,
{
    rand::rng().random_range(0..n)
}

/// Relies on the `FromIterator<&char>` impl of `String`: the characters in order.
#[verifier::external_body]
fn string_of_chars(chars: &Vec<char>) -> (r: String)
    ensures
        r@ == chars@,
{
    chars.iter().collect()
}

/// Legacy HMAC-SHA1 signature of `data` under `key`, as lowercase hexadecimal. Kept only to
/// read tokens of an older format.
pub fn hmac_sign(key: &str, data: &str) -> (r: String)
    ensures
        r@ == hex_lower(hmac_sha1_of(key.spec_bytes(), data.spec_bytes())),
{
    let tag = hmac_sha1(key.as_bytes(), data.as_bytes());
    hex_encode(tag.as_slice())
}

/// An array of `N` bytes from the operating system's secure random source.
pub fn get_random_bytes<const N: usize>() -> (r: [u8; N])
    ensures
        r@.len() == N,
{
    let mut array = [0u8; N];
    fill_random(&mut array);
    array
}


/// Text of `N` bytes from the secure random source, written with the encoding `e`.
pub fn encode_random_bytes<const N: usize>(e: Encoding) -> String {
    let bytes = get_random_bytes::<N>();
    encode_with(&e, &bytes)
}

/// Whether `c` is the character of some byte of `alphabet`.
pub open spec fn in_alphabet(c: char, alphabet: Seq<u8>) -> bool {
    exists|k: int| 0 <= k < alphabet.len() && c == #[trigger] alphabet[k] as char
}

/// Whether every character of `s` is the character of some byte of `alphabet`.
pub open spec fn drawn_from(s: Seq<char>, alphabet: Seq<u8>) -> bool {
    forall|i: int| 0 <= i < s.len() ==> in_alphabet(#[trigger] s[i], alphabet)
}

/// A string of `num_chars` characters, each drawn independently and uniformly from
/// `alphabet` by the fast thread-local generator. Not for long-lived secrets.
pub fn get_random_string(alphabet: &[u8], num_chars: usize) -> (r: String)
    requires
        num_chars > 0 ==> alphabet@.len() > 0,
    ensures
        r@.len() == num_chars,
        drawn_from(r@, alphabet@),
{
    let mut chars: Vec<char> = Vec::new();
    let mut n: usize = 0;
    while n < num_chars
        invariant
            n <= num_chars,
            chars@.len() == n,
            num_chars > 0 ==> alphabet@.len() > 0,
            drawn_from(chars@, alphabet@),
        decreases num_chars - n,
    {
        let i = random_below(alphabet.len());
        let c = alphabet[i] as char;
        chars.push(c);
        n = n + 1;
        assert(in_alphabet(chars@[n - 1], alphabet@));
    }
    string_of_chars(&chars)
}

/// The characters `'0'` to `'9'`.
pub open spec fn is_decimal_digit(c: char) -> bool {
    '0' <= c <= '9'
}

/// The characters `'A'` to `'Z'`, `'a'` to `'z'` and `'0'` to `'9'`.
pub open spec fn is_alphanumeric(c: char) -> bool {
    ||| 'A' <= c <= 'Z'
    ||| 'a' <= c <= 'z'
    ||| '0' <= c <= '9'
}

/// A random string of `num_chars` decimal digits.
pub fn get_random_string_numeric(num_chars: usize) -> (r: String)
    ensures
        r@.len() == num_chars,
        forall|i: int| 0 <= i < r@.len() ==> is_decimal_digit(#[trigger] r@[i]),
{
    let alphabet: [u8; 10] = [48u8, 49, 50, 51, 52, 53, 54, 55, 56, 57];
    let r = get_random_string(&alphabet, num_chars);
    assert forall|i: int| 0 <= i < r@.len() implies is_decimal_digit(#[trigger] r@[i]) by {
        assert(in_alphabet(r@[i], alphabet@));
        let k = choose|k: int| 0 <= k < alphabet@.len() && r@[i] == #[trigger] alphabet@[k] as char;
        assert(48 <= alphabet@[k] <= 57);
    }
    r
}

/// A random string of `num_chars` ASCII letters and digits.
pub fn get_random_string_alphanum(num_chars: usize) -> (r: String)
    ensures
        r@.len() == num_chars,
        forall|i: int| 0 <= i < r@.len() ==> is_alphanumeric(#[trigger] r@[i]),
{
    let alphabet: [u8; 62] = [
        65u8, 66, 67, 68, 69, 70, 71, 72, 73, 74, 75, 76, 77, 78, 79, 80, 81, 82, 83, 84, 85, 86,
        87, 88, 89, 90, 97, 98, 99, 100, 101, 102, 103, 104, 105, 106, 107, 108, 109, 110, 111,
        112, 113, 114, 115, 116, 117, 118, 119, 120, 121, 122, 48, 49, 50, 51, 52, 53, 54, 55, 56,
        57,
    ];
    let r = get_random_string(&alphabet, num_chars);
    assert forall|i: int| 0 <= i < r@.len() implies is_alphanumeric(#[trigger] r@[i]) by {
        assert(in_alphabet(r@[i], alphabet@));
        let k = choose|k: int| 0 <= k < alphabet@.len() && r@[i] == #[trigger] alphabet@[k] as char;
        assert(65 <= alphabet@[k] <= 90 || 97 <= alphabet@[k] <= 122 || 48 <= alphabet@[k] <= 57);
    }
    r
}

/// Whether `s` is the lowercase hexadecimal text of some `n` bytes.
pub open spec fn is_hex_id(s: Seq<char>, n: nat) -> bool {
    exists|b: Seq<u8>| b.len() == n && s == #[trigger] hex_lower(b)
}

/// Lowercase hexadecimal text of `N` bytes from the secure random source.
pub fn generate_id<const N: usize>() -> (r: String)
    ensures
        is_hex_id(r@, N as nat),
{
    let bytes = get_random_bytes::<N>();
    let r = hex_encode(&bytes);
    assert(bytes@.len() == N && r@ == hex_lower(bytes@));
    r
}

/// Identifier of a file shared through a secret record: 32 random bytes, since such
/// identifiers share one global namespace.
pub fn generate_send_file_id() -> (r: String)
    ensures
        is_hex_id(r@, 32),
{
    generate_id::<32>()
}

/// Identifier of an attachment. Attachments are scoped to one parent record, so 10 random
/// bytes suffice.
pub struct AttachmentId(pub String);

/// A fresh attachment identifier: 10 random bytes in lowercase hexadecimal.
pub fn generate_attachment_id() -> (r: AttachmentId)
    ensures
        is_hex_id(r.0@, 10),
{
    AttachmentId(generate_id::<10>())
}

/// A numeric token of `token_size` digits for verifications by email.
pub fn generate_email_token(token_size: u8) -> (r: String)
    ensures
        r@.len() == token_size,
        forall|i: int| 0 <= i < r@.len() ==> is_decimal_digit(#[trigger] r@[i]),
{
    get_random_string_numeric(token_size as usize)
}

/// A personal API key of 30 letters and digits, drawn by the fast generator.
pub fn generate_api_key() -> (r: String)
    ensures
        r@.len() == 30,
        forall|i: int| 0 <= i < r@.len() ==> is_alphanumeric(#[trigger] r@[i]),
{
    get_random_string_alphanum(30)
}

/// Equality of two byte strings, in time that does not depend on where they differ.
pub fn ct_eq(a: &[u8], b: &[u8]) -> (r: bool)
    ensures
        r == (a@ == b@),
{
    slices_ct_eq(a, b)
}

/// A hash as `hash_password` returns it verifies against the secret, salt and cost parameters
/// it was made with, under either derivation: `verify_password_hash` accepts those inputs and
/// returns true.
pub proof fn lemma_hash_then_verify(
    secret: Seq<u8>,
    salt: Seq<u8>,
    hash: Seq<u8>,
    iterations: u32,
    memory: u32,
    parallelism: u32,
)
    requires
        derivation_accepts(secret.len(), salt.len(), iterations, memory, parallelism, OUTPUT_LEN as nat),
        hash == derived_key(secret, salt, iterations, memory, parallelism, OUTPUT_LEN as nat),
        hash.len() == OUTPUT_LEN,
    ensures
        derivation_accepts(secret.len(), salt.len(), iterations, memory, parallelism, hash.len()),
        hash_matches(secret, salt, hash, iterations, memory, parallelism),
{
}

proof fn lemma_flip_changes_byte(x: u8, bit: u8)
    requires
        bit < 8,
    ensures
        x ^ (1u8 << bit) != x,
{
    assert(x ^ (1u8 << bit) != x) by (bit_vector)
        requires
            bit < 8,
    ;
}

/// Flipping any single bit of a hash that verifies makes it fail to verify.
pub proof fn lemma_tampered_hash_fails(
    secret: Seq<u8>,
    salt: Seq<u8>,
    hash: Seq<u8>,
    iterations: u32,
    memory: u32,
    parallelism: u32,
    i: int,
    bit: u8,
)
    requires
        hash_matches(secret, salt, hash, iterations, memory, parallelism),
        0 <= i < hash.len(),
        bit < 8,
    ensures
        !hash_matches(secret, salt, hash.update(i, hash[i] ^ (1u8 << bit)), iterations, memory, parallelism),
{
    lemma_flip_changes_byte(hash[i], bit);
    let t = hash.update(i, hash[i] ^ (1u8 << bit));
    assert(t[i] != hash[i]);
    assert(t.len() == hash.len());
}

} // verus!
