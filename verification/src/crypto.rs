use vstd::prelude::*;
use vstd::utf8::*;
use vstd::slice::slice_subrange;
use argon2::Argon2;
use aes_gcm::{Aes256Gcm, KeyInit, Nonce};
use aes_gcm::aead::Aead;

verus! {

broadcast use {encode_utf8_valid_utf8, encode_utf8_decode_utf8, decode_utf8_encode_utf8};

// ---------------------------------------------------------------------------
// Hex text
// ---------------------------------------------------------------------------

/// The lowercase hex digit of a value below 16.
pub open spec fn hex_digit(n: int) -> char {
    if n < 10 {
        (48 + n) as char
    } else {
        (87 + n) as char
    }
}

/// Lowercase hex text of a byte string: two digits per byte, high nibble first.
pub open spec fn hex_lower(bytes: Seq<u8>) -> Seq<char>
    decreases bytes.len(),
{
    if bytes.len() == 0 {
        Seq::empty()
    } else {
        seq![hex_digit(bytes[0] as int / 16), hex_digit(bytes[0] as int % 16)] + hex_lower(bytes.drop_first())
    }
}

/// Hex text is twice as long as its bytes, and ASCII.
pub proof fn lemma_hex_lower(bytes: Seq<u8>)
    ensures
        hex_lower(bytes).len() == 2 * bytes.len(),
        is_ascii_chars(hex_lower(bytes)),
        encode_utf8(hex_lower(bytes)).len() == 2 * bytes.len(),
    decreases bytes.len(),
{
    if bytes.len() > 0 {
        lemma_hex_lower(bytes.drop_first());
        let rest = hex_lower(bytes.drop_first());
        let head = seq![hex_digit(bytes[0] as int / 16), hex_digit(bytes[0] as int % 16)];
        assert(is_ascii_chars(head));
        assert forall|i: int| 0 <= i < hex_lower(bytes).len() implies '\0' <= #[trigger] hex_lower(
            bytes,
        )[i] <= '\u{7f}' by {
            if i >= 2 {
                assert(hex_lower(bytes)[i] == rest[i - 2]);
            }
        }
    }
    is_ascii_chars_encode_utf8(hex_lower(bytes));
}

/// A salt as this library makes it: the hex text of 16 random bytes.
pub open spec fn is_hex_of_16_bytes(s: Seq<char>) -> bool {
    exists|bytes: Seq<u8>| bytes.len() == 16 && s == #[trigger] hex_lower(bytes)
}

/// `hex::encode`: the lowercase hex text of `data`, two digits per byte,
/// high nibble first.
#[verifier::external_body]
pub(crate) fn hex_encode(data: &[u8]) -> (res: String)
    ensures
        res@ == hex_lower(data@),
{
    hex::encode(data)
}

/// `rand::fill` on a fresh zeroed buffer of `n` bytes, from the thread-local
/// generator. Which bytes it writes is left unsaid; only the length is
/// stated. The generator panics where the operating system cannot seed it,
/// which no precondition here can rule out.
#[verifier::external_body]
pub(crate) fn random_bytes(n: usize) -> (res: Vec<u8>)
    ensures
        res@.len() == n,
{
    let mut buf = vec![0u8; n];
    rand::fill(&mut buf[..]);
    buf
}

/// A fresh salt: the lowercase hex text of 16 random bytes, so 32 ASCII
/// characters.
pub fn generate_salt() -> (res: String)
    ensures
        is_hex_of_16_bytes(res@),
        res@.len() == 32,
        is_ascii_chars(res@),
        encode_utf8(res@).len() == 32,
{
    let salt = random_bytes(16);
    let res = hex_encode(salt.as_slice());
    proof {
        lemma_hex_lower(salt@);
        assert(is_hex_of_16_bytes(res@));
    }
    res
}

// ---------------------------------------------------------------------------
// Messages
// ---------------------------------------------------------------------------

/// `prefix` followed by `detail`.
pub fn with_context(prefix: &str, detail: &str) -> (res: String)
    ensures
        res@ == prefix@ + detail@,
{
    let mut res = String::from_str(prefix);
    res.append(detail);
    res
}

// ---------------------------------------------------------------------------
// Key derivation
// ---------------------------------------------------------------------------

/// The 32-byte Argon2id (version 0x13, default cost parameters) hash of a
/// password under a salt.
pub uninterp spec fn argon2id_default_hash(password: Seq<u8>, salt: Seq<u8>) -> Seq<u8>;

/// Argon2 with its default parameters accepts these input lengths.
pub open spec fn argon2_accepts(password: Seq<u8>, salt: Seq<u8>) -> bool {
    &&& 8 <= salt.len() <= 0xFFFF_FFFF
    &&& password.len() <= 0xFFFF_FFFF
}

/// The text of the error that Argon2 gives for refused lengths: it checks the
/// password first, then the salt's lower and upper bounds.
pub open spec fn argon2_refusal(password: Seq<u8>, salt: Seq<u8>) -> Seq<char> {
    if password.len() > 0xFFFF_FFFF {
        "password is too long"@
    } else if salt.len() < 8 {
        "salt is too short"@
    } else {
        "salt is too long"@
    }
}

/// `Argon2::default()` then `hash_password_into` a 32-byte buffer. The source
/// refuses only a password over 0xFFFF_FFFF bytes, then a salt under 8 or
/// over 0xFFFF_FFFF bytes, each with a fixed text; the hash itself is named.
#[verifier::external_body]
fn argon2_hash_into(password: &[u8], salt: &[u8]) -> (res: Result<[u8; 32], String>)
    ensures
        res is Ok <==> argon2_accepts(password@, salt@),
        res matches Ok(key) ==> key@ == argon2id_default_hash(password@, salt@),
        res matches Err(m) ==> m@ == argon2_refusal(password@, salt@),
{
    let mut key = [0u8; 32];
    Argon2::default().hash_password_into(password, salt, &mut key).map_err(|e| e.to_string())?;
    Ok(key)
}

/// Derives the 32-byte vault key from the master password and the salt text.
pub fn derive_key(password: &str, salt: &str) -> (res: Result<[u8; 32], String>)
    ensures
        res is Ok <==> argon2_accepts(encode_utf8(password@), encode_utf8(salt@)),
        res matches Ok(key) ==> key@ == argon2id_default_hash(
            encode_utf8(password@),
            encode_utf8(salt@),
        ),
        res matches Err(m) ==> m@ == "Error deriving key: "@ + argon2_refusal(
            encode_utf8(password@),
            encode_utf8(salt@),
        ),
{
    match argon2_hash_into(password.as_bytes(), salt.as_bytes()) {
        Ok(key) => Ok(key),
        Err(detail) => Err(with_context("Error deriving key: ", detail.as_str())),
    }
}

// ---------------------------------------------------------------------------
// Authenticated encryption
// ---------------------------------------------------------------------------

/// The longest plaintext, in bytes, that AES-GCM encrypts (2^36).
pub const AES_GCM_MAX_PLAINTEXT: u64 = 0x10_0000_0000;

/// AES-256-GCM with a 12-byte nonce and no associated data: the ciphertext
/// followed by the 16-byte tag.
pub uninterp spec fn aes256gcm_seal(key: Seq<u8>, nonce: Seq<u8>, plaintext: Seq<u8>) -> Seq<u8>;

/// AES-256-GCM opening with a 12-byte nonce and no associated data: the
/// plaintext, or nothing where the tag does not check out.
pub uninterp spec fn aes256gcm_open(key: Seq<u8>, nonce: Seq<u8>, ciphertext: Seq<u8>) -> Option<Seq<u8>>;

/// Why an AES-GCM call failed, with the outside crate's text for it.
pub enum CipherFailure {
    /// The key is not 32 bytes long.
    Key(String),
    /// Encryption or authentication failed.
    Aead(String),
}

/// `Aes256Gcm::new_from_slice(key)` then `encrypt(nonce, plaintext)`. The
/// key is refused unless it is 32 bytes long; encryption refuses a plaintext
/// over 2^36 bytes and otherwise appends a 16-byte tag. The ciphertext is
/// named; the errors carry the crates' fixed texts, "Invalid Length" for the
/// key and "aead::Error" for encryption.
#[verifier::external_body]
fn aes256gcm_encrypt(key: &[u8], nonce: &[u8], plaintext: &[u8]) -> (res: Result<Vec<u8>, CipherFailure>)
    requires
        nonce@.len() == 12,
    ensures
        res matches Err(CipherFailure::Key(_)) <==> key@.len() != 32,
        res matches Err(CipherFailure::Key(m)) ==> m@ == "Invalid Length"@,
        res matches Err(CipherFailure::Aead(m)) ==> m@ == "aead::Error"@,
        res matches Err(CipherFailure::Aead(_)) <==> (key@.len() == 32 && plaintext@.len()
            > AES_GCM_MAX_PLAINTEXT),
        res matches Ok(c) ==> c@ == aes256gcm_seal(key@, nonce@, plaintext@) && c@.len()
            == plaintext@.len() + 16,
{
    let cipher = Aes256Gcm::new_from_slice(key).map_err(|e| CipherFailure::Key(e.to_string()))?;
    cipher.encrypt(Nonce::from_slice(nonce), plaintext).map_err(|e| CipherFailure::Aead(e.to_string()))
}

/// `Aes256Gcm::new_from_slice(key)` then `decrypt(nonce, ciphertext)`. The
/// key is refused unless it is 32 bytes long; otherwise the call succeeds
/// exactly where the named opening gives a plaintext, and opening what
/// `encrypt` made under the same key and nonce gives back its plaintext.
/// A ciphertext shorter than the 16-byte tag is refused, and a plaintext is
/// the ciphertext without its tag. The errors carry the crates' fixed texts,
/// "Invalid Length" for the key and "aead::Error" for decryption. Whether a
/// wrong key can ever authenticate is left unsaid.
#[verifier::external_body]
fn aes256gcm_decrypt(key: &[u8], nonce: &[u8], ciphertext: &[u8]) -> (res: Result<Vec<u8>, CipherFailure>)
    requires
        nonce@.len() == 12,
    ensures
        res matches Err(CipherFailure::Key(_)) <==> key@.len() != 32,
        res matches Err(CipherFailure::Key(m)) ==> m@ == "Invalid Length"@,
        res matches Err(CipherFailure::Aead(m)) ==> m@ == "aead::Error"@,
        key@.len() == 32 ==> (res is Ok <==> aes256gcm_open(key@, nonce@, ciphertext@) is Some),
        res matches Ok(p) ==> aes256gcm_open(key@, nonce@, ciphertext@) == Some(p@),
        res matches Ok(p) ==> p@.len() + 16 == ciphertext@.len(),
        key@.len() == 32 && ciphertext@.len() < 16 ==> res is Err,
        forall|pt: Seq<u8>| #![trigger aes256gcm_seal(key@, nonce@, pt)]
            key@.len() == 32 && pt.len() <= AES_GCM_MAX_PLAINTEXT && aes256gcm_seal(key@, nonce@, pt) == ciphertext@ ==> res is Ok && res->Ok_0@ == pt,
{
    let cipher = Aes256Gcm::new_from_slice(key).map_err(|e| CipherFailure::Key(e.to_string()))?;
    cipher.decrypt(Nonce::from_slice(nonce), ciphertext).map_err(|e| CipherFailure::Aead(e.to_string()))
}

/// `String::from_utf8`: the text that valid UTF-8 bytes encode; the error's
/// text is std's own and is left unsaid.
#[verifier::external_body]
pub(crate) fn utf8_text(bytes: Vec<u8>) -> (res: Result<String, String>)
    ensures
        res is Ok <==> valid_utf8(bytes@),
        res matches Ok(s) ==> s@ == decode_utf8(bytes@),
{
    String::from_utf8(bytes).map_err(|e| e.to_string())
}

/// What `encrypt_data` writes for `text` under `key` with `nonce`: the nonce,
/// then the AES-256-GCM ciphertext and tag of the text's UTF-8 bytes.
pub open spec fn sealed_payload(key: Seq<u8>, nonce: Seq<u8>, text: Seq<char>) -> Seq<u8> {
    nonce + aes256gcm_seal(key, nonce, encode_utf8(text))
}

/// What `decrypt_data` reads out of `data` under `key`: the first 12 bytes are
/// the nonce, the rest the ciphertext, and the opened plaintext must be UTF-8.
pub open spec fn opened_text(data: Seq<u8>, key: Seq<u8>) -> Option<Seq<char>> {
    if data.len() < 12 {
        None
    } else {
        match aes256gcm_open(key, data.take(12), data.skip(12)) {
            Some(p) => if valid_utf8(p) {
                Some(decode_utf8(p))
            } else {
                None
            },
            None => None,
        }
    }
}

proof fn lemma_cipher_messages()
    ensures
        "Error creating cipher: "@ + "Invalid Length"@ == "Error creating cipher: Invalid Length"@,
        "Error encrypting data: "@ + "aead::Error"@ == "Error encrypting data: aead::Error"@,
        "Error decrypting data: "@ + "aead::Error"@ == "Error decrypting data: aead::Error"@,
{
    reveal_strlit("Error creating cipher: ");
    reveal_strlit("Invalid Length");
    reveal_strlit("Error creating cipher: Invalid Length");
    reveal_strlit("Error encrypting data: ");
    reveal_strlit("aead::Error");
    reveal_strlit("Error encrypting data: aead::Error");
    reveal_strlit("Error decrypting data: ");
    reveal_strlit("Error decrypting data: aead::Error");
    assert("Error creating cipher: "@ + "Invalid Length"@ =~= "Error creating cipher: Invalid Length"@);
    assert("Error encrypting data: "@ + "aead::Error"@ =~= "Error encrypting data: aead::Error"@);
    assert("Error decrypting data: "@ + "aead::Error"@ =~= "Error decrypting data: aead::Error"@);
}

/// The message for a failed cipher call.
fn cipher_failure_message(failure: CipherFailure, aead_prefix: &str) -> (res: String)
    ensures
        failure matches CipherFailure::Key(d) ==> res@ == "Error creating cipher: "@ + d@,
        failure matches CipherFailure::Aead(d) ==> res@ == aead_prefix@ + d@,
{
    match failure {
        CipherFailure::Key(d) => with_context("Error creating cipher: ", d.as_str()),
        CipherFailure::Aead(d) => with_context(aead_prefix, d.as_str()),
    }
}

/// Encrypts `json_text` under `key` with the given 12-byte nonce: the nonce
/// followed by the ciphertext and tag.
pub fn encrypt_with_nonce(json_text: &str, key: &[u8], nonce: &[u8]) -> (res: Result<Vec<u8>, String>)
    requires
        nonce@.len() == 12,
    ensures
        res is Ok <==> (key@.len() == 32 && encode_utf8(json_text@).len() <= AES_GCM_MAX_PLAINTEXT),
        res matches Ok(v) ==> v@ == sealed_payload(key@, nonce@, json_text@),
        res matches Ok(v) ==> v@.len() == encode_utf8(json_text@).len() + 28,
        res matches Err(m) ==> (key@.len() != 32 ==> m@ == "Error creating cipher: Invalid Length"@),
        res matches Err(m) ==> (key@.len() == 32 ==> m@ == "Error encrypting data: aead::Error"@),
{
    proof {
        lemma_cipher_messages();
    }
    match aes256gcm_encrypt(key, nonce, json_text.as_bytes()) {
        Ok(ciphertext) => {
            let mut payload: Vec<u8> = Vec::new();
            append_bytes(&mut payload, nonce);
            append_bytes(&mut payload, ciphertext.as_slice());
            Ok(payload)
        },
        Err(failure) => Err(cipher_failure_message(failure, "Error encrypting data: ")),
    }
}

/// Encrypts `json_text` under `key` with a fresh random nonce: the nonce
/// followed by the ciphertext and tag.
pub fn encrypt_data(json_text: &str, key: &[u8]) -> (res: Result<Vec<u8>, String>)
    ensures
        res is Ok <==> (key@.len() == 32 && encode_utf8(json_text@).len() <= AES_GCM_MAX_PLAINTEXT),
        res matches Ok(v) ==> exists|nonce: Seq<u8>|
            nonce.len() == 12 && v@ == #[trigger] sealed_payload(key@, nonce, json_text@),
        res matches Ok(v) ==> v@.len() == encode_utf8(json_text@).len() + 28,
        res matches Err(m) ==> (key@.len() != 32 ==> m@ == "Error creating cipher: Invalid Length"@),
        res matches Err(m) ==> (key@.len() == 32 ==> m@ == "Error encrypting data: aead::Error"@),
{
    let nonce = random_bytes(12);
    let res = encrypt_with_nonce(json_text, key, nonce.as_slice());
    proof {
        if res is Ok {
            assert(sealed_payload(key@, nonce@, json_text@) == res->Ok_0@);
        }
    }
    res
}

/// Decrypts what `encrypt_data` wrote: the first 12 bytes are the nonce,
/// the rest the ciphertext, and the plaintext must be UTF-8.
pub fn decrypt_data(encrypted_data: &[u8], key: &[u8; 32]) -> (res: Result<String, String>)
    ensures
        res is Ok <==> opened_text(encrypted_data@, key@) is Some,
        res matches Ok(s) ==> Some(s@) == opened_text(encrypted_data@, key@),
        encrypted_data@.len() < 12 ==> res is Err && res->Err_0@
            == "Encrypted data is too short (missing nonce)"@,
        encrypted_data@.len() < 28 ==> res is Err,
        res matches Ok(s) ==> encode_utf8(s@).len() + 28 == encrypted_data@.len(),
        encrypted_data@.len() >= 12 && aes256gcm_open(
            key@,
            encrypted_data@.take(12),
            encrypted_data@.skip(12),
        ) is None ==> res is Err && res->Err_0@ == "Error decrypting data: aead::Error"@,
        encrypted_data@.len() >= 12 && aes256gcm_open(
            key@,
            encrypted_data@.take(12),
            encrypted_data@.skip(12),
        ) is Some && opened_text(encrypted_data@, key@) is None ==> res is Err && exists|d: Seq<char>|
            res->Err_0@ == "Invalid UTF-8 sequence inside vault: "@ + d,
        forall|nonce: Seq<u8>, text: Seq<char>|
            nonce.len() == 12 && encode_utf8(text).len() <= AES_GCM_MAX_PLAINTEXT
                && #[trigger] sealed_payload(key@, nonce, text) == encrypted_data@
                ==> (res matches Ok(s) && s@ == text),
{
    proof {
        lemma_cipher_messages();
    }
    if encrypted_data.len() < 12 {
        return Err(String::from_str("Encrypted data is too short (missing nonce)"));
    }
    let nonce_bytes = slice_subrange(encrypted_data, 0, 12);
    let ciphertext_bytes = slice_subrange(encrypted_data, 12, encrypted_data.len());
    proof {
        assert(nonce_bytes@ =~= encrypted_data@.take(12));
        assert(ciphertext_bytes@ =~= encrypted_data@.skip(12));
        assert forall|nonce: Seq<u8>, text: Seq<char>|
            nonce.len() == 12 && #[trigger] sealed_payload(key@, nonce, text) == encrypted_data@ implies
            nonce == nonce_bytes@ && aes256gcm_seal(key@, nonce, encode_utf8(text)) == ciphertext_bytes@ by {
            assert(nonce =~= sealed_payload(key@, nonce, text).take(12));
            assert(aes256gcm_seal(key@, nonce, encode_utf8(text)) =~= sealed_payload(key@, nonce, text).skip(12));
        }
    }
    let key_slice: &[u8] = key.as_slice();
    match aes256gcm_decrypt(key_slice, nonce_bytes, ciphertext_bytes) {
        Ok(plain) => {
            match utf8_text(plain) {
                Ok(s) => Ok(s),
                Err(d) => Err(with_context("Invalid UTF-8 sequence inside vault: ", d.as_str())),
            }
        },
        Err(failure) => Err(cipher_failure_message(failure, "Error decrypting data: ")),
    }
}

/// A digit of lowercase hex text.
pub open spec fn is_lower_hex_digit(c: char) -> bool {
    ('0' <= c <= '9') || ('a' <= c <= 'f')
}

proof fn lemma_hex_lower_digits(bytes: Seq<u8>)
    ensures
        forall|i: int| 0 <= i < hex_lower(bytes).len() ==> is_lower_hex_digit(#[trigger] hex_lower(bytes)[i]),
    decreases bytes.len(),
{
    lemma_hex_lower(bytes);
    if bytes.len() > 0 {
        lemma_hex_lower_digits(bytes.drop_first());
        let rest = hex_lower(bytes.drop_first());
        assert forall|i: int| 0 <= i < hex_lower(bytes).len() implies is_lower_hex_digit(
            #[trigger] hex_lower(bytes)[i],
        ) by {
            if i >= 2 {
                assert(hex_lower(bytes)[i] == rest[i - 2]);
            }
        }
    }
}

/// A salt is 32 lowercase hex digits.
pub proof fn law_salt_is_lowercase_hex(res: String)
    requires
        call_ensures(generate_salt, (), res),
    ensures
        res@.len() == 32,
        forall|i: int| 0 <= i < res@.len() ==> is_lower_hex_digit(#[trigger] res@[i]),
{
    let bytes = choose|bytes: Seq<u8>| bytes.len() == 16 && res@ == #[trigger] hex_lower(bytes);
    lemma_hex_lower_digits(bytes);
}

/// Deriving the key hashes the password's and the salt's UTF-8 bytes with
/// Argon2id under its default parameters, and succeeds exactly where Argon2
/// accepts their lengths.
pub proof fn law_derive_key_hashes_the_password(password: &str, salt: &str, res: Result<[u8; 32], String>)
    requires
        call_ensures(derive_key, (password, salt), res),
    ensures
        res is Ok <==> (8 <= encode_utf8(salt@).len() <= 0xFFFF_FFFF && encode_utf8(password@).len()
            <= 0xFFFF_FFFF),
        res matches Ok(key) ==> key@ == argon2id_default_hash(encode_utf8(password@), encode_utf8(salt@)),
{
}

/// Encrypting with a given nonce writes the nonce, then the AES-256-GCM
/// sealing of exactly the text's UTF-8 bytes under the key and that nonce.
pub proof fn law_encrypt_with_nonce_seals_the_text(
    json_text: &str,
    key: &[u8],
    nonce: &[u8],
    res: Result<Vec<u8>, String>,
)
    requires
        call_ensures(encrypt_with_nonce, (json_text, key, nonce), res),
    ensures
        res is Ok <==> (key@.len() == 32 && encode_utf8(json_text@).len() <= AES_GCM_MAX_PLAINTEXT),
        res matches Ok(v) ==> v@ == nonce@ + aes256gcm_seal(key@, nonce@, encode_utf8(json_text@)),
{
}

/// Encrypting writes some 12-byte nonce, then the AES-256-GCM sealing of
/// exactly the text's UTF-8 bytes under the key and that nonce.
pub proof fn law_encrypt_seals_the_text(json_text: &str, key: &[u8], res: Result<Vec<u8>, String>)
    requires
        call_ensures(encrypt_data, (json_text, key), res),
    ensures
        res is Ok <==> (key@.len() == 32 && encode_utf8(json_text@).len() <= AES_GCM_MAX_PLAINTEXT),
        res matches Ok(v) ==> v@.len() >= 12 && v@.skip(12) == aes256gcm_seal(
            key@,
            v@.take(12),
            encode_utf8(json_text@),
        ),
{
    if res is Ok {
        let v = res->Ok_0@;
        let nonce = choose|nonce: Seq<u8>|
            nonce.len() == 12 && v == #[trigger] sealed_payload(key@, nonce, json_text@);
        assert(v.take(12) =~= nonce);
        assert(v.skip(12) =~= aes256gcm_seal(key@, nonce, encode_utf8(json_text@)));
    }
}

/// Decrypting gives back exactly the text whose UTF-8 bytes AES-256-GCM opens
/// under the key, with the first 12 bytes as the nonce and the rest as the
/// ciphertext; and it succeeds whenever those bytes open and are UTF-8.
pub proof fn law_decrypt_gives_opened_plaintext(
    encrypted_data: &[u8],
    key: &[u8; 32],
    res: Result<String, String>,
)
    requires
        call_ensures(decrypt_data, (encrypted_data, key), res),
    ensures
        res matches Ok(s) ==> encrypted_data@.len() >= 12 && aes256gcm_open(
            key@,
            encrypted_data@.take(12),
            encrypted_data@.skip(12),
        ) == Some(encode_utf8(s@)),
        encrypted_data@.len() >= 12 ==> ((aes256gcm_open(
            key@,
            encrypted_data@.take(12),
            encrypted_data@.skip(12),
        ) matches Some(p) && valid_utf8(p)) ==> res is Ok),
{
}

/// Appends `src` to `dst`.
pub fn append_bytes(dst: &mut Vec<u8>, src: &[u8])
    ensures
        final(dst)@ == old(dst)@ + src@,
{
    let ghost start = dst@;
    let mut i: usize = 0;
    while i < src.len()
        invariant
            i <= src@.len(),
            dst@ == start + src@.take(i as int),
        decreases src@.len() - i,
    {
        dst.push(src[i]);
        i = i + 1;
        proof {
            assert(src@.take(i as int) =~= src@.take(i - 1) + seq![src@[i - 1]]);
        }
    }
    assert(src@.take(src@.len() as int) =~= src@);
}

} // verus!
