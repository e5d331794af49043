use vstd::prelude::*;
use vstd::utf8::*;
use vstd::slice::slice_subrange;
use vstd::slice::slice_to_vec;
use crate::crypto::{
    aes256gcm_open, aes256gcm_seal, append_bytes, argon2_accepts, argon2_refusal, argon2id_default_hash, decrypt_data, derive_key, encrypt_data,
    opened_text, sealed_payload, AES_GCM_MAX_PLAINTEXT, hex_lower, is_hex_of_16_bytes, lemma_hex_lower,
};

verus! {

broadcast use {encode_utf8_valid_utf8, encode_utf8_decode_utf8, decode_utf8_encode_utf8};

/// The number of bytes that the salt takes at the head of a vault file.
pub const SALT_LEN: usize = 32;

/// A vault file: the salt's UTF-8 bytes, then the encrypted vault.
pub open spec fn vault_file(salt: Seq<char>, payload: Seq<u8>) -> Seq<u8> {
    encode_utf8(salt) + payload
}

/// Framing undoes itself: a vault file whose salt takes 32 bytes holds a
/// salt, the salt decodes back from its first 32 bytes, and the rest is the
/// encrypted vault.
pub proof fn law_vault_file_splits(salt: Seq<char>, payload: Seq<u8>)
    requires
        encode_utf8(salt).len() == SALT_LEN,
    ensures
        has_salt(vault_file(salt, payload)),
        decode_utf8(vault_file(salt, payload).take(SALT_LEN as int)) == salt,
        vault_file(salt, payload).skip(SALT_LEN as int) == payload,
{
    assert(vault_file(salt, payload).take(SALT_LEN as int) =~= encode_utf8(salt));
    assert(vault_file(salt, payload).skip(SALT_LEN as int) =~= payload);
}

/// A generated salt takes exactly the 32 bytes that a vault file reserves
/// for it, so any vault sealed under it splits back apart.
pub proof fn law_generated_salt_fits(salt: Seq<char>)
    requires
        is_hex_of_16_bytes(salt),
    ensures
        encode_utf8(salt).len() == SALT_LEN,
        salt.len() == SALT_LEN,
{
    let bytes = choose|bytes: Seq<u8>| bytes.len() == 16 && salt == #[trigger] hex_lower(bytes);
    lemma_hex_lower(bytes);
}

/// A file holds a salt where its first 32 bytes exist and are UTF-8.
pub open spec fn has_salt(file: Seq<u8>) -> bool {
    file.len() >= SALT_LEN && valid_utf8(file.take(SALT_LEN as int))
}

/// The vault file of `salt` and `encrypted`.
pub fn vault_file_bytes(salt: &str, encrypted: &[u8]) -> (res: Vec<u8>)
    ensures
        res@ == vault_file(salt@, encrypted@),
{
    let mut res: Vec<u8> = Vec::new();
    append_bytes(&mut res, salt.as_bytes());
    append_bytes(&mut res, encrypted);
    assert(res@ =~= vault_file(salt@, encrypted@));
    res
}

/// Splits a vault file into its salt text and the encrypted vault, where its
/// first 32 bytes exist and are UTF-8.
pub fn split_vault_file(file_bytes: &[u8]) -> (res: Option<(String, Vec<u8>)>)
    ensures
        res is Some <==> has_salt(file_bytes@),
        res matches Some(parts) ==> parts.0@ == decode_utf8(file_bytes@.take(SALT_LEN as int))
            && parts.1@ == file_bytes@.skip(SALT_LEN as int),
        forall|salt: Seq<char>, payload: Seq<u8>|
            encode_utf8(salt).len() == SALT_LEN && #[trigger] vault_file(salt, payload)
                == file_bytes@ ==> res is Some && res->Some_0.0@ == salt && res->Some_0.1@
                == payload,
{
    proof {
        assert forall|salt: Seq<char>, payload: Seq<u8>|
            encode_utf8(salt).len() == SALT_LEN && #[trigger] vault_file(salt, payload)
                == file_bytes@ implies file_bytes@.take(SALT_LEN as int) == encode_utf8(salt)
            && file_bytes@.skip(SALT_LEN as int) == payload by {
            assert(vault_file(salt, payload).take(SALT_LEN as int) =~= encode_utf8(salt));
            assert(vault_file(salt, payload).skip(SALT_LEN as int) =~= payload);
        }
    }
    if file_bytes.len() < SALT_LEN {
        return None;
    }
    let salt_bytes = slice_to_vec(slice_subrange(file_bytes, 0, SALT_LEN));
    let payload = slice_to_vec(slice_subrange(file_bytes, SALT_LEN, file_bytes.len()));
    assert(salt_bytes@ =~= file_bytes@.take(SALT_LEN as int));
    assert(payload@ =~= file_bytes@.skip(SALT_LEN as int));
    match crate::crypto::utf8_text(salt_bytes) {
        Ok(salt) => Some((salt, payload)),
        Err(_) => None,
    }
}

/// Encrypts the vault's JSON text under `key` and frames it after the salt:
/// the bytes that the vault file holds.
pub fn seal_vault(salt: &str, json_text: &str, key: &[u8; 32]) -> (res: Result<Vec<u8>, String>)
    ensures
        res is Ok <==> encode_utf8(json_text@).len() <= AES_GCM_MAX_PLAINTEXT,
        res matches Ok(v) ==> exists|nonce: Seq<u8>|
            nonce.len() == 12 && v@ == vault_file(salt@, #[trigger] sealed_payload(key@, nonce, json_text@)),
        res matches Ok(v) ==> v@.len() == encode_utf8(salt@).len() + encode_utf8(json_text@).len()
            + 28,
        res matches Err(m) ==> m@ == "Error encrypting data: aead::Error"@,
{
    match encrypt_data(json_text, key.as_slice()) {
        Ok(encrypted) => {
            let res = vault_file_bytes(salt, encrypted.as_slice());
            Ok(res)
        },
        Err(m) => Err(m),
    }
}

/// Why a vault file could not be opened.
pub enum UnlockError {
    /// The file does not start with 32 bytes of UTF-8 salt.
    Malformed,
    /// The key could not be derived from the password and the salt.
    KeyDerivation(String),
    /// The vault did not decrypt under the derived key: a wrong password, or
    /// damaged data.
    Denied(String),
}

/// The key that a vault file's salt and a master password give.
pub open spec fn file_key(file: Seq<u8>, password: Seq<char>) -> Seq<u8> {
    argon2id_default_hash(encode_utf8(password), file.take(SALT_LEN as int))
}

/// Opens a vault file with a master password: splits off the salt, derives
/// the key from the password and the salt, and decrypts the rest into the
/// vault's JSON text.
pub fn unlock_vault(file_bytes: &[u8], password: &str) -> (res: Result<String, UnlockError>)
    ensures
        res matches Err(UnlockError::Malformed) <==> !has_salt(file_bytes@),
        has_salt(file_bytes@) ==> (res matches Err(UnlockError::KeyDerivation(_)) <==> !argon2_accepts(
            encode_utf8(password@),
            file_bytes@.take(SALT_LEN as int),
        )),
        has_salt(file_bytes@) && argon2_accepts(
            encode_utf8(password@),
            file_bytes@.take(SALT_LEN as int),
        ) ==> (res is Ok <==> opened_text(
            file_bytes@.skip(SALT_LEN as int),
            file_key(file_bytes@, password@),
        ) is Some),
        res matches Err(UnlockError::KeyDerivation(m)) ==> m@ == "Error deriving key: "@ + argon2_refusal(
            encode_utf8(password@),
            file_bytes@.take(SALT_LEN as int),
        ),
        has_salt(file_bytes@) && file_bytes@.len() < SALT_LEN + 12 && argon2_accepts(
            encode_utf8(password@),
            file_bytes@.take(SALT_LEN as int),
        ) ==> (res matches Err(UnlockError::Denied(m)) && m@ == "Encrypted data is too short (missing nonce)"@),
        has_salt(file_bytes@) && file_bytes@.len() >= SALT_LEN + 12 && argon2_accepts(
            encode_utf8(password@),
            file_bytes@.take(SALT_LEN as int),
        ) && aes256gcm_open(
            file_key(file_bytes@, password@),
            file_bytes@.skip(SALT_LEN as int).take(12),
            file_bytes@.skip(SALT_LEN as int).skip(12),
        ) is None ==> (res matches Err(UnlockError::Denied(m)) && m@ == "Error decrypting data: aead::Error"@),
        res matches Ok(json) ==> Some(json@) == opened_text(
            file_bytes@.skip(SALT_LEN as int),
            file_key(file_bytes@, password@),
        ),
        forall|salt: Seq<char>, nonce: Seq<u8>, json: Seq<char>|
            encode_utf8(salt).len() == SALT_LEN && nonce.len() == 12 && encode_utf8(json).len()
                <= AES_GCM_MAX_PLAINTEXT && encode_utf8(password@).len() <= 0xFFFF_FFFF
                && #[trigger] vault_file(
                salt,
                sealed_payload(argon2id_default_hash(encode_utf8(password@), encode_utf8(salt)), nonce, json),
            ) == file_bytes@ ==> res is Ok && res->Ok_0@ == json,
{
    match split_vault_file(file_bytes) {
        None => Err(UnlockError::Malformed),
        Some((salt, payload)) => {
            proof {
                assert(encode_utf8(salt@) == file_bytes@.take(SALT_LEN as int));
            }
            match derive_key(password, salt.as_str()) {
                Err(m) => Err(UnlockError::KeyDerivation(m)),
                Ok(key) => match decrypt_data(payload.as_slice(), &key) {
                    Ok(json) => Ok(json),
                    Err(m) => Err(UnlockError::Denied(m)),
                },
            }
        },
    }
}

/// Splitting a vault file succeeds exactly where its first 32 bytes exist
/// and are UTF-8; the salt is their text and the rest is handed back as is.
pub proof fn law_split_takes_the_salt(file_bytes: &[u8], res: Option<(String, Vec<u8>)>)
    requires
        call_ensures(split_vault_file, (file_bytes,), res),
    ensures
        res is Some <==> (file_bytes@.len() >= 32 && valid_utf8(file_bytes@.take(32))),
        res matches Some(parts) ==> encode_utf8(parts.0@) == file_bytes@.take(32) && parts.1@
            == file_bytes@.skip(32),
{
}

/// Sealing a vault writes the salt's UTF-8 bytes, then some 12-byte nonce,
/// then the AES-256-GCM sealing of exactly the JSON text's UTF-8 bytes under
/// the key and that nonce.
pub proof fn law_seal_vault_frames_the_sealed_text(
    salt: &str,
    json_text: &str,
    key: &[u8; 32],
    res: Result<Vec<u8>, String>,
)
    requires
        call_ensures(seal_vault, (salt, json_text, key), res),
    ensures
        res is Ok <==> encode_utf8(json_text@).len() <= AES_GCM_MAX_PLAINTEXT,
        res matches Ok(v) ==> {
            let n = encode_utf8(salt@).len() as int;
            &&& v@.len() >= n + 12
            &&& v@.take(n) == encode_utf8(salt@)
            &&& v@.skip(n).skip(12) == aes256gcm_seal(key@, v@.skip(n).take(12), encode_utf8(json_text@))
        },
{
    if res is Ok {
        let v = res->Ok_0@;
        let n = encode_utf8(salt@).len() as int;
        let nonce = choose|nonce: Seq<u8>|
            nonce.len() == 12 && v == vault_file(salt@, #[trigger] sealed_payload(key@, nonce, json_text@));
        assert(v.take(n) =~= encode_utf8(salt@));
        assert(v.skip(n).take(12) =~= nonce);
        assert(v.skip(n).skip(12) =~= aes256gcm_seal(key@, nonce, encode_utf8(json_text@)));
    }
}

/// Unlocking opens the vault only with the key that Argon2id derives from the
/// password exactly as given and the file's first 32 bytes: the JSON text
/// handed back is what AES-256-GCM opens under that key, with the next 12
/// bytes as the nonce and the rest as the ciphertext; and a well-formed file
/// that opens under that key to UTF-8 is always unlocked.
pub proof fn law_unlock_opens_with_the_password_key(
    file_bytes: &[u8],
    password: &str,
    res: Result<String, UnlockError>,
)
    requires
        call_ensures(unlock_vault, (file_bytes, password), res),
    ensures
        res matches Ok(json) ==> {
            &&& file_bytes@.len() >= 44
            &&& valid_utf8(file_bytes@.take(32))
            &&& aes256gcm_open(
                argon2id_default_hash(encode_utf8(password@), file_bytes@.take(32)),
                file_bytes@.skip(32).take(12),
                file_bytes@.skip(32).skip(12),
            ) == Some(encode_utf8(json@))
        },
        file_bytes@.len() >= 44 && valid_utf8(file_bytes@.take(32)) && encode_utf8(password@).len()
            <= 0xFFFF_FFFF ==> ((aes256gcm_open(
            argon2id_default_hash(encode_utf8(password@), file_bytes@.take(32)),
            file_bytes@.skip(32).take(12),
            file_bytes@.skip(32).skip(12),
        ) matches Some(p) && valid_utf8(p)) ==> res is Ok),
        file_bytes@.len() >= 44 && valid_utf8(file_bytes@.take(32)) && encode_utf8(password@).len()
            <= 0xFFFF_FFFF && aes256gcm_open(
            argon2id_default_hash(encode_utf8(password@), file_bytes@.take(32)),
            file_bytes@.skip(32).take(12),
            file_bytes@.skip(32).skip(12),
        ) is None ==> res is Err,
{
}

} // verus!
