//! The passphrase vault: first-boot setup and unlocking.
use vstd::prelude::*;
use vstd::string::StringSliceAdditionalSpecFns;
use vstd::utf8::encode_utf8;
use std::path::PathBuf;
use crate::crypto::{
    decryption, derive_key, encrypted_with, encryption_with_nonce, new_salt, seal_with_nonce,
    CryptoError, KEY_LEN, NONCE_LEN, decrypt_from_base64,
};
use crate::primitives::{
    argon2id_key, base64_decode, base64_decoded, base64_encode, base64_text, fill_random,
    lemma_base64_round_trip,
    secret_key_bytes, secret_key_ref, SecretKey,
};
use crate::scanner::opt_text;
use crate::text::{chars_of, range_equals};

verus! {

/// The plaintext whose encryption under the vault key tells a right
/// passphrase from a wrong one.
pub open spec fn check_plaintext() -> Seq<u8> {
    encode_utf8("guardpetal-vault-check-v1"@)
}

/// What can go wrong in setting up or unlocking the vault.
#[derive(Debug, Clone, Copy, PartialEq, Eq, Structural)]
pub enum VaultError {
    /// The vault holds no salt.
    MissingSalt,
    /// The vault holds no check value.
    MissingCheck,
    /// The check value decrypted, but not to the expected plaintext.
    IncorrectPassphrase,
    /// The passphrase and its confirmation differ.
    PassphrasesDiffer,
    /// A step of the cryptography failed.
    Crypto(CryptoError),
}

/// The vault that lives in the database file.
pub struct Vault {
    database_path: PathBuf,
}

/// The vault once unlocked: it holds the key, which is wiped when dropped.
pub struct UnlockedVault {
    key: SecretKey,
}

/// What first-boot setup stores in the vault's metadata: the salt in
/// Base64, and the check plaintext encrypted under the derived key.
pub struct VaultSetup {
    pub salt: String,
    pub check: String,
}

/// Whether Argon2 takes this passphrase and salt.
pub open spec fn derivable(passphrase: Seq<char>, salt: Seq<u8>) -> bool {
    encode_utf8(passphrase).len() <= 0xFFFF_FFFF && 8 <= salt.len() <= 0xFFFF_FFFF
}

/// What unlocking gives, from the stored salt and check value and the
/// passphrase typed: the key, when the check value decrypts under it to the
/// check plaintext.
pub open spec fn unlock_outcome(
    salt: Option<Seq<char>>,
    check: Option<Seq<char>>,
    passphrase: Seq<char>,
) -> Result<Seq<u8>, VaultError> {
    match salt {
        None => Err(VaultError::MissingSalt),
        Some(salt_text) => match check {
            None => Err(VaultError::MissingCheck),
            Some(check_text) => match base64_decoded(salt_text) {
                None => Err(VaultError::Crypto(CryptoError::Base64)),
                Some(salt_bytes) => if !derivable(passphrase, salt_bytes) {
                    Err(VaultError::Crypto(CryptoError::KeyDerivation))
                } else {
                    let key = argon2id_key(passphrase, salt_bytes);
                    match decryption(key, check_text) {
                        Err(e) => Err(VaultError::Crypto(e)),
                        Ok(p) => if p == check_plaintext() {
                            Ok(key)
                        } else {
                            Err(VaultError::IncorrectPassphrase)
                        },
                    }
                },
            },
        },
    }
}

impl UnlockedVault {
    /// The key bytes.
    pub closed spec fn key_bytes(&self) -> Seq<u8> {
        secret_key_bytes(self.key)
    }

    /// The vault key.
    pub fn key(&self) -> (k: &[u8; KEY_LEN])
        ensures
            k@ == self.key_bytes(),
    {
        secret_key_ref(&self.key)
    }
}

fn bytes_equal(a: &[u8], b: &[u8]) -> (res: bool)
    ensures
        res == (a@ == b@),
{
    if a.len() != b.len() {
        return false;
    }
    let mut i: usize = 0;
    while i < a.len()
        invariant
            a@.len() == b@.len(),
            i <= a@.len(),
            forall|k: int| 0 <= k < i ==> a@[k] == b@[k],
        decreases a@.len() - i,
    {
        if a[i] != b[i] {
            return false;
        }
        i = i + 1;
    }
    assert(a@ =~= b@);
    true
}

impl Vault {
    /// The vault kept in the database file at `database_path`.
    pub fn at(database_path: PathBuf) -> (v: Vault)
        ensures
            v.spec_database_path() == database_path,
    {
        Vault { database_path }
    }

    /// The database file that holds the vault.
    pub closed spec fn spec_database_path(&self) -> PathBuf {
        self.database_path
    }

    /// The database file that holds the vault.
    pub fn database_path(&self) -> (p: &PathBuf)
        ensures
            *p == self.spec_database_path(),
    {
        &self.database_path
    }

    /// Unlocks the vault with the stored salt and check value and the
    /// passphrase typed.
    pub fn unlock_with(&self, salt: Option<String>, check: Option<String>, passphrase: &str) -> (res:
        Result<UnlockedVault, VaultError>)
        ensures
            match res {
                Ok(u) => unlock_outcome(opt_text(salt), opt_text(check), passphrase@)
                    == Ok::<Seq<u8>, VaultError>(u.key_bytes()),
                Err(e) => unlock_outcome(opt_text(salt), opt_text(check), passphrase@)
                    == Err::<Seq<u8>, VaultError>(e),
            },
    {
        let salt = match salt {
            None => {
                return Err(VaultError::MissingSalt);
            },
            Some(s) => s,
        };
        let check = match check {
            None => {
                return Err(VaultError::MissingCheck);
            },
            Some(c) => c,
        };
        let salt_bytes = match base64_decode(salt.as_str()) {
            None => {
                return Err(VaultError::Crypto(CryptoError::Base64));
            },
            Some(b) => b,
        };
        let key = match derive_key(passphrase, salt_bytes.as_slice()) {
            Err(e) => {
                return Err(VaultError::Crypto(e));
            },
            Ok(k) => k,
        };
        let decrypted = match decrypt_from_base64(secret_key_ref(&key), check.as_str()) {
            Err(e) => {
                return Err(VaultError::Crypto(e));
            },
            Ok(d) => d,
        };
        accept_check(key, decrypted.as_slice())
    }
}

/// Accepts a derived key when the stored check value decrypted under it to
/// the check plaintext.
pub fn accept_check(key: SecretKey, decrypted: &[u8]) -> (res: Result<UnlockedVault, VaultError>)
    ensures
        match res {
            Ok(u) => decrypted@ == check_plaintext() && u.key_bytes() == secret_key_bytes(key),
            Err(e) => decrypted@ != check_plaintext() && e == VaultError::IncorrectPassphrase,
        },
{
    if !bytes_equal(decrypted, "guardpetal-vault-check-v1".as_bytes()) {
        return Err(VaultError::IncorrectPassphrase);
    }
    Ok(UnlockedVault { key })
}

/// What setup stores, for one salt and one nonce: the salt (16 bytes) in
/// Base64, which decodes back to it; the check plaintext encrypted under the
/// key derived from the passphrase and that same salt, with the nonce; the
/// check value decrypting to the check plaintext under that key; and
/// unlocking with the stored values and the passphrase giving that key.
pub open spec fn setup_with(
    passphrase: Seq<char>,
    salt: Seq<u8>,
    nonce: Seq<u8>,
    salt_text: Seq<char>,
    check_text: Seq<char>,
) -> bool {
    let key = argon2id_key(passphrase, salt);
    &&& salt.len() == 16
    &&& salt_text == base64_text(salt)
    &&& base64_decoded(salt_text) == Some(salt)
    &&& encrypted_with(key, nonce, check_plaintext(), check_text)
    &&& decryption(key, check_text) == Ok::<Seq<u8>, CryptoError>(check_plaintext())
    &&& unlock_outcome(Some(salt_text), Some(check_text), passphrase) == Ok::<
        Seq<u8>,
        VaultError,
    >(key)
}

/// Whether `s` is what setup stores for `passphrase`, for some salt and
/// some nonce (drawn at random).
pub open spec fn stored_by_setup(passphrase: Seq<char>, s: VaultSetup) -> bool {
    exists|salt: Seq<u8>, nonce: Seq<u8>|
        #[trigger] setup_with(passphrase, salt, nonce, s.salt@, s.check@)
}

/// The setup values for a passphrase, a salt and a nonce: the key is
/// derived from the passphrase and the salt, the check plaintext is
/// encrypted under it with the nonce, and the salt is kept in Base64.
pub fn setup_with_salt_and_nonce(passphrase: &str, salt: Vec<u8>, nonce: Vec<u8>) -> (res: Result<
    VaultSetup,
    VaultError,
>)
    requires
        nonce@.len() == 12,
    ensures
        res is Ok <==> derivable(passphrase@, salt@),
        res matches Ok(s) ==> s.salt@ == base64_text(salt@),
        res matches Ok(s) ==> s.check@ == encryption_with_nonce(
            argon2id_key(passphrase@, salt@),
            nonce@,
            check_plaintext(),
        ),
        res matches Ok(s) ==> (salt@.len() == 16 ==> setup_with(
            passphrase@,
            salt@,
            nonce@,
            s.salt@,
            s.check@,
        )),
        res matches Err(e) ==> e == VaultError::Crypto(CryptoError::KeyDerivation),
{
    let key = match derive_key(passphrase, salt.as_slice()) {
        Err(e) => {
            assert(passphrase.spec_bytes() == encode_utf8(passphrase@));
            return Err(VaultError::Crypto(e));
        },
        Ok(k) => k,
    };
    assert(passphrase.spec_bytes() == encode_utf8(passphrase@));
    let check_bytes = "guardpetal-vault-check-v1".as_bytes();
    proof {
        reveal_strlit("guardpetal-vault-check-v1");
        vstd::string::is_ascii_spec_bytes("guardpetal-vault-check-v1");
        assert(vstd::string::is_ascii("guardpetal-vault-check-v1"));
        assert(check_bytes@.len() == 25);
    }
    let ghost n = nonce@;
    let check = match seal_with_nonce(secret_key_ref(&key), nonce, check_bytes) {
        Err(e) => {
            return Err(VaultError::Crypto(e));
        },
        Ok(c) => c,
    };
    let salt_text = base64_encode(salt.as_slice());
    proof {
        lemma_base64_round_trip(salt@);
        assert(salt_text@ == base64_text(salt@));
        assert(encrypted_with(argon2id_key(passphrase@, salt@), n, check_plaintext(), check@));
        assert(base64_decoded(salt_text@) == Some(salt@));
        if salt@.len() == 16 {
            assert(setup_with(passphrase@, salt@, n, salt_text@, check@));
        }
    }
    Ok(VaultSetup { salt: salt_text, check })
}

/// First-boot setup: the passphrase and its confirmation must agree; a fresh
/// salt and nonce are drawn, the key derived, and the check plaintext
/// encrypted under it. Whatever salt and nonce were drawn, unlocking with the
/// stored values and the same passphrase gives back the derived key.
pub fn prepare_setup(passphrase: &str, confirm: &str) -> (res: Result<VaultSetup, VaultError>)
    ensures
        res is Ok ==> passphrase@ == confirm@ && encode_utf8(passphrase@).len() <= 0xFFFF_FFFF,
        passphrase@ != confirm@ ==> res == Err::<VaultSetup, VaultError>(
            VaultError::PassphrasesDiffer,
        ),
        res matches Err(e) ==> (passphrase@ == confirm@ ==> (e == VaultError::Crypto(
            CryptoError::Randomness,
        ) || (e == VaultError::Crypto(CryptoError::KeyDerivation) && encode_utf8(passphrase@).len()
            > 0xFFFF_FFFF))),
        res matches Ok(s) ==> stored_by_setup(passphrase@, s),
{
    let p = chars_of(passphrase);
    let c = chars_of(confirm);
    let n = p.len();
    assert(p@.subrange(0, n as int) =~= p@);
    if !range_equals(&p, 0, n, &c) {
        return Err(VaultError::PassphrasesDiffer);
    }
    assert(passphrase@ == confirm@);
    let salt = match new_salt() {
        Err(e) => {
            return Err(VaultError::Crypto(e));
        },
        Ok(s) => s,
    };
    let mut nonce = vec![0_u8; NONCE_LEN];
    if !fill_random(&mut nonce) {
        return Err(VaultError::Crypto(CryptoError::Randomness));
    }
    let ghost salt_bytes = salt@;
    let ghost nonce_bytes = nonce@;
    let res = setup_with_salt_and_nonce(passphrase, salt, nonce);
    proof {
        if res is Ok {
            let s = res->Ok_0;
            assert(setup_with(passphrase@, salt_bytes, nonce_bytes, s.salt@, s.check@));
            assert(stored_by_setup(passphrase@, s));
        }
    }
    res
}

} // verus!
