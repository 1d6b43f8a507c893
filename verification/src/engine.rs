//! A deterministic reference engine behind the engine binding interface:
//! context and key creation, encryption, decryption and homomorphic boolean
//! gates. The cipher is a keystream XOR, which keeps every operation's
//! behaviour fully stated in specifications; a production deployment swaps
//! in real FHE key material behind the same interface and contracts about
//! widths, shapes and failure classification.

use vstd::prelude::*;

verus! {

use crate::envelope::{EncryptedType, EnvelopeModel, FheEncrypted};
use crate::errors::EngineError;

/// Parameter set a context is created with: the keystream length in bytes
/// (also the byte length of every key handle) and the seed that key
/// generation expands.
#[derive(Clone, Copy, PartialEq, Eq, Structural, Debug)]
pub struct ParamSet {
    pub key_len: usize,
    pub seed: u64,
}

/// One byte of the keystream that a seed expands to.
pub open spec fn key_byte(seed: u64, i: int) -> u8 {
    (((seed as int % 251) + 37 * (i % 256)) % 256) as u8
}

/// The keystream of a parameter set: what `keygen_secret` produces.
pub open spec fn keystream(seed: u64, len: nat) -> Seq<u8> {
    Seq::new(len, |i: int| key_byte(seed, i))
}

/// A byte string XORed against a non-empty key, the key repeated cyclically.
pub open spec fn xor_stream(p: Seq<u8>, k: Seq<u8>) -> Seq<u8>
    recommends
        k.len() > 0,
{
    Seq::new(p.len(), |i: int| p[i] ^ k[i % k.len() as int])
}

/// The engine's ciphertext for plaintext bytes `p` under key `k` at width `w`.
pub open spec fn spec_encrypt(p: Seq<u8>, k: Seq<u8>, w: EncryptedType) -> EnvelopeModel {
    EnvelopeModel { data: xor_stream(p, k), width: w }
}

/// The plaintext bytes the engine decodes from envelope `c` under key `k`.
pub open spec fn spec_decrypt(c: EnvelopeModel, k: Seq<u8>) -> Seq<u8> {
    xor_stream(c.data, k)
}

/// A plaintext is nil when every byte of it is zero.
pub open spec fn is_zero_bytes(p: Seq<u8>) -> bool {
    forall|i: int| 0 <= i < p.len() ==> p[i] == 0
}

/// An envelope is a boolean ciphertext under `k`: a single `Uint8` lane
/// whose plaintext byte is zero or one.
pub open spec fn is_bit_cipher(c: EnvelopeModel, k: Seq<u8>) -> bool {
    &&& c.width == EncryptedType::Uint8
    &&& c.data.len() == 1
    &&& spec_decrypt(c, k)[0] <= 1
}

/// The boolean a bit ciphertext encrypts under `k`.
pub open spec fn bit_of(c: EnvelopeModel, k: Seq<u8>) -> bool {
    spec_decrypt(c, k)[0] == 1
}

proof fn lemma_xor_cancel(x: u8, y: u8)
    ensures
        (x ^ y) ^ y == x,
{
    assert((x ^ y) ^ y == x) by (bit_vector);
}

/// XORing with the same keystream twice is the identity.
pub proof fn lemma_xor_stream_involution(p: Seq<u8>, k: Seq<u8>)
    requires
        k.len() > 0,
    ensures
        xor_stream(xor_stream(p, k), k) == p,
{
    let q = xor_stream(xor_stream(p, k), k);
    assert forall|i: int| 0 <= i < p.len() implies q[i] == p[i] by {
        lemma_xor_cancel(p[i], k[i % k.len() as int]);
    }
    assert(q =~= p);
}

/// Round-trip law: decrypting an encryption, under the key that made it,
/// yields the plaintext back, for every plaintext and every width.
pub proof fn lemma_encrypt_decrypt_roundtrip(p: Seq<u8>, k: Seq<u8>, w: EncryptedType)
    requires
        k.len() > 0,
    ensures
        spec_decrypt(spec_encrypt(p, k, w), k) == p,
{
    lemma_xor_stream_involution(p, k);
}

/// Re-encryption preserves the plaintext: decrypting under key `a`, then
/// encrypting under key `b`, carries the plaintext of an encryption under
/// `a` to an encryption under `b`.
pub proof fn lemma_reencrypt_preserves_plaintext(
    p: Seq<u8>,
    a: Seq<u8>,
    b: Seq<u8>,
    w: EncryptedType,
)
    requires
        a.len() > 0,
        b.len() > 0,
    ensures
        spec_decrypt(
            spec_encrypt(spec_decrypt(spec_encrypt(p, a, w), a), b, w),
            b,
        ) == p,
{
    lemma_encrypt_decrypt_roundtrip(p, a, w);
    lemma_encrypt_decrypt_roundtrip(p, b, w);
}

/// Nil assertion law: an encryption is recognised as nil exactly when the
/// plaintext it encrypts is all zero.
pub proof fn lemma_is_nil_correct(p: Seq<u8>, k: Seq<u8>, w: EncryptedType)
    requires
        k.len() > 0,
    ensures
        is_zero_bytes(spec_decrypt(spec_encrypt(p, k, w), k)) == is_zero_bytes(p),
{
    lemma_encrypt_decrypt_roundtrip(p, k, w);
}

/// Process-lifetime cryptographic context, created once from a parameter set.
pub struct FheContext {
    params: ParamSet,
}

impl FheContext {
    pub closed spec fn params(&self) -> ParamSet {
        self.params
    }

    /// A context is well formed when its keystream is non-empty.
    pub open spec fn wf(&self) -> bool {
        self.params().key_len > 0
    }

    pub fn key_len(&self) -> (r: usize)
        ensures
            r == self.params().key_len,
    {
        self.params.key_len
    }
}

/// Creates the cryptographic context of a parameter set. Fails exactly on an
/// empty keystream length.
pub fn create_context(params: ParamSet) -> (r: Result<FheContext, EngineError>)
    ensures
        params.key_len > 0 ==> (r matches Ok(c) && c.params() == params && c.wf()),
        params.key_len == 0 ==> r == Err::<FheContext, EngineError>(EngineError::KeyMismatch),
{
    if params.key_len == 0 {
        Err(EngineError::KeyMismatch)
    } else {
        Ok(FheContext { params })
    }
}

/// The keystream of the context's parameter set, as a byte vector.
fn expand_key(seed: u64, len: usize) -> (r: Vec<u8>)
    ensures
        r@ == keystream(seed, len as nat),
{
    let mut r: Vec<u8> = Vec::new();
    let mut i: usize = 0;
    while i < len
        invariant
            i <= len,
            r@ == keystream(seed, len as nat).subrange(0, i as int),
        decreases len - i,
    {
        let m: u64 = ((seed % 251) + 37 * ((i as u64) % 256)) % 256;
        r.push(m as u8);
        proof {
            assert(m as u8 == key_byte(seed, i as int));
            assert(r@ =~= keystream(seed, len as nat).subrange(0, i + 1));
        }
        i += 1;
    }
    proof {
        assert(r@ =~= keystream(seed, len as nat));
    }
    r
}

/// Secret key handle: the service-scoped decryption capability. Its bytes
/// never leave the engine module except through the spec-level view.
pub struct SecretKey {
    key: Vec<u8>,
}

impl SecretKey {
    pub closed spec fn bytes(&self) -> Seq<u8> {
        self.key@
    }

    pub open spec fn wf(&self) -> bool {
        self.bytes().len() > 0
    }
}

/// Public key handle. In this engine the public key mirrors the keystream;
/// a caller-supplied public key is carried as raw bytes.
pub struct PublicKey {
    key: Vec<u8>,
}

impl PublicKey {
    pub closed spec fn bytes(&self) -> Seq<u8> {
        self.key@
    }

    pub open spec fn wf(&self) -> bool {
        self.bytes().len() > 0
    }

    /// The raw bytes of this public key, as they travel hex-encoded in
    /// re-encryption requests.
    pub fn to_bytes(&self) -> (r: Vec<u8>)
        ensures
            r@ == self.bytes(),
    {
        self.key.clone()
    }

    /// An ephemeral public-key object built from raw bytes, as the key
    /// resolver hands them over. Fails exactly on empty key material.
    pub fn from_raw_bytes(bytes: Vec<u8>) -> (r: Result<PublicKey, EngineError>)
        ensures
            bytes@.len() > 0 ==> (r matches Ok(pk) && pk.bytes() == bytes@ && pk.wf()),
            bytes@.len() == 0 ==> r == Err::<PublicKey, EngineError>(EngineError::KeyMismatch),
    {
        if bytes.len() == 0 {
            Err(EngineError::KeyMismatch)
        } else {
            Ok(PublicKey { key: bytes })
        }
    }
}

/// Bootstrap key handle, used by the evaluator for gate evaluation.
pub struct BootstrapKey {
    key: Vec<u8>,
}

impl BootstrapKey {
    pub closed spec fn bytes(&self) -> Seq<u8> {
        self.key@
    }

    pub open spec fn wf(&self) -> bool {
        self.bytes().len() > 0
    }
}

/// Generates the context's secret key.
pub fn keygen_secret(ctx: &FheContext) -> (r: Result<SecretKey, EngineError>)
    requires
        ctx.wf(),
    ensures
        (r matches Ok(sk) && sk.bytes() == keystream(ctx.params().seed, ctx.params().key_len as nat)
            && sk.wf()),
{
    Ok(SecretKey { key: expand_key(ctx.params.seed, ctx.params.key_len) })
}

/// Derives the public key of a secret key.
pub fn keygen_public(ctx: &FheContext, sk: &SecretKey) -> (r: Result<PublicKey, EngineError>)
    requires
        sk.wf(),
    ensures
        (r matches Ok(pk) && pk.bytes() == sk.bytes() && pk.wf()),
{
    let _ = ctx;
    Ok(PublicKey { key: sk.key.clone() })
}

/// Derives the bootstrap key of a secret key.
pub fn keygen_bootstrap(ctx: &FheContext, sk: &SecretKey) -> (r: Result<BootstrapKey, EngineError>)
    requires
        sk.wf(),
    ensures
        (r matches Ok(bk) && bk.bytes() == sk.bytes() && bk.wf()),
{
    let _ = ctx;
    Ok(BootstrapKey { key: sk.key.clone() })
}

/// Encryption capability under one key.
pub struct Encryptor {
    key: Vec<u8>,
}

/// Decryption capability under one secret key.
pub struct Decryptor {
    key: Vec<u8>,
}

/// Gate-evaluation capability under one key pair.
pub struct Evaluator {
    key: Vec<u8>,
}

/// The plaintext bytes of `p` XORed against key `k`.
fn xor_bytes(p: &[u8], k: &[u8]) -> (r: Vec<u8>)
    requires
        k@.len() > 0,
    ensures
        r@ == xor_stream(p@, k@),
{
    let n: usize = p.len();
    let kn: usize = k.len();
    let mut r: Vec<u8> = Vec::new();
    let mut i: usize = 0;
    while i < n
        invariant
            i <= n,
            n == p@.len(),
            kn == k@.len(),
            kn > 0,
            r@ == xor_stream(p@, k@).subrange(0, i as int),
        decreases n - i,
    {
        r.push(p[i] ^ k[i % kn]);
        proof {
            assert(r@ =~= xor_stream(p@, k@).subrange(0, i + 1));
        }
        i += 1;
    }
    proof {
        assert(r@ =~= xor_stream(p@, k@));
    }
    r
}

/// Creates an encryptor from the secret key.
pub fn encryptor(ctx: &FheContext, sk: &SecretKey) -> (r: Result<Encryptor, EngineError>)
    requires
        sk.wf(),
    ensures
        (r matches Ok(e) && e.key_bytes() == sk.bytes() && e.wf()),
{
    let _ = ctx;
    Ok(Encryptor { key: sk.key.clone() })
}

/// Creates an encryptor from a public key.
pub fn public_encryptor(ctx: &FheContext, pk: &PublicKey) -> (r: Result<Encryptor, EngineError>)
    requires
        pk.wf(),
    ensures
        (r matches Ok(e) && e.key_bytes() == pk.bytes() && e.wf()),
{
    let _ = ctx;
    Ok(Encryptor { key: pk.key.clone() })
}

/// Creates a decryptor from the secret key.
pub fn decryptor(ctx: &FheContext, sk: &SecretKey) -> (r: Result<Decryptor, EngineError>)
    requires
        sk.wf(),
    ensures
        (r matches Ok(d) && d.key_bytes() == sk.bytes() && d.wf()),
{
    let _ = ctx;
    Ok(Decryptor { key: sk.key.clone() })
}

/// Creates an evaluator from the bootstrap and secret key.
pub fn evaluator(ctx: &FheContext, bk: &BootstrapKey, sk: &SecretKey) -> (r: Result<
    Evaluator,
    EngineError,
>)
    requires
        sk.wf(),
    ensures
        (r matches Ok(e) && e.key_bytes() == sk.bytes() && e.wf()),
{
    let _ = ctx;
    let _ = bk;
    Ok(Evaluator { key: sk.key.clone() })
}

impl Encryptor {
    pub closed spec fn key_bytes(&self) -> Seq<u8> {
        self.key@
    }

    pub open spec fn wf(&self) -> bool {
        self.key_bytes().len() > 0
    }

    /// Encrypts plaintext bytes at the given width. Fails exactly when the
    /// plaintext length does not fit the width.
    pub fn encrypt(&self, plaintext: &Vec<u8>, width: EncryptedType) -> (r: Result<
        FheEncrypted,
        EngineError,
    >)
        requires
            self.wf(),
        ensures
            plaintext@.len() == width.spec_byte_len() ==> (r matches Ok(c) && c@ == spec_encrypt(
                plaintext@,
                self.key_bytes(),
                width,
            )),
            plaintext@.len() != width.spec_byte_len() ==> r == Err::<FheEncrypted, EngineError>(
                EngineError::CiphertextMismatch,
            ),
    {
        if plaintext.len() != width.byte_len() {
            return Err(EngineError::CiphertextMismatch);
        }
        let data = xor_bytes(plaintext.as_slice(), self.key.as_slice());
        Ok(FheEncrypted { data, width })
    }

    /// Encrypts one boolean as a single `Uint8` lane.
    pub fn encrypt_bool(&self, b: bool) -> (r: Result<FheEncrypted, EngineError>)
        requires
            self.wf(),
        ensures
            (r matches Ok(c) && c@ == spec_encrypt(
                seq![if b { 1u8 } else { 0u8 }],
                self.key_bytes(),
                EncryptedType::Uint8,
            ) && is_bit_cipher(c@, self.key_bytes()) && bit_of(c@, self.key_bytes()) == b),
    {
        let mut p: Vec<u8> = Vec::new();
        p.push(if b { 1 } else { 0 });
        proof {
            assert(p@ =~= seq![if b { 1u8 } else { 0u8 }]);
        }
        let r = self.encrypt(&p, EncryptedType::Uint8);
        proof {
            lemma_encrypt_decrypt_roundtrip(p@, self.key_bytes(), EncryptedType::Uint8);
        }
        r
    }
}

impl Decryptor {
    pub closed spec fn key_bytes(&self) -> Seq<u8> {
        self.key@
    }

    pub open spec fn wf(&self) -> bool {
        self.key_bytes().len() > 0
    }

    /// Decrypts an envelope to plaintext bytes. Fails exactly when the
    /// payload length does not fit the declared width.
    pub fn decrypt(&self, c: &FheEncrypted) -> (r: Result<Vec<u8>, EngineError>)
        requires
            self.wf(),
        ensures
            c@.well_sized() ==> (r matches Ok(p) && p@ == spec_decrypt(c@, self.key_bytes())),
            !c@.well_sized() ==> r == Err::<Vec<u8>, EngineError>(EngineError::CiphertextMismatch),
    {
        if c.data.len() != c.width.byte_len() {
            return Err(EngineError::CiphertextMismatch);
        }
        Ok(xor_bytes(c.data.as_slice(), self.key.as_slice()))
    }

    /// Decrypts a boolean ciphertext. Fails exactly when the envelope is no
    /// bit ciphertext under this key.
    pub fn decrypt_bool(&self, c: &FheEncrypted) -> (r: Result<bool, EngineError>)
        requires
            self.wf(),
        ensures
            is_bit_cipher(c@, self.key_bytes()) ==> (r matches Ok(b) && b == bit_of(
                c@,
                self.key_bytes(),
            )),
            !is_bit_cipher(c@, self.key_bytes()) ==> r == Err::<bool, EngineError>(
                EngineError::CiphertextMismatch,
            ),
    {
        if !matches!(c.width, EncryptedType::Uint8) || c.data.len() != 1 {
            return Err(EngineError::CiphertextMismatch);
        }
        let p = xor_bytes(c.data.as_slice(), self.key.as_slice());
        let byte = p[0];
        if byte > 1 {
            return Err(EngineError::CiphertextMismatch);
        }
        Ok(byte == 1)
    }
}

impl Evaluator {
    pub closed spec fn key_bytes(&self) -> Seq<u8> {
        self.key@
    }

    pub open spec fn wf(&self) -> bool {
        self.key_bytes().len() > 0
    }

    /// The plaintext bit of a bit ciphertext, or the mismatch failure.
    fn read_bit(&self, c: &FheEncrypted) -> (r: Result<bool, EngineError>)
        requires
            self.wf(),
        ensures
            is_bit_cipher(c@, self.key_bytes()) ==> (r matches Ok(b) && b == bit_of(
                c@,
                self.key_bytes(),
            )),
            !is_bit_cipher(c@, self.key_bytes()) ==> r == Err::<bool, EngineError>(
                EngineError::CiphertextMismatch,
            ),
    {
        if !matches!(c.width, EncryptedType::Uint8) || c.data.len() != 1 {
            return Err(EngineError::CiphertextMismatch);
        }
        let p = xor_bytes(c.data.as_slice(), self.key.as_slice());
        let byte = p[0];
        if byte > 1 {
            return Err(EngineError::CiphertextMismatch);
        }
        Ok(byte == 1)
    }

    /// A fresh bit ciphertext of the boolean `b`.
    fn write_bit(&self, b: bool) -> (r: FheEncrypted)
        requires
            self.wf(),
        ensures
            is_bit_cipher(r@, self.key_bytes()),
            bit_of(r@, self.key_bytes()) == b,
    {
        let mut p: Vec<u8> = Vec::new();
        p.push(if b { 1 } else { 0 });
        let data = xor_bytes(p.as_slice(), self.key.as_slice());
        proof {
            lemma_xor_stream_involution(p@, self.key_bytes());
        }
        FheEncrypted { data, width: EncryptedType::Uint8 }
    }

    /// Homomorphic AND of two bit ciphertexts. Fails exactly when one
    /// operand is no bit ciphertext under this key.
    pub fn and(&self, a: &FheEncrypted, b: &FheEncrypted) -> (r: Result<FheEncrypted, EngineError>)
        requires
            self.wf(),
        ensures
            is_bit_cipher(a@, self.key_bytes()) && is_bit_cipher(b@, self.key_bytes())
                ==> (r matches Ok(c) && is_bit_cipher(c@, self.key_bytes()) && bit_of(
                c@,
                self.key_bytes(),
            ) == (bit_of(a@, self.key_bytes()) && bit_of(b@, self.key_bytes()))),
            !(is_bit_cipher(a@, self.key_bytes()) && is_bit_cipher(b@, self.key_bytes()))
                ==> r is Err,
    {
        let x = self.read_bit(a)?;
        let y = self.read_bit(b)?;
        Ok(self.write_bit(x && y))
    }

    /// Homomorphic OR of two bit ciphertexts.
    pub fn or(&self, a: &FheEncrypted, b: &FheEncrypted) -> (r: Result<FheEncrypted, EngineError>)
        requires
            self.wf(),
        ensures
            is_bit_cipher(a@, self.key_bytes()) && is_bit_cipher(b@, self.key_bytes())
                ==> (r matches Ok(c) && is_bit_cipher(c@, self.key_bytes()) && bit_of(
                c@,
                self.key_bytes(),
            ) == (bit_of(a@, self.key_bytes()) || bit_of(b@, self.key_bytes()))),
            !(is_bit_cipher(a@, self.key_bytes()) && is_bit_cipher(b@, self.key_bytes()))
                ==> r is Err,
    {
        let x = self.read_bit(a)?;
        let y = self.read_bit(b)?;
        Ok(self.write_bit(x || y))
    }

    /// Homomorphic XOR of two bit ciphertexts.
    pub fn xor(&self, a: &FheEncrypted, b: &FheEncrypted) -> (r: Result<FheEncrypted, EngineError>)
        requires
            self.wf(),
        ensures
            is_bit_cipher(a@, self.key_bytes()) && is_bit_cipher(b@, self.key_bytes())
                ==> (r matches Ok(c) && is_bit_cipher(c@, self.key_bytes()) && bit_of(
                c@,
                self.key_bytes(),
            ) == (bit_of(a@, self.key_bytes()) != bit_of(b@, self.key_bytes()))),
            !(is_bit_cipher(a@, self.key_bytes()) && is_bit_cipher(b@, self.key_bytes()))
                ==> r is Err,
    {
        let x = self.read_bit(a)?;
        let y = self.read_bit(b)?;
        Ok(self.write_bit(x != y))
    }

    /// Homomorphic NOT of one bit ciphertext.
    pub fn not(&self, a: &FheEncrypted) -> (r: Result<FheEncrypted, EngineError>)
        requires
            self.wf(),
        ensures
            is_bit_cipher(a@, self.key_bytes()) ==> (r matches Ok(c) && is_bit_cipher(
                c@,
                self.key_bytes(),
            ) && bit_of(c@, self.key_bytes()) == !bit_of(a@, self.key_bytes())),
            !is_bit_cipher(a@, self.key_bytes()) ==> r is Err,
    {
        let x = self.read_bit(a)?;
        Ok(self.write_bit(!x))
    }

    /// Homomorphic NAND of two bit ciphertexts.
    pub fn nand(&self, a: &FheEncrypted, b: &FheEncrypted) -> (r: Result<
        FheEncrypted,
        EngineError,
    >)
        requires
            self.wf(),
        ensures
            is_bit_cipher(a@, self.key_bytes()) && is_bit_cipher(b@, self.key_bytes())
                ==> (r matches Ok(c) && is_bit_cipher(c@, self.key_bytes()) && bit_of(
                c@,
                self.key_bytes(),
            ) == !(bit_of(a@, self.key_bytes()) && bit_of(b@, self.key_bytes()))),
            !(is_bit_cipher(a@, self.key_bytes()) && is_bit_cipher(b@, self.key_bytes()))
                ==> r is Err,
    {
        let x = self.read_bit(a)?;
        let y = self.read_bit(b)?;
        Ok(self.write_bit(!(x && y)))
    }
}

} // verus!
