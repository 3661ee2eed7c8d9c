//! TLV Support
//!
//! An image is followed immediately by a list of TLV items that contain
//! integrity information about the image.  Their generation is made a little
//! complicated because the size of the protected part of the list is in the
//! image header, which is included in the hash.  So the size is computed
//! first, from the dependencies alone, and the list is built afterwards.
//!
//! The list has two blocks.  The protected block, present when the image
//! declares dependencies, is covered by the hash and the signature; the
//! block after it carries the hash, the signature and the wrapped
//! encryption key.

use crate::bytes::{le16, le32, push_all, push_le16, push_le32};
use crate::crypto::{
    aes128_ctr, aes128_ctr_stream, ecdh_p256_agreed, ecdh_p256_ephemeral, ecdsa_p256_sign,
    ecdsa_p256_signed, ed25519_sign, ed25519_signature, hkdf_sha256, hkdf_sha256_okm,
    hmac_sha256, hmac_sha256_tag, pem_decoded, pem_parse, random_bytes, rsa_modulus_len,
    rsa_pss_sign, rsa_pss_signed, sha256, sha256_digest, x25519_agreed, x25519_ephemeral,
};
use crate::image::ImageVersion;
use vstd::prelude::*;
use vstd::slice::slice_subrange;

verus! {

/// The kinds of item that a manifest can hold.
#[allow(non_camel_case_types)]
#[derive(Copy, Clone, Debug, PartialEq, Eq, Structural)]
pub enum TlvKinds {
    KEYHASH,
    SHA256,
    RSA2048,
    ECDSA224,
    ECDSA256,
    RSA3072,
    ED25519,
    ENCRSA2048,
    ENCKW128,
    ENCEC256,
    ENCX25519,
    DEPENDENCY,
}

impl TlvKinds {
    /// The number that marks an item of this kind.
    pub open spec fn code(self) -> u16 {
        match self {
            TlvKinds::KEYHASH => 0x01,
            TlvKinds::SHA256 => 0x10,
            TlvKinds::RSA2048 => 0x20,
            TlvKinds::ECDSA224 => 0x21,
            TlvKinds::ECDSA256 => 0x22,
            TlvKinds::RSA3072 => 0x23,
            TlvKinds::ED25519 => 0x24,
            TlvKinds::ENCRSA2048 => 0x30,
            TlvKinds::ENCKW128 => 0x31,
            TlvKinds::ENCEC256 => 0x32,
            TlvKinds::ENCX25519 => 0x33,
            TlvKinds::DEPENDENCY => 0x40,
        }
    }

    /// The number that marks an item of this kind.
    pub fn number(self) -> (n: u16)
        ensures
            n == self.code(),
    {
        match self {
            TlvKinds::KEYHASH => 0x01,
            TlvKinds::SHA256 => 0x10,
            TlvKinds::RSA2048 => 0x20,
            TlvKinds::ECDSA224 => 0x21,
            TlvKinds::ECDSA256 => 0x22,
            TlvKinds::RSA3072 => 0x23,
            TlvKinds::ED25519 => 0x24,
            TlvKinds::ENCRSA2048 => 0x30,
            TlvKinds::ENCKW128 => 0x31,
            TlvKinds::ENCEC256 => 0x32,
            TlvKinds::ENCX25519 => 0x33,
            TlvKinds::DEPENDENCY => 0x40,
        }
    }
}

/// The flags that an image header can carry.
#[allow(non_camel_case_types)]
#[derive(Copy, Clone, Debug, PartialEq, Eq, Structural)]
pub enum TlvFlags {
    PIC,
    NON_BOOTABLE,
    ENCRYPTED,
    RAM_LOAD,
}

impl TlvFlags {
    /// The bit of this flag in the header's flags.
    pub open spec fn bits(self) -> u32 {
        match self {
            TlvFlags::PIC => 0x01,
            TlvFlags::NON_BOOTABLE => 0x02,
            TlvFlags::ENCRYPTED => 0x04,
            TlvFlags::RAM_LOAD => 0x20,
        }
    }

    /// The bit of this flag in the header's flags.
    pub fn value(self) -> (v: u32)
        ensures
            v == self.bits(),
    {
        match self {
            TlvFlags::PIC => 0x01,
            TlvFlags::NON_BOOTABLE => 0x02,
            TlvFlags::ENCRYPTED => 0x04,
            TlvFlags::RAM_LOAD => 0x20,
        }
    }
}

/// The magic number of an image header whose manifest is a TLV list.
pub const IMAGE_MAGIC: u32 = 0x96f3b83d;

/// The length of the key that encrypts an image.
pub const AES_KEY_LEN: usize = 16;

/// The most dependencies a manifest can declare: with more, the size of the
/// protected block would not fit its 16-bit field.
pub const MAX_DEPENDENCIES: usize = 4095;

/// A dependency on another image: its number and the least version that is
/// acceptable.
#[derive(Copy, Clone, Debug, PartialEq, Eq, Structural)]
pub struct Dependency {
    pub id: u8,
    pub version: ImageVersion,
}

/// Why a manifest could not be made.
#[derive(Copy, Clone, Debug, PartialEq, Eq, Structural)]
pub enum TlvError {
    /// A key is not well-formed PEM.
    BadPem,
    /// A key's PEM block does not bear the tag of the kind of key needed.
    WrongKeyTag,
    /// A key is too short to hold what is needed of it.
    ShortKey,
    /// The key was rejected or the signature could not be made.
    SigningFailed,
    /// An RSA signature does not have the length of its kind.
    SignatureSize,
    /// The wrapped encryption key does not have the length of its kind.
    WrappedKeySize,
    /// The key agreement with the encryption key failed.
    AgreementFailed,
    /// The items do not fit the 16-bit length fields.
    TooLarge,
}

/// The keys that manifests are sealed with.
///
/// Private keys are PEM text; public keys are the bytes whose hash names the
/// key in the manifest. A key that the chosen kinds do not need may be left
/// empty.
pub struct KeyRing {
    /// The RSA-2048 signing key: PEM, tagged `RSA PRIVATE KEY`.
    pub rsa2048_private: Vec<u8>,
    pub rsa2048_public: Vec<u8>,
    /// The RSA-3072 signing key: PEM, tagged `RSA PRIVATE KEY`.
    pub rsa3072_private: Vec<u8>,
    pub rsa3072_public: Vec<u8>,
    /// The ECDSA P-256 signing key: PEM, tagged `PRIVATE KEY`, holding PKCS#8.
    pub ecdsa_private: Vec<u8>,
    pub ecdsa_public: Vec<u8>,
    /// The Ed25519 signing key: PEM, tagged `PRIVATE KEY`.
    pub ed25519_private: Vec<u8>,
    pub ed25519_public: Vec<u8>,
    /// The P-256 key that image keys are wrapped for: PEM, tagged `PUBLIC KEY`.
    pub enc_ec256_public: Vec<u8>,
    /// The X25519 key that image keys are wrapped for: PEM, tagged `PUBLIC KEY`.
    pub enc_x25519_public: Vec<u8>,
}

/// The item of kind `kind` that holds `data`: the kind and the length of the
/// data, two bytes each, then the data.
pub open spec fn tlv_entry(kind: TlvKinds, data: Seq<u8>) -> Seq<u8> {
    le16(kind.code()) + le16(data.len() as u16) + data
}

/// The item that declares the dependency `dep`.
pub open spec fn dependency_entry(dep: Dependency) -> Seq<u8> {
    le16(TlvKinds::DEPENDENCY.code()) + le16(12) + seq![dep.id, 0u8, 0u8, 0u8] + seq![
        dep.version.major,
        dep.version.minor,
    ] + le16(dep.version.revision) + le32(dep.version.build_num)
}

/// The items that declare the dependencies `deps`, in order.
pub open spec fn dependency_entries(deps: Seq<Dependency>) -> Seq<u8>
    decreases deps.len(),
{
    if deps.len() == 0 {
        Seq::empty()
    } else {
        dependency_entries(deps.drop_last()) + dependency_entry(deps.last())
    }
}

/// The size of the protected block for `count` dependencies: nothing for
/// none, else a header of four bytes and sixteen for each.
pub open spec fn protected_size(count: nat) -> nat {
    if count == 0 {
        0
    } else {
        4 + 16 * count
    }
}

/// The protected block for the dependencies `deps`: empty for none, else
/// its magic, its size and the dependencies.
pub open spec fn protected_tlv(deps: Seq<Dependency>) -> Seq<u8> {
    if deps.len() == 0 {
        Seq::empty()
    } else {
        seq![0x08u8, 0x69u8] + le16(protected_size(deps.len()) as u16) + dependency_entries(deps)
    }
}

/// The manifest made of the protected block `protected` and the items
/// `body`: the protected block, then the magic of the other block, its size
/// (its header of four bytes included), and the items.
pub open spec fn manifest_of(protected: Seq<u8>, body: Seq<u8>) -> Seq<u8> {
    protected + seq![0x07u8, 0x69u8] + le16((4 + body.len()) as u16) + body
}

/// `bytes` with the lowest bit of the first byte flipped.
pub open spec fn flipped(bytes: Seq<u8>) -> Seq<u8> {
    bytes.update(0, bytes[0] ^ 1)
}

/// `n` zero bytes.
pub open spec fn zero_bytes(n: nat) -> Seq<u8> {
    Seq::new(n, |i: int| 0u8)
}

/// The context that image keys are derived for.
pub open spec fn ecies_info() -> Seq<u8> {
    seq![
        0x4du8,
        0x43u8,
        0x55u8,
        0x42u8,
        0x6fu8,
        0x6fu8,
        0x74u8,
        0x5fu8,
        0x45u8,
        0x43u8,
        0x49u8,
        0x45u8,
        0x53u8,
        0x5fu8,
        0x76u8,
        0x31u8,
    ]
}

/// The image key `enc_key`, wrapped for a peer with whom the fresh key pair
/// with public half `public` shares `secret`: the public half, the tag of the
/// encrypted key, and the encrypted key. The encryption key and the tag's
/// key are derived from the secret.
pub open spec fn ecies_blob(public: Seq<u8>, secret: Seq<u8>, enc_key: Seq<u8>) -> Seq<u8> {
    let derived = hkdf_sha256_okm(secret, ecies_info()).unwrap();
    let cipherkey = aes128_ctr_stream(derived.subrange(0, 16), zero_bytes(16), enc_key).unwrap();
    public + hmac_sha256_tag(derived.subrange(16, 48), cipherkey) + cipherkey
}

/// `text` is not a PEM block that bears the tag `tag`.
pub open spec fn unusable(text: Seq<u8>, tag: Seq<char>) -> bool {
    match pem_decoded(text) {
        Some((found, _)) => found != tag,
        None => true,
    }
}

/// The parts of a manifest that chance decides.
pub struct Seals {
    /// The RSA signature.
    pub rsa: Seq<u8>,
    /// The ECDSA signature.
    pub ecdsa: Seq<u8>,
    /// The public half of the key pair made for wrapping the image key.
    pub ecies_public: Seq<u8>,
    /// The secret that key pair shares with the peer.
    pub ecies_secret: Seq<u8>,
}

/// What a manifest generator holds.
pub struct TlvState {
    /// The flags for the image header.
    pub flags: u32,
    /// The kinds of item to make.
    pub kinds: Seq<TlvKinds>,
    /// The bytes that the manifest protects.
    pub payload: Seq<u8>,
    /// The dependencies to declare.
    pub dependencies: Seq<Dependency>,
    /// The key that encrypts the image; empty until there is one.
    pub enc_key: Seq<u8>,
    /// That key as wrapped by whoever set it; empty if it was generated here.
    pub wrapped_key: Seq<u8>,
    /// Whether the manifest is to be made so that it does not verify.
    pub gen_corrupted: bool,
}

impl TlvState {
    /// The generator is to make an item of kind `kind`.
    pub open spec fn has(self, kind: TlvKinds) -> bool {
        self.kinds.contains(kind)
    }

    /// The generator is to sign.
    pub open spec fn signs(self) -> bool {
        self.has(TlvKinds::RSA2048) || self.has(TlvKinds::RSA3072) || self.has(TlvKinds::ECDSA224)
            || self.has(TlvKinds::ECDSA256) || self.has(TlvKinds::ED25519)
    }

    /// The generator needs no key from the key ring and draws nothing: it
    /// only hashes and copies.
    pub open spec fn keyless(self) -> bool {
        !self.has(TlvKinds::RSA2048) && !self.has(TlvKinds::RSA3072) && !self.has(
            TlvKinds::ECDSA256,
        ) && !self.has(TlvKinds::ED25519) && !self.has(TlvKinds::ENCEC256) && !self.has(
            TlvKinds::ENCX25519,
        )
    }

    /// The generator neither signs nor carries an image key: its manifest
    /// holds the protected block and at most a hash.
    pub open spec fn bare(self) -> bool {
        self.keyless() && !self.has(TlvKinds::ENCRSA2048) && !self.has(TlvKinds::ENCKW128)
    }

    /// The length of the manifest of a bare generator: the protected block,
    /// the header of the other block, and the hash of 32 bytes with its
    /// header if it has one.
    pub open spec fn bare_len(self) -> nat {
        protected_size(self.dependencies.len()) + 4 + (if self.has(TlvKinds::SHA256) {
            36nat
        } else {
            0nat
        })
    }

    /// A key that the generator needs is not well-formed PEM, or does not
    /// bear the tag of its kind.
    pub open spec fn lacks_key(self, keys: KeyRing) -> bool {
        ||| self.has(TlvKinds::RSA2048) && unusable(keys.rsa2048_private@, "RSA PRIVATE KEY"@)
        ||| !self.has(TlvKinds::RSA2048) && self.has(TlvKinds::RSA3072) && unusable(
            keys.rsa3072_private@,
            "RSA PRIVATE KEY"@,
        )
        ||| self.has(TlvKinds::ECDSA256) && unusable(keys.ecdsa_private@, "PRIVATE KEY"@)
        ||| self.has(TlvKinds::ED25519) && unusable(keys.ed25519_private@, "PRIVATE KEY"@)
        ||| self.has(TlvKinds::ENCEC256) && unusable(keys.enc_ec256_public@, "PUBLIC KEY"@)
        ||| !self.has(TlvKinds::ENCEC256) && self.has(TlvKinds::ENCX25519) && unusable(
            keys.enc_x25519_public@,
            "PUBLIC KEY"@,
        )
    }

    /// The generator holds what its kinds need of it.
    pub open spec fn ready(self) -> bool {
        &&& self.dependencies.len() <= MAX_DEPENDENCIES
        &&& self.gen_corrupted ==> self.message().len() > 0
        &&& self.has(TlvKinds::ENCRSA2048) ==> self.wrapped_key.len() == 256
        &&& self.has(TlvKinds::ENCKW128) ==> self.wrapped_key.len() == 24
        &&& self.has(TlvKinds::ENCEC256) || self.has(TlvKinds::ENCX25519) ==> self.enc_key.len()
            == AES_KEY_LEN
    }

    /// What the manifest protects: the payload and the protected block.
    pub open spec fn message(self) -> Seq<u8> {
        self.payload + protected_tlv(self.dependencies)
    }

    /// What is hashed: the message; with its first bit flipped where the
    /// manifest is to be corrupt and carries no signature. (Where it carries
    /// one, the hash is left to pass so that the signature is what fails.)
    pub open spec fn hashed_message(self) -> Seq<u8> {
        if self.gen_corrupted && !self.signs() {
            flipped(self.message())
        } else {
            self.message()
        }
    }

    /// What is signed: the message; with its first bit flipped where the
    /// manifest is to be corrupt.
    pub open spec fn signed_message(self) -> Seq<u8> {
        if self.gen_corrupted {
            flipped(self.message())
        } else {
            self.message()
        }
    }

    /// The item with the hash.
    pub open spec fn hash_part(self) -> Seq<u8> {
        if self.has(TlvKinds::SHA256) {
            tlv_entry(TlvKinds::SHA256, sha256_digest(self.hashed_message()))
        } else {
            Seq::empty()
        }
    }

    /// The items of an RSA signature `signature`: the hash of the public key
    /// and the signature.
    pub open spec fn rsa_part(self, keys: KeyRing, signature: Seq<u8>) -> Seq<u8> {
        if self.has(TlvKinds::RSA2048) {
            tlv_entry(TlvKinds::KEYHASH, sha256_digest(keys.rsa2048_public@)) + tlv_entry(
                TlvKinds::RSA2048,
                signature,
            )
        } else if self.has(TlvKinds::RSA3072) {
            tlv_entry(TlvKinds::KEYHASH, sha256_digest(keys.rsa3072_public@)) + tlv_entry(
                TlvKinds::RSA3072,
                signature,
            )
        } else {
            Seq::empty()
        }
    }

    /// The items of an ECDSA signature `signature`.
    pub open spec fn ecdsa_part(self, keys: KeyRing, signature: Seq<u8>) -> Seq<u8> {
        if self.has(TlvKinds::ECDSA256) {
            tlv_entry(TlvKinds::KEYHASH, sha256_digest(keys.ecdsa_public@)) + tlv_entry(
                TlvKinds::ECDSA256,
                signature,
            )
        } else {
            Seq::empty()
        }
    }

    /// The Ed25519 signature: that of the hash of what is signed, by the key
    /// whose seed lies at bytes 16 to 48 of the private key's contents and
    /// whose public half lies at bytes 12 to 44 of the public key.
    pub open spec fn ed25519_seal(self, keys: KeyRing) -> Option<Seq<u8>> {
        ed25519_signature(
            pem_decoded(keys.ed25519_private@).unwrap().1.subrange(16, 48),
            keys.ed25519_public@.subrange(12, 44),
            sha256_digest(self.signed_message()),
        )
    }

    /// The items of the Ed25519 signature.
    pub open spec fn ed25519_part(self, keys: KeyRing) -> Seq<u8> {
        if self.has(TlvKinds::ED25519) {
            tlv_entry(TlvKinds::KEYHASH, sha256_digest(keys.ed25519_public@)) + tlv_entry(
                TlvKinds::ED25519,
                self.ed25519_seal(keys).unwrap(),
            )
        } else {
            Seq::empty()
        }
    }

    /// The items with the image key as it was wrapped outside.
    pub open spec fn wrapped_part(self) -> Seq<u8> {
        (if self.has(TlvKinds::ENCRSA2048) {
            tlv_entry(TlvKinds::ENCRSA2048, self.wrapped_key)
        } else {
            Seq::empty()
        }) + (if self.has(TlvKinds::ENCKW128) {
            tlv_entry(TlvKinds::ENCKW128, self.wrapped_key)
        } else {
            Seq::empty()
        })
    }

    /// The item with the image key wrapped by key agreement.
    pub open spec fn ecies_part(self, public: Seq<u8>, secret: Seq<u8>) -> Seq<u8> {
        if self.has(TlvKinds::ENCEC256) {
            tlv_entry(TlvKinds::ENCEC256, ecies_blob(public, secret, self.enc_key))
        } else if self.has(TlvKinds::ENCX25519) {
            tlv_entry(TlvKinds::ENCX25519, ecies_blob(public, secret, self.enc_key))
        } else {
            Seq::empty()
        }
    }

    /// The items after the protected block, in their order.
    pub open spec fn body(self, keys: KeyRing, seals: Seals) -> Seq<u8> {
        self.hash_part() + self.rsa_part(keys, seals.rsa) + self.ecdsa_part(keys, seals.ecdsa)
            + self.ed25519_part(keys) + self.wrapped_part() + self.ecies_part(
            seals.ecies_public,
            seals.ecies_secret,
        )
    }

    /// The seals have the lengths that the kinds prescribe.
    pub open spec fn sealed_by(self, seals: Seals) -> bool {
        &&& self.has(TlvKinds::RSA2048) ==> seals.rsa.len() == 256
        &&& !self.has(TlvKinds::RSA2048) && self.has(TlvKinds::RSA3072) ==> seals.rsa.len() == 384
        &&& self.has(TlvKinds::ECDSA256) ==> seals.ecdsa.len() <= u16::MAX
        &&& self.has(TlvKinds::ENCEC256) ==> ecies_blob(
            seals.ecies_public,
            seals.ecies_secret,
            self.enc_key,
        ).len() == 113
        &&& !self.has(TlvKinds::ENCEC256) && self.has(TlvKinds::ENCX25519) ==> ecies_blob(
            seals.ecies_public,
            seals.ecies_secret,
            self.enc_key,
        ).len() == 80
    }

    /// The manifest with the seals `seals`.
    pub open spec fn manifest(self, keys: KeyRing, seals: Seals) -> Seq<u8> {
        manifest_of(protected_tlv(self.dependencies), self.body(keys, seals))
    }
}

/// The contents of the PEM block in `text`, which must bear the tag `tag`;
/// else what is wrong with `text`.
pub open spec fn key_contents(text: Seq<u8>, tag: Seq<char>) -> Result<Seq<u8>, TlvError> {
    match pem_decoded(text) {
        Some((found, contents)) => if found == tag {
            Ok(contents)
        } else {
            Err(TlvError::WrongKeyTag)
        },
        None => Err(TlvError::BadPem),
    }
}

/// What the calls gave whose results chance decides: the RSA signature, the
/// ECDSA signature, and the public half of the key pair made for wrapping
/// the image key with the secret it shares with the peer; each only if the
/// call was made and gave something.
pub struct Drawn {
    pub rsa: Option<Seq<u8>>,
    pub ecdsa: Option<Seq<u8>>,
    pub agreed: Option<(Seq<u8>, Seq<u8>)>,
}

/// The bytes of `given`, if there are any.
pub open spec fn drawn_bytes(given: Option<Vec<u8>>) -> Option<Seq<u8>> {
    match given {
        Some(bytes) => Some(bytes@),
        None => None,
    }
}

/// The public key and the secret of `given`, if there are any.
pub open spec fn drawn_pair(given: Option<(Vec<u8>, Vec<u8>)>) -> Option<(Seq<u8>, Seq<u8>)> {
    match given {
        Some((public, secret)) => Some((public@, secret@)),
        None => None,
    }
}

/// The bytes that were made, or why none were.
pub open spec fn made_bytes(made: Result<Vec<u8>, TlvError>) -> Result<Seq<u8>, TlvError> {
    match made {
        Ok(bytes) => Ok(bytes@),
        Err(e) => Err(e),
    }
}

impl Drawn {
    /// The seals that these results make, with nothing in the place of a
    /// result that is not there.
    pub open spec fn seals(self) -> Seals {
        Seals {
            rsa: match self.rsa {
                Some(signature) => signature,
                None => Seq::empty(),
            },
            ecdsa: match self.ecdsa {
                Some(signature) => signature,
                None => Seq::empty(),
            },
            ecies_public: match self.agreed {
                Some(shared) => shared.0,
                None => Seq::empty(),
            },
            ecies_secret: match self.agreed {
                Some(shared) => shared.1,
                None => Seq::empty(),
            },
        }
    }
}

impl TlvState {
    /// The generator signs with RSA.
    pub open spec fn signs_rsa(self) -> bool {
        self.has(TlvKinds::RSA2048) || self.has(TlvKinds::RSA3072)
    }

    /// The generator wraps the image key by key agreement.
    pub open spec fn agrees(self) -> bool {
        self.has(TlvKinds::ENCEC256) || self.has(TlvKinds::ENCX25519)
    }

    /// The RSA key that the generator signs with, as PEM.
    pub open spec fn rsa_private(self, keys: KeyRing) -> Seq<u8> {
        if self.has(TlvKinds::RSA2048) {
            keys.rsa2048_private@
        } else {
            keys.rsa3072_private@
        }
    }

    /// The length of the RSA signature of the generator's kind.
    pub open spec fn rsa_len(self) -> nat {
        if self.has(TlvKinds::RSA2048) {
            256
        } else {
            384
        }
    }

    /// The public key of the peer that the image key is wrapped for, as
    /// PEM.
    pub open spec fn peer_public(self, keys: KeyRing) -> Seq<u8> {
        if self.has(TlvKinds::ENCEC256) {
            keys.enc_ec256_public@
        } else {
            keys.enc_x25519_public@
        }
    }

    /// The number of bytes before the peer's key in the contents of its
    /// PEM block.
    pub open spec fn peer_skip(self) -> nat {
        if self.has(TlvKinds::ENCEC256) {
            26
        } else {
            12
        }
    }

    /// The length of the wrapped image key of the generator's kind.
    pub open spec fn blob_len(self) -> nat {
        if self.has(TlvKinds::ENCEC256) {
            113
        } else {
            80
        }
    }

    /// The items of the RSA signature where signing gave `given`, or why
    /// there are none: the key is not a PEM block or bears the wrong tag,
    /// signing gave nothing, or the signature has not the length of its
    /// kind. A generator that does not sign with RSA has no such items.
    pub open spec fn rsa_stage(self, keys: KeyRing, given: Option<Seq<u8>>) -> Result<
        Seq<u8>,
        TlvError,
    > {
        if !self.signs_rsa() {
            Ok(Seq::empty())
        } else {
            match key_contents(self.rsa_private(keys), "RSA PRIVATE KEY"@) {
                Err(e) => Err(e),
                Ok(_) => match given {
                    None => Err(TlvError::SigningFailed),
                    Some(signature) => if signature.len() != self.rsa_len() {
                        Err(TlvError::SignatureSize)
                    } else {
                        Ok(self.rsa_part(keys, signature))
                    },
                },
            }
        }
    }

    /// The items of the ECDSA signature where signing gave `given`, or why
    /// there are none.
    pub open spec fn ecdsa_stage(self, keys: KeyRing, given: Option<Seq<u8>>) -> Result<
        Seq<u8>,
        TlvError,
    > {
        if !self.has(TlvKinds::ECDSA256) {
            Ok(Seq::empty())
        } else {
            match key_contents(keys.ecdsa_private@, "PRIVATE KEY"@) {
                Err(e) => Err(e),
                Ok(_) => match given {
                    None => Err(TlvError::SigningFailed),
                    Some(signature) => if signature.len() > 1024 {
                        Err(TlvError::SignatureSize)
                    } else {
                        Ok(self.ecdsa_part(keys, signature))
                    },
                },
            }
        }
    }

    /// The items of the Ed25519 signature, or why there are none: the key
    /// is not a PEM block or bears the wrong tag, the private or the public
    /// key is too short to hold the seed or the point, or the two do not
    /// make a key pair.
    pub open spec fn ed25519_stage(self, keys: KeyRing) -> Result<Seq<u8>, TlvError> {
        if !self.has(TlvKinds::ED25519) {
            Ok(Seq::empty())
        } else {
            match key_contents(keys.ed25519_private@, "PRIVATE KEY"@) {
                Err(e) => Err(e),
                Ok(contents) => if contents.len() < 48 || keys.ed25519_public@.len() < 44 {
                    Err(TlvError::ShortKey)
                } else {
                    match self.ed25519_seal(keys) {
                        None => Err(TlvError::SigningFailed),
                        Some(_) => Ok(self.ed25519_part(keys)),
                    }
                },
            }
        }
    }

    /// The item with the image key wrapped by key agreement where the
    /// agreement gave `given`, or why there is none: the peer's key is not a
    /// PEM block, bears the wrong tag or is too short, the agreement or the
    /// derivation of the keys gave nothing, or the wrapped key has not the
    /// length of its kind.
    pub open spec fn ecies_stage(self, keys: KeyRing, given: Option<(Seq<u8>, Seq<u8>)>) -> Result<
        Seq<u8>,
        TlvError,
    > {
        if !self.agrees() {
            Ok(Seq::empty())
        } else {
            match key_contents(self.peer_public(keys), "PUBLIC KEY"@) {
                Err(e) => Err(e),
                Ok(contents) => if contents.len() < self.peer_skip() {
                    Err(TlvError::ShortKey)
                } else {
                    match given {
                        None => Err(TlvError::AgreementFailed),
                        Some((public, secret)) => match hkdf_sha256_okm(secret, ecies_info()) {
                            None => Err(TlvError::AgreementFailed),
                            Some(derived) => if aes128_ctr_stream(
                                derived.subrange(0, 16),
                                zero_bytes(16),
                                self.enc_key,
                            ) is None {
                                Err(TlvError::AgreementFailed)
                            } else if ecies_blob(public, secret, self.enc_key).len()
                                != self.blob_len() {
                                Err(TlvError::WrappedKeySize)
                            } else {
                                Ok(self.ecies_part(public, secret))
                            },
                        },
                    }
                },
            }
        }
    }

    /// The manifest where the calls that chance decides gave `drawn`, or
    /// the first reason why there is none, in the order of the items: RSA,
    /// ECDSA, Ed25519, key agreement.
    pub open spec fn sealed(self, keys: KeyRing, drawn: Drawn) -> Result<Seq<u8>, TlvError> {
        match self.rsa_stage(keys, drawn.rsa) {
            Err(e) => Err(e),
            Ok(_) => match self.ecdsa_stage(keys, drawn.ecdsa) {
                Err(e) => Err(e),
                Ok(_) => match self.ed25519_stage(keys) {
                    Err(e) => Err(e),
                    Ok(_) => match self.ecies_stage(keys, drawn.agreed) {
                        Err(e) => Err(e),
                        Ok(_) => Ok(self.manifest(keys, drawn.seals())),
                    },
                },
            },
        }
    }

    /// What holds of the results `drawn` whatever chance decided. An RSA
    /// signature is one of what is signed, under the key of the generator's
    /// kind, and as long as the modulus of that key. An ECDSA signature is
    /// one of what is signed, under the ECDSA key, and has not more than
    /// 105 bytes. The public key and the secret of the agreement are those
    /// of an agreement with the peer of the generator's kind, and have the
    /// lengths of their curve. A call that was not made gave nothing.
    pub open spec fn drawn_fits(self, keys: KeyRing, drawn: Drawn) -> bool {
        &&& drawn.rsa matches Some(signature) ==> self.signs_rsa() && (match key_contents(
            self.rsa_private(keys),
            "RSA PRIVATE KEY"@,
        ) {
            Ok(der) => signature.len() == rsa_modulus_len(der) && rsa_pss_signed(
                der,
                self.signed_message(),
                signature,
            ),
            Err(_) => false,
        })
        &&& drawn.ecdsa matches Some(signature) ==> self.has(TlvKinds::ECDSA256) && (
        match key_contents(keys.ecdsa_private@, "PRIVATE KEY"@) {
            Ok(pkcs8) => signature.len() <= 105 && ecdsa_p256_signed(
                pkcs8,
                self.signed_message(),
                signature,
            ),
            Err(_) => false,
        })
        &&& drawn.agreed matches Some(shared) ==> self.agrees() && shared.1.len() == 32 && (
        match key_contents(self.peer_public(keys), "PUBLIC KEY"@) {
            Ok(contents) => {
                let peer = contents.subrange(self.peer_skip() as int, contents.len() as int);
                &&& self.peer_skip() <= contents.len()
                &&& if self.has(TlvKinds::ENCEC256) {
                    shared.0.len() == 65 && ecdh_p256_agreed(peer, shared.0, shared.1)
                } else {
                    shared.0.len() == 32 && x25519_agreed(peer, shared.0, shared.1)
                }
            },
            Err(_) => false,
        })
    }

    /// No call that chance decides is made for the generator: it neither
    /// signs with RSA or ECDSA nor agrees on a key.
    pub open spec fn settled(self) -> bool {
        !self.signs_rsa() && !self.has(TlvKinds::ECDSA256) && !self.agrees()
    }

    /// The error that the generator meets before any call that chance
    /// decides: that of the key of its first signature, where it signs with
    /// RSA or ECDSA; else that of its Ed25519 signature, or after it that
    /// of the peer's key.
    pub open spec fn refused(self, keys: KeyRing) -> Option<TlvError> {
        if self.signs_rsa() {
            match key_contents(self.rsa_private(keys), "RSA PRIVATE KEY"@) {
                Err(e) => Some(e),
                Ok(_) => None,
            }
        } else if self.has(TlvKinds::ECDSA256) {
            match key_contents(keys.ecdsa_private@, "PRIVATE KEY"@) {
                Err(e) => Some(e),
                Ok(_) => None,
            }
        } else {
            match self.ed25519_stage(keys) {
                Err(e) => Some(e),
                Ok(_) => if !self.agrees() {
                    None
                } else {
                    match key_contents(self.peer_public(keys), "PUBLIC KEY"@) {
                        Err(e) => Some(e),
                        Ok(contents) => if contents.len() < self.peer_skip() {
                            Some(TlvError::ShortKey)
                        } else {
                            None
                        },
                    }
                },
            }
        }
    }

    /// One of the keys that the generator needs has the defect `e`: it is
    /// not a PEM block, bears the wrong tag, or is too short.
    pub open spec fn key_defect(self, keys: KeyRing, e: TlvError) -> bool {
        ||| self.signs_rsa() && key_contents(self.rsa_private(keys), "RSA PRIVATE KEY"@) == Err::<
            Seq<u8>,
            TlvError,
        >(e)
        ||| self.has(TlvKinds::ECDSA256) && key_contents(keys.ecdsa_private@, "PRIVATE KEY"@)
            == Err::<Seq<u8>, TlvError>(e)
        ||| self.has(TlvKinds::ED25519) && self.ed25519_stage(keys) == Err::<Seq<u8>, TlvError>(e)
        ||| self.agrees() && self.ecies_stage(keys, None) == Err::<Seq<u8>, TlvError>(e)
    }

    /// The length of the items after the protected block, with the seals
    /// `seals`: 36 bytes for the hash; 36 for the hash of the public key of
    /// a signature and the signature with its header of 4; the wrapped key
    /// with its header.
    pub open spec fn body_len(self, seals: Seals) -> nat {
        (if self.has(TlvKinds::SHA256) {
            36nat
        } else {
            0nat
        }) + (if self.has(TlvKinds::RSA2048) {
            296nat
        } else if self.has(TlvKinds::RSA3072) {
            424nat
        } else {
            0nat
        }) + (if self.has(TlvKinds::ECDSA256) {
            40 + seals.ecdsa.len()
        } else {
            0nat
        }) + (if self.has(TlvKinds::ED25519) {
            104nat
        } else {
            0nat
        }) + (if self.has(TlvKinds::ENCRSA2048) {
            260nat
        } else {
            0nat
        }) + (if self.has(TlvKinds::ENCKW128) {
            28nat
        } else {
            0nat
        }) + (if self.has(TlvKinds::ENCEC256) {
            117nat
        } else if self.has(TlvKinds::ENCX25519) {
            84nat
        } else {
            0nat
        })
    }

    /// `bytes` is the manifest with the seals `seals`, with every item as
    /// long as its kind prescribes and the size field of the block of items
    /// equal to the block's length.
    pub open spec fn sized(self, keys: KeyRing, seals: Seals, bytes: Seq<u8>) -> bool {
        &&& self.sealed_by(seals)
        &&& bytes == self.manifest(keys, seals)
        &&& self.body(keys, seals).len() == self.body_len(seals)
        &&& 4 + self.body(keys, seals).len() <= u16::MAX
        &&& bytes.len() == protected_size(self.dependencies.len()) + 4 + self.body_len(seals)
    }
}

/// A generator of TLV manifests.
pub struct TlvGen {
    flags: u32,
    kinds: Vec<TlvKinds>,
    payload: Vec<u8>,
    dependencies: Vec<Dependency>,
    enc_key: Vec<u8>,
    wrapped_key: Vec<u8>,
    /// Should this signature be corrupted.
    gen_corrupted: bool,
}

impl View for TlvGen {
    type V = TlvState;

    closed spec fn view(&self) -> TlvState {
        TlvState {
            flags: self.flags,
            kinds: self.kinds@,
            payload: self.payload@,
            dependencies: self.dependencies@,
            enc_key: self.enc_key@,
            wrapped_key: self.wrapped_key@,
            gen_corrupted: self.gen_corrupted,
        }
    }
}

/// The state of a fresh generator for the kinds `kinds` with the header
/// flags `flags`.
pub open spec fn fresh(flags: u32, kinds: Seq<TlvKinds>) -> TlvState {
    TlvState {
        flags,
        kinds,
        payload: Seq::empty(),
        dependencies: Seq::empty(),
        enc_key: Seq::empty(),
        wrapped_key: Seq::empty(),
        gen_corrupted: false,
    }
}

impl TlvGen {
    fn with_kinds(flags: u32, kinds: Vec<TlvKinds>) -> (tlv: TlvGen)
        ensures
            tlv@ == fresh(flags, kinds@),
    {
        TlvGen {
            flags,
            kinds,
            payload: Vec::new(),
            dependencies: Vec::new(),
            enc_key: Vec::new(),
            wrapped_key: Vec::new(),
            gen_corrupted: false,
        }
    }

    /// Construct a new tlv generator that will only contain a hash of the data.
    pub fn new_hash_only() -> (tlv: TlvGen)
        ensures
            tlv@ == fresh(0, seq![TlvKinds::SHA256]),
    {
        let mut kinds = Vec::new();
        kinds.push(TlvKinds::SHA256);
        assert(kinds@ =~= seq![TlvKinds::SHA256]);
        TlvGen::with_kinds(0, kinds)
    }

    /// A generator that hashes and signs with RSA-2048.
    pub fn new_rsa_pss() -> (tlv: TlvGen)
        ensures
            tlv@ == fresh(0, seq![TlvKinds::SHA256, TlvKinds::RSA2048]),
    {
        TlvGen::with_kinds(0, two_kinds(TlvKinds::SHA256, TlvKinds::RSA2048))
    }

    /// A generator that hashes and signs with RSA-3072.
    pub fn new_rsa3072_pss() -> (tlv: TlvGen)
        ensures
            tlv@ == fresh(0, seq![TlvKinds::SHA256, TlvKinds::RSA3072]),
    {
        TlvGen::with_kinds(0, two_kinds(TlvKinds::SHA256, TlvKinds::RSA3072))
    }

    /// A generator that hashes and signs with ECDSA on P-256.
    pub fn new_ecdsa() -> (tlv: TlvGen)
        ensures
            tlv@ == fresh(0, seq![TlvKinds::SHA256, TlvKinds::ECDSA256]),
    {
        TlvGen::with_kinds(0, two_kinds(TlvKinds::SHA256, TlvKinds::ECDSA256))
    }

    /// A generator that hashes and signs with Ed25519.
    pub fn new_ed25519() -> (tlv: TlvGen)
        ensures
            tlv@ == fresh(0, seq![TlvKinds::SHA256, TlvKinds::ED25519]),
    {
        TlvGen::with_kinds(0, two_kinds(TlvKinds::SHA256, TlvKinds::ED25519))
    }

    /// A generator that hashes, for an image encrypted under an RSA-wrapped
    /// key.
    pub fn new_enc_rsa() -> (tlv: TlvGen)
        ensures
            tlv@ == fresh(
                TlvFlags::ENCRYPTED.bits(),
                seq![TlvKinds::SHA256, TlvKinds::ENCRSA2048],
            ),
    {
        TlvGen::with_kinds(
            TlvFlags::ENCRYPTED.value(),
            two_kinds(TlvKinds::SHA256, TlvKinds::ENCRSA2048),
        )
    }

    /// A generator that hashes and signs with RSA-2048, for an image
    /// encrypted under an RSA-wrapped key.
    pub fn new_sig_enc_rsa() -> (tlv: TlvGen)
        ensures
            tlv@ == fresh(
                TlvFlags::ENCRYPTED.bits(),
                seq![TlvKinds::SHA256, TlvKinds::RSA2048, TlvKinds::ENCRSA2048],
            ),
    {
        TlvGen::with_kinds(
            TlvFlags::ENCRYPTED.value(),
            three_kinds(TlvKinds::SHA256, TlvKinds::RSA2048, TlvKinds::ENCRSA2048),
        )
    }

    /// A generator that hashes, for an image encrypted under a key wrapped
    /// with AES key wrap.
    pub fn new_enc_kw() -> (tlv: TlvGen)
        ensures
            tlv@ == fresh(TlvFlags::ENCRYPTED.bits(), seq![TlvKinds::SHA256, TlvKinds::ENCKW128]),
    {
        TlvGen::with_kinds(
            TlvFlags::ENCRYPTED.value(),
            two_kinds(TlvKinds::SHA256, TlvKinds::ENCKW128),
        )
    }

    /// A generator that hashes and signs with RSA-2048, for an image
    /// encrypted under a key wrapped with AES key wrap.
    pub fn new_rsa_kw() -> (tlv: TlvGen)
        ensures
            tlv@ == fresh(
                TlvFlags::ENCRYPTED.bits(),
                seq![TlvKinds::SHA256, TlvKinds::RSA2048, TlvKinds::ENCKW128],
            ),
    {
        TlvGen::with_kinds(
            TlvFlags::ENCRYPTED.value(),
            three_kinds(TlvKinds::SHA256, TlvKinds::RSA2048, TlvKinds::ENCKW128),
        )
    }

    /// A generator that hashes and signs with ECDSA, for an image encrypted
    /// under a key wrapped with AES key wrap.
    pub fn new_ecdsa_kw() -> (tlv: TlvGen)
        ensures
            tlv@ == fresh(
                TlvFlags::ENCRYPTED.bits(),
                seq![TlvKinds::SHA256, TlvKinds::ECDSA256, TlvKinds::ENCKW128],
            ),
    {
        TlvGen::with_kinds(
            TlvFlags::ENCRYPTED.value(),
            three_kinds(TlvKinds::SHA256, TlvKinds::ECDSA256, TlvKinds::ENCKW128),
        )
    }

    /// A generator that hashes, for an image encrypted under a key wrapped
    /// by key agreement on P-256.
    pub fn new_ecies_p256() -> (tlv: TlvGen)
        ensures
            tlv@ == fresh(TlvFlags::ENCRYPTED.bits(), seq![TlvKinds::SHA256, TlvKinds::ENCEC256]),
    {
        TlvGen::with_kinds(
            TlvFlags::ENCRYPTED.value(),
            two_kinds(TlvKinds::SHA256, TlvKinds::ENCEC256),
        )
    }

    /// A generator that hashes and signs with ECDSA, for an image encrypted
    /// under a key wrapped by key agreement on P-256.
    pub fn new_ecdsa_ecies_p256() -> (tlv: TlvGen)
        ensures
            tlv@ == fresh(
                TlvFlags::ENCRYPTED.bits(),
                seq![TlvKinds::SHA256, TlvKinds::ECDSA256, TlvKinds::ENCEC256],
            ),
    {
        TlvGen::with_kinds(
            TlvFlags::ENCRYPTED.value(),
            three_kinds(TlvKinds::SHA256, TlvKinds::ECDSA256, TlvKinds::ENCEC256),
        )
    }

    /// A generator that hashes, for an image encrypted under a key wrapped
    /// by key agreement on X25519.
    pub fn new_ecies_x25519() -> (tlv: TlvGen)
        ensures
            tlv@ == fresh(
                TlvFlags::ENCRYPTED.bits(),
                seq![TlvKinds::SHA256, TlvKinds::ENCX25519],
            ),
    {
        TlvGen::with_kinds(
            TlvFlags::ENCRYPTED.value(),
            two_kinds(TlvKinds::SHA256, TlvKinds::ENCX25519),
        )
    }

    /// A generator that hashes and signs with Ed25519, for an image
    /// encrypted under a key wrapped by key agreement on X25519.
    pub fn new_ed25519_ecies_x25519() -> (tlv: TlvGen)
        ensures
            tlv@ == fresh(
                TlvFlags::ENCRYPTED.bits(),
                seq![TlvKinds::SHA256, TlvKinds::ED25519, TlvKinds::ENCX25519],
            ),
    {
        TlvGen::with_kinds(
            TlvFlags::ENCRYPTED.value(),
            three_kinds(TlvKinds::SHA256, TlvKinds::ED25519, TlvKinds::ENCX25519),
        )
    }

    /// Whether the generator is to make an item of kind `kind`.
    pub fn has_kind(&self, kind: TlvKinds) -> (yes: bool)
        ensures
            yes == self@.has(kind),
    {
        let mut i: usize = 0;
        while i < self.kinds.len()
            invariant
                i <= self.kinds.len(),
                forall|j: int| 0 <= j < i ==> self.kinds@[j] != kind,
            decreases self.kinds.len() - i,
        {
            if self.kinds[i] == kind {
                return true;
            }
            i = i + 1;
        }
        false
    }

    /// Whether the generator is to sign.
    pub fn has_signature(&self) -> (yes: bool)
        ensures
            yes == self@.signs(),
    {
        self.has_kind(TlvKinds::RSA2048) || self.has_kind(TlvKinds::RSA3072) || self.has_kind(
            TlvKinds::ECDSA224,
        ) || self.has_kind(TlvKinds::ECDSA256) || self.has_kind(TlvKinds::ED25519)
    }

    /// Whether the generator holds a key to encrypt the image with.
    pub fn has_enc_key(&self) -> (yes: bool)
        ensures
            yes == (self@.enc_key.len() == AES_KEY_LEN),
    {
        self.enc_key.len() == AES_KEY_LEN
    }

    /// Whether the generator holds what its kinds need of it.
    pub fn is_ready(&self) -> (yes: bool)
        ensures
            yes == self@.ready(),
    {
        proof {
            lemma_protected_len(self@.dependencies);
        }
        if self.dependencies.len() > MAX_DEPENDENCIES {
            return false;
        }
        if self.gen_corrupted && self.payload.len() == 0 && self.dependencies.len() == 0 {
            return false;
        }
        if self.has_kind(TlvKinds::ENCRSA2048) && self.wrapped_key.len() != 256 {
            return false;
        }
        if self.has_kind(TlvKinds::ENCKW128) && self.wrapped_key.len() != 24 {
            return false;
        }
        if (self.has_kind(TlvKinds::ENCEC256) || self.has_kind(TlvKinds::ENCX25519))
            && self.enc_key.len() != AES_KEY_LEN {
            return false;
        }
        true
    }

    /// Sets the key that encrypts the image, and that key as it was wrapped
    /// for the device. This is for the kinds whose key is wrapped outside
    /// the generator.
    pub fn set_enc_key(&mut self, key: Vec<u8>, wrapped: Vec<u8>)
        ensures
            final(self)@ == (TlvState { enc_key: key@, wrapped_key: wrapped@, ..old(self)@ }),
    {
        self.enc_key = key;
        self.wrapped_key = wrapped;
    }

    /// Takes what the random source gave as the key that encrypts the
    /// image: the bytes that were drawn, if any were. Returns whether there
    /// were any; where there were none, nothing is changed.
    pub fn keep_enc_key(&mut self, drawn: Option<Vec<u8>>) -> (done: bool)
        ensures
            done == drawn is Some,
            final(self)@ == (match drawn {
                Some(key) => TlvState { enc_key: key@, ..old(self)@ },
                None => old(self)@,
            }),
    {
        match drawn {
            Some(key) => {
                self.enc_key = key;
                true
            },
            None => false,
        }
    }

    /// The protected block.
    pub fn protected_block(&self) -> (block: Vec<u8>)
        requires
            self@.dependencies.len() <= MAX_DEPENDENCIES,
        ensures
            block@ == protected_tlv(self@.dependencies),
            block@.len() == protected_size(self@.dependencies.len()),
    {
        let mut block: Vec<u8> = Vec::new();
        let count = self.dependencies.len();
        if count > 0 {
            block.push(0x08);
            block.push(0x69);
            push_le16(&mut block, (4 + count * 16) as u16);
            let ghost head = block@;
            assert(head =~= seq![0x08u8, 0x69u8] + le16(protected_size(count as nat) as u16));
            let mut i: usize = 0;
            while i < count
                invariant
                    i <= count,
                    count == self.dependencies.len(),
                    block@ == head + dependency_entries(self.dependencies@.take(i as int)),
                    block@.len() == 4 + 16 * i,
                    head.len() == 4,
                decreases count - i,
            {
                let dep = self.dependencies[i];
                let ghost before = block@;
                push_le16(&mut block, TlvKinds::DEPENDENCY.number());
                push_le16(&mut block, 12);
                block.push(dep.id);
                block.push(0);
                push_le16(&mut block, 0);
                block.push(dep.version.major);
                block.push(dep.version.minor);
                push_le16(&mut block, dep.version.revision);
                push_le32(&mut block, dep.version.build_num);
                proof {
                    assert(block@ =~= before + dependency_entry(dep));
                    assert(self.dependencies@.take(i + 1).drop_last() =~= self.dependencies@.take(
                        i as int,
                    ));
                    assert(self.dependencies@.take(i + 1).last() == dep);
                    assert(block@ =~= head + dependency_entries(self.dependencies@.take(i + 1)));
                }
                i = i + 1;
            }
            assert(self.dependencies@.take(count as int) =~= self.dependencies@);
        }
        block
    }

    /// What the manifest protects: the payload and the protected block.
    pub fn message(&self) -> (message: Vec<u8>)
        requires
            self@.dependencies.len() <= MAX_DEPENDENCIES,
        ensures
            message@ == self@.message(),
    {
        let mut message = self.payload.clone();
        let block = self.protected_block();
        push_all(&mut message, block.as_slice());
        message
    }

    /// The item with the hash.
    fn hash_item(&self, message: &Vec<u8>) -> (part: Vec<u8>)
        requires
            message@ == self@.message(),
            self@.gen_corrupted ==> message@.len() > 0,
        ensures
            part@ == self@.hash_part(),
            part@.len() == (if self@.has(TlvKinds::SHA256) {
                36nat
            } else {
                0nat
            }),
    {
        let mut part: Vec<u8> = Vec::new();
        if self.has_kind(TlvKinds::SHA256) {
            let corrupt = self.gen_corrupted && !self.has_signature();
            let digest = if corrupt {
                sha256(flip(message).as_slice())
            } else {
                sha256(message.as_slice())
            };
            push_entry(&mut part, TlvKinds::SHA256, digest.as_slice());
        }
        part
    }

    /// What is signed: the message, with its first bit flipped where the
    /// manifest is to be corrupt.
    pub fn signed_bytes(&self) -> (signed: Vec<u8>)
        requires
            self@.ready(),
        ensures
            signed@ == self@.signed_message(),
    {
        let message = self.message();
        // Corrupt what is signed by modifying the input to the signature
        // code.
        if self.gen_corrupted {
            flip(&message)
        } else {
            message
        }
    }

    /// The items of the RSA signature, where signing gave `given`; see
    /// `rsa_stage`.
    pub fn rsa_items(&self, keys: &KeyRing, given: &Option<Vec<u8>>) -> (made: Result<
        Vec<u8>,
        TlvError,
    >)
        ensures
            made_bytes(made) == self@.rsa_stage(*keys, drawn_bytes(*given)),
            made matches Ok(part) ==> part@.len() == (if self@.has(TlvKinds::RSA2048) {
                296nat
            } else if self@.has(TlvKinds::RSA3072) {
                424nat
            } else {
                0nat
            }),
    {
        let mut part: Vec<u8> = Vec::new();
        let is_rsa2048 = self.has_kind(TlvKinds::RSA2048);
        if !is_rsa2048 && !self.has_kind(TlvKinds::RSA3072) {
            assert(part@ =~= Seq::<u8>::empty());
            return Ok(part);
        }
        let (public, private) = if is_rsa2048 {
            (&keys.rsa2048_public, &keys.rsa2048_private)
        } else {
            (&keys.rsa3072_public, &keys.rsa3072_private)
        };
        // Output the hash of the public key.
        let key_hash = sha256(public.as_slice());
        push_entry(&mut part, TlvKinds::KEYHASH, key_hash.as_slice());
        private_key(private.as_slice(), "RSA PRIVATE KEY")?;
        let signature = match given {
            Some(signature) => signature,
            None => {
                return Err(TlvError::SigningFailed);
            },
        };
        let want: usize = if is_rsa2048 {
            256
        } else {
            384
        };
        if signature.len() != want {
            return Err(TlvError::SignatureSize);
        }
        let kind = if is_rsa2048 {
            TlvKinds::RSA2048
        } else {
            TlvKinds::RSA3072
        };
        push_entry(&mut part, kind, signature.as_slice());
        assert(part@ =~= self@.rsa_part(*keys, signature@));
        Ok(part)
    }

    /// The items of the ECDSA signature, where signing gave `given`; see
    /// `ecdsa_stage`.
    pub fn ecdsa_items(&self, keys: &KeyRing, given: &Option<Vec<u8>>) -> (made: Result<
        Vec<u8>,
        TlvError,
    >)
        ensures
            made_bytes(made) == self@.ecdsa_stage(*keys, drawn_bytes(*given)),
            made matches Ok(part) ==> part@.len() == (if self@.has(TlvKinds::ECDSA256) {
                40 + given.unwrap()@.len()
            } else {
                0
            }),
    {
        let mut part: Vec<u8> = Vec::new();
        if !self.has_kind(TlvKinds::ECDSA256) {
            assert(part@ =~= Seq::<u8>::empty());
            return Ok(part);
        }
        let key_hash = sha256(keys.ecdsa_public.as_slice());
        push_entry(&mut part, TlvKinds::KEYHASH, key_hash.as_slice());
        private_key(keys.ecdsa_private.as_slice(), "PRIVATE KEY")?;
        let signature = match given {
            Some(signature) => signature,
            None => {
                return Err(TlvError::SigningFailed);
            },
        };
        if signature.len() > 1024 {
            return Err(TlvError::SignatureSize);
        }
        push_entry(&mut part, TlvKinds::ECDSA256, signature.as_slice());
        assert(part@ =~= self@.ecdsa_part(*keys, signature@));
        Ok(part)
    }

    /// The items of the Ed25519 signature; see `ed25519_stage`.
    pub fn ed25519_items(&self, keys: &KeyRing) -> (made: Result<Vec<u8>, TlvError>)
        requires
            self@.ready(),
        ensures
            made_bytes(made) == self@.ed25519_stage(*keys),
            made matches Ok(part) ==> part@.len() == (if self@.has(TlvKinds::ED25519) {
                104nat
            } else {
                0nat
            }),
    {
        let mut part: Vec<u8> = Vec::new();
        if !self.has_kind(TlvKinds::ED25519) {
            assert(part@ =~= Seq::<u8>::empty());
            return Ok(part);
        }
        let key_hash = sha256(keys.ed25519_public.as_slice());
        push_entry(&mut part, TlvKinds::KEYHASH, key_hash.as_slice());
        let signed = self.signed_bytes();
        let digest = sha256(signed.as_slice());
        let contents = private_key(keys.ed25519_private.as_slice(), "PRIVATE KEY")?;
        if contents.len() < 48 || keys.ed25519_public.len() < 44 {
            return Err(TlvError::ShortKey);
        }
        let seed = slice_subrange(contents.as_slice(), 16, 48);
        let public = slice_subrange(keys.ed25519_public.as_slice(), 12, 44);
        let signature = match ed25519_sign(seed, public, digest.as_slice()) {
            Some(signature) => signature,
            None => {
                return Err(TlvError::SigningFailed);
            },
        };
        push_entry(&mut part, TlvKinds::ED25519, signature.as_slice());
        assert(part@ =~= self@.ed25519_part(*keys));
        Ok(part)
    }

    /// The items with the image key as it was wrapped outside.
    fn wrapped_items(&self) -> (part: Vec<u8>)
        requires
            self@.ready(),
        ensures
            part@ == self@.wrapped_part(),
            part@.len() == (if self@.has(TlvKinds::ENCRSA2048) {
                260nat
            } else {
                0nat
            }) + (if self@.has(TlvKinds::ENCKW128) {
                28nat
            } else {
                0nat
            }),
    {
        let mut part: Vec<u8> = Vec::new();
        if self.has_kind(TlvKinds::ENCRSA2048) {
            push_entry(&mut part, TlvKinds::ENCRSA2048, self.wrapped_key.as_slice());
        }
        let ghost first = part@;
        if self.has_kind(TlvKinds::ENCKW128) {
            push_entry(&mut part, TlvKinds::ENCKW128, self.wrapped_key.as_slice());
        }
        proof {
            assert(part@ =~= self@.wrapped_part());
        }
        part
    }

    /// The item with the image key wrapped by key agreement, where the
    /// agreement gave `given`; see `ecies_stage`.
    pub fn ecies_items(&self, keys: &KeyRing, given: &Option<(Vec<u8>, Vec<u8>)>) -> (made: Result<
        Vec<u8>,
        TlvError,
    >)
        ensures
            made_bytes(made) == self@.ecies_stage(*keys, drawn_pair(*given)),
            made matches Ok(part) ==> part@.len() == (if self@.has(TlvKinds::ENCEC256) {
                117nat
            } else if self@.has(TlvKinds::ENCX25519) {
                84nat
            } else {
                0nat
            }),
    {
        let mut part: Vec<u8> = Vec::new();
        let is_p256 = self.has_kind(TlvKinds::ENCEC256);
        if !is_p256 && !self.has_kind(TlvKinds::ENCX25519) {
            assert(part@ =~= Seq::<u8>::empty());
            return Ok(part);
        }
        let pem = if is_p256 {
            &keys.enc_ec256_public
        } else {
            &keys.enc_x25519_public
        };
        let contents = private_key(pem.as_slice(), "PUBLIC KEY")?;
        let skip: usize = if is_p256 {
            26
        } else {
            12
        };
        if contents.len() < skip {
            return Err(TlvError::ShortKey);
        }
        let (public, secret) = match given {
            Some(shared) => (&shared.0, &shared.1),
            None => {
                return Err(TlvError::AgreementFailed);
            },
        };
        let info: [u8; 16] = [
            0x4d,
            0x43,
            0x55,
            0x42,
            0x6f,
            0x6f,
            0x74,
            0x5f,
            0x45,
            0x43,
            0x49,
            0x45,
            0x53,
            0x5f,
            0x76,
            0x31,
        ];
        assert(info@ =~= ecies_info());
        let derived = match hkdf_sha256(secret.as_slice(), info.as_slice()) {
            Some(derived) => derived,
            None => {
                return Err(TlvError::AgreementFailed);
            },
        };
        let nonce: [u8; 16] = [0, 0, 0, 0, 0, 0, 0, 0, 0, 0, 0, 0, 0, 0, 0, 0];
        assert(nonce@ =~= zero_bytes(16));
        let key = slice_subrange(derived.as_slice(), 0, 16);
        let cipherkey = match aes128_ctr(key, nonce.as_slice(), self.enc_key.as_slice()) {
            Some(cipherkey) => cipherkey,
            None => {
                return Err(TlvError::AgreementFailed);
            },
        };
        let tag = hmac_sha256(slice_subrange(derived.as_slice(), 16, 48), cipherkey.as_slice());
        let mut blob: Vec<u8> = Vec::new();
        push_all(&mut blob, public.as_slice());
        push_all(&mut blob, tag.as_slice());
        push_all(&mut blob, cipherkey.as_slice());
        assert(blob@ =~= ecies_blob(public@, secret@, self@.enc_key));
        let want: usize = if is_p256 {
            113
        } else {
            80
        };
        if blob.len() != want {
            return Err(TlvError::WrappedKeySize);
        }
        let kind = if is_p256 {
            TlvKinds::ENCEC256
        } else {
            TlvKinds::ENCX25519
        };
        push_entry(&mut part, kind, blob.as_slice());
        assert(part@ =~= self@.ecies_part(public@, secret@));
        Ok(part)
    }

    /// Makes the calls whose results chance decides: the RSA signature and
    /// the ECDSA signature of what is signed, and the agreement with the
    /// peer on a secret; each only where the generator has the kind and
    /// the key for it can be read. They are what `seal_with` takes.
    pub fn draw(&self, keys: &KeyRing) -> (drawn: (
        Option<Vec<u8>>,
        Option<Vec<u8>>,
        Option<(Vec<u8>, Vec<u8>)>,
    ))
        requires
            self@.ready(),
        ensures
            self@.drawn_fits(
                *keys,
                (Drawn {
                    rsa: drawn_bytes(drawn.0),
                    ecdsa: drawn_bytes(drawn.1),
                    agreed: drawn_pair(drawn.2),
                }),
            ),
    {
        let signed = self.signed_bytes();
        let is_rsa2048 = self.has_kind(TlvKinds::RSA2048);
        let rsa = if is_rsa2048 || self.has_kind(TlvKinds::RSA3072) {
            let private = if is_rsa2048 {
                &keys.rsa2048_private
            } else {
                &keys.rsa3072_private
            };
            match private_key(private.as_slice(), "RSA PRIVATE KEY") {
                Ok(key_der) => rsa_pss_sign(key_der.as_slice(), signed.as_slice()),
                Err(_) => None,
            }
        } else {
            None
        };
        let ecdsa = if self.has_kind(TlvKinds::ECDSA256) {
            match private_key(keys.ecdsa_private.as_slice(), "PRIVATE KEY") {
                Ok(pkcs8) => ecdsa_p256_sign(pkcs8.as_slice(), signed.as_slice()),
                Err(_) => None,
            }
        } else {
            None
        };
        let is_p256 = self.has_kind(TlvKinds::ENCEC256);
        let agreed = if is_p256 || self.has_kind(TlvKinds::ENCX25519) {
            let pem = if is_p256 {
                &keys.enc_ec256_public
            } else {
                &keys.enc_x25519_public
            };
            let skip: usize = if is_p256 {
                26
            } else {
                12
            };
            match private_key(pem.as_slice(), "PUBLIC KEY") {
                Ok(contents) => if contents.len() < skip {
                    None
                } else {
                    let peer = slice_subrange(contents.as_slice(), skip, contents.len());
                    if is_p256 {
                        ecdh_p256_ephemeral(peer)
                    } else {
                        x25519_ephemeral(peer)
                    }
                },
                Err(_) => None,
            }
        } else {
            None
        };
        (rsa, ecdsa, agreed)
    }

    /// The manifest where the calls that chance decides gave `rsa`, `ecdsa`
    /// and `agreed`, or the first reason why there is none; see `sealed`.
    pub fn seal_with(
        &self,
        keys: &KeyRing,
        rsa: Option<Vec<u8>>,
        ecdsa: Option<Vec<u8>>,
        agreed: Option<(Vec<u8>, Vec<u8>)>,
    ) -> (made: Result<Vec<u8>, TlvError>)
        requires
            self@.ready(),
        ensures
            made_bytes(made) == self@.sealed(
                *keys,
                (Drawn {
                    rsa: drawn_bytes(rsa),
                    ecdsa: drawn_bytes(ecdsa),
                    agreed: drawn_pair(agreed),
                }),
            ),
            made matches Ok(bytes) ==> self@.sized(
                *keys,
                (Drawn {
                    rsa: drawn_bytes(rsa),
                    ecdsa: drawn_bytes(ecdsa),
                    agreed: drawn_pair(agreed),
                }).seals(),
                bytes@,
            ),
    {
        let ghost drawn = Drawn {
            rsa: drawn_bytes(rsa),
            ecdsa: drawn_bytes(ecdsa),
            agreed: drawn_pair(agreed),
        };
        let ghost seals = drawn.seals();
        let protected = self.protected_block();
        // The signature is made over one contiguous message: the payload
        // and the protected block.
        let message = self.message();
        let hash = self.hash_item(&message);
        let rsa_part = self.rsa_items(keys, &rsa)?;
        let ecdsa_part = self.ecdsa_items(keys, &ecdsa)?;
        let ed25519 = self.ed25519_items(keys)?;
        let wrapped = self.wrapped_items();
        let ecies = self.ecies_items(keys, &agreed)?;
        let mut body: Vec<u8> = hash;
        push_all(&mut body, rsa_part.as_slice());
        push_all(&mut body, ecdsa_part.as_slice());
        push_all(&mut body, ed25519.as_slice());
        push_all(&mut body, wrapped.as_slice());
        push_all(&mut body, ecies.as_slice());
        assert(body@ =~= self@.body(*keys, seals));
        let bytes = manifest_bytes(protected.as_slice(), body.as_slice());
        Ok(bytes)
    }
}

/// A generator for manifests.
pub trait ManifestGen {
    /// What the generator holds.
    spec fn state(&self) -> TlvState;

    /// Retrieve the header magic value for this manifest type.
    fn get_magic(&self) -> (magic: u32)
        ensures
            magic == IMAGE_MAGIC,
    ;

    /// Retrieve the flags value for this particular manifest type.
    fn get_flags(&self) -> (flags: u32)
        ensures
            flags == self.state().flags,
    ;

    /// Retrieve the number of bytes of this manifest that is "protected".
    /// This field is stored in the outside image header instead of the
    /// manifest header.
    fn protect_size(&self) -> (size: u16)
        requires
            self.state().dependencies.len() <= MAX_DEPENDENCIES,
        ensures
            size == protected_size(self.state().dependencies.len()),
            size == protected_tlv(self.state().dependencies).len(),
    ;

    /// Add a dependency on another image.
    fn add_dependency(&mut self, id: u8, version: &ImageVersion)
        requires
            old(self).state().dependencies.len() < MAX_DEPENDENCIES,
        ensures
            final(self).state() == (TlvState {
                dependencies: old(self).state().dependencies.push(
                    Dependency { id, version: *version },
                ),
                ..old(self).state()
            }),
    ;

    /// Add a sequence of bytes to the payload that the manifest is
    /// protecting.
    fn add_bytes(&mut self, bytes: &[u8])
        ensures
            final(self).state() == (TlvState {
                payload: old(self).state().payload + bytes@,
                ..old(self).state()
            }),
    ;

    /// Set an internal flag indicating that the next `make_tlv` should
    /// corrupt the signature.
    fn corrupt_sig(&mut self)
        ensures
            final(self).state() == (TlvState { gen_corrupted: true, ..old(self).state() }),
    ;

    /// Construct the manifest for this payload.
    ///
    /// The result is that of `sealed` for what the calls gave that chance
    /// decides, which have the lengths of `drawn_fits`. So a generator that
    /// needs no key always succeeds; one for which no such call is made has
    /// its result fixed; and any meets the error of `refused` where there is
    /// one. A manifest is as long as its items prescribe.
    fn make_tlv(&self, keys: &KeyRing) -> (made: Result<Vec<u8>, TlvError>)
        requires
            self.state().ready(),
        ensures
            self.state().keyless() ==> made is Ok,
            self.state().lacks_key(*keys) ==> made is Err,
            exists|drawn: Drawn| #[trigger]
                self.state().drawn_fits(*keys, drawn) && made_bytes(made) == self.state().sealed(
                    *keys,
                    drawn,
                ),
            self.state().refused(*keys) matches Some(e) ==> made == Err::<Vec<u8>, TlvError>(e),
            made matches Err(e) ==> (e == TlvError::BadPem || e == TlvError::WrongKeyTag || e
                == TlvError::ShortKey ==> self.state().key_defect(*keys, e)),
            self.state().settled() ==> made_bytes(made) == self.state().sealed(
                *keys,
                (Drawn { rsa: None, ecdsa: None, agreed: None }),
            ),
            self.state().settled() && self.state().has(TlvKinds::ED25519) ==> (made is Ok <==> (
            match key_contents(keys.ed25519_private@, "PRIVATE KEY"@) {
                Ok(contents) => contents.len() >= 48 && keys.ed25519_public@.len() >= 44
                    && self.state().ed25519_seal(*keys) is Some,
                Err(_) => false,
            })),
            made matches Ok(bytes) ==> bytes@.len() < 0x20000 && exists|seals: Seals| #[trigger]
                self.state().sealed_by(seals) && bytes@ == self.state().manifest(*keys, seals)
                    && self.state().sized(*keys, seals, bytes@),
            made matches Ok(bytes) ==> (self.state().bare() ==> bytes@.len()
                == self.state().bare_len()),
    ;

    /// Generate a new encryption random key. Returns whether the random
    /// source delivered one; where it did not, nothing is changed.
    fn generate_enc_key(&mut self) -> (done: bool)
        ensures
            done ==> final(self).state().enc_key.len() == AES_KEY_LEN && final(self).state() == (
            TlvState { enc_key: final(self).state().enc_key, ..old(self).state() }),
            !done ==> final(self).state() == old(self).state(),
    ;

    /// Return the current encryption key
    fn get_enc_key(&self) -> (key: Vec<u8>)
        requires
            self.state().enc_key.len() == AES_KEY_LEN,
        ensures
            key@ == self.state().enc_key,
    ;
}

impl ManifestGen for TlvGen {
    open spec fn state(&self) -> TlvState {
        self@
    }

    fn get_magic(&self) -> (magic: u32) {
        IMAGE_MAGIC
    }

    /// Retrieve the header flags for this configuration.  This can be called at any time.
    fn get_flags(&self) -> (flags: u32) {
        self.flags
    }

    fn protect_size(&self) -> (size: u16) {
        if self.dependencies.len() == 0 {
            0
        } else {
            // Include the header and space for each dependency.
            proof {
                lemma_protected_len(self.dependencies@);
            }
            (4 + self.dependencies.len() * 16) as u16
        }
    }

    fn add_dependency(&mut self, id: u8, version: &ImageVersion) {
        self.dependencies.push(Dependency { id, version: *version });
    }

    /// Add bytes to the covered hash.
    fn add_bytes(&mut self, bytes: &[u8]) {
        push_all(&mut self.payload, bytes);
    }

    fn corrupt_sig(&mut self) {
        self.gen_corrupted = true;
    }

    /// Compute the TLV given the specified block of data.
    fn make_tlv(&self, keys: &KeyRing) -> (made: Result<Vec<u8>, TlvError>) {
        let (rsa, ecdsa, agreed) = self.draw(keys);
        let ghost drawn = Drawn {
            rsa: drawn_bytes(rsa),
            ecdsa: drawn_bytes(ecdsa),
            agreed: drawn_pair(agreed),
        };
        let made = self.seal_with(keys, rsa, ecdsa, agreed);
        proof {
            assert(self@.drawn_fits(*keys, drawn) && made_bytes(made) == self@.sealed(*keys, drawn));
            if self@.settled() {
                assert(drawn == (Drawn { rsa: None, ecdsa: None, agreed: None }));
            }
            if made is Ok {
                assert(self@.sealed_by(drawn.seals()));
            }
        }
        made
    }

    fn generate_enc_key(&mut self) -> (done: bool) {
        self.keep_enc_key(random_bytes(AES_KEY_LEN))
    }

    fn get_enc_key(&self) -> (key: Vec<u8>) {
        self.enc_key.clone()
    }
}

/// The contents of the PEM block in `text`, which must bear the tag `tag`.
pub fn private_key(text: &[u8], tag: &str) -> (contents: Result<Vec<u8>, TlvError>)
    ensures
        made_bytes(contents) == key_contents(text@, tag@),
        match contents {
            Ok(c) => pem_decoded(text@) == Some((tag@, c@)),
            Err(e) => match pem_decoded(text@) {
                Some((found, _)) => found != tag@ && e == TlvError::WrongKeyTag,
                None => e == TlvError::BadPem,
            },
        },
{
    match pem_parse(text) {
        Some((found, contents)) => {
            if found == tag.to_owned() {
                Ok(contents)
            } else {
                Err(TlvError::WrongKeyTag)
            }
        },
        None => Err(TlvError::BadPem),
    }
}

/// A copy of `bytes` with the lowest bit of the first byte flipped.
pub fn flip(bytes: &Vec<u8>) -> (out: Vec<u8>)
    requires
        bytes@.len() > 0,
    ensures
        out@ == flipped(bytes@),
{
    let mut out = bytes.clone();
    let first = out[0];
    out[0] = first ^ 1;
    out
}

/// Appends to `buf` the item of kind `kind` that holds `data`.
pub fn push_entry(buf: &mut Vec<u8>, kind: TlvKinds, data: &[u8])
    requires
        data@.len() <= u16::MAX,
    ensures
        final(buf)@ == old(buf)@ + tlv_entry(kind, data@),
        final(buf)@.len() == old(buf)@.len() + 4 + data@.len(),
{
    push_le16(buf, kind.number());
    push_le16(buf, data.len() as u16);
    push_all(buf, data);
    assert(buf@ =~= old(buf)@ + tlv_entry(kind, data@));
}

/// The manifest made of the protected block `protected` and the items
/// `body`.
pub fn manifest_bytes(protected: &[u8], body: &[u8]) -> (bytes: Vec<u8>)
    requires
        4 + body@.len() <= u16::MAX,
    ensures
        bytes@ == manifest_of(protected@, body@),
        bytes@.len() == protected@.len() + 4 + body@.len(),
{
    let mut bytes: Vec<u8> = Vec::new();
    push_all(&mut bytes, protected);
    bytes.push(0x07);
    bytes.push(0x69);
    push_le16(&mut bytes, (4 + body.len()) as u16);
    push_all(&mut bytes, body);
    assert(bytes@ =~= manifest_of(protected@, body@));
    bytes
}

fn two_kinds(a: TlvKinds, b: TlvKinds) -> (kinds: Vec<TlvKinds>)
    ensures
        kinds@ == seq![a, b],
{
    let mut kinds = Vec::new();
    kinds.push(a);
    kinds.push(b);
    assert(kinds@ =~= seq![a, b]);
    kinds
}

fn three_kinds(a: TlvKinds, b: TlvKinds, c: TlvKinds) -> (kinds: Vec<TlvKinds>)
    ensures
        kinds@ == seq![a, b, c],
{
    let mut kinds = Vec::new();
    kinds.push(a);
    kinds.push(b);
    kinds.push(c);
    assert(kinds@ =~= seq![a, b, c]);
    kinds
}

/// The protected block is as long as its size field says.
pub proof fn lemma_protected_len(deps: Seq<Dependency>)
    ensures
        protected_tlv(deps).len() == protected_size(deps.len()),
        dependency_entries(deps).len() == 16 * deps.len(),
    decreases deps.len(),
{
    if deps.len() > 0 {
        lemma_protected_len(deps.drop_last());
    }
}

/// The hash in a manifest is that of the bytes it protects, the payload and
/// the protected block, so recomputing it over them finds it again; except
/// where the manifest was made corrupt and carries no signature: then it is
/// the hash of other bytes.
pub proof fn law_hash_covers_message(state: TlvState)
    requires
        state.has(TlvKinds::SHA256),
    ensures
        !state.gen_corrupted || state.signs() ==> state.hash_part() == tlv_entry(
            TlvKinds::SHA256,
            sha256_digest(state.payload + protected_tlv(state.dependencies)),
        ),
        state.gen_corrupted && !state.signs() && state.message().len() > 0 ==> state.hash_part()
            == tlv_entry(TlvKinds::SHA256, sha256_digest(flipped(state.message())))
            && flipped(state.message()) != state.message(),
        state.gen_corrupted && state.message().len() > 0 ==> state.signed_message()
            != state.message(),
{
    if state.message().len() > 0 {
        let m = state.message();
        let first: u8 = m[0];
        assert(first ^ 1 != first) by (bit_vector);
        assert(flipped(m)[0] != m[0]);
    }
}

} // verus!
