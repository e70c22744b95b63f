//! Symmetric keys, and packets sealed under them.
//!
//! A sealed packet is a nonce of [`NONCE_SIZE`] bytes, followed by what AES-128-GCM makes of the
//! data under the key and that nonce, whose last [`TAG_SIZE`] bytes are the authentication tag.

use aes_gcm::aead::Aead;
use aes_gcm::aes::cipher::InvalidLength;
use aes_gcm::{Aes128Gcm, KeyInit};
use vstd::prelude::*;
use vstd::slice::slice_subrange;

verus! {

/// The length of a symmetric key.
pub const KEY_SIZE: usize = 16;

/// The length of a nonce.
pub const NONCE_SIZE: usize = 12;

/// The length of an authentication tag.
pub const TAG_SIZE: usize = 16;

/// The length of the longest datagram that UDP can describe.
pub const MAX_DATAGRAM: usize = 65_535;

/// The length of the longest data that a sealed packet can hold.
pub const MAX_SEALED_DATA: usize = 65_507;

/// `aes_gcm`'s error for a key of the wrong length.
#[verifier::external_type_specification]
#[verifier::external_body]
pub struct ExInvalidLength(InvalidLength);

/// What `Aes128Gcm::encrypt` returns for a key, a nonce and a plaintext, without associated data.
pub uninterp spec fn aes128_gcm_sealed(
    key: Seq<u8>,
    nonce: Seq<u8>,
    plaintext: Seq<u8>,
) -> Seq<u8>;

/// What `Aes128Gcm::decrypt` returns for a key, a nonce and a ciphertext, without associated
/// data: the plaintext, or `None` for its error.
pub uninterp spec fn aes128_gcm_opened(
    key: Seq<u8>,
    nonce: Seq<u8>,
    ciphertext: Seq<u8>,
) -> Option<Seq<u8>>;

/// Calls `Aes128Gcm::new_from_slice`, which makes a cipher of a key of 16 bytes and refuses any
/// other length.
#[verifier::external_body]
fn aes128_gcm_accepts(key: &[u8]) -> (accepted: Result<(), InvalidLength>)
    ensures
        accepted is Ok <==> key@.len() == KEY_SIZE,
{
    Aes128Gcm::new_from_slice(key).map(|_cipher| ())
}

/// Calls `Aes128Gcm::encrypt`. It succeeds on a plaintext of this length, appends a tag of 16
/// bytes, and `Aes128Gcm::decrypt` gives the plaintext back under the same key and nonce.
#[verifier::external_body]
fn aes128_gcm_encrypt(
    key: &[u8; KEY_SIZE],
    nonce: &[u8; NONCE_SIZE],
    plaintext: &[u8],
) -> (ciphertext: Vec<u8>)
    requires
        plaintext@.len() <= MAX_SEALED_DATA,
    ensures
        ciphertext@ == aes128_gcm_sealed(key@, nonce@, plaintext@),
        ciphertext@.len() == plaintext@.len() + TAG_SIZE,
        aes128_gcm_opened(key@, nonce@, ciphertext@) == Some(plaintext@),
{
    Aes128Gcm::new(key.into()).encrypt(nonce.into(), plaintext).unwrap()
}

/// Calls `Aes128Gcm::decrypt`. A plaintext is shorter than its ciphertext by the tag.
#[verifier::external_body]
fn aes128_gcm_decrypt(
    key: &[u8; KEY_SIZE],
    nonce: &[u8; NONCE_SIZE],
    ciphertext: &[u8],
) -> (plaintext: Option<Vec<u8>>)
    requires
        ciphertext@.len() <= MAX_DATAGRAM,
    ensures
        match plaintext {
            Some(data) => aes128_gcm_opened(key@, nonce@, ciphertext@) == Some(data@)
                && ciphertext@.len() == data@.len() + TAG_SIZE,
            None => aes128_gcm_opened(key@, nonce@, ciphertext@) is None,
        },
{
    Aes128Gcm::new(key.into()).decrypt(nonce.into(), ciphertext).ok()
}

/// Calls `rand::random` for 16 bytes. Any bytes can come back.
#[verifier::external_body]
fn random_bytes() -> (bytes: [u8; KEY_SIZE]) {
    rand::random::<[u8; KEY_SIZE]>()
}

/// A key for AES-128-GCM.
#[derive(Clone, Copy)]
pub struct SymmetricKey {
    bytes: [u8; KEY_SIZE],
}

/// A slice is not a key: it does not hold [`KEY_SIZE`] bytes.
#[derive(Clone, Copy, Debug, PartialEq, Eq, Structural)]
pub struct InvalidKeyLength;

impl View for SymmetricKey {
    type V = Seq<u8>;

    closed spec fn view(&self) -> Seq<u8> {
        self.bytes@
    }
}

impl SymmetricKey {
    /// The key made of these bytes.
    pub fn new(bytes: [u8; KEY_SIZE]) -> (key: SymmetricKey)
        ensures
            key@ == bytes@,
    {
        SymmetricKey { bytes }
    }

    /// The key made of the bytes of a slice, if there are [`KEY_SIZE`] of them.
    pub fn new_from_slice(slice: &[u8]) -> (key: Result<SymmetricKey, InvalidKeyLength>)
        ensures
            match key {
                Ok(key) => slice@.len() == KEY_SIZE && key@ == slice@,
                Err(_) => slice@.len() != KEY_SIZE,
            },
    {
        match aes128_gcm_accepts(slice) {
            Ok(()) => {
                let mut bytes: [u8; KEY_SIZE] = [0; KEY_SIZE];
                copy_into(slice, &mut bytes);
                Ok(SymmetricKey { bytes })
            },
            Err(_) => Err(InvalidKeyLength),
        }
    }

    /// A key drawn at random.
    pub fn generate() -> (key: SymmetricKey)
        ensures
            key@.len() == KEY_SIZE,
    {
        SymmetricKey { bytes: random_bytes() }
    }

    /// A key holds [`KEY_SIZE`] bytes.
    pub proof fn lemma_len(self)
        ensures
            self@.len() == KEY_SIZE,
    {
    }

    /// The bytes of the key.
    pub fn bytes(&self) -> (bytes: [u8; KEY_SIZE])
        ensures
            bytes@ == self@,
    {
        self.bytes
    }
}

/// Copies the bytes of a slice into an array of its length.
fn copy_into<const N: usize>(slice: &[u8], array: &mut [u8; N])
    requires
        slice@.len() == N,
    ensures
        final(array)@ == slice@,
{
    let mut i: usize = 0;
    while i < N
        invariant
            i <= N,
            slice@.len() == N,
            forall|j: int| 0 <= j < i ==> array@[j] == slice@[j],
        decreases N - i,
    {
        array[i] = slice[i];
        i += 1;
    }
    assert(array@ =~= slice@);
}

/// The packet that carries `data` sealed under `key` with `nonce`.
pub open spec fn sealed_packet(key: Seq<u8>, nonce: Seq<u8>, data: Seq<u8>) -> Seq<u8> {
    nonce + aes128_gcm_sealed(key, nonce, data)
}

/// The data that a packet carries, if it is sealed under `key`.
pub open spec fn opened_packet(key: Seq<u8>, packet: Seq<u8>) -> Option<Seq<u8>> {
    if packet.len() < NONCE_SIZE {
        None
    } else {
        aes128_gcm_opened(key, packet.take(NONCE_SIZE as int), packet.skip(NONCE_SIZE as int))
    }
}

/// The data that `packet` carries, if it is sealed under `key`.
pub fn try_decrypt_sym(packet: &[u8], key: &SymmetricKey) -> (data: Option<Vec<u8>>)
    requires
        packet@.len() <= MAX_DATAGRAM,
    ensures
        match data {
            Some(data) => opened_packet(key@, packet@) == Some(data@),
            None => opened_packet(key@, packet@) is None,
        },
        data is Some <==> packet@.len() >= 12 && aes128_gcm_opened(
            key@,
            packet@.subrange(0, 12),
            packet@.subrange(12, packet@.len() as int),
        ) is Some,
        data matches Some(data) ==> {
            &&& aes128_gcm_opened(
                key@,
                packet@.subrange(0, 12),
                packet@.subrange(12, packet@.len() as int),
            ) == Some(data@)
            &&& packet@.len() == 12 + data@.len() + 16
        },
{
    proof {
        packets_open_as_the_cipher_does(key@, packet@);
    }
    if packet.len() < NONCE_SIZE {
        return None;
    }
    let mut nonce: [u8; NONCE_SIZE] = [0; NONCE_SIZE];
    copy_into(slice_subrange(packet, 0, NONCE_SIZE), &mut nonce);
    assert(nonce@ =~= packet@.take(NONCE_SIZE as int));
    let ciphertext = slice_subrange(packet, NONCE_SIZE, packet.len());
    assert(ciphertext@ =~= packet@.skip(NONCE_SIZE as int));
    aes128_gcm_decrypt(&key.bytes, &nonce, ciphertext)
}

/// The packet that carries `data` sealed under `key` with `nonce`.
pub fn encrypt_symmetric_with_nonce(
    data: &[u8],
    key: &SymmetricKey,
    nonce: [u8; NONCE_SIZE],
) -> (packet: Vec<u8>)
    requires
        data@.len() <= MAX_SEALED_DATA,
    ensures
        packet@ == sealed_packet(key@, nonce@, data@),
        packet@ == nonce@ + aes128_gcm_sealed(key@, nonce@, data@),
        packet@.len() == NONCE_SIZE + data@.len() + TAG_SIZE,
        opened_packet(key@, packet@) == Some(data@),
{
    let ciphertext = aes128_gcm_encrypt(&key.bytes, &nonce, data);
    let mut packet: Vec<u8> = Vec::with_capacity(NONCE_SIZE + ciphertext.len());
    packet.extend_from_slice(&nonce);
    packet.extend_from_slice(&ciphertext);
    assert(packet@ =~= nonce@ + ciphertext@);
    assert(packet@.take(NONCE_SIZE as int) =~= nonce@);
    assert(packet@.skip(NONCE_SIZE as int) =~= ciphertext@);
    packet
}

/// A packet that carries `data` sealed under `key`, with a nonce drawn at random.
pub fn encrypt_symmetric(data: &[u8], key: &SymmetricKey) -> (packet: Vec<u8>)
    requires
        data@.len() <= MAX_SEALED_DATA,
    ensures
        exists|nonce: Seq<u8>|
            nonce.len() == NONCE_SIZE && packet@ == #[trigger] sealed_packet(key@, nonce, data@),
        packet@.len() >= 12 && packet@ == packet@.subrange(0, 12) + aes128_gcm_sealed(
            key@,
            packet@.subrange(0, 12),
            data@,
        ),
        packet@.len() == NONCE_SIZE + data@.len() + TAG_SIZE,
        opened_packet(key@, packet@) == Some(data@),
{
    let drawn = random_bytes();
    let mut nonce: [u8; NONCE_SIZE] = [0; NONCE_SIZE];
    copy_into(slice_subrange(&drawn, 0, NONCE_SIZE), &mut nonce);
    let packet = encrypt_symmetric_with_nonce(data, key, nonce);
    assert(packet@.subrange(0, 12) =~= nonce@);
    packet
}

/// A packet opens exactly where the cipher opens what follows its first 12 bytes, with those as the
/// nonce, and carries what the cipher gives. A packet too short for a nonce does not open.
pub proof fn packets_open_as_the_cipher_does(key: Seq<u8>, packet: Seq<u8>)
    ensures
        packet.len() < 12 ==> opened_packet(key, packet) is None,
        packet.len() >= 12 ==> opened_packet(key, packet) == aes128_gcm_opened(
            key,
            packet.subrange(0, 12),
            packet.subrange(12, packet.len() as int),
        ),
{
    if packet.len() >= 12 {
        assert(packet.take(12) =~= packet.subrange(0, 12));
        assert(packet.skip(12) =~= packet.subrange(12, packet.len() as int));
    }
}

/// A packet that is not sealed under a key does not open under it, whatever its nonce and its
/// length: where the cipher opens nothing, neither does the packet.
pub proof fn unsealed_packets_stay_closed(key: Seq<u8>, nonce: Seq<u8>, ciphertext: Seq<u8>)
    requires
        nonce.len() == 12,
    ensures
        opened_packet(key, nonce + ciphertext) == aes128_gcm_opened(key, nonce, ciphertext),
        aes128_gcm_opened(key, nonce, ciphertext) is None ==> opened_packet(
            key,
            nonce + ciphertext,
        ) is None,
{
    let packet = nonce + ciphertext;
    packets_open_as_the_cipher_does(key, packet);
    assert(packet.subrange(0, 12) =~= nonce);
    assert(packet.subrange(12, packet.len() as int) =~= ciphertext);
}

/// A sealed packet is its nonce, followed by what the cipher makes of the data.
pub proof fn packets_carry_their_nonce(key: Seq<u8>, nonce: Seq<u8>, data: Seq<u8>)
    requires
        nonce.len() == 12,
    ensures
        sealed_packet(key, nonce, data).subrange(0, 12) == nonce,
        sealed_packet(key, nonce, data).subrange(
            12,
            sealed_packet(key, nonce, data).len() as int,
        ) == aes128_gcm_sealed(key, nonce, data),
{
    let packet = sealed_packet(key, nonce, data);
    assert(packet.subrange(0, 12) =~= nonce);
    assert(packet.subrange(12, packet.len() as int) =~= aes128_gcm_sealed(key, nonce, data));
}

/// A packet that was sealed under a key opens under that key, to what was sealed. What a packet
/// opens to under any key is what the cipher makes of it.
pub proof fn sealing_is_undone_by_opening(
    data: &[u8],
    key: SymmetricKey,
    nonce: [u8; NONCE_SIZE],
    packet: Vec<u8>,
    received: &[u8],
    other: SymmetricKey,
    opened: Option<Vec<u8>>,
)
    requires
        call_ensures(encrypt_symmetric_with_nonce, (data, &key, nonce), packet),
        received@ == packet@,
        call_ensures(try_decrypt_sym, (received, &other), opened),
    ensures
        other@ == key@ ==> (opened matches Some(opened) && opened@ == data@),
        opened is Some <==> aes128_gcm_opened(
            other@,
            nonce@,
            aes128_gcm_sealed(key@, nonce@, data@),
        ) is Some,
{
    let ciphertext = aes128_gcm_sealed(key@, nonce@, data@);
    assert(packet@.subrange(0, 12) =~= nonce@);
    assert(packet@.subrange(12, packet@.len() as int) =~= ciphertext);
}

} // verus!
