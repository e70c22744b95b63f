//! The intro packet: the first thing a peer says to a remote, encrypted for the remote alone.
//!
//! Its data are the version of the protocol and the key under which the remote is to seal what it
//! sends back.

use vstd::prelude::*;
use vstd::slice::slice_subrange;

use crate::crypto::{SymmetricKey, KEY_SIZE};

verus! {

/// The version of the protocol.
pub const PROTOC_VERSION: [u8; 2] = [1, 0];

/// The length of an intro packet's data.
pub const INTRO_SIZE: usize = 18;

/// The data of an intro packet.
#[derive(Clone, Copy)]
pub struct Intro {
    /// The version of the protocol that the sender speaks.
    pub protoc: [u8; 2],
    /// The key under which the sender opens what it receives.
    pub key: SymmetricKey,
}

/// The data of the intro packet that announces `key`.
pub open spec fn intro_data(key: Seq<u8>) -> Seq<u8> {
    PROTOC_VERSION@ + key
}

/// The version that an intro packet's data name.
pub open spec fn intro_protoc(data: Seq<u8>) -> Seq<u8> {
    data.take(2)
}

/// The key that an intro packet's data announce.
pub open spec fn intro_key(data: Seq<u8>) -> Seq<u8> {
    data.subrange(2, INTRO_SIZE as int)
}

/// Whether data are those of an intro packet in this version of the protocol.
pub open spec fn is_current_intro(data: Seq<u8>) -> bool {
    data.len() >= INTRO_SIZE && intro_protoc(data) == PROTOC_VERSION@
}

/// The data of the intro packet that announces `key`.
pub fn encode_intro(key: &SymmetricKey) -> (data: Vec<u8>)
    ensures
        data@ == intro_data(key@),
        data@ == seq![1u8, 0u8] + key@,
{
    let mut data: Vec<u8> = Vec::with_capacity(INTRO_SIZE);
    data.extend_from_slice(&PROTOC_VERSION);
    data.extend_from_slice(&key.bytes());
    assert(data@ =~= intro_data(key@));
    assert(data@ =~= seq![1u8, 0u8] + key@);
    data
}

/// The version and the key that an intro packet's data hold, unless the data are too short to
/// hold them. What follows them is not looked at.
pub fn parse_intro(data: &[u8]) -> (intro: Option<Intro>)
    ensures
        match intro {
            Some(intro) => data@.len() >= INTRO_SIZE && intro.protoc@ == intro_protoc(data@)
                && intro.key@ == intro_key(data@),
            None => data@.len() < INTRO_SIZE,
        },
        intro is Some <==> data@.len() >= 18,
        intro matches Some(intro) ==> {
            &&& intro.protoc@[0] == data@[0] && intro.protoc@[1] == data@[1]
            &&& intro.key@ == data@.subrange(2, 18)
        },
{
    if data.len() < INTRO_SIZE {
        return None;
    }
    let protoc: [u8; 2] = [data[0], data[1]];
    assert(protoc@ =~= intro_protoc(data@));
    match SymmetricKey::new_from_slice(slice_subrange(data, 2, INTRO_SIZE)) {
        Ok(key) => Some(Intro { protoc, key }),
        Err(_) => None,
    }
}

impl Intro {
    /// Whether the sender speaks this version of the protocol.
    pub fn is_current(&self) -> (current: bool)
        ensures
            current == (self.protoc@ == PROTOC_VERSION@),
            current <==> self.protoc@[0] == 1 && self.protoc@[1] == 0,
    {
        let current = self.protoc[0] == PROTOC_VERSION[0] && self.protoc[1] == PROTOC_VERSION[1];
        proof {
            if current {
                assert(self.protoc@ =~= PROTOC_VERSION@);
            }
        }
        current
    }
}

/// A remote reads out of an intro packet the version of the protocol and the key that were put
/// in.
pub proof fn intro_announces_key(key: Seq<u8>)
    requires
        key.len() == KEY_SIZE,
    ensures
        intro_data(key).len() == INTRO_SIZE,
        is_current_intro(intro_data(key)),
        intro_key(intro_data(key)) == key,
{
    assert(intro_protoc(intro_data(key)) =~= PROTOC_VERSION@);
    assert(intro_key(intro_data(key)) =~= key);
}

/// An intro packet's data are the two bytes of the version, followed by the key, whatever the key.
pub proof fn intros_hold_version_and_key(key: Seq<u8>)
    ensures
        intro_data(key).len() == 2 + key.len(),
        intro_data(key)[0] == 1,
        intro_data(key)[1] == 0,
        forall|i: int| 0 <= i < key.len() ==> #[trigger] intro_data(key)[2 + i] == key[i],
{
}

/// The version is read out of the first two bytes of an intro packet's data and the key out of the
/// 16 bytes after them. Data are those of a current intro packet exactly where these are there and
/// the version is this one, whatever the key and whatever follows it.
pub proof fn intros_are_read_by_position(data: Seq<u8>)
    requires
        data.len() >= 2,
    ensures
        intro_protoc(data) == seq![data[0], data[1]],
        data.len() >= 18 ==> intro_key(data) == data.subrange(2, 18),
        intro_protoc(data) == PROTOC_VERSION@ <==> data[0] == 1 && data[1] == 0,
        is_current_intro(data) <==> data.len() >= 18 && data[0] == 1 && data[1] == 0,
{
    assert(intro_protoc(data) =~= seq![data[0], data[1]]);
    if data[0] == 1 && data[1] == 0 {
        assert(intro_protoc(data) =~= PROTOC_VERSION@);
    } else {
        assert(intro_protoc(data)[0] == data[0] && intro_protoc(data)[1] == data[1]);
        assert(PROTOC_VERSION@[0] == 1 && PROTOC_VERSION@[1] == 0);
    }
}

} // verus!
