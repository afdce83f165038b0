//! The mail record: an immutable carrier of one message, tagged with the
//! name of the source that produced it and a stable fingerprint of its
//! bytes.

use crate::digits::{dec_digits, u64_to_dec_string};
use vstd::prelude::*;

verus! {

/// One message: the name of the source it came from, the raw RFC 822
/// bytes, and a decimal fingerprint of those bytes (used for logging and
/// for naming retry files on disk).
pub struct Mail {
    pub from_src: String,
    pub data: Vec<u8>,
    pub hash: String,
}

/// The mathematical content of a [`Mail`].
pub struct MailModel {
    pub from_src: Seq<char>,
    pub data: Seq<u8>,
    pub hash: Seq<char>,
}

impl View for Mail {
    type V = MailModel;

    open spec fn view(&self) -> MailModel {
        MailModel { from_src: self.from_src@, data: self.data@, hash: self.hash@ }
    }
}

impl Clone for Mail {
    fn clone(&self) -> (res: Self)
        ensures
            res@ == self@,
    {
        let res = Mail {
            from_src: self.from_src.clone(),
            data: self.data.clone(),
            hash: self.hash.clone(),
        };
        proof {
            assert(res.data@ =~= self.data@);
            assert(res@ =~= self@);
        }
        res
    }
}

pub const FNV_OFFSET_BASIS: u64 = 0xcbf2_9ce4_8422_2325;

pub const FNV_PRIME: u64 = 0x100_0000_01b3;

/// One step of the FNV-1a accumulation.
pub open spec fn fingerprint_step(h: u64, b: u8) -> u64 {
    (h ^ (b as u64)).wrapping_mul(FNV_PRIME)
}

/// FNV-1a accumulation of `bytes` onto the running state `h`.
pub open spec fn fingerprint_from(h: u64, bytes: Seq<u8>) -> u64
    decreases bytes.len(),
{
    if bytes.len() == 0 {
        h
    } else {
        fingerprint_from(fingerprint_step(h, bytes[0]), bytes.skip(1))
    }
}

/// The 64-bit FNV-1a fingerprint of `bytes`.
pub open spec fn fingerprint(bytes: Seq<u8>) -> u64 {
    fingerprint_from(FNV_OFFSET_BASIS, bytes)
}

/// The fingerprint a mail built from `data` carries, as characters.
pub open spec fn fingerprint_string(data: Seq<u8>) -> Seq<char> {
    dec_digits(fingerprint(data) as nat)
}

/// Computes the FNV-1a fingerprint of `data`.
fn compute_fingerprint(data: &Vec<u8>) -> (h: u64)
    ensures
        h == fingerprint(data@),
{
    let mut h: u64 = FNV_OFFSET_BASIS;
    let n = data.len();
    proof {
        assert(data@.skip(0) =~= data@);
    }
    for i in 0..n
        invariant
            n == data.len(),
            fingerprint(data@) == fingerprint_from(h, data@.skip(i as int)),
    {
        proof {
            assert(data@.skip(i as int)[0] == data@[i as int]);
            assert(data@.skip(i as int).skip(1) =~= data@.skip(i as int + 1));
        }
        h = (h ^ (data[i] as u64)).wrapping_mul(FNV_PRIME);
    }
    proof {
        assert(data@.skip(n as int) =~= Seq::<u8>::empty());
    }
    h
}

impl Mail {
    /// Builds the record for one harvested message: remembers the source
    /// name and the verbatim bytes, and fingerprints the bytes.
    pub fn from_rfc822(srcname: String, body: Vec<u8>) -> (m: Self)
        ensures
            m@.from_src == srcname@,
            m@.data == body@,
            m@.hash == fingerprint_string(body@),
    {
        let h = compute_fingerprint(&body);
        Mail { from_src: srcname, data: body, hash: u64_to_dec_string(h) }
    }
}

} // verus!
