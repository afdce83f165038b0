//! The durable retry agent's on-disk format: one flat file per buffered
//! delivery, holding the due time, the destination name, and the mail.
//!
//! The record is a length-prefixed binary encoding, chosen so that a
//! restart provably rebuilds the same queue entry from the file.  The
//! embedding only moves bytes between these functions and the
//! filesystem.

use crate::digits::{dec_digits, digit_char, u64_to_dec_string};
use vstd::bytes::{
    lemma_auto_spec_u64_to_from_le_bytes, spec_u64_from_le_bytes, spec_u64_to_le_bytes,
    u64_from_le_bytes, u64_to_le_bytes,
};
use vstd::prelude::*;
use vstd::utf8::{decode_utf8, encode_utf8, encode_utf8_decode_utf8, encode_utf8_valid_utf8, valid_utf8};

verus! {

/// What one retry file holds: when the delivery is due, which
/// destination it goes to, and the mail's origin and bytes.  The
/// fingerprint is not stored; it is recomputed from the bytes on
/// restore.
pub struct RetryRecord {
    pub due_time: u64,
    pub dstname: String,
    pub mail_from_src: String,
    pub mail_data: Vec<u8>,
}

/// The encoding of one record: the due time, then each variable-length
/// field prefixed by its byte length, every number 64-bit
/// little-endian, strings as UTF-8.
pub open spec fn spec_encode_record(
    due: u64,
    dst: Seq<char>,
    src: Seq<char>,
    data: Seq<u8>,
) -> Seq<u8> {
    spec_u64_to_le_bytes(due) + spec_u64_to_le_bytes(encode_utf8(dst).len() as u64) + encode_utf8(
        dst,
    ) + spec_u64_to_le_bytes(encode_utf8(src).len() as u64) + encode_utf8(src)
        + spec_u64_to_le_bytes(data.len() as u64) + data
}

/// The unique parse of a record encoding: reads the due time and the
/// three length-prefixed fields, and accepts only when the bytes are
/// consumed exactly and both strings are valid UTF-8.
pub open spec fn spec_parse_record(b: Seq<u8>) -> Option<(u64, Seq<char>, Seq<char>, Seq<u8>)> {
    if b.len() < 24 {
        None
    } else {
        let due = spec_u64_from_le_bytes(b.subrange(0, 8));
        let dlen = spec_u64_from_le_bytes(b.subrange(8, 16)) as int;
        if dlen + 24 > b.len() {
            None
        } else {
            let dbytes = b.subrange(16, 16 + dlen);
            let slen = spec_u64_from_le_bytes(b.subrange(16 + dlen, 24 + dlen)) as int;
            if dlen + slen + 32 > b.len() {
                None
            } else {
                let sbytes = b.subrange(24 + dlen, 24 + dlen + slen);
                let mlen = spec_u64_from_le_bytes(
                    b.subrange(24 + dlen + slen, 32 + dlen + slen),
                ) as int;
                if dlen + slen + mlen + 32 != b.len() {
                    None
                } else {
                    let mbytes = b.subrange(32 + dlen + slen, b.len() as int);
                    if !valid_utf8(dbytes) || !valid_utf8(sbytes) {
                        None
                    } else {
                        Some((due, decode_utf8(dbytes), decode_utf8(sbytes), mbytes))
                    }
                }
            }
        }
    }
}

/// Relies on String::from_utf8: it succeeds exactly on valid UTF-8 and
/// returns the string those bytes encode.
#[verifier::external_body]
fn string_from_utf8(bytes: Vec<u8>) -> (r: Option<String>)
    ensures
        match r {
            Some(s) => bytes@ == encode_utf8(s@),
            None => !valid_utf8(bytes@),
        },
{
    String::from_utf8(bytes).ok()
}

/// The bytes of `b` from `start` on, `len` of them.
fn copy_range(b: &Vec<u8>, start: usize, len: usize) -> (out: Vec<u8>)
    requires
        start + len <= b.len(),
    ensures
        out@ == b@.subrange(start as int, start as int + len as int),
{
    let mut out: Vec<u8> = Vec::new();
    for i in 0..len
        invariant
            start + len <= b.len(),
            out@.len() == i,
            forall|k: int| 0 <= k < i ==> out@[k] == b@[start + k],
    {
        out.push(b[start + i]);
    }
    proof {
        assert(out@ =~= b@.subrange(start as int, start as int + len as int));
    }
    out
}

/// The 64-bit little-endian number at `pos`.
fn read_u64_at(b: &Vec<u8>, pos: usize) -> (x: u64)
    requires
        pos + 8 <= b.len(),
    ensures
        x == spec_u64_from_le_bytes(b@.subrange(pos as int, pos as int + 8)),
{
    let tmp = copy_range(b, pos, 8);
    u64_from_le_bytes(tmp.as_slice())
}

/// Encodes one record for its retry file.
pub fn encode_retry_record(r: &RetryRecord) -> (b: Vec<u8>)
    ensures
        b@ == spec_encode_record(r.due_time, r.dstname@, r.mail_from_src@, r.mail_data@),
{
    let mut out = u64_to_le_bytes(r.due_time);
    let mut dbytes = r.dstname.as_str().as_bytes_vec();
    let mut dlen = u64_to_le_bytes(dbytes.len() as u64);
    let mut sbytes = r.mail_from_src.as_str().as_bytes_vec();
    let mut slen = u64_to_le_bytes(sbytes.len() as u64);
    let mut mlen = u64_to_le_bytes(r.mail_data.len() as u64);
    let mut data = vstd::slice::slice_to_vec(r.mail_data.as_slice());
    out.append(&mut dlen);
    out.append(&mut dbytes);
    out.append(&mut slen);
    out.append(&mut sbytes);
    out.append(&mut mlen);
    out.append(&mut data);
    proof {
        assert(out@ =~= spec_encode_record(r.due_time, r.dstname@, r.mail_from_src@, r.mail_data@));
    }
    out
}

/// Decodes one retry file.  Returns the record exactly when the bytes
/// are a well-formed encoding; a damaged or truncated file yields
/// nothing (and is skipped with a log by the embedding).
pub fn parse_retry_record(b: &Vec<u8>) -> (r: Option<RetryRecord>)
    ensures
        match r {
            Some(rec) => spec_parse_record(b@) == Some(
                (rec.due_time, rec.dstname@, rec.mail_from_src@, rec.mail_data@),
            ),
            None => spec_parse_record(b@) is None,
        },
{
    let total = b.len();
    if total < 24 {
        return None;
    }
    let due = read_u64_at(b, 0);
    let dlen64 = read_u64_at(b, 8);
    if dlen64 > (total - 24) as u64 {
        return None;
    }
    let dlen = dlen64 as usize;
    let dbytes = copy_range(b, 16, dlen);
    let slen64 = read_u64_at(b, 16 + dlen);
    if (total - 24 - dlen) < 8 {
        proof {
            assert(spec_parse_record(b@) is None);
        }
        return None;
    }
    if slen64 > (total - 32 - dlen) as u64 {
        return None;
    }
    let slen = slen64 as usize;
    let sbytes = copy_range(b, 24 + dlen, slen);
    let mlen64 = read_u64_at(b, 24 + dlen + slen);
    if mlen64 != (total - 32 - dlen - slen) as u64 {
        return None;
    }
    let mlen = mlen64 as usize;
    let mbytes = copy_range(b, 32 + dlen + slen, mlen);
    let dstname = match string_from_utf8(dbytes) {
        Some(s) => s,
        None => {
            return None;
        },
    };
    let mail_from_src = match string_from_utf8(sbytes) {
        Some(s) => s,
        None => {
            return None;
        },
    };
    proof {
        encode_utf8_decode_utf8(dstname@);
        encode_utf8_decode_utf8(mail_from_src@);
        encode_utf8_valid_utf8(dstname@);
        encode_utf8_valid_utf8(mail_from_src@);
    }
    Some(RetryRecord { due_time: due, dstname, mail_from_src, mail_data: mbytes })
}

/// What is persisted is what is restored: parsing an encoded record
/// yields the same due time, destination, origin and bytes.  A mail
/// enqueued by the durable retry agent therefore survives a restart
/// unchanged, modulo the wall clock.
pub proof fn lemma_record_round_trip(due: u64, dst: Seq<char>, src: Seq<char>, data: Seq<u8>)
    requires
        encode_utf8(dst).len() <= u64::MAX,
        encode_utf8(src).len() <= u64::MAX,
        data.len() <= u64::MAX,
        24 + encode_utf8(dst).len() + encode_utf8(src).len() + data.len() + 8 <= u64::MAX,
    ensures
        spec_parse_record(spec_encode_record(due, dst, src, data)) == Some(
            (due, dst, src, data),
        ),
{
    lemma_auto_spec_u64_to_from_le_bytes();
    let b = spec_encode_record(due, dst, src, data);
    let dbytes = encode_utf8(dst);
    let sbytes = encode_utf8(src);
    let dlen = dbytes.len() as int;
    let slen = sbytes.len() as int;
    let mlen = data.len() as int;
    assert(b.len() == 32 + dlen + slen + mlen);
    assert(b.subrange(0, 8) =~= spec_u64_to_le_bytes(due));
    assert(b.subrange(8, 16) =~= spec_u64_to_le_bytes(dbytes.len() as u64));
    assert(spec_u64_from_le_bytes(b.subrange(8, 16)) == dlen);
    assert(b.subrange(16, 16 + dlen) =~= dbytes);
    assert(b.subrange(16 + dlen, 24 + dlen) =~= spec_u64_to_le_bytes(sbytes.len() as u64));
    assert(spec_u64_from_le_bytes(b.subrange(16 + dlen, 24 + dlen)) == slen);
    assert(b.subrange(24 + dlen, 24 + dlen + slen) =~= sbytes);
    assert(b.subrange(24 + dlen + slen, 32 + dlen + slen) =~= spec_u64_to_le_bytes(
        data.len() as u64,
    ));
    assert(spec_u64_from_le_bytes(b.subrange(24 + dlen + slen, 32 + dlen + slen)) == mlen);
    assert(b.subrange(32 + dlen + slen, b.len() as int) =~= data);
    encode_utf8_valid_utf8(dst);
    encode_utf8_valid_utf8(src);
    encode_utf8_decode_utf8(dst);
    encode_utf8_decode_utf8(src);
}

/// The characters of one candidate retry file name:
/// `<dir>/<hash>_to_<dstname>-<attempt>.json`.
pub open spec fn spec_retry_file_name(
    dir: Seq<char>,
    hash: Seq<char>,
    dstname: Seq<char>,
    attempt: nat,
) -> Seq<char> {
    dir + "/"@ + hash + "_to_"@ + dstname + "-"@ + dec_digits(attempt) + ".json"@
}

/// Builds one candidate retry file name for `attempt`.
pub fn retry_file_name(dir: &String, hash: &String, dstname: &String, attempt: u64) -> (name:
    String)
    ensures
        name@ == spec_retry_file_name(dir@, hash@, dstname@, attempt as nat),
{
    let mut name = String::new();
    name.append(dir.as_str());
    name.append("/");
    name.append(hash.as_str());
    name.append("_to_");
    name.append(dstname.as_str());
    name.append("-");
    let digits = u64_to_dec_string(attempt);
    name.append(digits.as_str());
    name.append(".json");
    name
}

/// The candidate file names tried for one enqueued mail, in order: ten
/// attempt indices guard against fingerprint collisions when the same
/// mail keeps failing toward the same destination.  The embedding
/// creates the first candidate that does not yet exist.
pub fn retry_file_candidates(dir: &String, hash: &String, dstname: &String) -> (names: Vec<String>)
    ensures
        names@.len() == 10,
        forall|i: int|
            0 <= i < 10 ==> (#[trigger] names@[i])@ == spec_retry_file_name(
                dir@,
                hash@,
                dstname@,
                i as nat,
            ),
{
    let mut names: Vec<String> = Vec::new();
    for i in 0..10u64
        invariant
            names@.len() == i,
            forall|k: int|
                0 <= k < i ==> (#[trigger] names@[k])@ == spec_retry_file_name(
                    dir@,
                    hash@,
                    dstname@,
                    k as nat,
                ),
    {
        names.push(retry_file_name(dir, hash, dstname, i));
    }
    names
}

/// Whether `s` ends in `.json`: only such directory entries are read
/// back as retry files at startup.
pub fn has_json_suffix(s: &String) -> (r: bool)
    ensures
        r == (s@.len() >= 5 && s@.subrange(s@.len() - 5, s@.len() as int) == ".json"@),
{
    proof {
        reveal_strlit(".json");
    }
    let sfx = ".json";
    let n = s.as_str().unicode_len();
    if n < 5 {
        return false;
    }
    let mut i: usize = 0;
    while i < 5
        invariant
            5 <= n == s@.len(),
            i <= 5,
            sfx@ == ".json"@,
            ".json"@.len() == 5,
            forall|k: int| 0 <= k < i ==> s@[n - 5 + k] == ".json"@[k],
        decreases 5 - i,
    {
        proof {
            reveal_strlit(".json");
        }
        if s.as_str().get_char(n - 5 + i) != sfx.get_char(i) {
            proof {
                assert(s@[n - 5 + i] != ".json"@[i as int]);
                assert(s@.subrange(s@.len() - 5, s@.len() as int)[i as int] == s@[n - 5 + i]);
            }
            return false;
        }
        i = i + 1;
    }
    proof {
        assert(s@.subrange(s@.len() - 5, s@.len() as int) =~= ".json"@);
    }
    true
}

} // verus!
