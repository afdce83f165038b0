//! Source-side decisions: what a source does with the messages one
//! fetch round brought in, how IMAP call failures are retried, and the
//! sequence-set string used to delete fetched messages.

use crate::digits::{dec_digits, u64_to_dec_string};
use crate::mail::{fingerprint_string, Mail};
use vstd::prelude::*;

verus! {

/// Turns one fetch round into hub events: every fetched message
/// becomes a mail tagged with this source's name, and — unless the
/// source is configured to keep messages — its server-side id is
/// collected for deletion.
pub fn process_unseen(srcname: &String, keep: bool, fetched: Vec<(u32, Vec<u8>)>) -> (r: (
    Vec<Mail>,
    Vec<u32>,
))
    ensures
        r.0@.len() == fetched@.len(),
        forall|i: int|
            0 <= i < fetched@.len() ==> {
                &&& (#[trigger] r.0@[i])@.from_src == srcname@
                &&& r.0@[i]@.data == fetched@[i].1@
                &&& r.0@[i]@.hash == fingerprint_string(fetched@[i].1@)
            },
        keep ==> r.1@.len() == 0,
        !keep ==> r.1@ == fetched@.map_values(|p: (u32, Vec<u8>)| p.0),
{
    let ghost orig = fetched@;
    let mut rest = fetched;
    let mut mails: Vec<Mail> = Vec::new();
    let mut ids: Vec<u32> = Vec::new();
    while rest.len() > 0
        invariant
            mails@.len() + rest@.len() == orig.len(),
            rest@ =~= orig.skip(mails@.len() as int),
            forall|i: int|
                0 <= i < mails@.len() ==> {
                    &&& (#[trigger] mails@[i])@.from_src == srcname@
                    &&& mails@[i]@.data == orig[i].1@
                    &&& mails@[i]@.hash == fingerprint_string(orig[i].1@)
                },
            keep ==> ids@.len() == 0,
            !keep ==> ids@ =~= orig.take(mails@.len() as int).map_values(
                |p: (u32, Vec<u8>)| p.0,
            ),
        decreases rest.len(),
    {
        let ghost done = mails@.len() as int;
        let (id, bytes) = rest.remove(0);
        proof {
            assert(orig.skip(done)[0] == orig[done]);
            assert(rest@ =~= orig.skip(done + 1));
        }
        if !keep {
            ids.push(id);
            proof {
                assert(ids@ =~= orig.take(done + 1).map_values(|p: (u32, Vec<u8>)| p.0));
            }
        }
        mails.push(Mail::from_rfc822(srcname.clone(), bytes));
    }
    proof {
        assert(orig.take(orig.len() as int) =~= orig);
    }
    (mails, ids)
}

/// A mailbox that can render its place in the folder hierarchy.
pub trait MailPath {
    fn path(&self) -> String;
}

/// A mailbox name with every occurrence of the server's hierarchy
/// delimiter replaced by `/`, scanning left to right.  A tail shorter
/// than the delimiter is kept as it is.
pub open spec fn spec_mailbox_path(s: Seq<char>, delim: Seq<char>) -> Seq<char>
    decreases s.len(),
{
    if delim.len() == 0 || s.len() < delim.len() {
        s
    } else if s.take(delim.len() as int) == delim {
        seq!['/'] + spec_mailbox_path(s.skip(delim.len() as int), delim)
    } else {
        seq![s[0]] + spec_mailbox_path(s.skip(1), delim)
    }
}

/// Whether the characters of `d` stand in `name` at position `i`.
fn delim_at(name: &str, i: usize, d: &str, dl: usize) -> (b: bool)
    requires
        dl == d@.len(),
        i + dl <= name@.len(),
        i + dl <= usize::MAX,
    ensures
        b == (name@.subrange(i as int, i as int + dl as int) == d@),
{
    let mut k: usize = 0;
    while k < dl
        invariant
            dl == d@.len(),
            i + dl <= name@.len(),
            i + dl <= usize::MAX,
            k <= dl,
            forall|m: int| 0 <= m < k ==> name@[i + m] == d@[m],
        decreases dl - k,
    {
        if name.get_char(i + k) != d.get_char(k) {
            proof {
                assert(name@.subrange(i as int, i as int + dl as int)[k as int] != d@[k as int]);
            }
            return false;
        }
        k = k + 1;
    }
    proof {
        assert(name@.subrange(i as int, i as int + dl as int) =~= d@);
    }
    true
}

/// Renders a mailbox name for display: the hierarchy delimiter the
/// server reported, if any, is replaced by `/`.
pub fn mailbox_path(name: &str, delimiter: Option<&str>) -> (r: String)
    ensures
        r@ == match delimiter {
            Some(d) => spec_mailbox_path(name@, d@),
            None => name@,
        },
{
    let d = match delimiter {
        Some(d) => d,
        None => {
            return String::from_str(name);
        },
    };
    let dl = d.unicode_len();
    if dl == 0 {
        return String::from_str(name);
    }
    let nl = name.unicode_len();
    let mut out = String::new();
    let mut i: usize = 0;
    proof {
        assert(name@.skip(0) =~= name@);
        assert(out@ + spec_mailbox_path(name@, d@) =~= spec_mailbox_path(name@, d@));
    }
    while i < nl
        invariant
            nl == name@.len(),
            dl == d@.len(),
            0 < dl,
            i <= nl,
            spec_mailbox_path(name@, d@) == out@ + spec_mailbox_path(name@.skip(i as int), d@),
        decreases nl - i,
    {
        let ghost rest = name@.skip(i as int);
        let matches_here = if dl <= nl - i {
            delim_at(name, i, d, dl)
        } else {
            false
        };
        let ghost pre_out = out@;
        if matches_here {
            proof {
                assert(rest.take(dl as int) =~= name@.subrange(i as int, i as int + dl as int));
                assert(rest.skip(dl as int) =~= name@.skip(i as int + dl as int));
                assert(spec_mailbox_path(rest, d@) == seq!['/'] + spec_mailbox_path(
                    name@.skip(i as int + dl as int),
                    d@,
                ));
            }
            out.append("/");
            i = i + dl;
            proof {
                reveal_strlit("/");
                assert("/"@ =~= seq!['/']);
                assert(pre_out + (seq!['/'] + spec_mailbox_path(name@.skip(i as int), d@))
                    =~= out@ + spec_mailbox_path(name@.skip(i as int), d@));
            }
        } else {
            let c = name.substring_char(i, i + 1);
            proof {
                assert(rest[0] == name@[i as int]);
                assert(rest.skip(1) =~= name@.skip(i as int + 1));
                assert(c@ =~= seq![rest[0]]);
                if rest.len() >= dl {
                    assert(rest.take(dl as int) =~= name@.subrange(
                        i as int,
                        i as int + dl as int,
                    ));
                    assert(spec_mailbox_path(rest, d@) == seq![rest[0]] + spec_mailbox_path(
                        rest.skip(1),
                        d@,
                    ));
                } else {
                    assert(spec_mailbox_path(rest, d@) == rest);
                    assert(spec_mailbox_path(rest.skip(1), d@) == rest.skip(1));
                    assert(rest =~= seq![rest[0]] + rest.skip(1));
                }
            }
            out.append(c);
            i = i + 1;
            proof {
                assert(pre_out + (seq![rest[0]] + spec_mailbox_path(name@.skip(i as int), d@))
                    =~= out@ + spec_mailbox_path(name@.skip(i as int), d@));
            }
        }
    }
    proof {
        assert(name@.skip(nl as int).len() == 0);
        assert(spec_mailbox_path(name@.skip(nl as int), d@) =~= Seq::<char>::empty());
        assert(out@ =~= out@ + Seq::<char>::empty());
    }
    out
}

/// How an IMAP source reacts to one failed call against its session.
pub enum ImapRetryDecision {
    /// The connection was lost: throw the cached session away and call
    /// again with a fresh one.
    ResetSession,
    /// Another failure: try the same session again.
    RetryCall,
    /// Three failures without a lost connection: give the error up to
    /// the caller.
    GiveUp,
}

/// The retry rule of the shared IMAP connection: a lost connection
/// resets the cached session and never counts; any other error is
/// retried until the third attempt.
pub fn imap_retry_decision(connection_lost: bool, failed_attempts: u32) -> (d: ImapRetryDecision)
    ensures
        connection_lost ==> d is ResetSession,
        !connection_lost && failed_attempts < 2 ==> d is RetryCall,
        !connection_lost && failed_attempts >= 2 ==> d is GiveUp,
{
    if connection_lost {
        ImapRetryDecision::ResetSession
    } else if failed_attempts < 2 {
        ImapRetryDecision::RetryCall
    } else {
        ImapRetryDecision::GiveUp
    }
}

/// The comma-separated decimal rendering of the fetched message ids,
/// as the IMAP `STORE` command wants its sequence set.
pub open spec fn spec_sequence_set(ids: Seq<u32>) -> Seq<char>
    decreases ids.len(),
{
    if ids.len() == 0 {
        Seq::empty()
    } else if ids.len() == 1 {
        dec_digits(ids[0] as nat)
    } else {
        dec_digits(ids[0] as nat) + ","@ + spec_sequence_set(ids.skip(1))
    }
}

/// Appending one id extends the rendering at its tail.
proof fn lemma_sequence_set_push(ids: Seq<u32>, x: u32)
    ensures
        spec_sequence_set(ids.push(x)) == if ids.len() == 0 {
            dec_digits(x as nat)
        } else {
            spec_sequence_set(ids) + ","@ + dec_digits(x as nat)
        },
    decreases ids.len(),
{
    let p = ids.push(x);
    if ids.len() == 0 {
        assert(p.len() == 1);
        assert(p[0] == x);
    } else {
        lemma_sequence_set_push(ids.skip(1), x);
        assert(p.skip(1) =~= ids.skip(1).push(x));
        assert(p[0] == ids[0]);
        if ids.len() == 1 {
            assert(spec_sequence_set(p) == dec_digits(ids[0] as nat) + ","@ + dec_digits(
                x as nat,
            ));
        } else {
            assert(dec_digits(p[0] as nat) + ","@ + (spec_sequence_set(ids.skip(1)) + ","@
                + dec_digits(x as nat)) =~= (dec_digits(ids[0] as nat) + ","@
                + spec_sequence_set(ids.skip(1))) + ","@ + dec_digits(x as nat));
        }
    }
}

/// Renders the ids for deletion: their decimal values, joined by
/// commas.
pub fn sequence_set_string(ids: &Vec<u32>) -> (s: String)
    ensures
        s@ == spec_sequence_set(ids@),
{
    let mut s = String::new();
    let n = ids.len();
    for i in 0..n
        invariant
            n == ids.len(),
            s@ == spec_sequence_set(ids@.take(i as int)),
    {
        if i > 0 {
            s.append(",");
        }
        let d = u64_to_dec_string(ids[i] as u64);
        s.append(d.as_str());
        proof {
            lemma_sequence_set_push(ids@.take(i as int), ids@[i as int]);
            assert(ids@.take(i as int).push(ids@[i as int]) =~= ids@.take(i + 1));
            if i > 0 {
                assert(s@ =~= spec_sequence_set(ids@.take(i as int)) + ","@ + dec_digits(
                    ids@[i as int] as nat,
                ));
            }
        }
    }
    proof {
        assert(ids@.take(n as int) =~= ids@);
    }
    s
}

} // verus!
