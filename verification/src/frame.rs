use vstd::prelude::*;
use crate::hex::{hex_seq, parse_hex, pow16, to_hex};
use vstd::arithmetic::power::{lemma_pow1, lemma_pow_adds};
use vstd::string::StrSliceExecFns;
use vstd::string::StringExecFns;

verus! {

/// The plaintext carried inside an encrypted envelope: a fixed-width
/// hexadecimal rendering of the timestamp, followed by the payload text.
pub open spec fn frame_text(ts: u64, payload: Seq<char>) -> Seq<char> {
    hex_seq(ts as u128, 16) + payload
}

proof fn lemma_pow16_16()
    ensures
        pow16(16) == 0x10000000000000000,
{
    lemma_pow1(16);
    lemma_pow_adds(16, 1, 1);
    assert(pow16(2) == 256);
    lemma_pow_adds(16, 2, 2);
    assert(pow16(4) == 0x10000);
    lemma_pow_adds(16, 4, 4);
    assert(pow16(8) == 0x100000000);
    lemma_pow_adds(16, 8, 8);
}

/// A frame determines the message it was written from: no two
/// timestamp-payload pairs share one plaintext frame.
pub proof fn lemma_frame_text_injective(
    ts1: u64,
    payload1: Seq<char>,
    ts2: u64,
    payload2: Seq<char>,
)
    requires
        frame_text(ts1, payload1) == frame_text(ts2, payload2),
    ensures
        ts1 == ts2,
        payload1 == payload2,
{
    let t = frame_text(ts1, payload1);
    lemma_pow16_16();
    assert(t.subrange(0, 16) =~= hex_seq(ts1 as u128, 16));
    assert(t.subrange(0, 16) =~= hex_seq(ts2 as u128, 16));
    crate::hex::lemma_hex_seq_injective(ts1 as u128, ts2 as u128, 16);
    assert(payload1 =~= t.subrange(16, t.len() as int));
    assert(payload2 =~= t.subrange(16, t.len() as int));
}

/// Writes the plaintext frame for one application message.
pub fn encode_frame(ts: u64, payload: &str) -> (r: String)
    ensures
        r@ == frame_text(ts, payload@),
{
    let mut r = to_hex(ts as u128, 16);
    r.append(payload);
    r
}

/// Reads a plaintext frame back into timestamp and payload.
///
/// The two clauses pin the function down: whatever it accepts really is the
/// frame for the returned pair, and every well-formed frame is accepted and
/// read back as the pair it was written from.
pub fn decode_frame(s: &str) -> (r: Option<(u64, String)>)
    ensures
        r matches Some(m) ==> s@ == frame_text(m.0, m.1@),
        forall|ts: u64, payload: Seq<char>|
            s@ == frame_text(ts, payload) ==> (r matches Some(m) && m.0 == ts && m.1@ == payload),
{
    let n = s.unicode_len();
    if n < 16 {
        proof {
            assert forall|ts: u64, payload: Seq<char>| s@ != frame_text(ts, payload) by {
                assert(frame_text(ts, payload).len() >= 16);
            }
        }
        return None;
    }
    let bits = match parse_hex(s, 0, 16) {
        Some(b) => b,
        None => {
            proof {
                lemma_pow16_16();
                assert forall|ts: u64, payload: Seq<char>| s@ != frame_text(ts, payload) by {
                    if s@ == frame_text(ts, payload) {
                        assert(s@.subrange(0, 16) =~= hex_seq(ts as u128, 16));
                    }
                }
            }
            return None;
        },
    };
    if bits > u64::MAX as u128 {
        proof {
            lemma_pow16_16();
            assert forall|ts: u64, payload: Seq<char>| s@ != frame_text(ts, payload) by {
                if s@ == frame_text(ts, payload) {
                    assert(s@.subrange(0, 16) =~= hex_seq(ts as u128, 16));
                    assert(bits == ts as u128);
                }
            }
        }
        return None;
    }
    let ts = bits as u64;
    let payload = s.substring_char(16, n).to_owned();
    let enc = encode_frame(ts, payload.as_str());
    let s_owned = s.to_owned();
    if enc == s_owned {
        proof {
            assert forall|ts0: u64, payload0: Seq<char>| s@ == frame_text(ts0, payload0)
                implies ts == ts0 && payload@ == payload0 by {
                lemma_pow16_16();
                assert(s@.subrange(0, 16) =~= hex_seq(ts0 as u128, 16));
                assert(bits == ts0 as u128);
                assert(payload0 =~= s@.subrange(16, s@.len() as int));
            }
        }
        Some((ts, payload))
    } else {
        proof {
            assert forall|ts0: u64, payload0: Seq<char>| s@ != frame_text(ts0, payload0) by {
                if s@ == frame_text(ts0, payload0) {
                    lemma_pow16_16();
                    assert(s@.subrange(0, 16) =~= hex_seq(ts0 as u128, 16));
                    assert(bits == ts0 as u128);
                    assert(payload@ =~= payload0);
                    assert(enc@ == s@);
                }
            }
        }
        None
    }
}

} // verus!
