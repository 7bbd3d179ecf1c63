use vstd::prelude::*;
use crate::hex::{hex_seq, lemma_pow16_32, parse_hex, to_hex};
use vstd::string::StrSliceExecFns;
use vstd::string::StringExecFns;

verus! {

/// The out-of-band bundle that bootstraps an outbound session: the remote
/// device's id and its public key material, carried as text.
pub struct Invitation {
    pub device_id: u128,
    pub identity_key: String,
    pub one_time_key: String,
}

pub open spec fn lit_head() -> Seq<char> {
    "{\"device_id\":\""@
}

pub open spec fn lit_ik() -> Seq<char> {
    "\",\"identity_key\":\""@
}

pub open spec fn lit_otk() -> Seq<char> {
    "\",\"one_time_key\":\""@
}

pub open spec fn lit_tail() -> Seq<char> {
    "\"}"@
}

/// The textual encoding of an invitation: a compact object with the device id
/// written as 32 hexadecimal digits and the two keys written verbatim.
///
/// The encoding is deliberately canonical: a triple has exactly one rendering
/// (fixed field order, lower-case hexadecimal id, no whitespace), and the
/// reader accepts nothing but that rendering. Canonical form keeps renderings
/// injective and makes acceptance exactly decidable in the reader's contract;
/// looser object texts, with the fields in another order or the id written
/// with hyphens, are rejected on purpose.
pub open spec fn invitation_text(id: u128, ik: Seq<char>, otk: Seq<char>) -> Seq<char> {
    lit_head() + hex_seq(id, 32) + lit_ik() + ik + lit_otk() + otk + lit_tail()
}

pub open spec fn quote_free(s: Seq<char>) -> bool {
    forall|i: int| 0 <= i < s.len() ==> s[i] != '"'
}

/// A well-formed rendering of the triple `(id, ik, otk)`: the keys carry no
/// quote character, so the rendering can be read back unambiguously.
pub open spec fn wf_invitation_text(
    s: Seq<char>,
    id: u128,
    ik: Seq<char>,
    otk: Seq<char>,
) -> bool {
    &&& quote_free(ik)
    &&& quote_free(otk)
    &&& s == invitation_text(id, ik, otk)
}

proof fn reveal_lits()
    ensures
        lit_head().len() == 14,
        lit_ik().len() == 18,
        lit_otk().len() == 18,
        lit_tail().len() == 2,
        lit_ik()[0] == '"',
        lit_otk()[0] == '"',
        lit_tail()[0] == '"',
{
    reveal_strlit("{\"device_id\":\"");
    reveal_strlit("\",\"identity_key\":\"");
    reveal_strlit("\",\"one_time_key\":\"");
    reveal_strlit("\"}");
}

/// Where each part of an invitation rendering stands in the whole text.
proof fn lemma_invitation_text_parts(id: u128, ik: Seq<char>, otk: Seq<char>)
    ensures
        invitation_text(id, ik, otk).len() == 84 + ik.len() as int + otk.len() as int,
        invitation_text(id, ik, otk).subrange(0, 14) == lit_head(),
        invitation_text(id, ik, otk).subrange(14, 46) == hex_seq(id, 32),
        invitation_text(id, ik, otk).subrange(46, 64) == lit_ik(),
        invitation_text(id, ik, otk).subrange(64, 64 + ik.len() as int) == ik,
        invitation_text(id, ik, otk).subrange(64 + ik.len() as int, 82 + ik.len() as int) == lit_otk(),
        invitation_text(id, ik, otk).subrange(
            82 + ik.len() as int,
            82 + ik.len() as int + otk.len() as int,
        ) == otk,
        invitation_text(id, ik, otk).subrange(
            82 + ik.len() as int + otk.len() as int,
            84 + ik.len() as int + otk.len() as int,
        ) == lit_tail(),
{
    reveal_lits();
    let t = invitation_text(id, ik, otk);
    assert(t.subrange(0, 14) =~= lit_head());
    assert(t.subrange(14, 46) =~= hex_seq(id, 32));
    assert(t.subrange(46, 64) =~= lit_ik());
    assert(t.subrange(64, 64 + ik.len() as int) =~= ik);
    assert(t.subrange(64 + ik.len() as int, 82 + ik.len() as int) =~= lit_otk());
    assert(t.subrange(82 + ik.len() as int, 82 + ik.len() as int + otk.len() as int) =~= otk);
    assert(t.subrange(82 + ik.len() as int + otk.len() as int, 84 + ik.len() as int + otk.len() as int) =~= lit_tail());
}

/// A well-formed invitation text determines the triple it was written from:
/// no two quote-free triples share one rendering.
pub proof fn lemma_invitation_text_injective(
    id1: u128,
    ik1: Seq<char>,
    otk1: Seq<char>,
    id2: u128,
    ik2: Seq<char>,
    otk2: Seq<char>,
)
    requires
        quote_free(ik1),
        quote_free(otk1),
        quote_free(ik2),
        quote_free(otk2),
        invitation_text(id1, ik1, otk1) == invitation_text(id2, ik2, otk2),
    ensures
        id1 == id2,
        ik1 == ik2,
        otk1 == otk2,
{
    reveal_lits();
    let t = invitation_text(id1, ik1, otk1);
    lemma_invitation_text_parts(id1, ik1, otk1);
    lemma_invitation_text_parts(id2, ik2, otk2);
    assert(ik1.len() == ik2.len()) by {
        if ik1.len() < ik2.len() {
            assert(t.subrange(64 + ik1.len() as int, 82 + ik1.len() as int)[0] == '"');
            assert(t[64 + ik1.len() as int] == '"');
            assert(t.subrange(64, 64 + ik2.len() as int)[ik1.len() as int] == ik2[ik1.len() as int]);
            assert(ik2[ik1.len() as int] != '"');
        }
        if ik2.len() < ik1.len() {
            assert(t.subrange(64 + ik2.len() as int, 82 + ik2.len() as int)[0] == '"');
            assert(t[64 + ik2.len() as int] == '"');
            assert(t.subrange(64, 64 + ik1.len() as int)[ik2.len() as int] == ik1[ik2.len() as int]);
            assert(ik1[ik2.len() as int] != '"');
        }
    }
    assert(ik1 == t.subrange(64, 64 + ik1.len() as int));
    assert(ik2 == t.subrange(64, 64 + ik1.len() as int));
    assert(otk1.len() == otk2.len());
    assert(otk1 == t.subrange(82 + ik1.len() as int, 82 + ik1.len() as int + otk1.len() as int));
    assert(otk2 == t.subrange(82 + ik1.len() as int, 82 + ik1.len() as int + otk1.len() as int));
    lemma_pow16_32();
    assert(hex_seq(id1, 32) == t.subrange(14, 46));
    assert(hex_seq(id2, 32) == t.subrange(14, 46));
    crate::hex::lemma_hex_seq_injective(id1, id2, 32);
}

/// Whether the characters of `lit` stand in `s` at position `pos`.
fn match_at(s: &str, pos: usize, lit: &str) -> (b: bool)
    requires
        pos + lit@.len() <= s@.len(),
        s@.len() <= usize::MAX,
    ensures
        b <==> s@.subrange(pos as int, pos + lit@.len()) == lit@,
{
    let m = lit.unicode_len();
    let ghost sub = s@.subrange(pos as int, pos + lit@.len());
    let mut i: usize = 0;
    while i < m
        invariant
            0 <= i <= m,
            m == lit@.len(),
            pos + m <= s@.len() <= usize::MAX,
            sub == s@.subrange(pos as int, pos + lit@.len()),
            forall|j: int| 0 <= j < i ==> s@[pos + j] == lit@[j],
        decreases m - i,
    {
        if s.get_char(pos + i) != lit.get_char(i) {
            proof {
                assert(sub[i as int] == s@[pos + i]);
                assert(sub != lit@);
            }
            return false;
        }
        i = i + 1;
    }
    proof {
        assert(sub =~= lit@);
    }
    true
}

/// The position of the first quote character at or after `from`, if any.
fn find_quote(s: &str, from: usize) -> (r: Option<usize>)
    requires
        from <= s@.len(),
        s@.len() <= usize::MAX,
    ensures
        r matches Some(q) ==> from <= q < s@.len() && s@[q as int] == '"' && (forall|j: int|
            from <= j < q ==> s@[j] != '"'),
        r is None ==> forall|j: int| from <= j < s@.len() ==> s@[j] != '"',
{
    let n = s.unicode_len();
    let mut i: usize = from;
    while i < n
        invariant
            from <= i <= n,
            n == s@.len() <= usize::MAX,
            forall|j: int| from <= j < i ==> s@[j] != '"',
        decreases n - i,
    {
        if s.get_char(i) == '"' {
            return Some(i);
        }
        i = i + 1;
    }
    None
}

/// Writes the invitation text for a device id and its two public keys.
pub fn encode_invitation(id: u128, ik: &str, otk: &str) -> (r: String)
    ensures
        r@ == invitation_text(id, ik@, otk@),
{
    let mut r = String::new();
    r.append("{\"device_id\":\"");
    let hex = to_hex(id, 32);
    r.append(hex.as_str());
    r.append("\",\"identity_key\":\"");
    r.append(ik);
    r.append("\",\"one_time_key\":\"");
    r.append(otk);
    r.append("\"}");
    proof {
        assert(r@ =~= invitation_text(id, ik@, otk@));
    }
    r
}

/// Reads an invitation back from its text.
///
/// The first clause says that whatever is accepted really is the rendering of
/// the returned invitation; the second says that every well-formed rendering
/// is accepted and read back as the triple it was written from. A text from
/// which no triple can be read fails, which is the validation demanded at
/// finalize time. Only the canonical rendering is accepted (see
/// `invitation_text`): acceptance is decided by re-encoding the triple that
/// was read and comparing it with the input.
pub fn parse_invitation(s: &str) -> (r: Option<Invitation>)
    ensures
        r matches Some(inv) ==> wf_invitation_text(
            s@,
            inv.device_id,
            inv.identity_key@,
            inv.one_time_key@,
        ),
        forall|id: u128, ik: Seq<char>, otk: Seq<char>|
            wf_invitation_text(s@, id, ik, otk) ==> (r matches Some(inv) && inv.device_id == id
                && inv.identity_key@ == ik && inv.one_time_key@ == otk),
{
    let n = s.unicode_len();
    proof {
        reveal_lits();
    }
    if n < 84 {
        proof {
            assert forall|id: u128, ik: Seq<char>, otk: Seq<char>|
                !wf_invitation_text(s@, id, ik, otk) by {
                if wf_invitation_text(s@, id, ik, otk) {
                    lemma_invitation_text_parts(id, ik, otk);
                }
            }
        }
        return None;
    }
    if !match_at(s, 0, "{\"device_id\":\"") {
        proof {
            reveal_lits();
            assert forall|id: u128, ik: Seq<char>, otk: Seq<char>|
                !wf_invitation_text(s@, id, ik, otk) by {
                if wf_invitation_text(s@, id, ik, otk) {
                    lemma_invitation_text_parts(id, ik, otk);
                }
            }
        }
        return None;
    }
    let id = match parse_hex(s, 14, 32) {
        Some(v) => v,
        None => {
            proof {
                lemma_pow16_32();
                assert forall|id0: u128, ik: Seq<char>, otk: Seq<char>|
                    !wf_invitation_text(s@, id0, ik, otk) by {
                    if wf_invitation_text(s@, id0, ik, otk) {
                        lemma_invitation_text_parts(id0, ik, otk);
                    }
                }
            }
            return None;
        },
    };
    if !match_at(s, 46, "\",\"identity_key\":\"") {
        proof {
            reveal_lits();
            assert forall|id0: u128, ik: Seq<char>, otk: Seq<char>|
                !wf_invitation_text(s@, id0, ik, otk) by {
                if wf_invitation_text(s@, id0, ik, otk) {
                    lemma_invitation_text_parts(id0, ik, otk);
                    lemma_pow16_32();
                }
            }
        }
        return None;
    }
    let q1 = match find_quote(s, 64) {
        Some(q) => q,
        None => {
            proof {
                assert forall|id0: u128, ik: Seq<char>, otk: Seq<char>|
                    !wf_invitation_text(s@, id0, ik, otk) by {
                    if wf_invitation_text(s@, id0, ik, otk) {
                        lemma_invitation_text_parts(id0, ik, otk);
                        reveal_lits();
                        assert(s@.subrange(64 + ik.len() as int, 82 + ik.len() as int)[0] == '"');
                        assert(s@[64 + ik.len() as int] == '"');
                    }
                }
            }
            return None;
        },
    };
    proof {
        assert forall|id0: u128, ik: Seq<char>, otk: Seq<char>|
            wf_invitation_text(s@, id0, ik, otk) implies q1 == 64 + ik.len() as int by {
            lemma_invitation_text_parts(id0, ik, otk);
            reveal_lits();
            assert(s@.subrange(64 + ik.len() as int, 82 + ik.len() as int)[0] == '"');
            assert(s@[64 + ik.len() as int] == '"');
            if q1 < 64 + ik.len() as int {
                assert(s@.subrange(64, 64 + ik.len() as int)[q1 - 64] == s@[q1 as int]);
                assert(ik[q1 - 64] != '"');
            }
        }
    }
    if n - q1 < 18 {
        proof {
            assert forall|id0: u128, ik: Seq<char>, otk: Seq<char>|
                !wf_invitation_text(s@, id0, ik, otk) by {
                if wf_invitation_text(s@, id0, ik, otk) {
                    lemma_invitation_text_parts(id0, ik, otk);
                }
            }
        }
        return None;
    }
    if !match_at(s, q1, "\",\"one_time_key\":\"") {
        proof {
            reveal_lits();
            assert forall|id0: u128, ik: Seq<char>, otk: Seq<char>|
                !wf_invitation_text(s@, id0, ik, otk) by {
                if wf_invitation_text(s@, id0, ik, otk) {
                    lemma_invitation_text_parts(id0, ik, otk);
                }
            }
        }
        return None;
    }
    let q2 = match find_quote(s, q1 + 18) {
        Some(q) => q,
        None => {
            proof {
                assert forall|id0: u128, ik: Seq<char>, otk: Seq<char>|
                    !wf_invitation_text(s@, id0, ik, otk) by {
                    if wf_invitation_text(s@, id0, ik, otk) {
                        lemma_invitation_text_parts(id0, ik, otk);
                        reveal_lits();
                        assert(s@.subrange(
                            82 + ik.len() as int + otk.len() as int,
                            84 + ik.len() as int + otk.len() as int,
                        )[0] == '"');
                        assert(s@[82 + ik.len() as int + otk.len() as int] == '"');
                    }
                }
            }
            return None;
        },
    };
    proof {
        assert forall|id0: u128, ik: Seq<char>, otk: Seq<char>|
            wf_invitation_text(s@, id0, ik, otk) implies q2 == 82 + ik.len() as int + otk.len() as int by {
            lemma_invitation_text_parts(id0, ik, otk);
            reveal_lits();
            assert(s@.subrange(82 + ik.len() as int + otk.len() as int, 84 + ik.len() as int + otk.len() as int)[0] == '"');
            assert(s@[82 + ik.len() as int + otk.len() as int] == '"');
            if q2 < 82 + ik.len() as int + otk.len() as int {
                assert(s@.subrange(
                    82 + ik.len() as int,
                    82 + ik.len() as int + otk.len() as int,
                )[q2 - 82 - ik.len() as int] == s@[q2 as int]);
                assert(otk[q2 - 82 - ik.len() as int] != '"');
            }
        }
    }
    if n - q2 != 2 {
        proof {
            assert forall|id0: u128, ik: Seq<char>, otk: Seq<char>|
                !wf_invitation_text(s@, id0, ik, otk) by {
                if wf_invitation_text(s@, id0, ik, otk) {
                    lemma_invitation_text_parts(id0, ik, otk);
                }
            }
        }
        return None;
    }
    let ik_str = s.substring_char(64, q1).to_owned();
    let otk_str = s.substring_char(q1 + 18, q2).to_owned();
    let enc = encode_invitation(id, ik_str.as_str(), otk_str.as_str());
    let s_owned = s.to_owned();
    if enc == s_owned {
        proof {
            assert(quote_free(ik_str@)) by {
                assert forall|i: int| 0 <= i < ik_str@.len() implies ik_str@[i] != '"' by {
                    assert(ik_str@[i] == s@[64 + i]);
                }
            }
            assert(quote_free(otk_str@)) by {
                assert forall|i: int| 0 <= i < otk_str@.len() implies otk_str@[i] != '"' by {
                    assert(otk_str@[i] == s@[q1 + 18 + i]);
                }
            }
            assert forall|id0: u128, ik: Seq<char>, otk: Seq<char>|
                wf_invitation_text(s@, id0, ik, otk) implies id == id0 && ik_str@ == ik
                && otk_str@ == otk by {
                lemma_invitation_text_parts(id0, ik, otk);
                lemma_pow16_32();
                assert(ik_str@ =~= s@.subrange(64, 64 + ik.len() as int));
                assert(otk_str@ =~= s@.subrange(82 + ik.len() as int, 82 + ik.len() as int + otk.len() as int));
            }
        }
        Some(
            Invitation {
                device_id: id,
                identity_key: ik_str,
                one_time_key: otk_str,
            },
        )
    } else {
        proof {
            assert forall|id0: u128, ik: Seq<char>, otk: Seq<char>|
                !wf_invitation_text(s@, id0, ik, otk) by {
                if wf_invitation_text(s@, id0, ik, otk) {
                    lemma_invitation_text_parts(id0, ik, otk);
                    lemma_pow16_32();
                    assert(ik_str@ =~= s@.subrange(64, 64 + ik.len() as int));
                    assert(otk_str@ =~= s@.subrange(82 + ik.len() as int, 82 + ik.len() as int + otk.len() as int));
                    assert(enc@ == invitation_text(id, ik_str@, otk_str@));
                    assert(enc@ == s@);
                }
            }
        }
        None
    }
}

} // verus!
