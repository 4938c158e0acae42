use vstd::prelude::*;
use vstd::bytes::{
    lemma_auto_spec_u32_to_from_le_bytes, lemma_auto_spec_u64_to_from_le_bytes,
    spec_u32_from_le_bytes, spec_u32_to_le_bytes, spec_u64_from_le_bytes, spec_u64_to_le_bytes,
    u32_from_le_bytes, u32_to_le_bytes, u64_from_le_bytes, u64_to_le_bytes,
};
use vstd::slice::slice_subrange;
use vstd::string::{StrSliceExecFns, StringExecFns};
use vstd::utf8::{char_is_scalar, char_u32_cast, is_scalar};
use crate::submission::{SenateCFCModal, SubmissionView};

verus! {

// Stored records keep the last submission in a fixed-order, fixed-field binary
// form: a tag byte saying whether the handle is present, then each field as a
// little-endian 64-bit character count followed by each character as its
// little-endian 32-bit scalar value.

/// Relies on char::from_u32: yields the character with scalar value `x`
/// exactly when `x` is a unicode scalar value (not a surrogate and at
/// most 0x10FFFF), and nothing otherwise.
pub assume_specification[ char::from_u32 ](x: u32) -> (r: Option<char>)
    ensures
        r == (if is_scalar(x) {
            Option::Some(x as char)
        } else {
            Option::None::<char>
        }),
;

/// One character, encoded as its scalar value in four little-endian bytes.
pub open spec fn enc_char(c: char) -> Seq<u8> {
    spec_u32_to_le_bytes(c as u32)
}

/// A character sequence, encoded character by character.
pub open spec fn enc_chars(s: Seq<char>) -> Seq<u8>
    decreases s.len(),
{
    if s.len() == 0 {
        Seq::empty()
    } else {
        enc_char(s[0]) + enc_chars(s.drop_first())
    }
}

/// A string field: its character count in eight little-endian bytes, then
/// its characters.
pub open spec fn enc_str(s: Seq<char>) -> Seq<u8> {
    spec_u64_to_le_bytes(s.len() as u64) + enc_chars(s)
}

/// The encoded form of a whole submission.
pub open spec fn spec_encode(v: SubmissionView) -> Seq<u8> {
    match v.reddit_user {
        Option::Some(h) => seq![1u8] + enc_str(h) + enc_str(v.party) + enc_str(v.cfc),
        Option::None => seq![0u8] + enc_str(v.party) + enc_str(v.cfc),
    }
}

/// Decode `n` characters from the front of `b`; trailing bytes are ignored.
pub open spec fn dec_chars(b: Seq<u8>, n: nat) -> Option<Seq<char>>
    decreases n,
{
    if n == 0 {
        Option::Some(Seq::empty())
    } else if b.len() < 4 {
        Option::None
    } else {
        let x = spec_u32_from_le_bytes(b.take(4));
        if is_scalar(x) {
            match dec_chars(b.skip(4), (n - 1) as nat) {
                Option::Some(s) => Option::Some(seq![x as char] + s),
                Option::None => Option::None,
            }
        } else {
            Option::None
        }
    }
}

/// Decode one length-prefixed string from the front of `b`; on success also
/// gives how many bytes it occupied.
pub open spec fn dec_str(b: Seq<u8>) -> Option<(Seq<char>, int)> {
    if b.len() < 8 {
        Option::None
    } else {
        let n = spec_u64_from_le_bytes(b.take(8)) as nat;
        match dec_chars(b.skip(8), n) {
            Option::Some(s) => Option::Some((s, 8 + 4 * (n as int))),
            Option::None => Option::None,
        }
    }
}

/// What a byte sequence decodes to: a submission exactly when the bytes are a
/// complete, well-formed encoding, and nothing otherwise.
pub open spec fn spec_decode(b: Seq<u8>) -> Option<SubmissionView> {
    if b.len() < 1 {
        Option::None
    } else if b[0] == 1u8 {
        match dec_str(b.skip(1)) {
            Option::Some((h, c1)) => match dec_str(b.skip(1 + c1)) {
                Option::Some((p, c2)) => match dec_str(b.skip(1 + c1 + c2)) {
                    Option::Some((t, c3)) => if 1 + c1 + c2 + c3 == b.len() {
                        Option::Some(
                            (SubmissionView {
                                reddit_user: Option::Some(h),
                                party: p,
                                cfc: t,
                            }),
                        )
                    } else {
                        Option::None
                    },
                    Option::None => Option::None,
                },
                Option::None => Option::None,
            },
            Option::None => Option::None,
        }
    } else if b[0] == 0u8 {
        match dec_str(b.skip(1)) {
            Option::Some((p, c2)) => match dec_str(b.skip(1 + c2)) {
                Option::Some((t, c3)) => if 1 + c2 + c3 == b.len() {
                    Option::Some(
                        (SubmissionView { reddit_user: Option::None, party: p, cfc: t }),
                    )
                } else {
                    Option::None
                },
                Option::None => Option::None,
            },
            Option::None => Option::None,
        }
    } else {
        Option::None
    }
}

/// Appending one character to a sequence extends its encoding by that
/// character's encoding.
proof fn lemma_enc_chars_snoc(s: Seq<char>, i: int)
    requires
        0 <= i < s.len(),
    ensures
        enc_chars(s.take(i + 1)) == enc_chars(s.take(i)) + enc_char(s[i]),
    decreases i,
{
    if i == 0 {
        assert(s.take(1).drop_first() =~= Seq::<char>::empty());
        assert(s.take(1)[0] == s[0]);
        assert(enc_chars(Seq::<char>::empty()) == Seq::<u8>::empty());
        assert(enc_chars(s.take(1)) == enc_char(s[0]) + Seq::<u8>::empty());
        assert(enc_char(s[0]) + Seq::<u8>::empty() =~= enc_char(s[0]));
        assert(s.take(0) =~= Seq::<char>::empty());
        assert(enc_chars(s.take(0)) + enc_char(s[0]) =~= enc_char(s[0]));
    } else {
        let t = s.drop_first();
        lemma_enc_chars_snoc(t, i - 1);
        assert(s.take(i + 1).drop_first() =~= t.take(i));
        assert(s.take(i).drop_first() =~= t.take(i - 1));
        assert(s.take(i + 1)[0] == s[0]);
        assert(s.take(i)[0] == s[0]);
        assert(enc_chars(s.take(i + 1)) == enc_char(s[0]) + enc_chars(t.take(i)));
        assert(enc_chars(s.take(i)) == enc_char(s[0]) + enc_chars(t.take(i - 1)));
        assert(enc_char(s[0]) + (enc_chars(t.take(i - 1)) + enc_char(t[i - 1])) =~= (enc_char(s[0])
            + enc_chars(t.take(i - 1))) + enc_char(s[i]));
    }
}

/// Character encodings are four bytes each.
proof fn lemma_enc_chars_len(s: Seq<char>)
    ensures
        enc_chars(s).len() == 4 * s.len(),
    decreases s.len(),
{
    lemma_auto_spec_u32_to_from_le_bytes();
    if s.len() > 0 {
        lemma_enc_chars_len(s.drop_first());
    }
}

/// Decoding as many characters as were encoded recovers them, whatever
/// follows the encoding.
proof fn lemma_dec_enc_chars(s: Seq<char>, tail: Seq<u8>)
    ensures
        dec_chars(enc_chars(s) + tail, s.len()) == Option::Some(s),
    decreases s.len(),
{
    lemma_auto_spec_u32_to_from_le_bytes();
    if s.len() == 0 {
        assert(dec_chars(enc_chars(s) + tail, 0) == Option::Some(Seq::<char>::empty()));
        assert(s =~= Seq::<char>::empty());
    } else {
        let t = s.drop_first();
        let b = enc_chars(s) + tail;
        lemma_enc_chars_len(s);
        assert(enc_char(s[0]).len() == 4);
        assert(b =~= enc_char(s[0]) + (enc_chars(t) + tail));
        assert(b.take(4) =~= enc_char(s[0]));
        assert(spec_u32_from_le_bytes(b.take(4)) == s[0] as u32);
        char_is_scalar(s[0]);
        char_u32_cast(s[0], s[0] as u32);
        lemma_dec_enc_chars(t, tail);
        assert(b.skip(4) =~= enc_chars(t) + tail);
        assert(seq![s[0]] + t =~= s);
    }
}

/// Decoding a length-prefixed string recovers it and consumes exactly the
/// bytes that encoded it.
proof fn lemma_dec_enc_str(s: Seq<char>, tail: Seq<u8>)
    requires
        s.len() <= 0xFFFF_FFFF_FFFF_FFFF,
    ensures
        dec_str(enc_str(s) + tail) == Option::Some((s, 8 + 4 * (s.len() as int))),
        (enc_str(s) + tail).skip(8 + 4 * (s.len() as int)) =~= tail,
        enc_str(s).len() == 8 + 4 * s.len(),
{
    lemma_auto_spec_u64_to_from_le_bytes();
    lemma_enc_chars_len(s);
    let b = enc_str(s) + tail;
    assert(spec_u64_to_le_bytes(s.len() as u64).len() == 8);
    assert(b.take(8) =~= spec_u64_to_le_bytes(s.len() as u64));
    assert(spec_u64_from_le_bytes(b.take(8)) == s.len() as u64);
    assert(b.skip(8) =~= enc_chars(s) + tail);
    lemma_dec_enc_chars(s, tail);
}

/// Decoding an encoded submission gives back the submission: the round trip
/// is the identity on every payload whose fields have a representable length.
pub proof fn lemma_round_trip(v: SubmissionView)
    requires
        (v.reddit_user matches Option::Some(h) ==> h.len() <= 0xFFFF_FFFF_FFFF_FFFF),
        v.party.len() <= 0xFFFF_FFFF_FFFF_FFFF,
        v.cfc.len() <= 0xFFFF_FFFF_FFFF_FFFF,
    ensures
        spec_decode(spec_encode(v)) == Option::Some(v),
{
    let b = spec_encode(v);
    match v.reddit_user {
        Option::Some(h) => {
            let e1 = enc_str(h);
            let e2 = enc_str(v.party);
            let e3 = enc_str(v.cfc);
            lemma_dec_enc_str(h, e2 + e3);
            lemma_dec_enc_str(v.party, e3);
            lemma_dec_enc_str(v.cfc, Seq::empty());
            let c1 = 8 + 4 * (h.len() as int);
            let c2 = 8 + 4 * (v.party.len() as int);
            let c3 = 8 + 4 * (v.cfc.len() as int);
            assert(b.len() == 1 + c1 + c2 + c3);
            assert(b[0] == 1u8);
            assert(b.skip(1) =~= e1 + (e2 + e3));
            assert(dec_str(b.skip(1)) == Option::Some((h, c1)));
            assert(b.skip(1 + c1) =~= (e1 + (e2 + e3)).skip(c1));
            assert((e1 + (e2 + e3)).skip(c1) =~= e2 + e3);
            assert(e2 + e3 =~= e2 + (e3 + Seq::<u8>::empty()));
            assert(dec_str(b.skip(1 + c1)) == Option::Some((v.party, c2)));
            assert(b.skip(1 + c1 + c2) =~= (e2 + (e3 + Seq::<u8>::empty())).skip(c2));
            assert((e2 + (e3 + Seq::<u8>::empty())).skip(c2) =~= e3 + Seq::<u8>::empty());
            assert(dec_str(b.skip(1 + c1 + c2)) == Option::Some((v.cfc, c3)));
        },
        Option::None => {
            let e2 = enc_str(v.party);
            let e3 = enc_str(v.cfc);
            lemma_dec_enc_str(v.party, e3);
            lemma_dec_enc_str(v.cfc, Seq::empty());
            let c2 = 8 + 4 * (v.party.len() as int);
            let c3 = 8 + 4 * (v.cfc.len() as int);
            assert(b.len() == 1 + c2 + c3);
            assert(b[0] == 0u8);
            assert(b.skip(1) =~= e2 + (e3 + Seq::<u8>::empty()));
            assert(dec_str(b.skip(1)) == Option::Some((v.party, c2)));
            assert(b.skip(1 + c2) =~= (e2 + (e3 + Seq::<u8>::empty())).skip(c2));
            assert((e2 + (e3 + Seq::<u8>::empty())).skip(c2) =~= e3 + Seq::<u8>::empty());
            assert(dec_str(b.skip(1 + c2)) == Option::Some((v.cfc, c3)));
        },
    }
}

/// Append the encoding of one string field.
fn push_str_bytes(out: &mut Vec<u8>, s: &str)
    ensures
        final(out)@ == old(out)@ + enc_str(s@),
{
    let n = s.unicode_len();
    let mut len_bytes = u64_to_le_bytes(n as u64);
    out.append(&mut len_bytes);
    proof {
        assert(out@ =~= old(out)@ + spec_u64_to_le_bytes(s@.len() as u64) + enc_chars(
            s@.take(0),
        ));
    }
    let mut i: usize = 0;
    while i < n
        invariant
            i <= n,
            n == s@.len(),
            out@ == old(out)@ + spec_u64_to_le_bytes(s@.len() as u64) + enc_chars(
                s@.take(i as int),
            ),
        decreases n - i,
    {
        let c = s.get_char(i);
        let mut cb = u32_to_le_bytes(c as u32);
        out.append(&mut cb);
        proof {
            lemma_enc_chars_snoc(s@, i as int);
            assert(out@ =~= old(out)@ + spec_u64_to_le_bytes(s@.len() as u64) + enc_chars(
                s@.take(i as int + 1),
            ));
        }
        i = i + 1;
    }
    proof {
        assert(s@.take(n as int) =~= s@);
        assert(out@ =~= old(out)@ + enc_str(s@));
    }
}

/// Encode a submission into its stored binary form.
pub fn encode_submission(m: &SenateCFCModal) -> (r: Vec<u8>)
    ensures
        r@ == spec_encode(m@),
{
    let mut out: Vec<u8> = Vec::new();
    match &m.reddit_user {
        Option::Some(h) => {
            out.push(1u8);
            proof {
                assert(out@ =~= seq![1u8]);
            }
            push_str_bytes(&mut out, h.as_str());
        },
        Option::None => {
            out.push(0u8);
            proof {
                assert(out@ =~= seq![0u8]);
            }
        },
    }
    push_str_bytes(&mut out, m.party.as_str());
    push_str_bytes(&mut out, m.cfc.as_str());
    proof {
        assert(out@ =~= spec_encode(m@));
    }
    out
}

/// Characters each take four bytes, so more characters than quarter of the
/// remaining bytes cannot decode.
proof fn lemma_dec_chars_short(b: Seq<u8>, n: nat)
    requires
        4 * n > b.len(),
    ensures
        dec_chars(b, n) is None,
    decreases n,
{
    if n > 0 && b.len() >= 4 {
        lemma_dec_chars_short(b.skip(4), (n - 1) as nat);
    }
}

/// Read `n` characters starting at byte `pos`.
fn read_chars(bytes: &Vec<u8>, pos: usize, n: usize) -> (r: Option<String>)
    requires
        pos <= bytes@.len(),
    ensures
        match r {
            Option::Some(s) => dec_chars(bytes@.skip(pos as int), n as nat) == Option::Some(s@),
            Option::None => dec_chars(bytes@.skip(pos as int), n as nat) is None,
        },
    decreases n,
{
    if n == 0 {
        return Option::Some(String::new());
    }
    if bytes.len() - pos < 4 {
        return Option::None;
    }
    let x = u32_from_le_bytes(slice_subrange(bytes.as_slice(), pos, pos + 4));
    proof {
        assert(bytes@.subrange(pos as int, pos as int + 4) =~= bytes@.skip(pos as int).take(4));
    }
    match char::from_u32(x) {
        Option::None => Option::None,
        Option::Some(c) => {
            proof {
                assert(bytes@.skip(pos as int).skip(4) =~= bytes@.skip(pos as int + 4));
            }
            match read_chars(bytes, pos + 4, n - 1) {
                Option::None => Option::None,
                Option::Some(rest) => {
                    let mut s = String::new();
                    s.push(c);
                    s.append(rest.as_str());
                    proof {
                        assert(s@ =~= seq![c] + rest@);
                    }
                    Option::Some(s)
                },
            }
        },
    }
}

/// Read one length-prefixed string starting at byte `pos`; on success also
/// gives the position just after it.
fn read_str(bytes: &Vec<u8>, pos: usize) -> (r: Option<(String, usize)>)
    requires
        pos <= bytes@.len(),
    ensures
        match r {
            Option::Some(p) => {
                &&& dec_str(bytes@.skip(pos as int)) == Option::Some(
                    (p.0@, p.1 - pos as int),
                )
                &&& pos <= p.1 <= bytes@.len()
            },
            Option::None => dec_str(bytes@.skip(pos as int)) is None,
        },
{
    let rem = bytes.len() - pos;
    if rem < 8 {
        return Option::None;
    }
    let n64 = u64_from_le_bytes(slice_subrange(bytes.as_slice(), pos, pos + 8));
    proof {
        assert(bytes@.subrange(pos as int, pos as int + 8) =~= bytes@.skip(pos as int).take(8));
        assert(bytes@.skip(pos as int).skip(8) =~= bytes@.skip(pos as int + 8));
    }
    let avail = (rem - 8) as u64;
    if n64 > avail / 4 {
        proof {
            lemma_dec_chars_short(bytes@.skip(pos as int + 8), n64 as nat);
        }
        return Option::None;
    }
    let n = n64 as usize;
    match read_chars(bytes, pos + 8, n) {
        Option::None => Option::None,
        Option::Some(s) => Option::Some((s, pos + 8 + 4 * n)),
    }
}

/// Decode a stored binary form back into a submission; yields nothing unless
/// the bytes are a complete, well-formed encoding.
pub fn decode_submission(bytes: &Vec<u8>) -> (r: Option<SenateCFCModal>)
    ensures
        match r {
            Option::Some(m) => spec_decode(bytes@) == Option::Some(m@),
            Option::None => spec_decode(bytes@) is None,
        },
{
    if bytes.len() < 1 {
        return Option::None;
    }
    proof {
        assert(bytes@.skip(0).skip(1) =~= bytes@.skip(1));
    }
    let tag = bytes[0];
    if tag == 1u8 {
        let (h, p1) = match read_str(bytes, 1) {
            Option::None => {
                return Option::None;
            },
            Option::Some(x) => x,
        };
        let (party, p2) = match read_str(bytes, p1) {
            Option::None => {
                return Option::None;
            },
            Option::Some(x) => x,
        };
        let (cfc, p3) = match read_str(bytes, p2) {
            Option::None => {
                return Option::None;
            },
            Option::Some(x) => x,
        };
        if p3 == bytes.len() {
            Option::Some(SenateCFCModal { reddit_user: Option::Some(h), party, cfc })
        } else {
            Option::None
        }
    } else if tag == 0u8 {
        let (party, p2) = match read_str(bytes, 1) {
            Option::None => {
                return Option::None;
            },
            Option::Some(x) => x,
        };
        let (cfc, p3) = match read_str(bytes, p2) {
            Option::None => {
                return Option::None;
            },
            Option::Some(x) => x,
        };
        if p3 == bytes.len() {
            Option::Some(SenateCFCModal { reddit_user: Option::None, party, cfc })
        } else {
            Option::None
        }
    } else {
        Option::None
    }
}

} // verus!
