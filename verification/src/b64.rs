//! Base64 for the graphics escape payload: a specification of the
//! standard-alphabet padded encoding, a trusted call into the encoder the
//! process links against, and the proof that decoding inverts encoding.

use vstd::prelude::*;
use base64::Engine;

verus! {

/// The standard-alphabet digit for a 6-bit value: `A`..`Z`, `a`..`z`,
/// `0`..`9`, `+`, `/`.
pub open spec fn b64_digit(v: int) -> u8 {
    if 0 <= v < 26 {
        (65 + v) as u8
    } else if 26 <= v < 52 {
        (97 + (v - 26)) as u8
    } else if 52 <= v < 62 {
        (48 + (v - 52)) as u8
    } else if v == 62 {
        43u8
    } else {
        47u8
    }
}

/// The 6-bit value of a standard-alphabet digit (unspecified for bytes
/// outside the alphabet).
pub open spec fn b64_val(d: u8) -> int {
    if 65 <= d <= 90 {
        d - 65
    } else if 97 <= d <= 122 {
        d - 97 + 26
    } else if 48 <= d <= 57 {
        d - 48 + 52
    } else if d == 43 {
        62
    } else {
        63
    }
}

/// Standard base64 with `=` padding, as ASCII bytes: each group of three
/// input bytes becomes four digits; a final group of one or two bytes is
/// encoded with two or one `=` padding bytes.
pub open spec fn spec_base64(s: Seq<u8>) -> Seq<u8>
    decreases s.len(),
{
    if s.len() == 0 {
        Seq::empty()
    } else if s.len() == 1 {
        seq![
            b64_digit(s[0] as int / 4),
            b64_digit((s[0] as int % 4) * 16),
            61u8,
            61u8,
        ]
    } else if s.len() == 2 {
        seq![
            b64_digit(s[0] as int / 4),
            b64_digit((s[0] as int % 4) * 16 + s[1] as int / 16),
            b64_digit((s[1] as int % 16) * 4),
            61u8,
        ]
    } else {
        seq![
            b64_digit(s[0] as int / 4),
            b64_digit((s[0] as int % 4) * 16 + s[1] as int / 16),
            b64_digit((s[1] as int % 16) * 4 + s[2] as int / 64),
            b64_digit(s[2] as int % 64),
        ] + spec_base64(s.skip(3))
    }
}

/// Decoding of padded standard base64: inverse of `spec_base64` on its
/// range (unspecified elsewhere).
pub open spec fn spec_base64_decode(s: Seq<u8>) -> Seq<u8>
    decreases s.len(),
{
    if s.len() < 4 {
        Seq::empty()
    } else {
        let v0 = b64_val(s[0]);
        let v1 = b64_val(s[1]);
        let v2 = b64_val(s[2]);
        let v3 = b64_val(s[3]);
        if s.len() == 4 {
            if s[2] == 61 && s[3] == 61 {
                seq![(v0 * 4 + v1 / 16) as u8]
            } else if s[3] == 61 {
                seq![(v0 * 4 + v1 / 16) as u8, ((v1 % 16) * 16 + v2 / 4) as u8]
            } else {
                seq![
                    (v0 * 4 + v1 / 16) as u8,
                    ((v1 % 16) * 16 + v2 / 4) as u8,
                    ((v2 % 4) * 64 + v3) as u8,
                ]
            }
        } else {
            seq![
                (v0 * 4 + v1 / 16) as u8,
                ((v1 % 16) * 16 + v2 / 4) as u8,
                ((v2 % 4) * 64 + v3) as u8,
            ] + spec_base64_decode(s.skip(4))
        }
    }
}

/// A digit round-trips through its 6-bit value, and is never the padding
/// byte `=`.
proof fn lemma_digit_inverse(v: int)
    requires
        0 <= v < 64,
    ensures
        b64_val(b64_digit(v)) == v,
        b64_digit(v) != 61,
{
}

/// Shifting into a higher position and back: `(a * k + b) / k == a` and
/// `(a * k + b) % k == b` whenever `0 <= b < k`.
proof fn lemma_base_shift(a: int, b: int, k: int)
    requires
        0 <= a,
        0 <= b < k,
    ensures
        (a * k + b) / k == a,
        (a * k + b) % k == b,
{
    assert((a * k + b) / k == a && (a * k + b) % k == b) by (nonlinear_arith)
        requires 0 <= a, 0 <= b < k;
}

/// The encoded form is four digits for every started group of three
/// input bytes.
pub proof fn lemma_base64_len(s: Seq<u8>)
    ensures
        spec_base64(s).len() == 4 * ((s.len() + 2) / 3),
    decreases s.len(),
{
    if s.len() >= 3 {
        lemma_base64_len(s.skip(3));
        assert((s.len() as int + 2) / 3 == (s.len() as int - 1) / 3 + 1) by (nonlinear_arith);
    }
}

/// Decoding the encoded form of one leading group prepends its bytes.
proof fn lemma_group_round_trip(s: Seq<u8>)
    requires
        s.len() >= 1,
    ensures
        s.len() == 1 ==> spec_base64_decode(spec_base64(s)) =~= seq![s[0]],
        s.len() == 2 ==> spec_base64_decode(spec_base64(s)) =~= seq![s[0], s[1]],
        s.len() >= 3 ==> spec_base64_decode(spec_base64(s)) =~= seq![s[0], s[1], s[2]]
            + spec_base64_decode(spec_base64(s.skip(3))),
{
    let b0 = s[0] as int;
    assert(b0 == (b0 / 4) * 4 + b0 % 4 && 0 <= b0 % 4 < 4 && 0 <= b0 / 4 < 64) by (nonlinear_arith)
        requires 0 <= b0 < 256;
    lemma_digit_inverse(b0 / 4);
    if s.len() == 1 {
        lemma_digit_inverse((b0 % 4) * 16);
        lemma_base_shift(b0 % 4, 0, 16);
    } else {
        let b1 = s[1] as int;
        assert(b1 == (b1 / 16) * 16 + b1 % 16 && 0 <= b1 % 16 < 16 && 0 <= b1 / 16 < 16)
            by (nonlinear_arith)
            requires 0 <= b1 < 256;
        lemma_digit_inverse((b0 % 4) * 16 + b1 / 16);
        lemma_base_shift(b0 % 4, b1 / 16, 16);
        if s.len() == 2 {
            lemma_digit_inverse((b1 % 16) * 4);
            lemma_base_shift(b1 % 16, 0, 4);
        } else {
            let b2 = s[2] as int;
            assert(b2 == (b2 / 64) * 64 + b2 % 64 && 0 <= b2 % 64 < 64 && 0 <= b2 / 64 < 4)
                by (nonlinear_arith)
                requires 0 <= b2 < 256;
            lemma_digit_inverse((b1 % 16) * 4 + b2 / 64);
            lemma_digit_inverse(b2 % 64);
            lemma_base_shift(b1 % 16, b2 / 64, 4);
            let group = seq![
                b64_digit(b0 / 4),
                b64_digit((b0 % 4) * 16 + b1 / 16),
                b64_digit((b1 % 16) * 4 + b2 / 64),
                b64_digit(b2 % 64),
            ];
            let rest = spec_base64(s.skip(3));
            assert(spec_base64(s) == group + rest);
            lemma_base64_len(s.skip(3));
            if rest.len() == 0 {
                assert(group + rest =~= group);
            } else {
                assert(rest.len() >= 4);
                assert((group + rest).skip(4) =~= rest);
            }
        }
    }
}

/// Decoding inverts encoding: concatenating the decoded groups of the
/// encoded stream reproduces the input bytes exactly.
pub proof fn lemma_base64_round_trip(s: Seq<u8>)
    ensures
        spec_base64_decode(spec_base64(s)) == s,
    decreases s.len(),
{
    if s.len() == 0 {
        assert(spec_base64_decode(spec_base64(s)) =~= s);
    } else if s.len() <= 2 {
        lemma_group_round_trip(s);
        assert(spec_base64_decode(spec_base64(s)) =~= s);
    } else {
        lemma_group_round_trip(s);
        lemma_base64_round_trip(s.skip(3));
        assert(seq![s[0], s[1], s[2]] + s.skip(3) =~= s);
    }
}

/// Relies on `base64::engine::general_purpose::STANDARD` through
/// `base64::Engine::encode`: standard-alphabet base64 with `=` padding.
/// The length bound keeps the encoder's output-size computation from
/// overflowing.
#[verifier::external_body]
pub(crate) fn b64_encode(bytes: &Vec<u8>) -> (r: Vec<u8>)
    requires
        4 * ((bytes@.len() + 2) / 3) <= usize::MAX,
    ensures
        r@ == spec_base64(bytes@),
{
    base64::engine::general_purpose::STANDARD.encode(bytes).into_bytes()
}

} // verus!
