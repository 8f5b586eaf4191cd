//! Threshold secret sharing of 32-byte secrets over GF(2^8).
use vstd::prelude::*;

use vstd::string::StringExecFns;

use crate::encoding::{decimal, decimal_string};
use crate::errors::CryptoError;
use crate::rng::os_random_vec;
use crate::gf256::{
    gf256_inv, gf256_mul, gf_inv, gf_mul, lemma_mul_associative, lemma_mul_commutative,
    lemma_xor_facts,
};
use crate::poly::{
    bval, distinct, gf256_poly_eval, lagrange_sum, lagrange_weight, lemma_interpolation_at_zero,
    lemma_peval_at_zero, peval,
};

verus! {

/// The polynomial that hides byte `b` of the secret: the secret byte as constant term,
/// then the `t - 1` random bytes drawn for that byte.
pub open spec fn share_poly(secret: Seq<u8>, t: nat, random: Seq<u8>, b: int) -> Seq<u8> {
    seq![secret[b]] + random.subrange(b * (t - 1), (b + 1) * (t - 1))
}

/// Share `i` (counted from 0): the point `i + 1`, then the values at that point of the
/// 32 polynomials.
pub open spec fn share_spec(secret: Seq<u8>, t: nat, random: Seq<u8>, i: int) -> Seq<u8> {
    seq![(i + 1) as u8] + Seq::new(32, |b: int| peval(share_poly(secret, t, random, b), (i + 1) as u8))
}

/// All `n` shares of `secret` for threshold `t`, given the random coefficients.
pub open spec fn split_spec(secret: Seq<u8>, t: nat, n: nat, random: Seq<u8>) -> Seq<Seq<u8>> {
    Seq::new(n, |i: int| share_spec(secret, t, random, i))
}

/// The byte sequences of a list of byte vectors.
pub open spec fn share_views(shares: Seq<Vec<u8>>) -> Seq<Seq<u8>> {
    Seq::new(shares.len(), |i: int| shares[i]@)
}

/// The points of a list of shares.
pub open spec fn share_xs(shares: Seq<Seq<u8>>) -> Seq<u8> {
    Seq::new(shares.len(), |i: int| shares[i][0])
}

/// The values of byte `b` in a list of shares.
pub open spec fn share_ys(shares: Seq<Seq<u8>>, b: int) -> Seq<u8> {
    Seq::new(shares.len(), |i: int| shares[i][b + 1])
}

/// Every share has 33 bytes.
pub open spec fn shares_sized(shares: Seq<Seq<u8>>) -> bool {
    forall|i: int| 0 <= i < shares.len() ==> #[trigger] shares[i].len() == 33
}

/// At least two shares, each of 33 bytes, at distinct points.
pub open spec fn shares_well_formed(shares: Seq<Seq<u8>>) -> bool {
    &&& shares.len() >= 2
    &&& shares_sized(shares)
    &&& distinct(share_xs(shares))
}

/// The secret that the shares interpolate: for each byte, the value at zero of the
/// Lagrange polynomial through the shares' points.
pub open spec fn interpolate_secret(shares: Seq<Seq<u8>>) -> Seq<u8> {
    Seq::new(
        32,
        |b: int| lagrange_sum(share_xs(shares), share_ys(shares, b), 0, shares.len()),
    )
}

/// Splits a secret into `total_shares` shares, any `threshold` of which recover it,
/// with `random` supplying the `threshold - 1` higher coefficients of each byte's
/// polynomial (byte after byte).
pub fn split_secret_with_randomness(
    secret: &[u8; 32],
    threshold: u8,
    total_shares: u8,
    random: &[u8],
) -> (shares: Vec<Vec<u8>>)
    requires
        2 <= threshold <= total_shares,
        random@.len() == 32 * (threshold - 1),
    ensures
        share_views(shares@) =~= split_spec(secret@, threshold as nat, total_shares as nat, random@),
{
    let t = threshold as usize;
    let ghost rnd = random@;
    // the coefficients of each byte's polynomial
    let mut polys: Vec<Vec<u8>> = Vec::new();
    let mut byte_idx: usize = 0;
    let mut pos: usize = 0;
    while byte_idx < 32
        invariant
            byte_idx <= 32,
            t == threshold,
            2 <= t,
            rnd == random@,
            rnd.len() == 32 * (t - 1),
            pos == byte_idx * (t - 1),
            polys@.len() == byte_idx,
            forall|b: int|
                0 <= b < byte_idx ==> #[trigger] polys@[b]@ == share_poly(secret@, t as nat, rnd, b),
        decreases 32 - byte_idx,
    {
        proof {
            assert(pos + (t - 1) == (byte_idx + 1) * (t - 1)) by (nonlinear_arith)
                requires
                    pos == byte_idx * (t - 1),
            ;
            assert((byte_idx + 1) * (t - 1) <= 32 * (t - 1)) by (nonlinear_arith)
                requires
                    byte_idx < 32,
                    t >= 2,
            ;
        }
        let mut coeffs: Vec<u8> = Vec::new();
        coeffs.push(secret[byte_idx]);
        let mut j: usize = 1;
        assert(coeffs@ =~= seq![secret@[byte_idx as int]] + rnd.subrange(pos as int, pos as int));
        while j < t
            invariant
                1 <= j <= t,
                t == threshold,
                2 <= t,
                byte_idx < 32,
                rnd == random@,
                rnd.len() == 32 * (t - 1),
                pos + (t - 1) <= rnd.len(),
                coeffs@ =~= seq![secret@[byte_idx as int]] + rnd.subrange(
                    pos as int,
                    pos + (j - 1),
                ),
            decreases t - j,
        {
            coeffs.push(random[pos + (j - 1)]);
            j += 1;
        }
        assert(coeffs@ =~= share_poly(secret@, t as nat, rnd, byte_idx as int));
        polys.push(coeffs);
        pos += t - 1;
        byte_idx += 1;
    }
    let mut shares: Vec<Vec<u8>> = Vec::new();
    let mut i: u8 = 0;
    while i < total_shares
        invariant
            i <= total_shares,
            t == threshold,
            rnd == random@,
            polys@.len() == 32,
            forall|b: int|
                0 <= b < 32 ==> #[trigger] polys@[b]@ == share_poly(secret@, t as nat, rnd, b),
            shares@.len() == i,
            forall|m: int|
                0 <= m < i ==> #[trigger] shares@[m]@ == share_spec(secret@, t as nat, rnd, m),
        decreases total_shares - i,
    {
        let x: u8 = i + 1;
        let mut share: Vec<u8> = Vec::new();
        share.push(x);
        let mut b: usize = 0;
        while b < 32
            invariant
                b <= 32,
                i < total_shares,
                x == i + 1,
                polys@.len() == 32,
                forall|c: int|
                    0 <= c < 32 ==> #[trigger] polys@[c]@ == share_poly(secret@, t as nat, rnd, c),
                share@ =~= seq![x] + Seq::new(
                    b as nat,
                    |c: int| peval(share_poly(secret@, t as nat, rnd, c), x),
                ),
            decreases 32 - b,
        {
            let y = gf256_poly_eval(polys[b].as_slice(), x);
            share.push(y);
            b += 1;
        }
        shares.push(share);
        i += 1;
    }
    assert(share_views(shares@) =~= split_spec(secret@, t as nat, total_shares as nat, rnd));
    shares
}

/// Splits a secret into `total_shares` shares, any `threshold` of which recover it; the
/// higher coefficients of the polynomials are drawn from the operating system's
/// random source.
pub fn split_secret(secret: &[u8; 32], threshold: u8, total_shares: u8) -> (shares: Vec<Vec<u8>>)
    requires
        threshold >= 2,
        total_shares >= threshold,
    ensures
        exists|random: Seq<u8>|
            random.len() == 32 * (threshold - 1) && share_views(shares@) =~= split_spec(
                secret@,
                threshold as nat,
                total_shares as nat,
                random,
            ),
{
    let random = os_random_vec(32 * (threshold as usize - 1));
    split_secret_with_randomness(secret, threshold, total_shares, random.as_slice())
}

/// What recovering a secret from `shares` gives: an error for fewer than two shares,
/// for the first share that is not 33 bytes, or for two shares at the same point;
/// otherwise the interpolated secret.
pub open spec fn reconstruct_outcome(
    shares: Seq<Seq<u8>>,
    result: Result<[u8; 32], CryptoError>,
) -> bool {
    &&& shares.len() < 2 ==> (result matches Err(CryptoError::InvalidInput(msg)) && msg@
        == "need at least 2 shares"@)
    &&& shares.len() >= 2 && !shares_sized(shares) ==> exists|i: int|
        0 <= i < shares.len() && shares[i].len() != 33 && (forall|j: int|
            0 <= j < i ==> #[trigger] shares[j].len() == 33) && (result matches Err(
            CryptoError::InvalidInput(msg),
        ) && msg@ == share_length_text(i as nat, shares[i].len()))
    &&& shares.len() >= 2 && shares_sized(shares) && !distinct(share_xs(shares)) ==> (
    result matches Err(CryptoError::InvalidInput(msg)) && msg@ == "duplicate share indices"@)
    &&& shares_well_formed(shares) ==> (result matches Ok(secret) && secret@
        == interpolate_secret(shares))
}

/// Recovers a secret from its shares by Lagrange interpolation at zero.
pub fn reconstruct_secret(shares: &[Vec<u8>], _threshold: u8) -> (result: Result<[u8; 32], CryptoError>)
    ensures
        reconstruct_outcome(share_views(shares@), result),
{
    let ghost sh = share_views(shares@);
    if shares.len() < 2 {
        return Err(CryptoError::InvalidInput("need at least 2 shares".to_owned()));
    }
    let mut i: usize = 0;
    while i < shares.len()
        invariant
            i <= shares@.len(),
            shares@.len() >= 2,
            sh == share_views(shares@),
            forall|j: int| 0 <= j < i ==> #[trigger] sh[j].len() == 33,
        decreases shares@.len() - i,
    {
        if shares[i].len() != 33 {
            assert(sh[i as int].len() != 33);
            assert(!shares_sized(sh));
            let msg = share_length_message(i, shares[i].len());
            assert forall|j: int| 0 <= j < i implies #[trigger] shares@[j]@.len() == 33 by {
                assert(sh[j] == shares@[j]@);
            }
            assert(shares@[i as int]@.len() != 33);
            return Err(CryptoError::InvalidInput(msg));
        }
        i += 1;
    }
    assert(shares_sized(sh));
    let k = shares.len();
    let mut xs: Vec<u8> = Vec::new();
    let mut i: usize = 0;
    while i < k
        invariant
            i <= k,
            k == shares@.len(),
            sh == share_views(shares@),
            shares_sized(sh),
            xs@ =~= share_xs(sh).subrange(0, i as int),
        decreases k - i,
    {
        assert(sh[i as int].len() == 33);
        xs.push(shares[i][0]);
        i += 1;
    }
    assert(xs@ =~= share_xs(sh));
    let mut i: usize = 0;
    while i < k
        invariant
            i <= k,
            k == xs@.len(),
            k == shares@.len(),
            k >= 2,
            sh == share_views(shares@),
            shares_sized(sh),
            xs@ == share_xs(sh),
            forall|a: int, b: int| 0 <= a < i && a < b < k ==> xs@[a] != xs@[b],
        decreases k - i,
    {
        let mut j: usize = i + 1;
        while j < k
            invariant
                i < j <= k,
                k == xs@.len(),
                k == shares@.len(),
                k >= 2,
                sh == share_views(shares@),
                shares_sized(sh),
                xs@ == share_xs(sh),
                forall|b: int| i < b < j ==> xs@[i as int] != xs@[b],
            decreases k - j,
        {
            if xs[i] == xs[j] {
                return Err(CryptoError::InvalidInput("duplicate share indices".to_owned()));
            }
            j += 1;
        }
        i += 1;
    }
    assert(distinct(xs@));
    let mut secret = [0u8; 32];
    let mut byte_idx: usize = 0;
    while byte_idx < 32
        invariant
            byte_idx <= 32,
            k == shares@.len(),
            k >= 2,
            sh == share_views(shares@),
            shares_sized(sh),
            xs@ == share_xs(sh),
            forall|c: int|
                0 <= c < byte_idx ==> #[trigger] secret@[c] == interpolate_secret(sh)[c],
        decreases 32 - byte_idx,
    {
        let mut ys: Vec<u8> = Vec::new();
        let mut i: usize = 0;
        while i < k
            invariant
                i <= k,
                byte_idx < 32,
                k == shares@.len(),
                sh == share_views(shares@),
                shares_sized(sh),
                ys@ =~= share_ys(sh, byte_idx as int).subrange(0, i as int),
            decreases k - i,
        {
            assert(sh[i as int].len() == 33);
            ys.push(shares[i][byte_idx + 1]);
            i += 1;
        }
        assert(ys@ =~= share_ys(sh, byte_idx as int));
        let mut result: u8 = 0;
        let mut i: usize = 0;
        while i < k
            invariant
                i <= k,
                k == xs@.len(),
                k == ys@.len(),
                result == lagrange_sum(xs@, ys@, 0, i as nat),
            decreases k - i,
        {
            let mut num: u8 = 1;
            let mut den: u8 = 1;
            let mut j: usize = 0;
            while j < k
                invariant
                    j <= k,
                    i < k,
                    k == xs@.len(),
                    num == bval(xs@, i as int, 0, j as nat),
                    den == bval(xs@, i as int, xs@[i as int], j as nat),
                decreases k - j,
            {
                if i == j {
                    j += 1;
                    continue;
                }
                proof {
                    lemma_xor_facts(xs@[j as int], 0, 0);
                }
                num = gf256_mul(num, xs[j]);
                den = gf256_mul(den, xs[i] ^ xs[j]);
                j += 1;
            }
            let basis = gf256_mul(num, gf256_inv(den));
            proof {
                assert(den == bval(xs@, i as int, xs@[i as int], xs@.len()));
                lemma_mul_commutative(num, gf_inv(den));
                lemma_mul_associative(ys@[i as int], gf_inv(den), num);
                assert(gf_mul(ys@[i as int], basis) == gf_mul(
                    lagrange_weight(xs@, ys@, i as int),
                    bval(xs@, i as int, 0, xs@.len()),
                ));
            }
            result ^= gf256_mul(ys[i], basis);
            i += 1;
        }
        secret[byte_idx] = result;
        byte_idx += 1;
    }
    assert(secret@ =~= interpolate_secret(sh));
    Ok(secret)
}

/// The shares picked out of a list by the indices `picks`.
pub open spec fn pick_shares(shares: Seq<Seq<u8>>, picks: Seq<int>) -> Seq<Seq<u8>> {
    picks.map_values(|j: int| shares[j])
}

/// Any `threshold` or more distinct shares of a split recover the secret: whatever the
/// random coefficients were, the shares at the distinct indices `picks` are well formed
/// (so reconstruction does not fail on them) and interpolate to the secret.
pub proof fn lemma_split_then_reconstruct(
    secret: Seq<u8>,
    threshold: nat,
    total_shares: nat,
    random: Seq<u8>,
    picks: Seq<int>,
)
    requires
        secret.len() == 32,
        2 <= threshold <= total_shares <= 255,
        random.len() == 32 * (threshold - 1),
        picks.len() >= threshold,
        forall|m: int| 0 <= m < picks.len() ==> 0 <= #[trigger] picks[m] < total_shares,
        forall|a: int, b: int| 0 <= a < b < picks.len() ==> picks[a] != picks[b],
    ensures
        shares_well_formed(
            pick_shares(split_spec(secret, threshold, total_shares, random), picks),
        ),
        interpolate_secret(pick_shares(split_spec(secret, threshold, total_shares, random), picks))
            == secret,
{
    let all = split_spec(secret, threshold, total_shares, random);
    let chosen = pick_shares(all, picks);
    let k = picks.len();
    let xs = share_xs(chosen);
    assert forall|m: int| 0 <= m < k implies #[trigger] xs[m] == (picks[m] + 1) as u8
        && chosen[m].len() == 33 by {
        assert(chosen[m] == share_spec(secret, threshold, random, picks[m]));
    }
    assert forall|a: int, b: int| 0 <= a < b < xs.len() implies xs[a] != xs[b] by {
        assert(xs[a] == (picks[a] + 1) as u8);
        assert(xs[b] == (picks[b] + 1) as u8);
    }
    assert(shares_sized(chosen));
    assert forall|b: int| 0 <= b < 32 implies #[trigger] interpolate_secret(chosen)[b]
        == secret[b] by {
        let p = share_poly(secret, threshold, random, b);
        assert((b + 1) * (threshold - 1) <= 32 * (threshold - 1)) by (nonlinear_arith)
            requires
                b < 32,
                threshold >= 2,
        ;
        assert(b * (threshold - 1) + (threshold - 1) == (b + 1) * (threshold - 1))
            by (nonlinear_arith);
        assert(0 <= b * (threshold - 1)) by (nonlinear_arith)
            requires
                b >= 0,
                threshold >= 2,
        ;
        assert(p.len() == threshold);
        let ys = share_ys(chosen, b);
        assert forall|m: int| 0 <= m < xs.len() implies #[trigger] ys[m] == peval(p, xs[m]) by {
            assert(chosen[m] == share_spec(secret, threshold, random, picks[m]));
            assert(xs[m] == (picks[m] + 1) as u8);
        }
        lemma_interpolation_at_zero(p, xs, ys);
        lemma_peval_at_zero(p);
    }
    assert(interpolate_secret(chosen) =~= secret);
}

/// Reconstruction from a split: whatever the random coefficients were, reconstructing
/// from `threshold` or more distinct shares of a split of `secret` succeeds and gives
/// `secret` back.
pub proof fn lemma_reconstruct_recovers_split(
    secret: Seq<u8>,
    threshold: nat,
    total_shares: nat,
    random: Seq<u8>,
    picks: Seq<int>,
    result: Result<[u8; 32], CryptoError>,
)
    requires
        secret.len() == 32,
        2 <= threshold <= total_shares <= 255,
        random.len() == 32 * (threshold - 1),
        picks.len() >= threshold,
        forall|m: int| 0 <= m < picks.len() ==> 0 <= #[trigger] picks[m] < total_shares,
        forall|a: int, b: int| 0 <= a < b < picks.len() ==> picks[a] != picks[b],
        reconstruct_outcome(
            pick_shares(split_spec(secret, threshold, total_shares, random), picks),
            result,
        ),
    ensures
        result matches Ok(k) && k@ == secret,
{
    lemma_split_then_reconstruct(secret, threshold, total_shares, random, picks);
}

/// The message for share `index` having `len` bytes.
pub open spec fn share_length_text(index: nat, len: nat) -> Seq<char> {
    "share "@ + decimal(index) + " has "@ + decimal(len) + " bytes, expected 33"@
}

/// The message for a share of the wrong size.
fn share_length_message(index: usize, len: usize) -> (text: String)
    ensures
        text@ == share_length_text(index as nat, len as nat),
{
    let mut text = String::from_str("share ");
    text.append(decimal_string(index).as_str());
    text.append(" has ");
    text.append(decimal_string(len).as_str());
    text.append(" bytes, expected 33");
    text
}

} // verus!
