//! Shamir secret sharing of a payload (over GF(256), byte by byte).
//!
//! `split` deals `n` shares with threshold `t`: share `i` (from 1) is the
//! byte `i` followed by one byte per secret byte. Any `t` distinct shares
//! of a dealing recombine to the secret; `reconstruct` refuses fewer.

use vstd::prelude::*;
use rand::rngs::OsRng;
use sharks::{Share, Sharks};
use crate::error::PolygoneError;
use crate::numfmt::{decimal, push_decimal};
use crate::text::{owned, push_str};

verus! {

/// What Lagrange interpolation at zero gives for a list of share byte
/// strings (each the point's x byte, then its y bytes).
pub uninterp spec fn shamir_interpolated(shares: Seq<Seq<u8>>) -> Seq<u8>;

/// Every share of `sel` is one of `shares`.
pub open spec fn drawn_from(sel: Seq<Seq<u8>>, shares: Seq<Seq<u8>>) -> bool {
    forall|i: int| 0 <= i < sel.len() ==> shares.contains(#[trigger] sel[i])
}

/// The x bytes of the shares.
pub open spec fn points(sel: Seq<Seq<u8>>) -> Seq<u8> {
    sel.map_values(|s: Seq<u8>| s[0])
}

/// No two shares of `sel` have the same x byte.
pub open spec fn distinct_points(sel: Seq<Seq<u8>>) -> bool {
    forall|i: int, j: int| 0 <= i < j < sel.len() ==> (#[trigger] sel[i])[0] != (#[trigger] sel[j])[0]
}

/// `shares` is a dealing of `secret` with threshold `t`: share `i` is the
/// byte `i + 1` followed by as many bytes as the secret has, and any `t`
/// or more of them with distinct x bytes interpolate to the secret.
pub open spec fn is_dealing(shares: Seq<Seq<u8>>, secret: Seq<u8>, t: nat) -> bool {
    &&& forall|i: int| 0 <= i < shares.len() ==> (#[trigger] shares[i]).len() == secret.len() + 1 && shares[i][0] == i + 1
    &&& forall|sel: Seq<Seq<u8>>|
        sel.len() >= t && sel.len() >= 1 && drawn_from(sel, shares) && distinct_points(sel)
            ==> #[trigger] shamir_interpolated(sel) == secret
}

/// `Sharks(t).dealer_rng(secret, &mut OsRng).take(n)`, each share turned
/// into bytes with `Vec::from(&Share)`. Trusted, from the crate's source:
/// the dealer yields shares at x = 1, 2, ... each with one y byte per
/// secret byte, from random polynomials of degree below `t` whose value at
/// zero is the secret byte, so that interpolating `t` or more distinct
/// shares gives the secret. The random coefficients are not stated.
#[verifier::external_body]
fn sharks_deal(secret: &[u8], threshold: u8, n: u8) -> (res: Vec<Vec<u8>>)
    ensures
        res@.len() == n,
        is_dealing(res@.map_values(|v: Vec<u8>| v@), secret@, threshold as nat),
{
    Sharks(threshold).dealer_rng(secret, &mut OsRng).take(n as usize).map(|s| Vec::from(&s)).collect()
}

/// The number of distinct x bytes among the shares.
pub open spec fn distinct_point_count(sel: Seq<Seq<u8>>) -> nat {
    points(sel).to_set().len()
}

/// All shares have the length of the first.
pub open spec fn same_lengths(sel: Seq<Seq<u8>>) -> bool {
    forall|i: int| 0 <= i < sel.len() ==> (#[trigger] sel[i]).len() == sel[0].len()
}

/// `Share::try_from` on each byte string, then `Sharks(t).recover`.
/// Trusted, from the crate's source: shares of different lengths are
/// refused, then fewer than `t` distinct x bytes (or none) are refused,
/// and otherwise the result is the interpolation of the shares.
#[verifier::external_body]
fn sharks_recover(threshold: u8, shares: &[Vec<u8>]) -> (res: Result<Vec<u8>, String>)
    requires
        forall|i: int| 0 <= i < shares@.len() ==> (#[trigger] shares@[i])@.len() >= 2,
    ensures
        ({
            let sel = shares@.map_values(|v: Vec<u8>| v@);
            if !same_lengths(sel) {
                res matches Err(m) && m@ == "All shares must have the same length"@
            } else if distinct_point_count(sel) == 0 || distinct_point_count(sel) < threshold {
                res matches Err(m) && m@ == "Not enough shares to recover original secret"@
            } else {
                res matches Ok(v) && v@ == shamir_interpolated(sel)
            }
        }),
{
    let parsed: Vec<Share> = shares.iter().map(|b| Share::try_from(b.as_slice()).unwrap()).collect();
    Sharks(threshold).recover(parsed.iter()).map_err(|e| e.to_string())
}

/// A fragment id in `1..=n`.
#[derive(Clone, Copy, Debug, PartialEq, Eq, Hash, Structural)]
pub struct FragmentId(pub u8);

/// One Shamir fragment.
#[derive(Clone)]
pub struct Fragment {
    pub id: FragmentId,
    pub data: Vec<u8>,
}

/// The share bytes of a list of fragments.
pub open spec fn fragment_data(fs: Seq<Fragment>) -> Seq<Seq<u8>> {
    fs.map_values(|f: Fragment| f.data@)
}

/// Splits `secret` into `n` fragments of which any `threshold` recombine
/// to it. Requires `2 <= threshold <= n`.
pub fn split(secret: &[u8], threshold: u8, n: u8) -> (res: Result<Vec<Fragment>, PolygoneError>)
    ensures
        threshold < 2 ==> (res matches Err(PolygoneError::ShamirSplit(m)) && m@
            == "threshold must be ≥ 2"@),
        threshold >= 2 && n < threshold ==> (res matches Err(PolygoneError::ShamirSplit(m)) && m@
            == "n must be ≥ threshold"@),
        threshold >= 2 && n >= threshold ==> (res matches Ok(fs) && fs@.len() == n && (forall|i: int|
            0 <= i < n ==> (#[trigger] fs@[i]).id.0 == i + 1) && is_dealing(
            fragment_data(fs@),
            secret@,
            threshold as nat,
        )),
{
    if threshold < 2 {
        return Err(PolygoneError::ShamirSplit(owned("threshold must be ≥ 2")));
    }
    if n < threshold {
        return Err(PolygoneError::ShamirSplit(owned("n must be ≥ threshold")));
    }
    let shares = sharks_deal(secret, threshold, n);
    let ghost sv = shares@.map_values(|v: Vec<u8>| v@);
    let mut out: Vec<Fragment> = Vec::new();
    let mut i: usize = 0;
    while i < shares.len()
        invariant
            0 <= i <= shares@.len(),
            shares@.len() == n,
            n <= 255,
            sv == shares@.map_values(|v: Vec<u8>| v@),
            out@.len() == i,
            forall|k: int| 0 <= k < i ==> (#[trigger] out@[k]).id.0 == k + 1 && out@[k].data@ == sv[k],
        decreases shares@.len() - i,
    {
        let data = shares[i].clone();
        out.push(Fragment { id: FragmentId((i + 1) as u8), data });
        i = i + 1;
    }
    proof {
        assert(fragment_data(out@) =~= sv);
    }
    Ok(out)
}

/// The message of a refused reconstruction with too few fragments.
pub open spec fn too_few_message(threshold: u8, got: nat) -> Seq<char> {
    "need "@ + decimal(threshold as nat) + " fragments, got "@ + decimal(got)
}

/// What reconstruction gives for these share bytes: the recombined secret,
/// or the message it is refused with.
pub open spec fn reconstruction(sel: Seq<Seq<u8>>, threshold: u8) -> Result<Seq<u8>, Seq<char>> {
    if sel.len() < threshold {
        Err(too_few_message(threshold, sel.len()))
    } else if exists|i: int| 0 <= i < sel.len() && (#[trigger] sel[i]).len() < 2 {
        Err("A Share must be at least 2 bytes long"@)
    } else if !same_lengths(sel) {
        Err("All shares must have the same length"@)
    } else if distinct_point_count(sel) == 0 || distinct_point_count(sel) < threshold {
        Err("Not enough shares to recover original secret"@)
    } else {
        Ok(shamir_interpolated(sel))
    }
}

/// Recombines the secret from at least `threshold` fragments; the ids are
/// not consulted, only the share bytes.
pub fn reconstruct(fragments: &[Fragment], threshold: u8) -> (res: Result<Vec<u8>, PolygoneError>)
    ensures
        match reconstruction(fragment_data(fragments@), threshold) {
            Ok(secret) => res matches Ok(v) && v@ == secret,
            Err(msg) => res matches Err(PolygoneError::ShamirReconstruct(m)) && m@ == msg,
        },
{
    let ghost sel = fragment_data(fragments@);
    if fragments.len() < threshold as usize {
        let mut m = owned("need ");
        push_decimal(&mut m, threshold as u64);
        push_str(&mut m, " fragments, got ");
        push_decimal(&mut m, fragments.len() as u64);
        return Err(PolygoneError::ShamirReconstruct(m));
    }
    let mut datas: Vec<Vec<u8>> = Vec::new();
    let mut i: usize = 0;
    while i < fragments.len()
        invariant
            0 <= i <= fragments@.len(),
            sel == fragment_data(fragments@),
            fragments@.len() >= threshold,
            datas@.len() == i,
            forall|k: int| 0 <= k < i ==> (#[trigger] datas@[k])@ == sel[k] && sel[k].len() >= 2,
        decreases fragments@.len() - i,
    {
        if fragments[i].data.len() < 2 {
            assert(sel[i as int].len() < 2);
            assert(sel.len() == fragments@.len());
            assert(exists|k: int| 0 <= k < sel.len() && (#[trigger] sel[k]).len() < 2);
            return Err(PolygoneError::ShamirReconstruct(owned("A Share must be at least 2 bytes long")));
        }
        let d = fragments[i].data.clone();
        assert(d@ =~= fragments@[i as int].data@);
        assert(sel[i as int] == fragments@[i as int].data@);
        let ghost before = datas@;
        datas.push(d);
        assert forall|k: int| 0 <= k < i + 1 implies (#[trigger] datas@[k])@ == sel[k] && sel[k].len() >= 2 by {
            if k < i {
                assert(datas@[k] == before[k]);
            }
        }
        i = i + 1;
    }
    proof {
        assert(datas@.map_values(|v: Vec<u8>| v@) =~= sel);
    }
    match sharks_recover(threshold, datas.as_slice()) {
        Ok(v) => Ok(v),
        Err(e) => Err(PolygoneError::ShamirReconstruct(e)),
    }
}

/// Any `threshold` or more fragments of one split, with distinct x bytes,
/// recombine to the split secret (when the secret is not empty, so that
/// every share has at least two bytes).
pub proof fn lemma_reconstruct_after_split(shares: Seq<Seq<u8>>, secret: Seq<u8>, threshold: u8, sel: Seq<Seq<u8>>)
    requires
        is_dealing(shares, secret, threshold as nat),
        secret.len() >= 1,
        threshold >= 1,
        sel.len() >= threshold,
        drawn_from(sel, shares),
        distinct_points(sel),
    ensures
        reconstruction(sel, threshold) == Ok::<Seq<u8>, Seq<char>>(secret),
{
    assert forall|i: int| 0 <= i < sel.len() implies (#[trigger] sel[i]).len() == secret.len() + 1 by {
        let j = choose|j: int| 0 <= j < shares.len() && sel[i] == shares[j];
        assert(shares[j].len() == secret.len() + 1);
    }
    assert(same_lengths(sel));
    assert(!(exists|i: int| 0 <= i < sel.len() && (#[trigger] sel[i]).len() < 2));
    let p = points(sel);
    assert(p.no_duplicates()) by {
        assert forall|i: int, j: int| 0 <= i < p.len() && 0 <= j < p.len() && i != j implies p[i] != p[j] by {
            if i < j {
                assert(sel[i][0] != sel[j][0]);
            } else {
                assert(sel[j][0] != sel[i][0]);
            }
        }
    }
    p.unique_seq_to_set();
    assert(shamir_interpolated(sel) == secret);
}

} // verus!
