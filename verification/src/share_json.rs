//! Secret shares carried as JSON text: a list of shares, each a list of byte values,
//! written and read by `serde_json`.
use vstd::prelude::*;
use vstd::string::StringExecFns;

use crate::encoding::{decimal, first_32};
use crate::errors::CryptoError;
use crate::rng::os_random_vec;
use crate::shamir::{
    lemma_split_then_reconstruct, pick_shares, reconstruct_outcome, reconstruct_secret,
    share_views, shares_well_formed, interpolate_secret, split_secret_with_randomness,
    split_spec,
};

verus! {

/// The decimal numerals of the bytes, separated by commas.
pub open spec fn json_numbers(bytes: Seq<u8>) -> Seq<char>
    decreases bytes.len(),
{
    if bytes.len() == 0 {
        Seq::empty()
    } else if bytes.len() == 1 {
        decimal(bytes[0] as nat)
    } else {
        json_numbers(bytes.drop_last()) + seq![','] + decimal(bytes.last() as nat)
    }
}

/// The compact JSON array of a list of bytes.
pub open spec fn json_byte_list(bytes: Seq<u8>) -> Seq<char> {
    seq!['['] + json_numbers(bytes) + seq![']']
}

/// The compact JSON arrays of the lists, separated by commas.
pub open spec fn json_byte_list_items(lists: Seq<Seq<u8>>) -> Seq<char>
    decreases lists.len(),
{
    if lists.len() == 0 {
        Seq::empty()
    } else if lists.len() == 1 {
        json_byte_list(lists[0])
    } else {
        json_byte_list_items(lists.drop_last()) + seq![','] + json_byte_list(lists.last())
    }
}

/// The compact JSON text of a list of byte lists, as `serde_json::to_string` writes a
/// `Vec<Vec<u8>>`: `[` and `]` around the lists separated by commas, each list `[` and `]`
/// around its values in decimal separated by commas, with no whitespace.
pub open spec fn json_of_byte_lists(lists: Seq<Seq<u8>>) -> Seq<char> {
    seq!['['] + json_byte_list_items(lists) + seq![']']
}

/// What `serde_json` reads from a JSON text as a list of byte lists: the lists, or,
/// when the text is not such a list, the text of the error.
pub uninterp spec fn json_byte_lists(text: Seq<char>) -> Result<Seq<Seq<u8>>, Seq<char>>;

/// `serde_json::from_str::<Vec<Vec<u8>>>`, with its error shown through `Display`; named
/// by `json_byte_lists` (the error text too is a function of the text alone: it names
/// the problem and its line and column). Claimed beyond the name, as the crate's source shows (a JSON
/// array of arrays of integers from 0 to 255, with nothing after it, reads as those
/// values): the compact JSON of any list of byte lists reads back as that list.
#[verifier::external_body]
fn parse_byte_lists(text: &str) -> (lists: Result<Vec<Vec<u8>>, String>)
    ensures
        match lists {
            Ok(v) => json_byte_lists(text@) matches Ok(x) && x == share_views(v@),
            Err(t) => json_byte_lists(text@) matches Err(x) && x == t@,
        },
        forall|l: Seq<Seq<u8>>|
            #[trigger] json_of_byte_lists(l) == text@ ==> lists is Ok && share_views(lists->Ok_0@)
                == l,
{
    match serde_json::from_str::<Vec<Vec<u8>>>(text) {
        Ok(v) => Ok(v),
        Err(e) => Err(e.to_string()),
    }
}

/// `serde_json::to_string` of a `Vec<Vec<u8>>`, its error shown through `Display`. As the
/// crate's source shows, the compact formatter writes `[`, the elements separated by `,`,
/// then `]`, and each `u8` in decimal (`itoa`); writing into the `Vec<u8>` behind the
/// string cannot fail, and neither can serializing integers and sequences, so the
/// result is always `Ok`.
#[verifier::external_body]
fn encode_byte_lists(shares: &Vec<Vec<u8>>) -> (encoded: Result<String, String>)
    ensures
        encoded is Ok,
        encoded matches Ok(t) ==> t@ == json_of_byte_lists(share_views(shares@)),
{
    match serde_json::to_string(shares) {
        Ok(t) => Ok(t),
        Err(e) => Err(e.to_string()),
    }
}

/// The message prefix of a shares text that is not a list of byte lists.
pub open spec fn invalid_json_prefix() -> Seq<char> {
    "invalid shares JSON: "@
}

/// Recovers a secret from shares given as JSON text (a list of shares, each a list of
/// byte values): `InvalidInput` with `invalid shares JSON: ` followed by the parser's
/// message when the text is not such a list, otherwise what `reconstruct_secret` gives
/// on the shares read.
pub fn reconstruct_secret_json(shares_json: &str, threshold: u8) -> (result: Result<
    [u8; 32],
    CryptoError,
>)
    ensures
        json_byte_lists(shares_json@) matches Err(t) ==> (result matches Err(
            CryptoError::InvalidInput(msg),
        ) && msg@ == invalid_json_prefix() + t),
        json_byte_lists(shares_json@) matches Ok(s) ==> reconstruct_outcome(s, result),
        forall|l: Seq<Seq<u8>>|
            #[trigger] json_of_byte_lists(l) == shares_json@ ==> reconstruct_outcome(l, result),
{
    let shares = match parse_byte_lists(shares_json) {
        Ok(v) => v,
        Err(e) => {
            let mut msg = String::from_str("invalid shares JSON: ");
            msg.append(e.as_str());
            return Err(CryptoError::InvalidInput(msg));
        },
    };
    reconstruct_secret(shares.as_slice(), threshold)
}

/// Splits a secret given as bytes into `total_shares` shares, written as JSON text (a
/// list of shares, each a list of byte values), with `random` supplying the higher
/// coefficients of the polynomials; `InvalidInput` when the secret is not 32 bytes.
pub fn split_secret_json_with_randomness(
    secret: &[u8],
    threshold: u8,
    total_shares: u8,
    random: &[u8],
) -> (result: Result<String, CryptoError>)
    requires
        secret@.len() == 32 ==> 2 <= threshold <= total_shares && random@.len() == 32 * (
        threshold - 1),
    ensures
        secret@.len() != 32 ==> (result matches Err(CryptoError::InvalidInput(msg)) && msg@
            == "secret must be 32 bytes"@),
        secret@.len() == 32 ==> (result matches Ok(text) && text@ == json_of_byte_lists(
            split_spec(secret@, threshold as nat, total_shares as nat, random@),
        )),
{
    if secret.len() != 32 {
        return Err(CryptoError::InvalidInput(String::from_str("secret must be 32 bytes")));
    }
    let key = first_32(secret);
    assert(key@ =~= secret@);
    let shares = split_secret_with_randomness(&key, threshold, total_shares, random);
    match encode_byte_lists(&shares) {
        Ok(text) => Ok(text),
        Err(e) => Err(CryptoError::InvalidInput(e)),
    }
}

/// Splits a secret given as bytes into `total_shares` shares, any `threshold` of which
/// recover it, written as JSON text; the higher coefficients of the polynomials are
/// drawn from the operating system's random source. `InvalidInput` when the secret is
/// not 32 bytes.
pub fn split_secret_json(secret: &[u8], threshold: u8, total_shares: u8) -> (result: Result<
    String,
    CryptoError,
>)
    requires
        secret@.len() == 32 ==> 2 <= threshold <= total_shares,
    ensures
        secret@.len() != 32 ==> (result matches Err(CryptoError::InvalidInput(msg)) && msg@
            == "secret must be 32 bytes"@),
        secret@.len() == 32 ==> (result matches Ok(text) && exists|random: Seq<u8>|
            random.len() == 32 * (threshold - 1) && text@ == json_of_byte_lists(
                split_spec(secret@, threshold as nat, total_shares as nat, random),
            )),
{
    if secret.len() != 32 {
        return Err(CryptoError::InvalidInput(String::from_str("secret must be 32 bytes")));
    }
    let random = os_random_vec(32 * (threshold as usize - 1));
    split_secret_json_with_randomness(secret, threshold, total_shares, random.as_slice())
}

/// All shares of a split recover the secret: with at most 255 shares, the full list is
/// well formed and interpolates to the secret, whatever the random coefficients were.
pub proof fn lemma_all_shares_recover(
    secret: Seq<u8>,
    threshold: nat,
    total_shares: nat,
    random: Seq<u8>,
)
    requires
        secret.len() == 32,
        2 <= threshold <= total_shares <= 255,
        random.len() == 32 * (threshold - 1),
    ensures
        shares_well_formed(split_spec(secret, threshold, total_shares, random)),
        interpolate_secret(split_spec(secret, threshold, total_shares, random)) == secret,
{
    let all = split_spec(secret, threshold, total_shares, random);
    let picks = Seq::new(total_shares, |i: int| i);
    lemma_split_then_reconstruct(secret, threshold, total_shares, random, picks);
    assert(pick_shares(all, picks) =~= all);
}

} // verus!
