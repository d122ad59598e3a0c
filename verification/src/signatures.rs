//! Accounting for signatures: which signer each signature of an envelope is
//! credited to, and whether the credited weights reach a threshold.
//!
//! Checking a signature against a key is cryptography and is done by the
//! caller. This module says which pairs of signature and signer are worth
//! checking, and does the accounting once the outcomes are known.

use crate::bytes::same_bytes;
use crate::error::StellarSdkError;
use crate::keys::hint_of;
use crate::xdr::envelope::TransactionEnvelope;
use crate::xdr::transaction::MAX_SIGNATURES;
use crate::xdr::types::{DecoratedSignature, SignatureHint, Signer};
use vstd::prelude::*;

verus! {

/// Whether the signature names the signer by its hint.
pub open spec fn hint_matches(signature: DecoratedSignature, signer: Signer) -> bool {
    hint_of(signer.key.key()) == signature.hint
}

/// Whether signature `i` was found to verify under the key of signer `j`. A
/// pair that the caller gave no outcome for counts as not verified.
pub open spec fn is_verified(verified: Seq<Vec<bool>>, i: int, j: int) -> bool {
    0 <= i < verified.len() && 0 <= j < verified[i]@.len() && verified[i]@[j]
}

/// Whether signature `i` can be credited to signer `j`: the hint matches,
/// the signature verifies, and the signer is not among those `taken` by
/// earlier signatures.
pub open spec fn creditable(
    signatures: Seq<DecoratedSignature>,
    signers: Seq<Signer>,
    verified: Seq<Vec<bool>>,
    taken: Seq<Option<usize>>,
    i: int,
    j: int,
) -> bool {
    &&& 0 <= j < signers.len()
    &&& hint_matches(signatures[i], signers[j])
    &&& is_verified(verified, i, j)
    &&& !taken.contains(Some(j as usize))
}

/// The first signer below `limit` that signature `i` can be credited to.
pub open spec fn first_creditable(
    signatures: Seq<DecoratedSignature>,
    signers: Seq<Signer>,
    verified: Seq<Vec<bool>>,
    taken: Seq<Option<usize>>,
    i: int,
    limit: nat,
) -> Option<usize>
    decreases limit,
{
    if limit == 0 {
        None
    } else {
        match first_creditable(signatures, signers, verified, taken, i, (limit - 1) as nat) {
            Some(j) => Some(j),
            None => if creditable(signatures, signers, verified, taken, i, limit - 1) {
                Some((limit - 1) as usize)
            } else {
                None
            },
        }
    }
}

/// For each of the first `upto` signatures, the signer it is credited to.
/// The signatures are taken in order, and each goes to the first signer
/// that it can be credited to.
pub open spec fn attributions(
    signatures: Seq<DecoratedSignature>,
    signers: Seq<Signer>,
    verified: Seq<Vec<bool>>,
    upto: nat,
) -> Seq<Option<usize>>
    decreases upto,
{
    if upto == 0 {
        Seq::empty()
    } else {
        let before = attributions(signatures, signers, verified, (upto - 1) as nat);
        before.push(
            first_creditable(signatures, signers, verified, before, upto - 1, signers.len()),
        )
    }
}

/// The sum of the weights of the signers that signatures are credited to.
pub open spec fn credited_weight(signers: Seq<Signer>, credited: Seq<Option<usize>>) -> nat
    decreases credited.len(),
{
    if credited.len() == 0 {
        0
    } else {
        credited_weight(signers, credited.drop_last()) + match credited.last() {
            Some(j) => signers[j as int].weight as nat,
            None => 0,
        }
    }
}

/// Whether one of the first `limit` signers is named by the hint of the signature.
pub open spec fn has_matching_signer(
    signature: DecoratedSignature,
    signers: Seq<Signer>,
    limit: nat,
) -> bool
    decreases limit,
{
    limit > 0 && (has_matching_signer(signature, signers, (limit - 1) as nat) || hint_matches(
        signature,
        signers[limit - 1],
    ))
}

/// The signers among the first `limit` that the hint of the signature
/// names, in order.
pub open spec fn matching_signers(
    signature: DecoratedSignature,
    signers: Seq<Signer>,
    limit: nat,
) -> Seq<usize>
    decreases limit,
{
    if limit == 0 {
        Seq::empty()
    } else {
        let before = matching_signers(signature, signers, (limit - 1) as nat);
        if hint_matches(signature, signers[limit - 1]) {
            before.push((limit - 1) as usize)
        } else {
            before
        }
    }
}

/// The hints of those among the first `upto` signatures that name no signer.
pub open spec fn unknown_hints(
    signatures: Seq<DecoratedSignature>,
    signers: Seq<Signer>,
    upto: nat,
) -> Seq<SignatureHint>
    decreases upto,
{
    if upto == 0 {
        Seq::empty()
    } else {
        let before = unknown_hints(signatures, signers, (upto - 1) as nat);
        if has_matching_signer(signatures[upto - 1], signers, signers.len()) {
            before
        } else {
            before.push(signatures[upto - 1].hint)
        }
    }
}

/// A signer that a signature is credited to matches its hint, verified it,
/// and was not credited with an earlier signature.
pub proof fn lemma_first_creditable(
    signatures: Seq<DecoratedSignature>,
    signers: Seq<Signer>,
    verified: Seq<Vec<bool>>,
    taken: Seq<Option<usize>>,
    i: int,
    limit: nat,
)
    requires
        limit <= signers.len() <= usize::MAX,
    ensures
        first_creditable(signatures, signers, verified, taken, i, limit) matches Some(j) ==> j
            < limit && creditable(signatures, signers, verified, taken, i, j as int),
    decreases limit,
{
    if limit > 0 {
        lemma_first_creditable(signatures, signers, verified, taken, i, (limit - 1) as nat);
    }
}

/// No signer is credited with two signatures, and every credit is backed by
/// a matching hint and a verified signature.
pub proof fn lemma_each_signer_credited_once(
    signatures: Seq<DecoratedSignature>,
    signers: Seq<Signer>,
    verified: Seq<Vec<bool>>,
    upto: nat,
)
    requires
        signers.len() <= usize::MAX,
    ensures
        ({
            let credited = attributions(signatures, signers, verified, upto);
            &&& credited.len() == upto
            &&& forall|i: int, k: int|
                0 <= i < k < upto && credited[i] is Some ==> credited[i] != credited[k]
            &&& forall|i: int|
                0 <= i < upto ==> (#[trigger] credited[i] matches Some(j) ==> j < signers.len()
                    && hint_matches(signatures[i], signers[j as int]) && is_verified(
                    verified,
                    i,
                    j as int,
                ))
        }),
    decreases upto,
{
    if upto > 0 {
        let before = attributions(signatures, signers, verified, (upto - 1) as nat);
        lemma_each_signer_credited_once(signatures, signers, verified, (upto - 1) as nat);
        lemma_first_creditable(signatures, signers, verified, before, upto - 1, signers.len());
        let credited = attributions(signatures, signers, verified, upto);
        assert forall|i: int, k: int| 0 <= i < k < upto && credited[i] is Some implies credited[i]
            != credited[k] by {
            if k == upto - 1 {
                if credited[i] == credited[k] {
                    assert(before[i] == credited[k]);
                    assert(before.contains(credited[k]));
                }
            } else {
                assert(credited[i] == before[i] && credited[k] == before[k]);
            }
        }
        assert forall|i: int| 0 <= i < upto implies (#[trigger] credited[i] matches Some(j) ==> j
            < signers.len() && hint_matches(signatures[i], signers[j as int]) && is_verified(
            verified,
            i,
            j as int,
        )) by {
            if i < upto - 1 {
                assert(credited[i] == before[i]);
            }
        }
    }
}

/// The outcome of the accounting for the signatures of an envelope.
#[derive(Debug, Clone, PartialEq, Eq)]
pub struct WeightReport {
    /// The sum of the weights of the signers that a signature was credited to.
    pub weight: u64,
    /// Whether that sum reaches the threshold.
    pub threshold_met: bool,
    /// For each signature, in order, the signer it was credited to.
    pub attributions: Vec<Option<usize>>,
    /// The hints of the signatures that name no signer at all.
    pub unknown: Vec<SignatureHint>,
}

impl WeightReport {
    /// Succeeds if every signature named a signer; else fails with the hint
    /// of the first signature that named none.
    pub fn check_known(&self) -> (r: Result<(), StellarSdkError>)
        ensures
            self.unknown@.len() == 0 ==> r is Ok,
            self.unknown@.len() > 0 ==> r == Err::<(), StellarSdkError>(
                StellarSdkError::UnknownSignerKey(self.unknown@[0]),
            ),
    {
        if self.unknown.len() == 0 {
            Ok(())
        } else {
            Err(StellarSdkError::UnknownSignerKey(self.unknown[0]))
        }
    }
}

fn same_hint(first: &SignatureHint, second: &SignatureHint) -> (r: bool)
    ensures
        r == (*first == *second),
{
    let same = same_bytes(first.as_slice(), second.as_slice());
    proof {
        if same {
            assert(*first =~= *second);
        }
    }
    same
}

fn is_taken(credited: &Vec<Option<usize>>, signer: usize) -> (r: bool)
    ensures
        r == credited@.contains(Some(signer)),
{
    let mut i: usize = 0;
    while i < credited.len()
        invariant
            i <= credited.len(),
            forall|k: int| 0 <= k < i ==> credited@[k] != Some(signer),
        decreases credited.len() - i,
    {
        match credited[i] {
            Some(taken) => {
                if taken == signer {
                    return true;
                }
            },
            None => {},
        }
        i += 1;
    }
    false
}

fn lookup(verified: &Vec<Vec<bool>>, i: usize, j: usize) -> (r: bool)
    ensures
        r == is_verified(verified@, i as int, j as int),
{
    if i < verified.len() {
        let row = &verified[i];
        if j < row.len() {
            row[j]
        } else {
            false
        }
    } else {
        false
    }
}

/// The signers that the hint of `signature` names, in order. These are the
/// signers whose keys the signature is worth checking against.
pub fn signers_for(signature: &DecoratedSignature, signers: &Vec<Signer>) -> (r: Vec<usize>)
    ensures
        r@ == matching_signers(*signature, signers@, signers@.len()),
{
    let mut found: Vec<usize> = Vec::new();
    let mut j: usize = 0;
    while j < signers.len()
        invariant
            j <= signers.len(),
            found@ == matching_signers(*signature, signers@, j as nat),
        decreases signers.len() - j,
    {
        let hint = signers[j].key.signature_hint();
        if same_hint(&hint, &signature.hint) {
            found.push(j);
        }
        j += 1;
    }
    found
}

/// Credits each signature to a signer and adds up the weights.
///
/// `verified[i][j]` says whether signature `i` verifies under the key of
/// signer `j`; only pairs with a matching hint are looked at. Signatures
/// are taken in order. Each is credited to the first signer whose hint
/// matches, under whose key it verifies, and who has no credit yet; so no
/// signature counts for more than one signer, and no signer counts twice.
/// A signature whose hint names no signer is reported in `unknown` and the
/// accounting goes on.
pub fn verify_signature_weights(
    signatures: &Vec<DecoratedSignature>,
    signers: &Vec<Signer>,
    verified: &Vec<Vec<bool>>,
    threshold: u32,
) -> (r: WeightReport)
    requires
        signatures@.len() <= MAX_SIGNATURES,
    ensures
        r.attributions@ == attributions(signatures@, signers@, verified@, signatures@.len()),
        r.weight == credited_weight(signers@, r.attributions@),
        r.threshold_met == (r.weight >= threshold),
        r.unknown@ == unknown_hints(signatures@, signers@, signatures@.len()),
{
    let mut credited: Vec<Option<usize>> = Vec::new();
    let mut unknown: Vec<SignatureHint> = Vec::new();
    let mut weight: u64 = 0;
    let mut i: usize = 0;
    while i < signatures.len()
        invariant
            i <= signatures.len() <= MAX_SIGNATURES,
            credited@ == attributions(signatures@, signers@, verified@, i as nat),
            weight == credited_weight(signers@, credited@),
            weight <= i * 0xffff_ffff,
            unknown@ == unknown_hints(signatures@, signers@, i as nat),
        decreases signatures.len() - i,
    {
        let signature = &signatures[i];
        let mut found: Option<usize> = None;
        let mut named = false;
        let mut j: usize = 0;
        while j < signers.len()
            invariant
                j <= signers.len(),
                i < signatures.len(),
                *signature == signatures@[i as int],
                found == first_creditable(
                    signatures@,
                    signers@,
                    verified@,
                    credited@,
                    i as int,
                    j as nat,
                ),
                named == has_matching_signer(*signature, signers@, j as nat),
            decreases signers.len() - j,
        {
            let hint = signers[j].key.signature_hint();
            if same_hint(&hint, &signature.hint) {
                named = true;
                if found.is_none() && lookup(verified, i, j) && !is_taken(&credited, j) {
                    found = Some(j);
                }
            }
            j += 1;
        }
        proof {
            lemma_first_creditable(
                signatures@,
                signers@,
                verified@,
                credited@,
                i as int,
                signers@.len(),
            );
            let longer = credited@.push(found);
            assert(longer.drop_last() =~= credited@);
        }
        match found {
            Some(signer) => {
                weight = weight + signers[signer].weight as u64;
            },
            None => {},
        }
        credited.push(found);
        if !named {
            unknown.push(signature.hint);
        }
        i += 1;
    }
    WeightReport {
        weight,
        threshold_met: weight >= threshold as u64,
        attributions: credited,
        unknown,
    }
}

impl TransactionEnvelope {
    /// Credits the signatures of the envelope to the given signers and says
    /// whether their weights reach the threshold. See
    /// [`verify_signature_weights`].
    pub fn verify_weights(
        &self,
        signers: &Vec<Signer>,
        verified: &Vec<Vec<bool>>,
        threshold: u32,
    ) -> (r: WeightReport)
        requires
            self@.wf(),
        ensures
            r.attributions@ == attributions(
                self@.signatures(),
                signers@,
                verified@,
                self@.signatures().len(),
            ),
            r.weight == credited_weight(signers@, r.attributions@),
            r.threshold_met == (r.weight >= threshold),
            r.unknown@ == unknown_hints(self@.signatures(), signers@, self@.signatures().len()),
    {
        verify_signature_weights(self.signatures(), signers, verified, threshold)
    }
}

} // verus!
