use vstd::prelude::*;

verus! {

/// Why a proof-injection call failed.
///
/// `ProofEmpty`: a membership proof was expected, but the chain holds no
/// value under the derived path; retryable once newer state has propagated.
/// `ProofNonEmpty`: a non-membership proof was expected, but the chain does
/// hold a value; the outbound message is obsolete and should be dropped.
/// `UpstreamUnavailable`: the endpoint could not be reached; retryable.
/// `MalformedResponse`: the endpoint answered without the expected proof
/// entry; fatal for the call.
///
/// The message builders themselves never fail: an event reaching a mapping
/// stage without matching its partition's variant is ruled out by their
/// contracts, so no error kind exists for that defect.
#[derive(Clone, Copy, PartialEq, Eq, Structural, Debug)]
pub enum ProofError {
    ProofEmpty,
    ProofNonEmpty,
    UpstreamUnavailable,
    MalformedResponse,
}

/// The one membership policy both proof backends follow: a receive or
/// acknowledgement message needs the proven value present, a timeout
/// message needs it absent.
pub open spec fn membership_policy(expect_membership: bool, value_absent: bool) -> Option<
    ProofError,
> {
    if expect_membership && value_absent {
        Some(ProofError::ProofEmpty)
    } else if !expect_membership && !value_absent {
        Some(ProofError::ProofNonEmpty)
    } else {
        None
    }
}

/// Applies the membership policy to one fetched value.
pub fn check_membership(expect_membership: bool, value_absent: bool) -> (r: Option<ProofError>)
    ensures
        r == membership_policy(expect_membership, value_absent),
{
    if expect_membership && value_absent {
        Some(ProofError::ProofEmpty)
    } else if !expect_membership && !value_absent {
        Some(ProofError::ProofNonEmpty)
    } else {
        None
    }
}

/// Whether every per-message check passed.
pub open spec fn all_ok(errs: Seq<Option<ProofError>>) -> bool {
    forall|i: int| 0 <= i < errs.len() ==> #[trigger] errs[i] is None
}

/// The first error in the per-message checks at or after position `i`.
pub open spec fn first_err_from(errs: Seq<Option<ProofError>>, i: int) -> ProofError
    decreases errs.len() - i,
{
    if i < 0 || i >= errs.len() {
        arbitrary()
    } else {
        match errs[i] {
            Some(e) => e,
            None => first_err_from(errs, i + 1),
        }
    }
}

/// If every check before `k` passed and the check at `k` failed with `e`,
/// then `e` is the first error of the whole sequence.
pub proof fn lemma_first_err_is(errs: Seq<Option<ProofError>>, k: int, e: ProofError)
    requires
        0 <= k < errs.len(),
        forall|j: int| 0 <= j < k ==> #[trigger] errs[j] is None,
        errs[k] == Some(e),
    ensures
        !all_ok(errs),
        first_err_from(errs, 0) == e,
{
    lemma_first_err_step(errs, 0, k, e);
}

/// Helper induction for [`lemma_first_err_is`], walking up from `i` to `k`.
proof fn lemma_first_err_step(errs: Seq<Option<ProofError>>, i: int, k: int, e: ProofError)
    requires
        0 <= i <= k < errs.len(),
        forall|j: int| i <= j < k ==> #[trigger] errs[j] is None,
        errs[k] == Some(e),
    ensures
        first_err_from(errs, i) == e,
    decreases k - i,
{
    if i < k {
        lemma_first_err_step(errs, i + 1, k, e);
    }
}

} // verus!
