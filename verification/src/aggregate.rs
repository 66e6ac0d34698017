//! The aggregator: merges the two fetchers' outcomes into one candidate
//! list, tolerating either source failing.

use vstd::prelude::*;

use crate::candidate::Candidate;

verus! {

/// A failed fetch from one catalog: network or parse trouble, carried as a
/// human-readable message. Non-fatal to a search; the source merely
/// contributes nothing.
#[derive(Debug)]
pub struct SourceFetchError {
    pub message: String,
}

/// What one source contributes to the merged list: its candidates on
/// success, nothing on failure.
pub open spec fn contributed(res: Result<Vec<Candidate>, SourceFetchError>) -> Seq<Candidate> {
    match res {
        Ok(v) => v@,
        Err(_) => Seq::<Candidate>::empty(),
    }
}

/// A failed source is treated as an empty result.
pub fn source_or_empty(res: Result<Vec<Candidate>, SourceFetchError>) -> (r: Vec<Candidate>)
    ensures
        r@ == contributed(res),
{
    match res {
        Ok(v) => v,
        Err(_) => Vec::new(),
    }
}

/// Merges both fetchers' outcomes, official catalog first. A failing
/// source contributes nothing; with both failing the result is empty, and
/// with one failing it is exactly the other's candidates. The merge itself
/// never fails.
pub fn aggregate(
    official: Result<Vec<Candidate>, SourceFetchError>,
    aur: Result<Vec<Candidate>, SourceFetchError>,
) -> (r: Vec<Candidate>)
    ensures
        r@ == contributed(official) + contributed(aur),
        official is Err && aur is Err ==> r@ == Seq::<Candidate>::empty(),
        official is Err && aur is Ok ==> r@ == aur->Ok_0@,
        official is Ok && aur is Err ==> r@ == official->Ok_0@,
{
    let mut merged = source_or_empty(official);
    let mut from_aur = source_or_empty(aur);
    merged.append(&mut from_aur);
    proof {
        if official is Err {
            assert(merged@ =~= contributed(aur));
        }
        if aur is Err {
            assert(merged@ =~= contributed(official));
        }
    }
    merged
}

} // verus!
