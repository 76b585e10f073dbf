use vstd::prelude::*;
use crate::app::{Matcher, fold_case, lower_of};
use crate::color::chars_of;

verus! {

/// How many characters of `c` a greedy left-to-right search skips while finding the
/// characters of `q` in order, or nothing when `q` is not a subsequence of `c`.
pub open spec fn skipped(c: Seq<char>, q: Seq<char>) -> Option<nat>
    decreases c.len(),
{
    if q.len() == 0 {
        Some(0)
    } else if c.len() == 0 {
        None
    } else if c[0] == q[0] {
        skipped(c.drop_first(), q.drop_first())
    } else {
        match skipped(c.drop_first(), q) {
            Some(s) => Some(s + 1),
            None => None,
        }
    }
}

/// Largest number of skipped characters that the score tells apart.
pub const SKIP_CAP: u64 = 1000000;

/// The score of a candidate whose case-folded text is `c` against the query `q`: minus
/// the skipped characters, capped, so tighter matches score higher.
pub open spec fn subsequence_score(c: Seq<char>, q: Seq<char>) -> Option<i64> {
    match skipped(c, q) {
        Some(s) => Some(-(if s > SKIP_CAP { SKIP_CAP as int } else { s as int }) as i64),
        None => None,
    }
}

/// Matches a query as a subsequence of the case-folded candidate name.
pub struct SubsequenceMatcher;

impl Matcher for SubsequenceMatcher {
    open spec fn score(&self, candidate: Seq<char>, query: Seq<char>) -> Option<i64> {
        subsequence_score(lower_of(candidate), query)
    }

    fn matches(&self, candidate: &String, query: &String) -> (r: Option<i64>) {
        let folded = fold_case(candidate);
        let c = chars_of(folded.as_str());
        let q = chars_of(query.as_str());
        let mut i: usize = 0;
        let mut j: usize = 0;
        let mut skips: u64 = 0;
        let ghost mut total: nat = 0;
        assert(c@.subrange(0, c@.len() as int) =~= c@);
        assert(q@.subrange(0, q@.len() as int) =~= q@);
        while j < q.len()
            invariant
                i <= c@.len(),
                j <= q@.len(),
                skips as nat == if total > SKIP_CAP { SKIP_CAP as nat } else { total },
                c@ == lower_of(candidate@),
                q@ == query@,
                skipped(c@, q@) == plus(
                    skipped(c@.subrange(i as int, c@.len() as int), q@.subrange(j as int, q@.len() as int)),
                    total,
                ),
            decreases c@.len() - i,
        {
            let ghost cs = c@.subrange(i as int, c@.len() as int);
            let ghost qs = q@.subrange(j as int, q@.len() as int);
            if i == c.len() {
                assert(cs.len() == 0 && qs.len() > 0);
                return None;
            }
            assert(cs.drop_first() =~= c@.subrange(i + 1, c@.len() as int));
            assert(cs[0] == c@[i as int] && qs[0] == q@[j as int]);
            if c[i] == q[j] {
                assert(qs.drop_first() =~= q@.subrange(j + 1, q@.len() as int));
                j = j + 1;
            } else {
                if skips < SKIP_CAP as u64 {
                    skips = skips + 1;
                }
                proof {
                    total = total + 1;
                }
            }
            i = i + 1;
        }
        assert(q@.subrange(j as int, q@.len() as int).len() == 0);
        Some(-(skips as i64))
    }
}

/// `o` with `t` added to the count it holds.
pub open spec fn plus(o: Option<nat>, t: nat) -> Option<nat> {
    match o {
        Some(s) => Some(s + t),
        None => None,
    }
}

} // verus!
