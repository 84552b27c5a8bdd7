//! The derangement generator.
//!
//! Given the participants of a game it produces a random assignment of
//! givers to receivers in which every participant appears exactly once on
//! each side and nobody is assigned to themselves.  The randomness comes
//! from shuffling the identifier list; the shuffle is retried until it has
//! no fixed points, up to a fixed bound.

use vstd::prelude::*;
use vstd::seq_lib::group_seq_properties;
use crate::error::ApiError;
use crate::models::Participant;
use rand::seq::SliceRandom;

verus! {

/// How many random shuffles are attempted before giving up.  For two or
/// more participants each attempt succeeds with probability bounded below
/// by a constant, so exhausting the bound indicates a broken random
/// source, not bad luck.
pub const MAX_DRAW_ATTEMPTS: u32 = 100;

/// The character sequences behind a list of strings.
pub open spec fn views_of(s: Seq<String>) -> Seq<Seq<char>> {
    s.map_values(|x: String| x@)
}

/// The character sequences behind a list of string pairs.
pub open spec fn pair_views(m: Seq<(String, String)>) -> Seq<(Seq<char>, Seq<char>)> {
    m.map_values(|p: (String, String)| (p.0@, p.1@))
}

/// The identifiers of a participant list, in order.
pub open spec fn participant_ids(ps: Seq<Participant>) -> Seq<Seq<char>> {
    ps.map_values(|p: Participant| p.id@)
}

/// The giver side of an assignment, in order.
pub open spec fn givers(m: Seq<(Seq<char>, Seq<char>)>) -> Seq<Seq<char>> {
    m.map_values(|p: (Seq<char>, Seq<char>)| p.0)
}

/// The receiver side of an assignment, in order.
pub open spec fn receivers(m: Seq<(Seq<char>, Seq<char>)>) -> Seq<Seq<char>> {
    m.map_values(|p: (Seq<char>, Seq<char>)| p.1)
}

/// No position pairs an identifier with itself.
pub open spec fn no_fixed_points(a: Seq<Seq<char>>, b: Seq<Seq<char>>) -> bool {
    forall|i: int| 0 <= i < a.len() ==> a[i] != b[i]
}

/// What the generator promises of a successful assignment over `ids`:
/// the givers are exactly `ids` in their original order, the receivers
/// are a rearrangement of `ids`, and nobody gives to themselves.
pub open spec fn valid_matching(m: Seq<(Seq<char>, Seq<char>)>, ids: Seq<Seq<char>>) -> bool {
    &&& m.len() == ids.len()
    &&& forall|i: int| 0 <= i < m.len() ==> (#[trigger] m[i]).0 == ids[i]
    &&& receivers(m).to_multiset() == ids.to_multiset()
    &&& forall|i: int| 0 <= i < m.len() ==> (#[trigger] m[i]).1 != m[i].0
}

/// Relies on rand's `SliceRandom::shuffle`: it permutes the slice in
/// place, so the new contents are a rearrangement of the old.
#[verifier::external_body]
fn shuffle_strings(v: &mut Vec<String>)
    ensures
        final(v)@.len() == old(v)@.len(),
        views_of(final(v)@).to_multiset() == views_of(old(v)@).to_multiset(),
{
    v.shuffle(&mut rand::thread_rng());
}

/// An element-wise copy of a list of strings.
fn copy_strings(v: &Vec<String>) -> (r: Vec<String>)
    ensures
        r@.len() == v@.len(),
        views_of(r@) == views_of(v@),
{
    let mut r: Vec<String> = Vec::new();
    let n = v.len();
    for i in 0..n
        invariant
            n == v@.len(),
            r@.len() == i,
            forall|j: int| 0 <= j < i ==> (#[trigger] r@[j])@ == v@[j]@,
    {
        r.push(v[i].clone());
    }
    assert(views_of(r@) =~= views_of(v@));
    r
}

/// Decides whether a shuffled arrangement is acceptable: true exactly
/// when no position pairs an identifier with itself.
pub fn derangement_free(ids: &Vec<String>, shuffled: &Vec<String>) -> (r: bool)
    requires
        ids@.len() == shuffled@.len(),
    ensures
        r == no_fixed_points(views_of(ids@), views_of(shuffled@)),
{
    let n = ids.len();
    for i in 0..n
        invariant
            n == ids@.len() == shuffled@.len(),
            forall|j: int| 0 <= j < i ==> (#[trigger] ids@[j])@ != shuffled@[j]@,
    {
        if crate::strutil::str_eq(ids[i].as_str(), shuffled[i].as_str()) {
            assert(views_of(ids@)[i as int] == views_of(shuffled@)[i as int]);
            return false;
        }
    }
    assert forall|j: int| 0 <= j < ids@.len() implies views_of(ids@)[j] != views_of(
        shuffled@,
    )[j] by {
        assert(ids@[j]@ != shuffled@[j]@);
    }
    true
}

/// Pair each identifier with the one at the same position of the shuffle.
fn pair_up(ids: &Vec<String>, shuffled: &Vec<String>) -> (m: Vec<(String, String)>)
    requires
        ids@.len() == shuffled@.len(),
    ensures
        m@.len() == ids@.len(),
        givers(pair_views(m@)) == views_of(ids@),
        receivers(pair_views(m@)) == views_of(shuffled@),
{
    let mut m: Vec<(String, String)> = Vec::new();
    let n = ids.len();
    for i in 0..n
        invariant
            n == ids@.len() == shuffled@.len(),
            m@.len() == i,
            forall|j: int| 0 <= j < i ==> (#[trigger] m@[j]).0@ == ids@[j]@,
            forall|j: int| 0 <= j < i ==> (#[trigger] m@[j]).1@ == shuffled@[j]@,
    {
        m.push((ids[i].clone(), shuffled[i].clone()));
    }
    assert(givers(pair_views(m@)) =~= views_of(ids@));
    assert(receivers(pair_views(m@)) =~= views_of(shuffled@));
    m
}

/// Generate a random assignment of givers to receivers over the given
/// participants, such that every participant gives and receives exactly
/// once and nobody is assigned to themselves.
///
/// Fewer than two participants are rejected outright.  Otherwise the
/// shuffle is retried up to [`MAX_DRAW_ATTEMPTS`] times; if every attempt
/// had a fixed point, the generator reports the retry bound exhausted.
pub fn generate_matches(participants: &Vec<Participant>) -> (r: Result<
    Vec<(String, String)>,
    ApiError,
>)
    ensures
        (r matches Err(e) && e == ApiError::InsufficientParticipants) <==> participants@.len() < 2,
        r matches Ok(m) ==> valid_matching(pair_views(m@), participant_ids(participants@)),
        r matches Err(e) ==> e == ApiError::InsufficientParticipants
            || e == ApiError::DerangementUnattainable,
{
    broadcast use group_seq_properties;

    if participants.len() < 2 {
        return Err(ApiError::InsufficientParticipants);
    }

    let mut ids: Vec<String> = Vec::new();
    let n = participants.len();
    for i in 0..n
        invariant
            n == participants@.len(),
            ids@.len() == i,
            forall|j: int| 0 <= j < i ==> (#[trigger] ids@[j])@ == participants@[j].id@,
    {
        ids.push(participants[i].id.clone());
    }
    assert(views_of(ids@) =~= participant_ids(participants@));

    let mut attempt: u32 = 0;
    while attempt < MAX_DRAW_ATTEMPTS
        invariant
            ids@.len() == participants@.len(),
            views_of(ids@) == participant_ids(participants@),
            participants@.len() >= 2,
        decreases MAX_DRAW_ATTEMPTS - attempt,
    {
        let mut shuffled = copy_strings(&ids);
        shuffle_strings(&mut shuffled);
        if derangement_free(&ids, &shuffled) {
            let m = pair_up(&ids, &shuffled);
            proof {
                let mv = pair_views(m@);
                let idv = participant_ids(participants@);
                assert(givers(mv) == idv);
                assert forall|i: int| 0 <= i < mv.len() implies (#[trigger] mv[i]).0 == idv[i] by {
                    assert(givers(mv)[i] == mv[i].0);
                }
                assert(receivers(mv).to_multiset() == idv.to_multiset());
                assert forall|i: int| 0 <= i < mv.len() implies (#[trigger] mv[i]).1 != mv[i].0 by {
                    assert(views_of(ids@)[i] != views_of(shuffled@)[i]);
                    assert(mv[i].0 == givers(mv)[i]);
                    assert(mv[i].1 == receivers(mv)[i]);
                }
            }
            return Ok(m);
        }
        attempt = attempt + 1;
    }
    Err(ApiError::DerangementUnattainable)
}

/// Law: over distinct identifiers, a valid matching is a bijection with
/// no fixed points.  Every identifier of `ids` appears exactly once as a
/// giver and exactly once as a receiver, identifiers outside `ids` appear
/// on neither side, and no position gives to itself.
pub proof fn lemma_valid_matching_bijection(m: Seq<(Seq<char>, Seq<char>)>, ids: Seq<Seq<char>>)
    requires
        valid_matching(m, ids),
        ids.no_duplicates(),
    ensures
        forall|x: Seq<char>|
            ids.contains(x) ==> givers(m).to_multiset().count(x) == 1 && receivers(
                m,
            ).to_multiset().count(x) == 1,
        forall|x: Seq<char>|
            !ids.contains(x) ==> givers(m).to_multiset().count(x) == 0 && receivers(
                m,
            ).to_multiset().count(x) == 0,
        forall|i: int| 0 <= i < m.len() ==> (#[trigger] m[i]).1 != m[i].0,
{
    broadcast use vstd::seq_lib::group_to_multiset_ensures;

    assert(givers(m) =~= ids);
    ids.lemma_multiset_has_no_duplicates();
    assert forall|x: Seq<char>| ids.contains(x) implies givers(m).to_multiset().count(x) == 1
        && receivers(m).to_multiset().count(x) == 1 by {
        assert(ids.to_multiset().contains(x));
    }
    assert forall|x: Seq<char>| !ids.contains(x) implies givers(m).to_multiset().count(x) == 0
        && receivers(m).to_multiset().count(x) == 0 by {
        assert(ids.to_multiset().count(x) == 0);
    }
}

} // verus!
