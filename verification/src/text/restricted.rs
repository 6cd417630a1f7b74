//! Exact traversal candidate membership for full-text search.

use std::sync::Arc;

use roaring::RoaringTreemap;
use vstd::prelude::*;

use crate::bitmap::{bitmap_ids, lemma_ids_finite};
use crate::config::limits::PositiveU64;
use crate::error::{query_error, HelixDbError, HelixDbErrorView};
use crate::render::{decimal, decimal_string};

verus! {

/// The most unique candidates of one restricted search.
pub const MAX_RESTRICTED_CANDIDATES: u64 = 1_000_000;

/// Deduplicated, bounded candidate IDs supplied by an upstream traversal.
#[derive(Debug)]
pub enum RestrictedTextCandidates {
    /// The traversal produced no unique IDs.
    Empty,
    /// The traversal produced a non-empty exact bitmap.
    NonEmpty(RoaringTreemap),
}

impl View for RestrictedTextCandidates {
    type V = Set<u64>;

    open spec fn view(&self) -> Set<u64> {
        match self {
            RestrictedTextCandidates::Empty => Set::empty(),
            RestrictedTextCandidates::NonEmpty(bitmap) => bitmap_ids(*bitmap),
        }
    }
}

/// The report on one unique candidate too many.
pub open spec fn too_many_candidates(limit: u64) -> HelixDbErrorView {
    HelixDbErrorView::Query(
        "restricted text search accepts at most "@ + decimal(limit as nat) + " unique candidates"@,
    )
}

/// Builds an exact candidate bitmap while enforcing its unique-ID limit.
#[derive(Debug)]
pub struct RestrictedTextCandidatesBuilder {
    bitmap: RoaringTreemap,
    limit: PositiveU64,
}

impl View for RestrictedTextCandidatesBuilder {
    type V = Set<u64>;

    closed spec fn view(&self) -> Set<u64> {
        bitmap_ids(self.bitmap)
    }
}

impl RestrictedTextCandidatesBuilder {
    /// The most unique candidates that it retains.
    pub closed spec fn spec_limit(self) -> u64 {
        self.limit@
    }

    #[verifier::type_invariant]
    spec fn well_formed(self) -> bool {
        bitmap_ids(self.bitmap).len() <= self.limit@
    }

    /// Makes an empty builder with the standard limit.
    pub fn new() -> (builder: Self)
        ensures
            builder@ == Set::<u64>::empty(),
            builder.spec_limit() == MAX_RESTRICTED_CANDIDATES,
    {
        RestrictedTextCandidatesBuilder::with_limit(
            PositiveU64::new(MAX_RESTRICTED_CANDIDATES).unwrap(),
        )
    }

    /// Makes an empty builder with the given limit.
    pub fn with_limit(limit: PositiveU64) -> (builder: Self)
        ensures
            builder@ == Set::<u64>::empty(),
            builder.spec_limit() == limit@,
    {
        RestrictedTextCandidatesBuilder { bitmap: RoaringTreemap::new(), limit }
    }

    /// Retains the ID unless it is retained already, and tells whether it is
    /// new. One unique ID over the limit is rejected, and nothing changes.
    pub fn try_insert(&mut self, id: u64) -> (inserted: Result<bool, HelixDbError>)
        ensures
            final(self).spec_limit() == old(self).spec_limit(),
            match inserted {
                Ok(new) => {
                    &&& new == !old(self)@.contains(id)
                    &&& final(self)@ == old(self)@.insert(id)
                    &&& new ==> old(self)@.len() < old(self).spec_limit()
                },
                Err(error) => {
                    &&& !old(self)@.contains(id)
                    &&& old(self)@.len() == old(self).spec_limit()
                    &&& final(self)@ == old(self)@
                    &&& error@ == too_many_candidates(old(self).spec_limit())
                },
            },
            final(self)@.len() <= final(self).spec_limit(),
    {
        proof {
            use_type_invariant(&*self);
            lemma_ids_finite(bitmap_ids(self.bitmap));
        }
        if self.bitmap.contains(id) {
            assert(self@.insert(id) =~= self@);
            return Ok(false);
        }
        if self.bitmap.len() >= self.limit.get() {
            let mut message = "restricted text search accepts at most ".to_owned();
            let limit = decimal_string(self.limit.get());
            message.append(limit.as_str());
            message.append(" unique candidates");
            return Err(query_error(message.as_str()));
        }
        let mut bitmap = RoaringTreemap::new();
        std::mem::swap(&mut bitmap, &mut self.bitmap);
        let _ = bitmap.insert(id);
        self.bitmap = bitmap;
        Ok(true)
    }

    /// The candidates that were retained.
    pub fn finish(self) -> (candidates: RestrictedTextCandidates)
        ensures
            candidates@ == self@,
            candidates is Empty <==> self@ == Set::<u64>::empty(),
    {
        let RestrictedTextCandidatesBuilder { bitmap, limit: _ } = self;
        if bitmap.is_empty() {
            RestrictedTextCandidates::Empty
        } else {
            RestrictedTextCandidates::NonEmpty(bitmap)
        }
    }
}

impl RestrictedTextCandidates {
    /// Canonicalizes duplicate traversal rows into one exact bounded bitmap.
    pub fn from_ids(ids: &Vec<u64>) -> (candidates: Result<Self, HelixDbError>)
        ensures
            match candidates {
                Ok(candidates) => {
                    &&& ids@.to_set().len() <= MAX_RESTRICTED_CANDIDATES
                    &&& candidates@ == ids@.to_set()
                    &&& candidates is Empty <==> ids@.len() == 0
                },
                Err(error) => {
                    &&& ids@.to_set().len() > MAX_RESTRICTED_CANDIDATES
                    &&& error@ == too_many_candidates(MAX_RESTRICTED_CANDIDATES)
                },
            },
    {
        let mut builder = RestrictedTextCandidatesBuilder::new();
        let mut i: usize = 0;
        assert(ids@.take(0).to_set() =~= Set::<u64>::empty());
        assert(Set::<u64>::empty().len() == 0);
        while i < ids.len()
            invariant
                i <= ids.len(),
                builder.spec_limit() == MAX_RESTRICTED_CANDIDATES,
                builder@ == ids@.take(i as int).to_set(),
                builder@.len() <= MAX_RESTRICTED_CANDIDATES,
            decreases ids.len() - i,
        {
            let ghost before = ids@.take(i as int);
            let ghost after = ids@.take(i as int + 1);
            proof {
                assert(after =~= before.push(ids@[i as int]));
                assert forall|id: u64| #[trigger] after.to_set().contains(id) <==> before.to_set().insert(
                    ids@[i as int],
                ).contains(id) by {
                    if before.contains(id) {
                        let k = choose|k: int| 0 <= k < before.len() && before[k] == id;
                        assert(after[k] == id);
                    }
                    if id == ids@[i as int] {
                        assert(after[i as int] == id);
                    }
                }
                assert(after.to_set() =~= before.to_set().insert(ids@[i as int]));
                lemma_ids_finite(before.to_set());
                lemma_ids_finite(ids@.to_set());
                assert(after.to_set().subset_of(ids@.to_set())) by {
                    assert forall|id: u64| after.to_set().contains(id) implies ids@.to_set().contains(
                        id,
                    ) by {
                        let k = choose|k: int| 0 <= k < after.len() && after[k] == id;
                        assert(ids@[k] == id);
                    }
                }
                vstd::set_lib::lemma_len_subset(after.to_set(), ids@.to_set());
            }
            match builder.try_insert(ids[i]) {
                Ok(_) => {},
                Err(error) => {
                    return Err(error);
                },
            }
            i = i + 1;
        }
        assert(ids@.take(i as int) =~= ids@);
        proof {
            if ids@.len() > 0 {
                assert(ids@.to_set().contains(ids@[0]));
            } else {
                assert(ids@.to_set() =~= Set::<u64>::empty());
            }
        }
        Ok(builder.finish())
    }

    /// Whether there is no candidate.
    pub fn is_empty(&self) -> (empty: bool)
        ensures
            empty == (*self is Empty),
    {
        match self {
            RestrictedTextCandidates::Empty => true,
            RestrictedTextCandidates::NonEmpty(_) => false,
        }
    }

    /// Whether the entity is a candidate.
    pub fn contains(&self, entity_id: u64) -> (present: bool)
        ensures
            present == self@.contains(entity_id),
    {
        match self {
            RestrictedTextCandidates::Empty => false,
            RestrictedTextCandidates::NonEmpty(bitmap) => bitmap.contains(entity_id),
        }
    }
}

/// Explicit unrestricted or exact-candidate scope for every physical text
/// read.
#[derive(Debug)]
pub enum TextSearchScope {
    Unrestricted,
    Restricted(Arc<RestrictedTextCandidates>),
}

impl TextSearchScope {
    /// Whether the entity may be a result.
    pub open spec fn admits(self, entity_id: u64) -> bool {
        match self {
            TextSearchScope::Unrestricted => true,
            TextSearchScope::Restricted(candidates) => candidates@.contains(entity_id),
        }
    }

    /// The scope of the given candidates.
    pub fn restricted(candidates: Arc<RestrictedTextCandidates>) -> (scope: Self)
        ensures
            scope == TextSearchScope::Restricted(candidates),
    {
        TextSearchScope::Restricted(candidates)
    }

    /// The candidates of a restricted scope.
    pub fn candidates(&self) -> (candidates: Option<&RestrictedTextCandidates>)
        ensures
            match (*self, candidates) {
                (TextSearchScope::Unrestricted, None) => true,
                (TextSearchScope::Restricted(own), Some(candidates)) => *own == *candidates,
                _ => false,
            },
    {
        match self {
            TextSearchScope::Unrestricted => None,
            TextSearchScope::Restricted(candidates) => Some(&**candidates),
        }
    }

    /// Whether the scope is restricted to no candidate at all.
    pub fn is_empty_restricted(&self) -> (empty: bool)
        ensures
            empty == match *self {
                TextSearchScope::Unrestricted => false,
                TextSearchScope::Restricted(candidates) => *candidates
                    == RestrictedTextCandidates::Empty,
            },
    {
        match self.candidates() {
            Some(candidates) => candidates.is_empty(),
            None => false,
        }
    }
}

/// The candidates of a traversal are exactly its identifiers, however often each
/// occurs and in whatever order; a million different ones are accepted, one more
/// is rejected.
pub proof fn law_candidates_are_the_different_identifiers(
    ids: Vec<u64>,
    candidates: Result<RestrictedTextCandidates, HelixDbError>,
)
    requires
        call_ensures(RestrictedTextCandidates::from_ids, (&ids,), candidates),
    ensures
        candidates is Err <==> ids@.to_set().len() > 1_000_000,
        candidates matches Err(error) ==> error@ is Query,
        candidates matches Ok(candidates) ==> {
            &&& forall|id: u64| #[trigger] candidates@.contains(id) <==> ids@.contains(id)
            &&& candidates is Empty <==> ids@.len() == 0
        },
{
    if let Ok(candidates) = candidates {
        assert forall|id: u64| #[trigger] candidates@.contains(id) <==> ids@.contains(id) by {
            assert(ids@.to_set().contains(id) <==> ids@.contains(id));
        }
    }
}

/// A builder accepts an identifier unless it would be one too many, says whether
/// it is new, and retains it besides those it had. A repeated identifier is
/// always accepted; a rejected one changes nothing.
pub proof fn law_builders_retain_up_to_their_limit(
    builder: &mut RestrictedTextCandidatesBuilder,
    id: u64,
    inserted: Result<bool, HelixDbError>,
)
    requires
        call_ensures(RestrictedTextCandidatesBuilder::try_insert, (builder, id), inserted),
        old(builder)@.len() <= old(builder).spec_limit(),
    ensures
        inserted is Err <==> !old(builder)@.contains(id) && old(builder)@.len() >= old(
            builder,
        ).spec_limit(),
        inserted is Err ==> final(builder)@ == old(builder)@,
        inserted matches Ok(new) ==> {
            &&& new <==> !old(builder)@.contains(id)
            &&& final(builder)@.contains(id)
            &&& forall|other: u64|
                other != id ==> (#[trigger] final(builder)@.contains(other) <==> old(
                    builder,
                )@.contains(other))
        },
        final(builder)@.len() <= final(builder).spec_limit() == old(builder).spec_limit(),
{
}

/// An unrestricted scope admits every entity, a restricted one exactly its
/// candidates, and only a scope that is restricted to no candidate is known to
/// admit none.
pub proof fn law_scopes_admit_their_candidates(
    candidates: std::sync::Arc<RestrictedTextCandidates>,
    scope: TextSearchScope,
    empty: bool,
    unrestricted_empty: bool,
    entity_id: u64,
    present: bool,
)
    requires
        call_ensures(TextSearchScope::restricted, (candidates,), scope),
        call_ensures(TextSearchScope::is_empty_restricted, (&scope,), empty),
        call_ensures(
            TextSearchScope::is_empty_restricted,
            (&TextSearchScope::Unrestricted,),
            unrestricted_empty,
        ),
        call_ensures(RestrictedTextCandidates::contains, (&*candidates, entity_id), present),
    ensures
        scope.admits(entity_id) <==> present,
        TextSearchScope::Unrestricted.admits(entity_id),
        !unrestricted_empty,
        empty <==> *candidates == RestrictedTextCandidates::Empty,
        empty ==> !present,
        *candidates matches RestrictedTextCandidates::NonEmpty(bitmap) ==> (present
            <==> bitmap_ids(bitmap).contains(entity_id)),
{
}

/// A builder starts with nothing and its limit; what it has retained is what its
/// candidates are, and a scope is empty if and only if it is restricted to none.
pub proof fn law_builders_finish_with_what_they_retain(
    limit: PositiveU64,
    builder: RestrictedTextCandidatesBuilder,
    filled: RestrictedTextCandidatesBuilder,
    finished: RestrictedTextCandidates,
    empty: bool,
)
    requires
        call_ensures(RestrictedTextCandidatesBuilder::with_limit, (limit,), builder),
        call_ensures(RestrictedTextCandidatesBuilder::finish, (filled,), finished),
        call_ensures(RestrictedTextCandidates::is_empty, (&finished,), empty),
    ensures
        builder@ == Set::<u64>::empty(),
        builder.spec_limit() == limit@,
        finished@ == filled@,
        empty <==> filled@ == Set::<u64>::empty(),
{
}

/// A restricted scope has its candidates, and an unrestricted one none.
pub proof fn law_scopes_have_their_candidates(
    scope: TextSearchScope,
    candidates: Option<&RestrictedTextCandidates>,
)
    requires
        call_ensures(TextSearchScope::candidates, (&scope,), candidates),
    ensures
        scope is Unrestricted <==> candidates is None,
        scope is Restricted ==> *candidates->Some_0 == *scope->Restricted_0,
{
}

/// The one candidate too many is refused with the limit that it exceeds.
pub proof fn law_refused_candidates_name_the_limit(
    builder: &mut RestrictedTextCandidatesBuilder,
    id: u64,
    inserted: Result<bool, HelixDbError>,
)
    requires
        call_ensures(RestrictedTextCandidatesBuilder::try_insert, (builder, id), inserted),
    ensures
        inserted matches Err(error) ==> error@ == HelixDbErrorView::Query(
            "restricted text search accepts at most "@ + decimal(old(builder).spec_limit() as nat)
                + " unique candidates"@,
        ),
{
}

} // verus!
