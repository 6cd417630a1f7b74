//! Bounded scans of range indexes.

use vstd::prelude::*;
use vstd::utf8::encode_utf8;

use crate::index_keys::{EdgeDirection, NodeId, PropertyHash, RangeIndexDirection};
use crate::order::{
    bytes_precede, lemma_bytes_order, lemma_rank_seq_antisymmetric, lemma_rank_seq_transitive,
    rank_seq, rank_slices, Rank,
};
use crate::text_map::lemma_rank_bytes_equal;

verus! {

/// A range condition on an indexed property, compared byte by byte.
#[derive(Debug, Clone)]
pub enum RangeQuery<'a> {
    /// Greater than: property > value
    Gt(&'a str),
    /// Greater than or equal: property >= value
    Gte(&'a str),
    /// Less than: property < value
    Lt(&'a str),
    /// Less than or equal: property <= value
    Lte(&'a str),
    /// Between: min <= property <= max (inclusive)
    Between(&'a str, &'a str),
    /// Between with explicit bound inclusivity.
    BetweenBounds {
        /// Lower bound value.
        min: &'a str,
        /// Whether the lower bound is inclusive.
        min_inclusive: bool,
        /// Upper bound value.
        max: &'a str,
        /// Whether the upper bound is inclusive.
        max_inclusive: bool,
    },
}

/// How a stored value stands to a bound of a query.
pub open spec fn rank_value(value: Seq<u8>, bound: &str) -> Rank {
    rank_seq(value, encode_utf8(bound@))
}

/// Whether a stored value meets the condition.
pub open spec fn query_matches(query: RangeQuery<'_>, value: Seq<u8>) -> bool {
    match query {
        RangeQuery::Gt(bound) => rank_value(value, bound) == Rank::Greater,
        RangeQuery::Gte(bound) => rank_value(value, bound) != Rank::Less,
        RangeQuery::Lt(bound) => rank_value(value, bound) == Rank::Less,
        RangeQuery::Lte(bound) => rank_value(value, bound) != Rank::Greater,
        RangeQuery::Between(min, max) => rank_value(value, min) != Rank::Less && rank_value(
            value,
            max,
        ) != Rank::Greater,
        RangeQuery::BetweenBounds { min, min_inclusive, max, max_inclusive } => {
            &&& rank_value(value, min) == Rank::Greater || (min_inclusive && rank_value(value, min)
                == Rank::Equal)
            &&& rank_value(value, max) == Rank::Less || (max_inclusive && rank_value(value, max)
                == Rank::Equal)
        },
    }
}

/// Whether a stored value meets the condition.
pub fn range_query_matches_value(query: &RangeQuery<'_>, key_value: &[u8]) -> (matches: bool)
    ensures
        matches == query_matches(*query, key_value@),
{
    match query {
        RangeQuery::Gt(value) => rank_slices(key_value, value.as_bytes()) == Rank::Greater,
        RangeQuery::Gte(value) => rank_slices(key_value, value.as_bytes()) != Rank::Less,
        RangeQuery::Lt(value) => rank_slices(key_value, value.as_bytes()) == Rank::Less,
        RangeQuery::Lte(value) => rank_slices(key_value, value.as_bytes()) != Rank::Greater,
        RangeQuery::Between(min, max) => rank_slices(key_value, min.as_bytes()) != Rank::Less
            && rank_slices(key_value, max.as_bytes()) != Rank::Greater,
        RangeQuery::BetweenBounds { min, min_inclusive, max, max_inclusive } => {
            let lower = rank_slices(key_value, min.as_bytes());
            let upper = rank_slices(key_value, max.as_bytes());
            let lower_matches = if *min_inclusive {
                lower != Rank::Less
            } else {
                lower == Rank::Greater
            };
            let upper_matches = if *max_inclusive {
                upper != Rank::Greater
            } else {
                upper == Rank::Less
            };
            lower_matches && upper_matches
        },
    }
}

/// The rows of a range index that share everything but value and identifier.
#[derive(Debug, Clone, Copy, PartialEq, Eq)]
pub enum RangeLane {
    /// Nodes under one property.
    Node { direction: RangeIndexDirection, property_hash: PropertyHash },
    /// All edges under one property.
    GlobalEdge { direction: RangeIndexDirection, property_hash: PropertyHash },
    /// Edges at one node under one property.
    Edge {
        edge_direction: EdgeDirection,
        direction: RangeIndexDirection,
        endpoint: NodeId,
        property_hash: PropertyHash,
    },
}

/// A position between the rows of a lane.
#[derive(Debug, Clone, Copy, PartialEq, Eq)]
pub enum ScanBound<'a> {
    /// Before all rows: the lane's prefix.
    LaneStart,
    /// Behind all rows: the first key behind the lane's prefix.
    LaneEnd,
    /// Before the rows of a value: the value's prefix.
    ValueStart(&'a str),
    /// Behind the rows of a value: the value's inclusive end bound.
    ValueEnd(&'a str),
}

/// A half-open stretch of a lane.
#[derive(Debug, Clone, Copy, PartialEq, Eq)]
pub struct ScanRange<'a> {
    pub lane: RangeLane,
    pub start: ScanBound<'a>,
    pub end: ScanBound<'a>,
}

/// How the rows of two values stand to each other in a lane: a descending lane
/// reverses value order.
pub open spec fn physical_rank(
    direction: RangeIndexDirection,
    value: Seq<u8>,
    other: Seq<u8>,
) -> Rank {
    match direction {
        RangeIndexDirection::Asc => rank_seq(value, other),
        RangeIndexDirection::Desc => rank_seq(value, other).reversed(),
    }
}

/// Whether the rows of `value` stand at or behind the position.
pub open spec fn at_or_behind(
    direction: RangeIndexDirection,
    value: Seq<u8>,
    bound: ScanBound<'_>,
) -> bool {
    match bound {
        ScanBound::LaneStart => true,
        ScanBound::LaneEnd => false,
        ScanBound::ValueStart(text) => physical_rank(direction, value, encode_utf8(text@))
            != Rank::Less,
        ScanBound::ValueEnd(text) => physical_rank(direction, value, encode_utf8(text@))
            == Rank::Greater,
    }
}

/// Whether a scan of the stretch reaches the rows of `value`.
pub open spec fn scan_reaches(
    direction: RangeIndexDirection,
    start: ScanBound<'_>,
    end: ScanBound<'_>,
    value: Seq<u8>,
) -> bool {
    at_or_behind(direction, value, start) && !at_or_behind(direction, value, end)
}

/// Where a scan for a query starts and ends.
pub open spec fn query_bounds<'a>(query: RangeQuery<'a>, direction: RangeIndexDirection) -> (
    ScanBound<'a>,
    ScanBound<'a>,
) {
    match (query, direction) {
        (RangeQuery::Gt(value), RangeIndexDirection::Asc) => (
            ScanBound::ValueStart(value),
            ScanBound::LaneEnd,
        ),
        (RangeQuery::Gt(value), RangeIndexDirection::Desc) => (
            ScanBound::LaneStart,
            ScanBound::ValueStart(value),
        ),
        (RangeQuery::Gte(value), RangeIndexDirection::Asc) => (
            ScanBound::ValueStart(value),
            ScanBound::LaneEnd,
        ),
        (RangeQuery::Gte(value), RangeIndexDirection::Desc) => (
            ScanBound::LaneStart,
            ScanBound::ValueEnd(value),
        ),
        (RangeQuery::Lt(value), RangeIndexDirection::Asc) => (
            ScanBound::LaneStart,
            ScanBound::ValueStart(value),
        ),
        (RangeQuery::Lt(value), RangeIndexDirection::Desc) => (
            ScanBound::ValueEnd(value),
            ScanBound::LaneEnd,
        ),
        (RangeQuery::Lte(value), RangeIndexDirection::Asc) => (
            ScanBound::LaneStart,
            ScanBound::ValueEnd(value),
        ),
        (RangeQuery::Lte(value), RangeIndexDirection::Desc) => (
            ScanBound::ValueStart(value),
            ScanBound::LaneEnd,
        ),
        (RangeQuery::Between(min, max), RangeIndexDirection::Asc) => (
            ScanBound::ValueStart(min),
            ScanBound::ValueEnd(max),
        ),
        (RangeQuery::Between(min, max), RangeIndexDirection::Desc) => (
            ScanBound::ValueStart(max),
            ScanBound::ValueEnd(min),
        ),
        (
            RangeQuery::BetweenBounds { min, min_inclusive, max, max_inclusive },
            RangeIndexDirection::Asc,
        ) => (
            ScanBound::ValueStart(min),
            if max_inclusive {
                ScanBound::ValueEnd(max)
            } else {
                ScanBound::ValueStart(max)
            },
        ),
        (
            RangeQuery::BetweenBounds { min, min_inclusive, max, max_inclusive },
            RangeIndexDirection::Desc,
        ) => (
            ScanBound::ValueStart(max),
            if min_inclusive {
                ScanBound::ValueEnd(min)
            } else {
                ScanBound::ValueStart(min)
            },
        ),
    }
}

fn bounds_of<'a>(query: &RangeQuery<'a>, direction: RangeIndexDirection) -> (bounds: (
    ScanBound<'a>,
    ScanBound<'a>,
))
    ensures
        bounds == query_bounds(*query, direction),
{
    match query {
        RangeQuery::Gt(value) => match direction {
            RangeIndexDirection::Asc => (ScanBound::ValueStart(value), ScanBound::LaneEnd),
            RangeIndexDirection::Desc => (ScanBound::LaneStart, ScanBound::ValueStart(value)),
        },
        RangeQuery::Gte(value) => match direction {
            RangeIndexDirection::Asc => (ScanBound::ValueStart(value), ScanBound::LaneEnd),
            RangeIndexDirection::Desc => (ScanBound::LaneStart, ScanBound::ValueEnd(value)),
        },
        RangeQuery::Lt(value) => match direction {
            RangeIndexDirection::Asc => (ScanBound::LaneStart, ScanBound::ValueStart(value)),
            RangeIndexDirection::Desc => (ScanBound::ValueEnd(value), ScanBound::LaneEnd),
        },
        RangeQuery::Lte(value) => match direction {
            RangeIndexDirection::Asc => (ScanBound::LaneStart, ScanBound::ValueEnd(value)),
            RangeIndexDirection::Desc => (ScanBound::ValueStart(value), ScanBound::LaneEnd),
        },
        RangeQuery::Between(min, max) => match direction {
            RangeIndexDirection::Asc => (ScanBound::ValueStart(min), ScanBound::ValueEnd(max)),
            RangeIndexDirection::Desc => (ScanBound::ValueStart(max), ScanBound::ValueEnd(min)),
        },
        RangeQuery::BetweenBounds { min, min_inclusive, max, max_inclusive } => match direction {
            RangeIndexDirection::Asc => (
                ScanBound::ValueStart(min),
                if *max_inclusive {
                    ScanBound::ValueEnd(max)
                } else {
                    ScanBound::ValueStart(max)
                },
            ),
            RangeIndexDirection::Desc => (
                ScanBound::ValueStart(max),
                if *min_inclusive {
                    ScanBound::ValueEnd(min)
                } else {
                    ScanBound::ValueStart(min)
                },
            ),
        },
    }
}

/// The stretch that a query needs of a node range index.
pub fn range_scan_bounds_with_direction<'a>(
    property_hash: PropertyHash,
    query: &RangeQuery<'a>,
    direction: RangeIndexDirection,
) -> (range: ScanRange<'a>)
    ensures
        range.lane == (RangeLane::Node { direction, property_hash }),
        (range.start, range.end) == query_bounds(*query, direction),
{
    let (start, end) = bounds_of(query, direction);
    ScanRange { lane: RangeLane::Node { direction, property_hash }, start, end }
}

/// The stretch that a query needs of the global edge range index.
pub fn global_edge_range_scan_bounds_with_direction<'a>(
    property_hash: PropertyHash,
    query: &RangeQuery<'a>,
    direction: RangeIndexDirection,
) -> (range: ScanRange<'a>)
    ensures
        range.lane == (RangeLane::GlobalEdge { direction, property_hash }),
        (range.start, range.end) == query_bounds(*query, direction),
{
    let (start, end) = bounds_of(query, direction);
    ScanRange { lane: RangeLane::GlobalEdge { direction, property_hash }, start, end }
}

/// The stretch that a query needs of the edge range index at one node.
pub fn edge_range_scan_bounds_with_direction<'a>(
    node: NodeId,
    property_hash: PropertyHash,
    query: &RangeQuery<'a>,
    outgoing: bool,
    direction: RangeIndexDirection,
) -> (range: ScanRange<'a>)
    ensures
        range.lane == (RangeLane::Edge {
            edge_direction: if outgoing {
                EdgeDirection::Out
            } else {
                EdgeDirection::In
            },
            direction,
            endpoint: node,
            property_hash,
        }),
        (range.start, range.end) == query_bounds(*query, direction),
{
    let edge_direction = if outgoing {
        EdgeDirection::Out
    } else {
        EdgeDirection::In
    };
    let (start, end) = bounds_of(query, direction);
    ScanRange {
        lane: RangeLane::Edge { edge_direction, direction, endpoint: node, property_hash },
        start,
        end,
    }
}

/// Whether one position comes before the other.
pub open spec fn bound_precedes(
    direction: RangeIndexDirection,
    first: ScanBound<'_>,
    second: ScanBound<'_>,
) -> bool {
    match (first, second) {
        (ScanBound::LaneStart, ScanBound::LaneStart) => false,
        (ScanBound::LaneStart, _) => true,
        (ScanBound::LaneEnd, _) => false,
        (_, ScanBound::LaneEnd) => true,
        (_, ScanBound::LaneStart) => false,
        (ScanBound::ValueStart(a), ScanBound::ValueEnd(b)) => physical_rank(
            direction,
            encode_utf8(a@),
            encode_utf8(b@),
        ) != Rank::Greater,
        (ScanBound::ValueStart(a), ScanBound::ValueStart(b)) => physical_rank(
            direction,
            encode_utf8(a@),
            encode_utf8(b@),
        ) == Rank::Less,
        (ScanBound::ValueEnd(a), ScanBound::ValueStart(b)) => physical_rank(
            direction,
            encode_utf8(a@),
            encode_utf8(b@),
        ) == Rank::Less,
        (ScanBound::ValueEnd(a), ScanBound::ValueEnd(b)) => physical_rank(
            direction,
            encode_utf8(a@),
            encode_utf8(b@),
        ) == Rank::Less,
    }
}

fn rank_physically(direction: RangeIndexDirection, a: &str, b: &str) -> (rank: Rank)
    ensures
        rank == physical_rank(direction, encode_utf8(a@), encode_utf8(b@)),
{
    let rank = rank_slices(a.as_bytes(), b.as_bytes());
    match direction {
        RangeIndexDirection::Asc => rank,
        RangeIndexDirection::Desc => match rank {
            Rank::Less => Rank::Greater,
            Rank::Equal => Rank::Equal,
            Rank::Greater => Rank::Less,
        },
    }
}

/// Whether a stretch can hold rows at all: its start comes before its end.
pub fn scan_range_is_open(range: &ScanRange<'_>, direction: RangeIndexDirection) -> (open: bool)
    ensures
        open == bound_precedes(direction, range.start, range.end),
{
    match (range.start, range.end) {
        (ScanBound::LaneStart, ScanBound::LaneStart) => false,
        (ScanBound::LaneStart, _) => true,
        (ScanBound::LaneEnd, _) => false,
        (_, ScanBound::LaneEnd) => true,
        (_, ScanBound::LaneStart) => false,
        (ScanBound::ValueStart(a), ScanBound::ValueEnd(b)) => rank_physically(direction, a, b)
            != Rank::Greater,
        (ScanBound::ValueStart(a), ScanBound::ValueStart(b)) => rank_physically(direction, a, b)
            == Rank::Less,
        (ScanBound::ValueEnd(a), ScanBound::ValueStart(b)) => rank_physically(direction, a, b)
            == Rank::Less,
        (ScanBound::ValueEnd(a), ScanBound::ValueEnd(b)) => rank_physically(direction, a, b)
            == Rank::Less,
    }
}

/// A scan between the bounds of a query misses no row that meets the query.
pub proof fn law_scan_bounds_are_complete(
    query: RangeQuery<'_>,
    direction: RangeIndexDirection,
    value: Seq<u8>,
)
    requires
        query_matches(query, value),
    ensures
        scan_reaches(
            direction,
            query_bounds(query, direction).0,
            query_bounds(query, direction).1,
            value,
        ),
{
}

/// Whether the value is one that the query names as a bound.
pub open spec fn is_query_bound(query: RangeQuery<'_>, value: Seq<u8>) -> bool {
    match query {
        RangeQuery::Gt(bound) => value == encode_utf8(bound@),
        RangeQuery::Gte(bound) => value == encode_utf8(bound@),
        RangeQuery::Lt(bound) => value == encode_utf8(bound@),
        RangeQuery::Lte(bound) => value == encode_utf8(bound@),
        RangeQuery::Between(min, max) => value == encode_utf8(min@) || value == encode_utf8(max@),
        RangeQuery::BetweenBounds { min, max, .. } => value == encode_utf8(min@) || value
            == encode_utf8(max@),
    }
}

/// A scan between the bounds of a query reaches, besides the rows that meet
/// it, at most rows of a value that the query names as an exclusive bound.
pub proof fn law_scan_bounds_are_tight(
    query: RangeQuery<'_>,
    direction: RangeIndexDirection,
    value: Seq<u8>,
)
    requires
        scan_reaches(
            direction,
            query_bounds(query, direction).0,
            query_bounds(query, direction).1,
            value,
        ),
    ensures
        query_matches(query, value) || is_query_bound(query, value),
{
    match query {
        RangeQuery::Gt(bound) => {
            lemma_rank_bytes_equal(value, encode_utf8(bound@));
        },
        RangeQuery::Gte(bound) => {
            lemma_rank_bytes_equal(value, encode_utf8(bound@));
        },
        RangeQuery::Lt(bound) => {
            lemma_rank_bytes_equal(value, encode_utf8(bound@));
        },
        RangeQuery::Lte(bound) => {
            lemma_rank_bytes_equal(value, encode_utf8(bound@));
        },
        RangeQuery::Between(min, max) => {},
        RangeQuery::BetweenBounds { min, max, .. } => {
            lemma_rank_bytes_equal(value, encode_utf8(min@));
            lemma_rank_bytes_equal(value, encode_utf8(max@));
        },
    }
}

/// Only an open stretch can reach a row.
pub proof fn law_reached_rows_need_open_range(
    direction: RangeIndexDirection,
    start: ScanBound<'_>,
    end: ScanBound<'_>,
    value: Seq<u8>,
)
    requires
        scan_reaches(direction, start, end, value),
    ensures
        bound_precedes(direction, start, end),
{
    match (start, end) {
        (ScanBound::ValueStart(a), ScanBound::ValueStart(b)) => {
            lemma_physical_chain(direction, a, value, b);
        },
        (ScanBound::ValueStart(a), ScanBound::ValueEnd(b)) => {
            lemma_physical_chain(direction, a, value, b);
        },
        (ScanBound::ValueEnd(a), ScanBound::ValueStart(b)) => {
            lemma_physical_chain(direction, a, value, b);
        },
        (ScanBound::ValueEnd(a), ScanBound::ValueEnd(b)) => {
            lemma_physical_chain(direction, a, value, b);
        },
        _ => {},
    }
}

proof fn lemma_physical_chain(
    direction: RangeIndexDirection,
    a: &str,
    value: Seq<u8>,
    b: &str,
)
    requires
        physical_rank(direction, value, encode_utf8(a@)) != Rank::Less,
        physical_rank(direction, value, encode_utf8(b@)) != Rank::Greater,
    ensures
        physical_rank(direction, encode_utf8(a@), encode_utf8(b@)) != Rank::Greater,
        physical_rank(direction, value, encode_utf8(a@)) == Rank::Greater || physical_rank(
            direction,
            value,
            encode_utf8(b@),
        ) == Rank::Less ==> physical_rank(direction, encode_utf8(a@), encode_utf8(b@))
            == Rank::Less,
{
    let x = encode_utf8(a@);
    let y = encode_utf8(b@);
    lemma_rank_seq_antisymmetric(value, x);
    lemma_rank_seq_antisymmetric(value, y);
    lemma_rank_seq_antisymmetric(x, y);
    match direction {
        RangeIndexDirection::Asc => {
            lemma_rank_seq_transitive(x, value, y);
        },
        RangeIndexDirection::Desc => {
            lemma_rank_seq_transitive(y, value, x);
        },
    }
}

/// What the four one-sided conditions match: the values on the named side of
/// the bound, compared byte by byte, with the bound itself exactly where the
/// condition says "or equal".
pub proof fn law_one_sided_conditions_compare_bytes(
    bound: &str,
    value: &[u8],
    above: bool,
    at_least: bool,
    below: bool,
    at_most: bool,
)
    requires
        call_ensures(range_query_matches_value, (&RangeQuery::Gt(bound), value), above),
        call_ensures(range_query_matches_value, (&RangeQuery::Gte(bound), value), at_least),
        call_ensures(range_query_matches_value, (&RangeQuery::Lt(bound), value), below),
        call_ensures(range_query_matches_value, (&RangeQuery::Lte(bound), value), at_most),
    ensures
        above <==> bytes_precede(encode_utf8(bound@), value@),
        below <==> bytes_precede(value@, encode_utf8(bound@)),
        at_least <==> above || value@ == encode_utf8(bound@),
        at_most <==> below || value@ == encode_utf8(bound@),
        above == !at_most,
        below == !at_least,
        !(above && below),
{
    lemma_bytes_order(value@, encode_utf8(bound@));
}

/// A two-sided condition matches exactly what its two one-sided conditions both
/// match: `Between` includes both of its bounds, and the bounds that are marked
/// say which of them are included.
pub proof fn law_two_sided_conditions_meet_both_sides(
    min: &str,
    min_inclusive: bool,
    max: &str,
    max_inclusive: bool,
    value: &[u8],
    between: bool,
    marked: bool,
    above: bool,
    at_least: bool,
    below: bool,
    at_most: bool,
)
    requires
        call_ensures(range_query_matches_value, (&RangeQuery::Between(min, max), value), between),
        call_ensures(
            range_query_matches_value,
            (&RangeQuery::BetweenBounds { min, min_inclusive, max, max_inclusive }, value),
            marked,
        ),
        call_ensures(range_query_matches_value, (&RangeQuery::Gt(min), value), above),
        call_ensures(range_query_matches_value, (&RangeQuery::Gte(min), value), at_least),
        call_ensures(range_query_matches_value, (&RangeQuery::Lt(max), value), below),
        call_ensures(range_query_matches_value, (&RangeQuery::Lte(max), value), at_most),
    ensures
        between == (at_least && at_most),
        marked == ((if min_inclusive {
            at_least
        } else {
            above
        }) && (if max_inclusive {
            at_most
        } else {
            below
        })),
        min_inclusive && max_inclusive ==> marked == between,
        marked ==> between,
{
}

/// The bounds of an inclusive condition match it, those of an exclusive one do
/// not.
pub proof fn law_conditions_at_their_bounds(
    min: &str,
    min_inclusive: bool,
    max: &str,
    max_inclusive: bool,
)
    requires
        bytes_precede(encode_utf8(min@), encode_utf8(max@)),
    ensures
        query_matches(RangeQuery::Between(min, max), encode_utf8(min@)),
        query_matches(RangeQuery::Between(min, max), encode_utf8(max@)),
        query_matches(
            RangeQuery::BetweenBounds { min, min_inclusive, max, max_inclusive },
            encode_utf8(min@),
        ) == min_inclusive,
        query_matches(
            RangeQuery::BetweenBounds { min, min_inclusive, max, max_inclusive },
            encode_utf8(max@),
        ) == max_inclusive,
        query_matches(RangeQuery::Gte(min), encode_utf8(min@)),
        query_matches(RangeQuery::Lte(max), encode_utf8(max@)),
        !query_matches(RangeQuery::Gt(min), encode_utf8(min@)),
        !query_matches(RangeQuery::Lt(max), encode_utf8(max@)),
{
    let low = encode_utf8(min@);
    let high = encode_utf8(max@);
    lemma_bytes_order(low, high);
    lemma_bytes_order(high, low);
    lemma_bytes_order(low, low);
    lemma_bytes_order(high, high);
}

/// An ascending lane lays the rows out as their values are ordered, a descending
/// one the other way round.
pub proof fn law_lanes_lay_out_values(value: Seq<u8>, other: Seq<u8>)
    ensures
        physical_rank(RangeIndexDirection::Asc, value, other) == Rank::Less <==> bytes_precede(
            value,
            other,
        ),
        physical_rank(RangeIndexDirection::Desc, value, other) == Rank::Less <==> bytes_precede(
            other,
            value,
        ),
        forall|direction: RangeIndexDirection| #[trigger]
            physical_rank(direction, value, other) == Rank::Equal <==> value == other,
{
    lemma_bytes_order(value, other);
}

/// Which rows stand at or behind a position: those of no smaller a value in
/// the order of the lane before it, those of a greater one behind it.
pub proof fn law_positions_part_the_lane(
    direction: RangeIndexDirection,
    value: Seq<u8>,
    text: &str,
)
    ensures
        at_or_behind(direction, value, ScanBound::LaneStart),
        !at_or_behind(direction, value, ScanBound::LaneEnd),
        at_or_behind(direction, value, ScanBound::ValueEnd(text)) <==> physical_rank(
            direction,
            encode_utf8(text@),
            value,
        ) == Rank::Less,
        at_or_behind(direction, value, ScanBound::ValueStart(text)) <==> at_or_behind(
            direction,
            value,
            ScanBound::ValueEnd(text),
        ) || value == encode_utf8(text@),
{
    let bound = encode_utf8(text@);
    lemma_bytes_order(value, bound);
    lemma_rank_seq_antisymmetric(value, bound);
}

/// The stretch that a query scans belongs to the property, direction and node
/// that were asked for, it reaches every row that the query matches, and besides
/// those at most rows of a value that the query names.
pub proof fn law_scans_cover_their_query(
    node: NodeId,
    property_hash: PropertyHash,
    query: RangeQuery<'_>,
    outgoing: bool,
    direction: RangeIndexDirection,
    nodes: ScanRange<'_>,
    edges: ScanRange<'_>,
    all_edges: ScanRange<'_>,
    value: &[u8],
    matches: bool,
)
    requires
        call_ensures(range_scan_bounds_with_direction, (property_hash, &query, direction), nodes),
        call_ensures(
            edge_range_scan_bounds_with_direction,
            (node, property_hash, &query, outgoing, direction),
            edges,
        ),
        call_ensures(
            global_edge_range_scan_bounds_with_direction,
            (property_hash, &query, direction),
            all_edges,
        ),
        call_ensures(range_query_matches_value, (&query, value), matches),
    ensures
        nodes.lane == (RangeLane::Node { direction, property_hash }),
        all_edges.lane == (RangeLane::GlobalEdge { direction, property_hash }),
        edges.lane matches RangeLane::Edge {
            edge_direction,
            direction: laid_out,
            endpoint,
            property_hash: hash,
        } && (edge_direction == EdgeDirection::Out <==> outgoing) && (edge_direction
            == EdgeDirection::In <==> !outgoing) && laid_out == direction && endpoint == node
            && hash == property_hash,
        (edges.start, edges.end) == (nodes.start, nodes.end),
        (all_edges.start, all_edges.end) == (nodes.start, nodes.end),
        matches ==> scan_reaches(direction, nodes.start, nodes.end, value@),
        scan_reaches(direction, nodes.start, nodes.end, value@) ==> matches || is_query_bound(
            query,
            value@,
        ),
{
    if matches {
        law_scan_bounds_are_complete(query, direction, value@);
    }
    if scan_reaches(direction, nodes.start, nodes.end, value@) {
        law_scan_bounds_are_tight(query, direction, value@);
    }
}

/// A stretch that is not open reaches no row; one whose start is a value that
/// comes before its end reaches the rows of that value.
pub proof fn law_open_stretches_reach_rows(
    range: ScanRange<'_>,
    direction: RangeIndexDirection,
    value: Seq<u8>,
    text: &str,
    open: bool,
)
    requires
        call_ensures(scan_range_is_open, (&range, direction), open),
    ensures
        !open ==> !scan_reaches(direction, range.start, range.end, value),
        open && range.start == ScanBound::ValueStart(text) ==> scan_reaches(
            direction,
            range.start,
            range.end,
            encode_utf8(text@),
        ),
{
    if scan_reaches(direction, range.start, range.end, value) {
        law_reached_rows_need_open_range(direction, range.start, range.end, value);
    }
    if open && range.start == ScanBound::ValueStart(text) {
        lemma_bytes_order(encode_utf8(text@), encode_utf8(text@));
    }
}

} // verus!
