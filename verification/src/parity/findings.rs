//! Contradictions between the rows of a graph.

use vstd::prelude::*;

use crate::assoc::{lemma_assoc_entry, lemma_assoc_view, AssocMap};
use crate::order::{
    insert_ranked, lemma_sort_ranked, rank_text, sort_ranked, sort_values, Rank, Ranked,
};
use crate::parity::snapshot::{
    texts_of, AdjacencyModel, EdgeModel, MigrationParitySnapshot, PairModel, ParityAdjacency,
    ParityEdge, ParityPairIndex, SnapshotModel,
};
use crate::render::{decimal, decimal_string};

verus! {

/// The contradictions of one edge with the adjacency rows. Without an endpoint
/// row nothing else is said of the edge, nor behind a node without a row.
pub open spec fn edge_findings(
    edge: EdgeModel,
    adjacency: Map<u64, AdjacencyModel>,
) -> Seq<Seq<char>> {
    let name = "edge "@ + decimal(edge.edge_id as nat);
    let arrow = decimal(edge.from as nat) + " -> "@ + decimal(edge.to as nat);
    if !edge.has_endpoint {
        seq![name + " has properties but no endpoint row"@]
    } else if !adjacency.dom().contains(edge.from) {
        seq![name + " missing adjacency row for source "@ + decimal(edge.from as nat)]
    } else {
        let outgoing = if adjacency[edge.from].outgoing.contains(edge.to) {
            Seq::empty()
        } else {
            seq![name + " missing outgoing adjacency "@ + arrow]
        };
        if !adjacency.dom().contains(edge.to) {
            outgoing.push(name + " missing adjacency row for target "@ + decimal(edge.to as nat))
        } else if adjacency[edge.to].incoming.contains(edge.from) {
            outgoing
        } else {
            outgoing.push(name + " missing incoming adjacency "@ + arrow)
        }
    }
}

/// The contradictions of one edge of a pair index: that it has been listed
/// before, and that it is no edge of this pair.
pub open spec fn pair_edge_findings(
    pair: PairModel,
    at: int,
    edges: Map<u64, EdgeModel>,
) -> Seq<Seq<char>> {
    let edge_id = pair.edge_ids[at];
    let name = "pair index "@ + decimal(pair.from as nat) + " -> "@ + decimal(pair.to as nat);
    let repeated = if pair.edge_ids.take(at).contains(edge_id) {
        seq![name + " contains duplicate edge "@ + decimal(edge_id as nat)]
    } else {
        Seq::empty()
    };
    if !edges.dom().contains(edge_id) {
        repeated.push(name + " points at missing edge "@ + decimal(edge_id as nat))
    } else {
        let edge = edges[edge_id];
        if edge.from == pair.from && edge.to == pair.to {
            repeated
        } else {
            repeated.push(
                name + " points at edge "@ + decimal(edge_id as nat) + " with endpoints "@
                    + decimal(edge.from as nat) + " -> "@ + decimal(edge.to as nat),
            )
        }
    }
}

/// The contradictions of the first `count` edges of a pair index.
pub open spec fn pair_findings(pair: PairModel, count: int, edges: Map<u64, EdgeModel>) -> Seq<
    Seq<char>,
>
    decreases count,
{
    if count <= 0 {
        Seq::empty()
    } else {
        pair_findings(pair, count - 1, edges) + pair_edge_findings(pair, count - 1, edges)
    }
}

/// The contradictions of all listed edges.
pub open spec fn all_edge_findings(
    edges: Seq<(u64, ParityEdge)>,
    adjacency: Map<u64, AdjacencyModel>,
) -> Seq<Seq<char>>
    decreases edges.len(),
{
    if edges.len() == 0 {
        Seq::empty()
    } else {
        all_edge_findings(edges.drop_last(), adjacency) + edge_findings(
            edges.last().1.model(),
            adjacency,
        )
    }
}

/// The contradictions of all pair indexes.
pub open spec fn all_pair_findings(pairs: Seq<PairModel>, edges: Map<u64, EdgeModel>) -> Seq<
    Seq<char>,
>
    decreases pairs.len(),
{
    if pairs.len() == 0 {
        Seq::empty()
    } else {
        all_pair_findings(pairs.drop_last(), edges) + pair_findings(
            pairs.last(),
            pairs.last().edge_ids.len() as int,
            edges,
        )
    }
}

/// Whether `texts` are those of `wanted`, each as often, in ascending order.
pub open spec fn are_sorted_texts(texts: Seq<Seq<char>>, wanted: Seq<Seq<char>>) -> bool {
    &&& texts.to_multiset() == wanted.to_multiset()
    &&& forall|i: int, j: int|
        #![trigger texts[i], texts[j]]
        0 <= i < j < texts.len() ==> rank_text(texts[i], texts[j]) != Rank::Greater
}

/// `text` with a number behind it.
fn with_number(text: &mut String, number: u64)
    ensures
        final(text)@ == old(text)@ + decimal(number as nat),
{
    let digits = decimal_string(number);
    text.append(digits.as_str());
}

fn contains_id(ids: &Vec<u64>, count: usize, id: u64) -> (present: bool)
    requires
        count <= ids.len(),
    ensures
        present == ids@.take(count as int).contains(id),
{
    let mut i: usize = 0;
    while i < count
        invariant
            i <= count <= ids.len(),
            forall|k: int| 0 <= k < i ==> ids@[k] != id,
        decreases count - i,
    {
        if ids[i] == id {
            assert(ids@.take(count as int)[i as int] == id);
            return true;
        }
        i = i + 1;
    }
    proof {
        if ids@.take(count as int).contains(id) {
            let k = choose|k: int|
                0 <= k < ids@.take(count as int).len() && ids@.take(count as int)[k] == id;
            assert(ids@[k] == id);
        }
    }
    false
}

fn holds_id(ids: &Vec<u64>, id: u64) -> (present: bool)
    ensures
        present == ids@.contains(id),
{
    let present = contains_id(ids, ids.len(), id);
    assert(ids@.take(ids@.len() as int) =~= ids@);
    present
}

fn push_text(findings: &mut Vec<String>, text: String)
    ensures
        texts_of(final(findings)@) == texts_of(old(findings)@).push(text@),
{
    let ghost before = findings@;
    findings.push(text);
    assert(texts_of(findings@) =~= texts_of(before).push(text@));
}

fn edge_name(edge_id: u64) -> (text: String)
    ensures
        text@ == "edge "@ + decimal(edge_id as nat),
{
    let mut text = "edge ".to_owned();
    with_number(&mut text, edge_id);
    text
}

fn push_edge_findings(
    findings: &mut Vec<String>,
    edge: &ParityEdge,
    adjacency: &AssocMap<u64, ParityAdjacency>,
)
    ensures
        texts_of(final(findings)@) == texts_of(old(findings)@) + edge_findings(
            edge.model(),
            crate::parity::snapshot::adjacency_model(adjacency@),
        ),
{
    let ghost rows = crate::parity::snapshot::adjacency_model(adjacency@);
    let ghost start = texts_of(findings@);
    let ghost wanted = edge_findings(edge.model(), rows);
    if !edge.has_endpoint {
        let mut text = edge_name(edge.edge_id);
        text.append(" has properties but no endpoint row");
        push_text(findings, text);
        assert(texts_of(findings@) =~= start + wanted);
        return ;
    }
    let source = match adjacency.get(&edge.from) {
        Some(source) => source,
        None => {
            let mut text = edge_name(edge.edge_id);
            text.append(" missing adjacency row for source ");
            with_number(&mut text, edge.from);
            push_text(findings, text);
            assert(texts_of(findings@) =~= start + wanted);
            return ;
        },
    };
    if !holds_id(&source.outgoing, edge.to) {
        let mut text = edge_name(edge.edge_id);
        text.append(" missing outgoing adjacency ");
        let ghost head = text@;
        with_number(&mut text, edge.from);
        text.append(" -> ");
        with_number(&mut text, edge.to);
        assert(text@ =~= head + (decimal(edge.from as nat) + " -> "@ + decimal(edge.to as nat)));
        push_text(findings, text);
    }
    let ghost middle = texts_of(findings@);
    let target = match adjacency.get(&edge.to) {
        Some(target) => target,
        None => {
            let mut text = edge_name(edge.edge_id);
            text.append(" missing adjacency row for target ");
            with_number(&mut text, edge.to);
            push_text(findings, text);
            assert(texts_of(findings@) =~= start + wanted);
            return ;
        },
    };
    if !holds_id(&target.incoming, edge.from) {
        let mut text = edge_name(edge.edge_id);
        text.append(" missing incoming adjacency ");
        let ghost head = text@;
        with_number(&mut text, edge.from);
        text.append(" -> ");
        with_number(&mut text, edge.to);
        assert(text@ =~= head + (decimal(edge.from as nat) + " -> "@ + decimal(edge.to as nat)));
        push_text(findings, text);
    }
    assert(texts_of(findings@) =~= start + wanted);
}

fn pair_name(pair: &ParityPairIndex) -> (text: String)
    ensures
        text@ == "pair index "@ + decimal(pair.from as nat) + " -> "@ + decimal(pair.to as nat),
{
    let mut text = "pair index ".to_owned();
    with_number(&mut text, pair.from);
    text.append(" -> ");
    with_number(&mut text, pair.to);
    text
}

fn push_pair_edge_findings(
    findings: &mut Vec<String>,
    pair: &ParityPairIndex,
    at: usize,
    edges: &AssocMap<u64, ParityEdge>,
)
    requires
        at < pair.edge_ids@.len(),
    ensures
        texts_of(final(findings)@) == texts_of(old(findings)@) + pair_edge_findings(
            pair.model(),
            at as int,
            crate::parity::snapshot::edges_model(edges@),
        ),
{
    let ghost start = texts_of(findings@);
    let ghost wanted = pair_edge_findings(
        pair.model(),
        at as int,
        crate::parity::snapshot::edges_model(edges@),
    );
    let edge_id = pair.edge_ids[at];
    if contains_id(&pair.edge_ids, at, edge_id) {
        let mut text = pair_name(pair);
        text.append(" contains duplicate edge ");
        with_number(&mut text, edge_id);
        push_text(findings, text);
    }
    match edges.get(&edge_id) {
        Some(edge) => {
            if edge.from != pair.from || edge.to != pair.to {
                let mut text = pair_name(pair);
                text.append(" points at edge ");
                with_number(&mut text, edge_id);
                text.append(" with endpoints ");
                with_number(&mut text, edge.from);
                text.append(" -> ");
                with_number(&mut text, edge.to);
                push_text(findings, text);
            }
        },
        None => {
            let mut text = pair_name(pair);
            text.append(" points at missing edge ");
            with_number(&mut text, edge_id);
            push_text(findings, text);
        },
    }
    assert(texts_of(findings@) =~= start + wanted);
}

/// Sorting keeps the texts.
proof fn lemma_sorted_texts(texts: Seq<String>)
    ensures
        are_sorted_texts(texts_of(sort_ranked(texts)), texts_of(texts)),
{
    lemma_sort_ranked(texts);
    lemma_sort_keeps_texts(texts);
    let sorted = sort_ranked(texts);
    assert forall|i: int, j: int|
        #![trigger texts_of(sorted)[i], texts_of(sorted)[j]]
        0 <= i < j < texts_of(sorted).len() implies rank_text(
        texts_of(sorted)[i],
        texts_of(sorted)[j],
    ) != Rank::Greater by {
        assert(sorted[i].ranked(&sorted[j]) != Rank::Greater);
    }
}

proof fn lemma_sort_keeps_texts(texts: Seq<String>)
    ensures
        texts_of(sort_ranked(texts)).to_multiset() == texts_of(texts).to_multiset(),
    decreases texts.len(),
{
    broadcast use vstd::seq_lib::group_to_multiset_ensures;

    if texts.len() > 0 {
        lemma_sort_keeps_texts(texts.drop_last());
        lemma_insert_keeps_texts(sort_ranked(texts.drop_last()), texts.last());
        assert(texts_of(texts) =~= texts_of(texts.drop_last()).push(texts.last()@));
    } else {
        assert(sort_ranked(texts) =~= texts);
    }
}

proof fn lemma_insert_keeps_texts(sorted: Seq<String>, text: String)
    ensures
        texts_of(insert_ranked(sorted, text)).to_multiset() == texts_of(
            sorted,
        ).to_multiset().insert(text@),
    decreases sorted.len(),
{
    broadcast use vstd::seq_lib::group_to_multiset_ensures;

    let whole = insert_ranked(sorted, text);
    if sorted.len() == 0 || sorted.last().ranked(&text) != Rank::Greater {
        assert(texts_of(whole) =~= texts_of(sorted).push(text@));
    } else {
        lemma_insert_keeps_texts(sorted.drop_last(), text);
        let front = insert_ranked(sorted.drop_last(), text);
        assert(texts_of(whole) =~= texts_of(front).push(sorted.last()@));
        assert(texts_of(sorted) =~= texts_of(sorted.drop_last()).push(sorted.last()@));
        assert(texts_of(whole).to_multiset() =~= texts_of(sorted).to_multiset().insert(text@));
    }
}

/// Adds every contradiction between the rows of the snapshot to its findings
/// and puts them in order.
pub fn record_consistency_findings(snapshot: &mut MigrationParitySnapshot)
    ensures
        are_sorted_texts(
            final(snapshot)@.consistency_findings,
            old(snapshot)@.consistency_findings + all_edge_findings(
                old(snapshot).current_edges.spec_entries(),
                old(snapshot)@.adjacency,
            ) + all_pair_findings(old(snapshot)@.pair_indexes, old(snapshot)@.current_edges),
        ),
        final(snapshot)@ == (SnapshotModel {
            consistency_findings: final(snapshot)@.consistency_findings,
            ..old(snapshot)@
        }),
{
    let ghost before = *snapshot;
    let ghost entries = snapshot.current_edges.spec_entries();
    let ghost rows = before@.adjacency;
    let ghost start = before@.consistency_findings;
    let mut findings: Vec<String> = Vec::new();
    std::mem::swap(&mut findings, &mut snapshot.consistency_findings);
    let mut i: usize = 0;
    assert(start + all_edge_findings(entries.take(0), rows) =~= start);
    while i < snapshot.current_edges.len()
        invariant
            i <= entries.len(),
            entries == snapshot.current_edges.spec_entries(),
            rows == crate::parity::snapshot::adjacency_model(snapshot.adjacency@),
            snapshot.nodes == before.nodes,
            snapshot.current_edges == before.current_edges,
            snapshot.legacy_edge_pairs == before.legacy_edge_pairs,
            snapshot.pair_indexes == before.pair_indexes,
            snapshot.adjacency == before.adjacency,
            snapshot.allocator_watermarks == before.allocator_watermarks,
            snapshot.raw_counts == before.raw_counts,
            texts_of(findings@) == start + all_edge_findings(entries.take(i as int), rows),
        decreases entries.len() - i,
    {
        let (_, edge) = snapshot.current_edges.entry_at(i);
        let ghost so_far = texts_of(findings@);
        push_edge_findings(&mut findings, edge, &snapshot.adjacency);
        proof {
            assert(entries.take(i as int + 1).drop_last() =~= entries.take(i as int));
            assert(texts_of(findings@) =~= start + all_edge_findings(
                entries.take(i as int + 1),
                rows,
            ));
        }
        i = i + 1;
    }
    assert(entries.take(i as int) =~= entries);
    let ghost of_edges = texts_of(findings@);
    let ghost pairs = before@.pair_indexes;
    let ghost edges = before@.current_edges;
    let mut p: usize = 0;
    assert(of_edges + all_pair_findings(pairs.take(0), edges) =~= of_edges);
    while p < snapshot.pair_indexes.len()
        invariant
            p <= pairs.len(),
            pairs == crate::parity::snapshot::pairs_model(snapshot.pair_indexes@),
            edges == crate::parity::snapshot::edges_model(snapshot.current_edges@),
            snapshot.nodes == before.nodes,
            snapshot.current_edges == before.current_edges,
            snapshot.legacy_edge_pairs == before.legacy_edge_pairs,
            snapshot.pair_indexes == before.pair_indexes,
            snapshot.adjacency == before.adjacency,
            snapshot.allocator_watermarks == before.allocator_watermarks,
            snapshot.raw_counts == before.raw_counts,
            texts_of(findings@) == of_edges + all_pair_findings(pairs.take(p as int), edges),
        decreases pairs.len() - p,
    {
        let pair = &snapshot.pair_indexes[p];
        let ghost so_far = texts_of(findings@);
        let mut k: usize = 0;
        assert(so_far + pair_findings(pair.model(), 0, edges) =~= so_far);
        while k < pair.edge_ids.len()
            invariant
                k <= pair.edge_ids.len(),
                edges == crate::parity::snapshot::edges_model(snapshot.current_edges@),
                texts_of(findings@) == so_far + pair_findings(pair.model(), k as int, edges),
            decreases pair.edge_ids.len() - k,
        {
            push_pair_edge_findings(&mut findings, pair, k, &snapshot.current_edges);
            assert(texts_of(findings@) =~= so_far + pair_findings(
                pair.model(),
                k as int + 1,
                edges,
            ));
            k = k + 1;
        }
        proof {
            assert(pairs.take(p as int + 1).drop_last() =~= pairs.take(p as int));
            assert(pairs[p as int] == pair.model());
            assert(texts_of(findings@) =~= of_edges + all_pair_findings(
                pairs.take(p as int + 1),
                edges,
            ));
        }
        p = p + 1;
    }
    assert(pairs.take(p as int) =~= pairs);
    proof {
        lemma_sorted_texts(findings@);
    }
    sort_values(&mut findings);
    snapshot.consistency_findings = findings;
}

/// Whether an edge and the adjacency rows agree.
pub open spec fn edge_is_consistent(edge: EdgeModel, adjacency: Map<u64, AdjacencyModel>) -> bool {
    &&& edge.has_endpoint
    &&& adjacency.dom().contains(edge.from)
    &&& adjacency.dom().contains(edge.to)
    &&& adjacency[edge.from].outgoing.contains(edge.to)
    &&& adjacency[edge.to].incoming.contains(edge.from)
}

/// Whether a pair index lists edges of its pair, each once.
pub open spec fn pair_is_consistent(pair: PairModel, edges: Map<u64, EdgeModel>) -> bool {
    forall|i: int|
        0 <= i < pair.edge_ids.len() ==> {
            let id = #[trigger] pair.edge_ids[i];
            &&& !pair.edge_ids.take(i).contains(id)
            &&& edges.dom().contains(id)
            &&& edges[id].from == pair.from
            &&& edges[id].to == pair.to
        }
}

/// Whether the rows of a graph agree with each other.
pub open spec fn rows_are_consistent(
    edges: Map<u64, EdgeModel>,
    adjacency: Map<u64, AdjacencyModel>,
    pairs: Seq<PairModel>,
) -> bool {
    &&& forall|id: u64| #[trigger]
        edges.dom().contains(id) ==> edge_is_consistent(edges[id], adjacency)
    &&& forall|i: int| 0 <= i < pairs.len() ==> pair_is_consistent(#[trigger] pairs[i], edges)
}

proof fn lemma_edge_findings(edge: EdgeModel, adjacency: Map<u64, AdjacencyModel>)
    ensures
        edge_findings(edge, adjacency).len() == 0 <==> edge_is_consistent(edge, adjacency),
{
}

proof fn lemma_all_edge_findings(
    entries: Seq<(u64, ParityEdge)>,
    adjacency: Map<u64, AdjacencyModel>,
)
    ensures
        all_edge_findings(entries, adjacency).len() == 0 <==> forall|i: int|
            0 <= i < entries.len() ==> edge_is_consistent(
                (#[trigger] entries[i]).1.model(),
                adjacency,
            ),
    decreases entries.len(),
{
    if entries.len() > 0 {
        let front = entries.drop_last();
        lemma_all_edge_findings(front, adjacency);
        lemma_edge_findings(entries.last().1.model(), adjacency);
        if forall|i: int|
            0 <= i < entries.len() ==> edge_is_consistent(
                (#[trigger] entries[i]).1.model(),
                adjacency,
            ) {
            assert forall|i: int| 0 <= i < front.len() implies edge_is_consistent(
                (#[trigger] front[i]).1.model(),
                adjacency,
            ) by {
                assert(front[i] == entries[i]);
            }
            assert(entries[entries.len() - 1] == entries.last());
        }
        if all_edge_findings(entries, adjacency).len() == 0 {
            assert forall|i: int| 0 <= i < entries.len() implies edge_is_consistent(
                (#[trigger] entries[i]).1.model(),
                adjacency,
            ) by {
                if i < front.len() {
                    assert(front[i] == entries[i]);
                }
            }
        }
    }
}

proof fn lemma_pair_findings(pair: PairModel, count: int, edges: Map<u64, EdgeModel>)
    requires
        0 <= count <= pair.edge_ids.len(),
    ensures
        pair_findings(pair, count, edges).len() == 0 <==> forall|i: int|
            0 <= i < count ==> pair_edge_findings(pair, i, edges).len() == 0,
    decreases count,
{
    if count > 0 {
        lemma_pair_findings(pair, count - 1, edges);
        if pair_findings(pair, count, edges).len() == 0 {
            assert forall|i: int| 0 <= i < count implies #[trigger] pair_edge_findings(
                pair,
                i,
                edges,
            ).len() == 0 by {
                if i == count - 1 {
                }
            }
        }
    }
}

proof fn lemma_pair_consistent(pair: PairModel, edges: Map<u64, EdgeModel>)
    ensures
        pair_findings(pair, pair.edge_ids.len() as int, edges).len() == 0 <==> pair_is_consistent(
            pair,
            edges,
        ),
{
    lemma_pair_findings(pair, pair.edge_ids.len() as int, edges);
    if pair_findings(pair, pair.edge_ids.len() as int, edges).len() == 0 {
        assert forall|i: int| 0 <= i < pair.edge_ids.len() implies ({
            let id = #[trigger] pair.edge_ids[i];
            &&& !pair.edge_ids.take(i).contains(id)
            &&& edges.dom().contains(id)
            &&& edges[id].from == pair.from
            &&& edges[id].to == pair.to
        }) by {
            assert(pair_edge_findings(pair, i, edges).len() == 0);
        }
    }
    if pair_is_consistent(pair, edges) {
        assert forall|i: int| 0 <= i < pair.edge_ids.len() implies #[trigger] pair_edge_findings(
            pair,
            i,
            edges,
        ).len() == 0 by {
            assert(!pair.edge_ids.take(i).contains(pair.edge_ids[i]));
        }
    }
}

proof fn lemma_all_pair_findings(pairs: Seq<PairModel>, edges: Map<u64, EdgeModel>)
    ensures
        all_pair_findings(pairs, edges).len() == 0 <==> forall|i: int|
            0 <= i < pairs.len() ==> pair_is_consistent(#[trigger] pairs[i], edges),
    decreases pairs.len(),
{
    if pairs.len() > 0 {
        let front = pairs.drop_last();
        lemma_all_pair_findings(front, edges);
        lemma_pair_consistent(pairs.last(), edges);
        if forall|i: int| 0 <= i < pairs.len() ==> pair_is_consistent(#[trigger] pairs[i], edges) {
            assert forall|i: int| 0 <= i < front.len() implies pair_is_consistent(
                #[trigger] front[i],
                edges,
            ) by {
                assert(front[i] == pairs[i]);
            }
            assert(pairs[pairs.len() - 1] == pairs.last());
        }
        if all_pair_findings(pairs, edges).len() == 0 {
            assert forall|i: int| 0 <= i < pairs.len() implies pair_is_consistent(
                #[trigger] pairs[i],
                edges,
            ) by {
                if i < front.len() {
                    assert(front[i] == pairs[i]);
                }
            }
        }
    }
}

/// Nothing is found exactly if the rows agree with each other.
pub proof fn law_no_findings_means_consistent(
    entries: Seq<(u64, ParityEdge)>,
    adjacency: Map<u64, AdjacencyModel>,
    pairs: Seq<PairModel>,
    findings: Seq<Seq<char>>,
)
    requires
        crate::assoc::distinct_keys(entries),
        are_sorted_texts(
            findings,
            all_edge_findings(entries, adjacency) + all_pair_findings(
                pairs,
                crate::parity::snapshot::edges_model(crate::assoc::assoc_map(entries)),
            ),
        ),
    ensures
        findings.len() == 0 <==> rows_are_consistent(
            crate::parity::snapshot::edges_model(crate::assoc::assoc_map(entries)),
            adjacency,
            pairs,
        ),
{
    broadcast use vstd::seq_lib::group_to_multiset_ensures;

    let edges = crate::parity::snapshot::edges_model(crate::assoc::assoc_map(entries));
    let wanted = all_edge_findings(entries, adjacency) + all_pair_findings(pairs, edges);
    assert(findings.len() == findings.to_multiset().len());
    assert(wanted.len() == wanted.to_multiset().len());
    lemma_all_edge_findings(entries, adjacency);
    lemma_all_pair_findings(pairs, edges);
    if forall|i: int|
        0 <= i < entries.len() ==> edge_is_consistent((#[trigger] entries[i]).1.model(), adjacency) {
        assert forall|id: u64| #[trigger] edges.dom().contains(id) implies edge_is_consistent(
            edges[id],
            adjacency,
        ) by {
            let at = crate::assoc::entry_index(entries, id);
            assert(entries[at].0 == id);
        }
    }
    if forall|id: u64| #[trigger]
        edges.dom().contains(id) ==> edge_is_consistent(edges[id], adjacency) {
        assert forall|i: int| 0 <= i < entries.len() implies edge_is_consistent(
            (#[trigger] entries[i]).1.model(),
            adjacency,
        ) by {
            lemma_assoc_entry(entries, i);
            assert(edges.dom().contains(entries[i].0));
        }
    }
}

/// A snapshot in which nothing was found before has findings behind the check if
/// and only if its rows contradict each other; the check changes no rows.
pub proof fn law_contradictions_are_found(snapshot: &mut MigrationParitySnapshot)
    requires
        crate::assoc::distinct_keys(old(snapshot).current_edges.spec_entries()),
        old(snapshot).consistency_findings@.len() == 0,
        call_ensures(record_consistency_findings, (snapshot,), ()),
    ensures
        final(snapshot).consistency_findings@.len() == 0 <==> {
            &&& forall|id: u64| #[trigger]
                old(snapshot).current_edges@.dom().contains(id) ==> {
                    let edge = old(snapshot).current_edges@[id];
                    let rows = old(snapshot).adjacency@;
                    &&& edge.has_endpoint
                    &&& rows.dom().contains(edge.from)
                    &&& rows.dom().contains(edge.to)
                    &&& rows[edge.from].outgoing@.contains(edge.to)
                    &&& rows[edge.to].incoming@.contains(edge.from)
                }
            &&& forall|p: int, i: int|
                #![trigger old(snapshot).pair_indexes@[p].edge_ids@[i]]
                0 <= p < old(snapshot).pair_indexes@.len() && 0 <= i < old(snapshot).pair_indexes@[p].edge_ids@.len() ==> {
                    let pair = old(snapshot).pair_indexes@[p];
                    let edges = old(snapshot).current_edges@;
                    let id = pair.edge_ids@[i];
                    &&& !pair.edge_ids@.take(i).contains(id)
                    &&& edges.dom().contains(id)
                    &&& edges[id].from == pair.from
                    &&& edges[id].to == pair.to
                }
        },
        final(snapshot)@.current_edges == old(snapshot)@.current_edges,
        final(snapshot)@.pair_indexes == old(snapshot)@.pair_indexes,
        final(snapshot)@.adjacency == old(snapshot)@.adjacency,
{
    let before = *old(snapshot);
    let entries = before.current_edges.spec_entries();
    let edges = before@.current_edges;
    let rows = before@.adjacency;
    let findings = final(snapshot)@.consistency_findings;
    lemma_assoc_view(before.current_edges);
    assert(before@.consistency_findings =~= Seq::empty());
    assert(before@.consistency_findings + all_edge_findings(entries, rows) + all_pair_findings(
        before@.pair_indexes,
        edges,
    ) =~= all_edge_findings(entries, rows) + all_pair_findings(before@.pair_indexes, edges));
    law_no_findings_means_consistent(entries, rows, before@.pair_indexes, findings);
    assert(findings.len() == final(snapshot).consistency_findings@.len());
    assert forall|id: u64| #[trigger] before.current_edges@.dom().contains(id) implies {
        let edge = before.current_edges@[id];
        let kept = before.adjacency@;
        edge_is_consistent(edges[id], rows) <==> {
            &&& edge.has_endpoint
            &&& kept.dom().contains(edge.from)
            &&& kept.dom().contains(edge.to)
            &&& kept[edge.from].outgoing@.contains(edge.to)
            &&& kept[edge.to].incoming@.contains(edge.from)
        }
    } by {
        assert(edges[id] == before.current_edges@[id].model());
    }
    assert(edges.dom() =~= before.current_edges@.dom());
    assert(before@.pair_indexes.len() == before.pair_indexes@.len());
    if rows_are_consistent(edges, rows, before@.pair_indexes) {
        assert forall|p: int, i: int|
            #![trigger before.pair_indexes@[p].edge_ids@[i]]
            0 <= p < before.pair_indexes@.len() && 0 <= i
                < before.pair_indexes@[p].edge_ids@.len() implies {
            let pair = before.pair_indexes@[p];
            let id = pair.edge_ids@[i];
            &&& !pair.edge_ids@.take(i).contains(id)
            &&& before.current_edges@.dom().contains(id)
            &&& before.current_edges@[id].from == pair.from
            &&& before.current_edges@[id].to == pair.to
        } by {
            let pair = before@.pair_indexes[p];
            assert(pair_is_consistent(pair, edges));
            assert(pair == before.pair_indexes@[p].model());
            let id = pair.edge_ids[i];
            assert(edges[id] == before.current_edges@[id].model());
        }
    }
    if forall|p: int, i: int|
        #![trigger before.pair_indexes@[p].edge_ids@[i]]
        0 <= p < before.pair_indexes@.len() && 0 <= i < before.pair_indexes@[p].edge_ids@.len()
            ==> {
            let pair = before.pair_indexes@[p];
            let id = pair.edge_ids@[i];
            &&& !pair.edge_ids@.take(i).contains(id)
            &&& before.current_edges@.dom().contains(id)
            &&& before.current_edges@[id].from == pair.from
            &&& before.current_edges@[id].to == pair.to
        } {
        assert forall|p: int| 0 <= p < before@.pair_indexes.len() implies pair_is_consistent(
            #[trigger] before@.pair_indexes[p],
            edges,
        ) by {
            let pair = before@.pair_indexes[p];
            assert(pair == before.pair_indexes@[p].model());
            assert forall|i: int| 0 <= i < pair.edge_ids.len() implies {
                let id = #[trigger] pair.edge_ids[i];
                &&& !pair.edge_ids.take(i).contains(id)
                &&& edges.dom().contains(id)
                &&& edges[id].from == pair.from
                &&& edges[id].to == pair.to
            } by {
                let id = before.pair_indexes@[p].edge_ids@[i];
                assert(edges[id] == before.current_edges@[id].model());
            }
        }
    }
}

proof fn lemma_edge_reported(
    entries: Seq<(u64, ParityEdge)>,
    adjacency: Map<u64, AdjacencyModel>,
    at: int,
    text: Seq<char>,
)
    requires
        0 <= at < entries.len(),
        edge_findings(entries[at].1.model(), adjacency).contains(text),
    ensures
        all_edge_findings(entries, adjacency).contains(text),
    decreases entries.len(),
{
    let front = entries.drop_last();
    let earlier = all_edge_findings(front, adjacency);
    let own = edge_findings(entries.last().1.model(), adjacency);
    if at == front.len() {
        let k = choose|k: int| 0 <= k < own.len() && own[k] == text;
        assert((earlier + own)[earlier.len() + k] == text);
    } else {
        assert(front[at] == entries[at]);
        lemma_edge_reported(front, adjacency, at, text);
        let k = choose|k: int| 0 <= k < earlier.len() && earlier[k] == text;
        assert((earlier + own)[k] == text);
    }
}

/// Whatever is wrong with an edge is reported by its number: that it has no
/// endpoint row, which of its nodes has no adjacency row, and on which side the
/// other node is missing.
pub proof fn law_faulty_edges_are_reported(
    snapshot: &mut MigrationParitySnapshot,
    at: int,
)
    requires
        call_ensures(record_consistency_findings, (snapshot,), ()),
        0 <= at < old(snapshot).current_edges.spec_entries().len(),
    ensures
        ({
            let edge = old(snapshot).current_edges.spec_entries()[at].1;
            let rows = old(snapshot).adjacency@;
            let found = texts_of(final(snapshot).consistency_findings@);
            let name = "edge "@ + decimal(edge.edge_id as nat);
            let from = decimal(edge.from as nat);
            let to = decimal(edge.to as nat);
            &&& !edge.has_endpoint ==> found.contains(
                name + " has properties but no endpoint row"@,
            )
            &&& edge.has_endpoint && !rows.dom().contains(edge.from) ==> found.contains(
                name + " missing adjacency row for source "@ + from,
            )
            &&& edge.has_endpoint && rows.dom().contains(edge.from) ==> {
                &&& !rows[edge.from].outgoing@.contains(edge.to) ==> found.contains(
                    name + " missing outgoing adjacency "@ + (from + " -> "@ + to),
                )
                &&& !rows.dom().contains(edge.to) ==> found.contains(
                    name + " missing adjacency row for target "@ + to,
                )
                &&& rows.dom().contains(edge.to) && !rows[edge.to].incoming@.contains(edge.from)
                    ==> found.contains(
                    name + " missing incoming adjacency "@ + (from + " -> "@ + to),
                )
            }
        }),
{
    let before = *old(snapshot);
    let entries = before.current_edges.spec_entries();
    let rows = before@.adjacency;
    let kept = before.adjacency@;
    let found = texts_of(final(snapshot).consistency_findings@);
    let edge = entries[at].1;
    let name = "edge "@ + decimal(edge.edge_id as nat);
    let from = decimal(edge.from as nat);
    let to = decimal(edge.to as nat);
    let own = edge_findings(edge.model(), rows);
    assert forall|text: Seq<char>| own.contains(text) implies #[trigger] found.contains(text) by {
        broadcast use vstd::seq_lib::group_to_multiset_ensures;

        lemma_edge_reported(entries, rows, at, text);
        let start = before@.consistency_findings;
        let of_edges = all_edge_findings(entries, rows);
        let of_pairs = all_pair_findings(before@.pair_indexes, before@.current_edges);
        let all = start + of_edges + of_pairs;
        let k = choose|k: int| 0 <= k < of_edges.len() && of_edges[k] == text;
        assert(all[start.len() + k] == text);
        assert(all.to_multiset().contains(text));
        assert(found.to_multiset().contains(text));
    }
    assert(own.len() > 0 ==> own.contains(own[0]));
    assert(own.len() > 1 ==> own.contains(own[1]));
    if edge.has_endpoint && kept.dom().contains(edge.from) {
        assert(rows[edge.from] == kept[edge.from].model());
        if kept.dom().contains(edge.to) {
            assert(rows[edge.to] == kept[edge.to].model());
        }
    }
}

} // verus!
