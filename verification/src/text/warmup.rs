//! Query-derived text split warmup requirements.
//!
//! Merging preserves the strongest postings requirement for each term while
//! keeping fast-field subcolumn coverage explicit. A field is its number in the
//! schema, a term the bytes of its value.

use vstd::prelude::*;

use crate::assoc::AssocMap;
use crate::order::same_text;

verus! {

/// A set of fields.
pub type FieldSet = AssocMap<u32, ()>;

/// The terms of one field, and whether each needs its positions.
pub type TermRequirements = AssocMap<Vec<u8>, bool>;

/// A fast field to warm, alone or with its subfields.
#[derive(Debug, Clone, PartialEq, Eq)]
pub struct FastFieldWarmupInfo {
    pub name: String,
    pub with_subfields: bool,
}

impl FastFieldWarmupInfo {
    /// The name and whether subfields are included.
    pub open spec fn model(self) -> (Seq<char>, bool) {
        (self.name@, self.with_subfields)
    }

    pub fn new(name: &str, with_subfields: bool) -> (info: Self)
        ensures
            info.model() == (name@, with_subfields),
    {
        FastFieldWarmupInfo { name: name.to_owned(), with_subfields }
    }
}

/// What has to be in memory before a query runs.
#[derive(Debug, Clone)]
pub struct WarmupInfo {
    pub term_dict_fields: FieldSet,
    pub postings_full_fields: FieldSet,
    pub fast_fields: Vec<FastFieldWarmupInfo>,
    pub field_norms: bool,
    pub terms_grouped_by_field: AssocMap<u32, TermRequirements>,
}

/// What a [`WarmupInfo`] asks for.
#[verifier::ext_equal]
pub ghost struct WarmupModel {
    pub term_dict_fields: Set<u32>,
    pub postings_full_fields: Set<u32>,
    pub fast_fields: Seq<(Seq<char>, bool)>,
    pub field_norms: bool,
    pub terms: Map<u32, Map<Seq<u8>, bool>>,
}

/// The requirements of each field.
pub open spec fn groups_model(groups: Map<u32, TermRequirements>) -> Map<u32, Map<Seq<u8>, bool>> {
    groups.map_values(|terms: TermRequirements| terms@)
}

/// The fast fields in the order in which they were asked for.
pub open spec fn fast_models(fields: Seq<FastFieldWarmupInfo>) -> Seq<(Seq<char>, bool)> {
    fields.map_values(|field: FastFieldWarmupInfo| field.model())
}

impl View for WarmupInfo {
    type V = WarmupModel;

    open spec fn view(&self) -> WarmupModel {
        WarmupModel {
            term_dict_fields: self.term_dict_fields@.dom(),
            postings_full_fields: self.postings_full_fields@.dom(),
            fast_fields: fast_models(self.fast_fields@),
            field_norms: self.field_norms,
            terms: groups_model(self.terms_grouped_by_field@),
        }
    }
}

/// The terms of both, each with its positions if either needs them.
pub open spec fn merged_terms(a: Map<Seq<u8>, bool>, b: Map<Seq<u8>, bool>) -> Map<Seq<u8>, bool> {
    Map::new(
        |term: Seq<u8>| a.dom().contains(term) || b.dom().contains(term),
        |term: Seq<u8>|
            (a.dom().contains(term) && a[term]) || (b.dom().contains(term) && b[term]),
    )
}

/// The requirements of a field, none if it has no group.
pub open spec fn terms_of(groups: Map<u32, Map<Seq<u8>, bool>>, field: u32) -> Map<Seq<u8>, bool> {
    if groups.dom().contains(field) {
        groups[field]
    } else {
        Map::empty()
    }
}

/// The groups of both, merged field by field.
pub open spec fn merged_groups(
    a: Map<u32, Map<Seq<u8>, bool>>,
    b: Map<u32, Map<Seq<u8>, bool>>,
) -> Map<u32, Map<Seq<u8>, bool>> {
    Map::new(
        |field: u32| a.dom().contains(field) || b.dom().contains(field),
        |field: u32| merged_terms(terms_of(a, field), terms_of(b, field)),
    )
}

/// Whether the fields already include a fast field: itself, or, for one without
/// subfields, the same one with them.
pub open spec fn fast_field_covered(
    fields: Seq<(Seq<char>, bool)>,
    field: (Seq<char>, bool),
) -> bool {
    fields.contains(field) || (!field.1 && fields.contains((field.0, true)))
}

/// The fields with those of `more` added one by one, unless they are covered by
/// then.
pub open spec fn merged_fast_fields(
    fields: Seq<(Seq<char>, bool)>,
    more: Seq<(Seq<char>, bool)>,
) -> Seq<(Seq<char>, bool)>
    decreases more.len(),
{
    if more.len() == 0 {
        fields
    } else {
        let front = merged_fast_fields(fields, more.drop_last());
        if fast_field_covered(front, more.last()) {
            front
        } else {
            front.push(more.last())
        }
    }
}

/// What both ask for together.
pub open spec fn merged_info(a: WarmupModel, b: WarmupModel) -> WarmupModel {
    WarmupModel {
        term_dict_fields: a.term_dict_fields.union(b.term_dict_fields),
        postings_full_fields: a.postings_full_fields.union(b.postings_full_fields),
        fast_fields: merged_fast_fields(a.fast_fields, b.fast_fields),
        field_norms: a.field_norms || b.field_norms,
        terms: merged_groups(a.terms, b.terms),
    }
}

/// The terms that full postings do not cover: those that need positions.
pub open spec fn positional_terms(terms: Map<Seq<u8>, bool>) -> Map<Seq<u8>, bool> {
    Map::new(
        |term: Seq<u8>| terms.dom().contains(term) && terms[term],
        |term: Seq<u8>| terms[term],
    )
}

/// The terms that are still needed of a field.
pub open spec fn needed_terms(
    field: u32,
    terms: Map<Seq<u8>, bool>,
    full: Set<u32>,
) -> Map<Seq<u8>, bool> {
    if full.contains(field) {
        positional_terms(terms)
    } else {
        terms
    }
}

/// The groups without what full postings cover, and without empty groups.
pub open spec fn simplified_groups(
    groups: Map<u32, Map<Seq<u8>, bool>>,
    full: Set<u32>,
) -> Map<u32, Map<Seq<u8>, bool>> {
    Map::new(
        |field: u32|
            groups.dom().contains(field) && needed_terms(field, groups[field], full) != Map::<
                Seq<u8>,
                bool,
            >::empty(),
        |field: u32| needed_terms(field, groups[field], full),
    )
}

impl Default for WarmupInfo {
    fn default() -> (info: Self)
        ensures
            info@ == (WarmupModel {
                term_dict_fields: Set::empty(),
                postings_full_fields: Set::empty(),
                fast_fields: Seq::empty(),
                field_norms: false,
                terms: Map::empty(),
            }),
    {
        let info = WarmupInfo {
            term_dict_fields: AssocMap::new(),
            postings_full_fields: AssocMap::new(),
            fast_fields: Vec::new(),
            field_norms: false,
            terms_grouped_by_field: AssocMap::new(),
        };
        proof {
            assert(info@.term_dict_fields =~= Set::<u32>::empty());
            assert(info@.postings_full_fields =~= Set::<u32>::empty());
            assert(info@.fast_fields =~= Seq::<(Seq<char>, bool)>::empty());
            assert(info@.terms =~= Map::<u32, Map<Seq<u8>, bool>>::empty());
        }
        info
    }
}

fn extend_fields(fields: &mut FieldSet, more: FieldSet)
    ensures
        final(fields)@.dom() == old(fields)@.dom().union(more@.dom()),
{
    let mut more = more;
    let ghost wanted = old(fields)@.dom().union(more@.dom());
    loop
        invariant
            fields@.dom().union(more@.dom()) == wanted,
        ensures
            fields@.dom() == wanted,
        decreases more.spec_entries().len(),
    {
        let ghost before = fields@.dom();
        let ghost rest = more@.dom();
        match more.pop() {
            Some((field, _)) => {
                fields.insert(field, ());
                assert(fields@.dom().union(more@.dom()) =~= before.union(rest));
            },
            None => {
                assert(fields@.dom() =~= before.union(rest));
                break;
            },
        }
    }
}

fn merge_terms(terms: &mut TermRequirements, more: TermRequirements)
    ensures
        final(terms)@ == merged_terms(old(terms)@, more@),
{
    let mut more = more;
    let ghost wanted = merged_terms(old(terms)@, more@);
    loop
        invariant
            merged_terms(terms@, more@) == wanted,
        ensures
            terms@ == wanted,
        decreases more.spec_entries().len(),
    {
        let ghost before = terms@;
        let ghost rest = more@;
        match more.pop() {
            Some((term, include_position)) => {
                let current = match terms.get(&term) {
                    Some(current) => *current,
                    None => false,
                };
                terms.insert(term, current || include_position);
                assert(merged_terms(terms@, more@) =~= merged_terms(before, rest));
            },
            None => {
                assert(merged_terms(before, rest) =~= before);
                break;
            },
        }
    }
}

fn merge_groups(
    groups: &mut AssocMap<u32, TermRequirements>,
    more: AssocMap<u32, TermRequirements>,
)
    ensures
        groups_model(final(groups)@) == merged_groups(
            groups_model(old(groups)@),
            groups_model(more@),
        ),
{
    let mut more = more;
    let ghost wanted = merged_groups(groups_model(old(groups)@), groups_model(more@));
    loop
        invariant
            merged_groups(groups_model(groups@), groups_model(more@)) == wanted,
        ensures
            groups_model(groups@) == wanted,
        decreases more.spec_entries().len(),
    {
        let ghost before = groups_model(groups@);
        let ghost rest = groups_model(more@);
        match more.pop() {
            Some((field, terms)) => {
                let ghost added = terms@;
                let mut current = match groups.take(&field) {
                    Some(current) => current,
                    None => AssocMap::new(),
                };
                let ghost old_terms = current@;
                merge_terms(&mut current, terms);
                groups.insert(field, current);
                proof {
                    let after = merged_groups(groups_model(groups@), groups_model(more@));
                    let whole = merged_groups(before, rest);
                    assert(old_terms =~= terms_of(before, field));
                    assert(added == rest[field]);
                    assert forall|f: u32| #[trigger] whole.dom().contains(f) implies after[f]
                        == whole[f] by {
                        if f == field {
                            assert(merged_terms(current@, Map::empty()) =~= merged_terms(
                                old_terms,
                                added,
                            ));
                        } else {
                            assert(terms_of(groups_model(groups@), f) == terms_of(before, f));
                            assert(terms_of(groups_model(more@), f) == terms_of(rest, f));
                        }
                    }
                    assert(after =~= whole);
                }
            },
            None => {
                proof {
                    let whole = merged_groups(before, rest);
                    assert forall|f: u32| #[trigger] whole.dom().contains(f) implies before[f]
                        == whole[f] by {
                        assert(merged_terms(before[f], Map::empty()) =~= before[f]);
                    }
                    assert(whole =~= before);
                }
                break;
            },
        }
    }
}

fn is_covered(fields: &Vec<FastFieldWarmupInfo>, field: &FastFieldWarmupInfo) -> (covered: bool)
    ensures
        covered == fast_field_covered(fast_models(fields@), field.model()),
{
    let mut i: usize = 0;
    while i < fields.len()
        invariant
            i <= fields.len(),
            forall|k: int|
                0 <= k < i ==> !((#[trigger] fields@[k]).model().0 == field.name@ && (
                fields@[k].with_subfields == field.with_subfields || (!field.with_subfields
                    && fields@[k].with_subfields))),
        decreases fields.len() - i,
    {
        if same_text(fields[i].name.as_str(), field.name.as_str()) {
            if fields[i].with_subfields == field.with_subfields {
                assert(fast_models(fields@)[i as int] == field.model());
                return true;
            }
            if !field.with_subfields && fields[i].with_subfields {
                assert(fast_models(fields@)[i as int] == (field.model().0, true));
                return true;
            }
        }
        i = i + 1;
    }
    proof {
        let models = fast_models(fields@);
        if models.contains(field.model()) {
            let k = choose|k: int| 0 <= k < models.len() && models[k] == field.model();
            assert(fields@[k].model() == field.model());
        }
        if !field.with_subfields && models.contains((field.name@, true)) {
            let k = choose|k: int| 0 <= k < models.len() && models[k] == (field.name@, true);
            assert(fields@[k].model() == (field.name@, true));
        }
    }
    false
}

fn copy_fast_field(field: &FastFieldWarmupInfo) -> (copy: FastFieldWarmupInfo)
    ensures
        copy.model() == field.model(),
{
    FastFieldWarmupInfo { name: field.name.as_str().to_owned(), with_subfields: field.with_subfields }
}

fn merge_fast_fields(fields: &mut Vec<FastFieldWarmupInfo>, more: Vec<FastFieldWarmupInfo>)
    ensures
        fast_models(final(fields)@) == merged_fast_fields(
            fast_models(old(fields)@),
            fast_models(more@),
        ),
{
    let ghost start = fast_models(fields@);
    let ghost all = fast_models(more@);
    let mut i: usize = 0;
    while i < more.len()
        invariant
            i <= more.len(),
            all == fast_models(more@),
            fast_models(fields@) == merged_fast_fields(start, all.take(i as int)),
        decreases more.len() - i,
    {
        assert(all.take(i as int + 1).drop_last() =~= all.take(i as int));
        let ghost before = fields@;
        if !is_covered(fields, &more[i]) {
            let field = copy_fast_field(&more[i]);
            fields.push(field);
            assert(fast_models(fields@) =~= fast_models(before).push(all[i as int]));
        }
        i = i + 1;
    }
    assert(all.take(i as int) =~= all);
}

fn retain_positional(terms: TermRequirements) -> (kept: TermRequirements)
    ensures
        kept@ == positional_terms(terms@),
{
    let mut terms = terms;
    let ghost wanted = positional_terms(terms@);
    let mut kept: TermRequirements = AssocMap::new();
    assert(merged_terms(kept@, positional_terms(terms@)) =~= wanted);
    loop
        invariant
            merged_terms(kept@, positional_terms(terms@)) == wanted,
            forall|term: Seq<u8>| kept@.dom().contains(term) ==> #[trigger] kept@[term],
        ensures
            kept@ == wanted,
        decreases terms.spec_entries().len(),
    {
        let ghost before = kept@;
        let ghost rest = terms@;
        match terms.pop() {
            Some((term, include_position)) => {
                if include_position {
                    kept.insert(term, true);
                }
                assert(merged_terms(kept@, positional_terms(terms@)) =~= merged_terms(
                    before,
                    positional_terms(rest),
                ));
            },
            None => {
                assert(merged_terms(before, positional_terms(rest)) =~= before);
                break;
            },
        }
    }
    kept
}

impl WarmupInfo {
    /// Adds what `other` asks for.
    pub fn merge(&mut self, other: WarmupInfo)
        ensures
            final(self)@ == merged_info(old(self)@, other@),
    {
        extend_fields(&mut self.term_dict_fields, other.term_dict_fields);
        extend_fields(&mut self.postings_full_fields, other.postings_full_fields);
        self.field_norms = self.field_norms || other.field_norms;
        merge_groups(&mut self.terms_grouped_by_field, other.terms_grouped_by_field);
        merge_fast_fields(&mut self.fast_fields, other.fast_fields);
    }

    /// Drops the terms that full postings of their field cover anyway.
    pub fn simplify(&mut self)
        ensures
            final(self)@ == (WarmupModel {
                terms: simplified_groups(old(self)@.terms, old(self)@.postings_full_fields),
                ..old(self)@
            }),
    {
        let mut groups: AssocMap<u32, TermRequirements> = AssocMap::new();
        std::mem::swap(&mut groups, &mut self.terms_grouped_by_field);
        let ghost full = self.postings_full_fields@.dom();
        let ghost wanted = simplified_groups(groups_model(groups@), full);
        let mut kept: AssocMap<u32, TermRequirements> = AssocMap::new();
        proof {
            assert(groups_model(kept@).union_prefer_right(
                simplified_groups(groups_model(groups@), full),
            ) =~= wanted);
        }
        loop
            invariant
                full == self.postings_full_fields@.dom(),
                groups_model(kept@).union_prefer_right(
                    simplified_groups(groups_model(groups@), full),
                ) == wanted,
                forall|field: u32|
                    #![trigger kept@.dom().contains(field)]
                    #![trigger groups@.dom().contains(field)]
                    !(kept@.dom().contains(field) && groups@.dom().contains(field)),
                self.term_dict_fields == old(self).term_dict_fields,
                self.postings_full_fields == old(self).postings_full_fields,
                self.fast_fields == old(self).fast_fields,
                self.field_norms == old(self).field_norms,
            ensures
                groups_model(kept@) == wanted,
            decreases groups.spec_entries().len(),
        {
            let ghost before = groups_model(kept@);
            let ghost rest = groups_model(groups@);
            let ghost before_raw = kept@;
            let ghost rest_raw = groups@;
            match groups.pop() {
                Some((field, terms)) => {
                    let ghost all = terms@;
                    proof {
                        assert(rest[field] == all);
                        assert(!before_raw.dom().contains(field));
                    }
                    let needed = if self.postings_full_fields.get(&field).is_some() {
                        retain_positional(terms)
                    } else {
                        terms
                    };
                    assert(needed@ == needed_terms(field, all, full));
                    if !needed.is_empty() {
                        kept.insert(field, needed);
                    }
                    proof {
                        let after = groups_model(kept@).union_prefer_right(
                            simplified_groups(groups_model(groups@), full),
                        );
                        let whole = before.union_prefer_right(simplified_groups(rest, full));
                        assert forall|f: u32| #[trigger]
                            after.dom().contains(f) <==> whole.dom().contains(f) by {
                            if f == field {
                            } else {
                                assert(kept@.dom().contains(f) == before_raw.dom().contains(f));
                                assert(groups@.dom().contains(f) == rest_raw.dom().contains(f));
                            }
                        }
                        assert forall|f: u32| #[trigger] whole.dom().contains(f) implies after[f]
                            == whole[f] by {
                            if f == field {
                            } else {
                                assert(kept@.dom().contains(f) == before_raw.dom().contains(f));
                                assert(groups@.dom().contains(f) == rest_raw.dom().contains(f));
                            }
                        }
                        assert(after =~= whole);
                    }
                },
                None => {
                    assert(before.union_prefer_right(simplified_groups(rest, full)) =~= before);
                    break;
                },
            }
        }
        self.terms_grouped_by_field = kept;
    }
}

/// A term needs its positions after a merge exactly if it did on either side,
/// and no requirement is lost.
pub proof fn law_merge_keeps_strongest_requirement(
    a: WarmupModel,
    b: WarmupModel,
    field: u32,
    term: Seq<u8>,
)
    ensures
        terms_of(merged_info(a, b).terms, field).dom().contains(term) <==> terms_of(
            a.terms,
            field,
        ).dom().contains(term) || terms_of(b.terms, field).dom().contains(term),
        terms_of(merged_info(a, b).terms, field).dom().contains(term) ==> terms_of(
            merged_info(a, b).terms,
            field,
        )[term] == ((terms_of(a.terms, field).dom().contains(term) && terms_of(
            a.terms,
            field,
        )[term]) || (terms_of(b.terms, field).dom().contains(term) && terms_of(
            b.terms,
            field,
        )[term])),
{
}

/// Every fast field of both sides is covered after a merge, and nothing else
/// has been added.
pub proof fn law_merge_covers_fast_fields(
    fields: Seq<(Seq<char>, bool)>,
    more: Seq<(Seq<char>, bool)>,
)
    ensures
        forall|i: int|
            0 <= i < fields.len() ==> fast_field_covered(
                merged_fast_fields(fields, more),
                #[trigger] fields[i],
            ),
        forall|i: int|
            0 <= i < more.len() ==> fast_field_covered(
                merged_fast_fields(fields, more),
                #[trigger] more[i],
            ),
        forall|i: int|
            0 <= i < merged_fast_fields(fields, more).len() ==> fields.contains(
                #[trigger] merged_fast_fields(fields, more)[i],
            ) || more.contains(merged_fast_fields(fields, more)[i]),
    decreases more.len(),
{
    let all = merged_fast_fields(fields, more);
    if more.len() == 0 {
        assert forall|i: int| 0 <= i < fields.len() implies fast_field_covered(
            all,
            #[trigger] fields[i],
        ) by {
            assert(all[i] == fields[i]);
        }
    } else {
        let shorter = more.drop_last();
        law_merge_covers_fast_fields(fields, shorter);
        let front = merged_fast_fields(fields, shorter);
        assert forall|field: (Seq<char>, bool)| fast_field_covered(
            front,
            field,
        ) implies #[trigger] fast_field_covered(all, field) by {
            if front.contains(field) {
                let k = choose|k: int| 0 <= k < front.len() && front[k] == field;
                assert(all[k] == field);
            } else {
                let k = choose|k: int| 0 <= k < front.len() && front[k] == (field.0, true);
                assert(all[k] == (field.0, true));
            }
        }
        assert forall|i: int| 0 <= i < more.len() implies fast_field_covered(
            all,
            #[trigger] more[i],
        ) by {
            if i < shorter.len() {
                assert(shorter[i] == more[i]);
            } else if !fast_field_covered(front, more.last()) {
                assert(all[front.len() as int] == more.last());
            }
        }
        assert forall|i: int| 0 <= i < all.len() implies fields.contains(#[trigger] all[i])
            || more.contains(all[i]) by {
            if i < front.len() {
                assert(all[i] == front[i]);
                if shorter.contains(front[i]) {
                    let k = choose|k: int| 0 <= k < shorter.len() && shorter[k] == front[i];
                    assert(more[k] == all[i]);
                }
            } else {
                assert(more[more.len() - 1] == all[i]);
            }
        }
    }
}

/// Simplifying twice is simplifying once.
pub proof fn law_simplify_is_idempotent(groups: Map<u32, Map<Seq<u8>, bool>>, full: Set<u32>)
    ensures
        simplified_groups(simplified_groups(groups, full), full) == simplified_groups(groups, full),
{
    let once = simplified_groups(groups, full);
    let twice = simplified_groups(once, full);
    assert forall|field: u32| #[trigger] once.dom().contains(field) implies needed_terms(
        field,
        once[field],
        full,
    ) == once[field] by {
        assert(positional_terms(positional_terms(groups[field])) =~= positional_terms(
            groups[field],
        ));
    }
    assert(twice =~= once);
}

/// Whether the warmup asks for the term of the field.
pub open spec fn asks_for_term(info: WarmupInfo, field: u32, term: Seq<u8>) -> bool {
    info.terms_grouped_by_field@.dom().contains(field)
        && info.terms_grouped_by_field@[field]@.dom().contains(term)
}

/// Whether the warmup asks for the term of the field with its positions.
pub open spec fn asks_for_positions(info: WarmupInfo, field: u32, term: Seq<u8>) -> bool {
    asks_for_term(info, field, term) && info.terms_grouped_by_field@[field]@[term]
}

proof fn lemma_asks(info: WarmupInfo, field: u32, term: Seq<u8>)
    ensures
        asks_for_term(info, field, term) <==> info@.terms.dom().contains(field)
            && info@.terms[field].dom().contains(term),
        asks_for_positions(info, field, term) <==> info@.terms.dom().contains(field)
            && info@.terms[field].dom().contains(term) && info@.terms[field][term],
{
}

/// A merge asks for what either side asked for and for nothing else: fields,
/// norms, and terms, a term with its positions exactly if either side needs
/// them. The fast fields of the first side stay in front.
pub proof fn law_merges_ask_for_both(
    info: &mut WarmupInfo,
    other: WarmupInfo,
    field: u32,
    term: Seq<u8>,
)
    requires
        call_ensures(WarmupInfo::merge, (info, other), ()),
    ensures
        final(info).term_dict_fields@.dom().contains(field) <==> old(info).term_dict_fields@.dom().contains(field) || other.term_dict_fields@.dom().contains(field),
        final(info).postings_full_fields@.dom().contains(field) <==> old(info).postings_full_fields@.dom().contains(field) || other.postings_full_fields@.dom().contains(
            field,
        ),
        final(info).field_norms <==> old(info).field_norms || other.field_norms,
        asks_for_term(*final(info), field, term) <==> asks_for_term(*old(info), field, term)
            || asks_for_term(other, field, term),
        asks_for_positions(*final(info), field, term) <==> asks_for_positions(
            *old(info),
            field,
            term,
        ) || asks_for_positions(other, field, term),
        fast_models(old(info).fast_fields@).is_prefix_of(fast_models(final(info).fast_fields@)),
        forall|i: int|
            0 <= i < other.fast_fields@.len() ==> fast_field_covered(
                fast_models(final(info).fast_fields@),
                (#[trigger] other.fast_fields@[i]).model(),
            ),
        forall|i: int|
            0 <= i < final(info).fast_fields@.len() ==> fast_models(
                old(info).fast_fields@,
            ).contains((#[trigger] final(info).fast_fields@[i]).model()) || fast_models(
                other.fast_fields@,
            ).contains(final(info).fast_fields@[i].model()),
{
    let a = old(info)@;
    let b = other@;
    let merged = final(info)@;
    lemma_asks(*final(info), field, term);
    lemma_asks(*old(info), field, term);
    lemma_asks(other, field, term);
    law_merge_keeps_strongest_requirement(a, b, field, term);
    assert(final(info).term_dict_fields@.dom() == merged.term_dict_fields);
    assert(final(info).postings_full_fields@.dom() == merged.postings_full_fields);
    assert(terms_of(merged.terms, field).dom().contains(term) <==> merged.terms.dom().contains(field)
        && merged.terms[field].dom().contains(term));
    law_merge_covers_fast_fields(a.fast_fields, b.fast_fields);
    lemma_merged_fast_fields_prefix(a.fast_fields, b.fast_fields);
    assert forall|i: int| 0 <= i < other.fast_fields@.len() implies fast_field_covered(
        merged.fast_fields,
        (#[trigger] other.fast_fields@[i]).model(),
    ) by {
        assert(b.fast_fields[i] == other.fast_fields@[i].model());
    }
    assert forall|i: int| 0 <= i < final(info).fast_fields@.len() implies a.fast_fields.contains(
        (#[trigger] final(info).fast_fields@[i]).model(),
    ) || b.fast_fields.contains(final(info).fast_fields@[i].model()) by {
        assert(merged.fast_fields[i] == final(info).fast_fields@[i].model());
    }
}

proof fn lemma_merged_fast_fields_prefix(
    fields: Seq<(Seq<char>, bool)>,
    more: Seq<(Seq<char>, bool)>,
)
    ensures
        fields.is_prefix_of(merged_fast_fields(fields, more)),
    decreases more.len(),
{
    if more.len() > 0 {
        lemma_merged_fast_fields_prefix(fields, more.drop_last());
    }
}

/// A fast field is covered by a list exactly if the list names it, with its
/// subfields wherever it needs them.
pub proof fn law_fast_fields_are_covered_by_name(
    fields: Seq<(Seq<char>, bool)>,
    name: Seq<char>,
)
    ensures
        fast_field_covered(fields, (name, true)) <==> fields.contains((name, true)),
        fast_field_covered(fields, (name, false)) <==> fields.contains((name, true))
            || fields.contains((name, false)),
{
}

/// Simplifying drops exactly the terms without positions of the fields whose
/// postings are read in full, and the groups that this leaves empty; all else
/// that the warmup asks for stays as it is.
pub proof fn law_simplifying_drops_covered_terms(
    info: &mut WarmupInfo,
    field: u32,
    term: Seq<u8>,
)
    requires
        call_ensures(WarmupInfo::simplify, (info,), ()),
    ensures
        asks_for_term(*final(info), field, term) <==> asks_for_term(*old(info), field, term) && (
        asks_for_positions(*old(info), field, term) || !old(info).postings_full_fields@.dom().contains(field)),
        asks_for_positions(*final(info), field, term) <==> asks_for_positions(
            *old(info),
            field,
            term,
        ),
        final(info).terms_grouped_by_field@.dom().contains(field) ==> final(info).terms_grouped_by_field@[field]@ != Map::<Seq<u8>, bool>::empty(),
        final(info).term_dict_fields@.dom() == old(info).term_dict_fields@.dom(),
        final(info).postings_full_fields@.dom() == old(info).postings_full_fields@.dom(),
        final(info).field_norms == old(info).field_norms,
        fast_models(final(info).fast_fields@) == fast_models(old(info).fast_fields@),
{
    let before = old(info)@;
    let after = final(info)@;
    lemma_asks(*final(info), field, term);
    lemma_asks(*old(info), field, term);
    assert(final(info).term_dict_fields@.dom() == after.term_dict_fields);
    assert(final(info).postings_full_fields@.dom() == after.postings_full_fields);
    if asks_for_term(*old(info), field, term) {
        let needed = needed_terms(field, before.terms[field], before.postings_full_fields);
        if needed.dom().contains(term) {
            assert(needed != Map::<Seq<u8>, bool>::empty()) by {
                if needed == Map::<Seq<u8>, bool>::empty() {
                    assert(!needed.dom().contains(term));
                }
            }
        }
    }
    if final(info).terms_grouped_by_field@.dom().contains(field) {
        assert(after.terms.dom().contains(field));
        assert(after.terms[field] == final(info).terms_grouped_by_field@[field]@);
    }
}

} // verus!
