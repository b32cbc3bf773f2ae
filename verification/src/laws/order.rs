//! The order of the cases of a switch.
use vstd::prelude::*;
use vstd::seq_lib::{group_to_multiset_ensures, to_multiset_len};

use crate::de;
use crate::hir::lower::{case_texts, insert_case, lowered, lowered_case, lowered_cases};
use crate::hir::model::TypeModel;
use crate::hir::pattern::{
    lemma_at_most_antisymmetric, lemma_at_most_total, lemma_at_most_transitive, PatternModel,
};

verus! {

/// The patterns of the cases stand in order.
pub open spec fn ordered(cases: Seq<(PatternModel, TypeModel)>) -> bool {
    forall|i: int, j: int|
        0 <= i <= j < cases.len() ==> (#[trigger] cases[i]).0.at_most((#[trigger] cases[j]).0)
}

/// The cases as they were read, each with its pattern and its type.
pub open spec fn read_cases(cases: Seq<(Seq<char>, Seq<char>)>) -> Seq<(PatternModel, TypeModel)> {
    cases.map_values(|c: (Seq<char>, Seq<char>)| lowered_case(c))
}

/// The cases with a given pattern, in their order.
pub open spec fn with_pattern(
    cases: Seq<(PatternModel, TypeModel)>,
    pattern: PatternModel,
) -> Seq<(PatternModel, TypeModel)> {
    cases.filter(|c: (PatternModel, TypeModel)| c.0 == pattern)
}

/// No two cases have the same pattern.
pub open spec fn distinct_patterns(cases: Seq<(PatternModel, TypeModel)>) -> bool {
    forall|i: int, j: int|
        0 <= i < j < cases.len() ==> (#[trigger] cases[i]).0 != (#[trigger] cases[j]).0
}

proof fn lemma_insert_ordered(cases: Seq<(PatternModel, TypeModel)>, case: (PatternModel, TypeModel))
    requires
        ordered(cases),
    ensures
        ordered(insert_case(cases, case)),
        insert_case(cases, case).len() == cases.len() + 1,
        insert_case(cases, case).last() == (if cases.len() == 0 || cases.last().0.at_most(case.0) {
            case
        } else {
            cases.last()
        }),
    decreases cases.len(),
{
    let r = insert_case(cases, case);
    if cases.len() == 0 || cases.last().0.at_most(case.0) {
        assert forall|i: int, j: int| 0 <= i <= j < r.len() implies (#[trigger] r[i]).0.at_most(
            (#[trigger] r[j]).0,
        ) by {
            if j == cases.len() {
                if i < j {
                    lemma_at_most_transitive(cases[i].0, cases.last().0, case.0);
                } else {
                    lemma_at_most_total(case.0, case.0);
                }
            }
        }
    } else {
        let front = cases.drop_last();
        lemma_insert_ordered(front, case);
        let inner = insert_case(front, case);
        let last = cases.last();
        lemma_at_most_total(case.0, last.0);
        lemma_at_most_total(last.0, last.0);
        assert forall|i: int, j: int| 0 <= i <= j < r.len() implies (#[trigger] r[i]).0.at_most(
            (#[trigger] r[j]).0,
        ) by {
            if j == inner.len() && i < j {
                assert(inner[i].0.at_most(inner[inner.len() - 1].0));
                assert(inner.last().0.at_most(last.0));
                lemma_at_most_transitive(inner[i].0, inner.last().0, last.0);
            }
        }
    }
}

proof fn lemma_insert_multiset(cases: Seq<(PatternModel, TypeModel)>, case: (PatternModel, TypeModel))
    ensures
        insert_case(cases, case).to_multiset() == cases.to_multiset().insert(case),
    decreases cases.len(),
{
    broadcast use group_to_multiset_ensures;

    if cases.len() > 0 && !cases.last().0.at_most(case.0) {
        lemma_insert_multiset(cases.drop_last(), case);
        assert(cases =~= cases.drop_last().push(cases.last()));
        assert(cases.drop_last().to_multiset().insert(case).insert(cases.last())
            =~= cases.drop_last().to_multiset().insert(cases.last()).insert(case));
    }
}

/// The cases of a switch come out in the order of their patterns: numbers first, then truth
/// values, then enum values.
pub proof fn law_cases_are_ordered(cases: Seq<(Seq<char>, Seq<char>)>)
    ensures
        ordered(lowered_cases(cases)),
    decreases cases.len(),
{
    if cases.len() > 0 {
        law_cases_are_ordered(cases.drop_last());
        lemma_insert_ordered(lowered_cases(cases.drop_last()), lowered_case(cases.last()));
    }
}

/// Ordering the cases of a switch loses none, adds none and changes none.
pub proof fn law_cases_are_kept(cases: Seq<(Seq<char>, Seq<char>)>)
    ensures
        lowered_cases(cases).to_multiset() == read_cases(cases).to_multiset(),
        lowered_cases(cases).len() == cases.len(),
    decreases cases.len(),
{
    broadcast use group_to_multiset_ensures;

    if cases.len() == 0 {
        assert(read_cases(cases) =~= lowered_cases(cases));
    } else {
        law_cases_are_kept(cases.drop_last());
        lemma_insert_multiset(lowered_cases(cases.drop_last()), lowered_case(cases.last()));
        assert(read_cases(cases) =~= read_cases(cases.drop_last()).push(lowered_case(cases.last())));
    }
    to_multiset_len(lowered_cases(cases));
    to_multiset_len(read_cases(cases));
}

proof fn lemma_with_pattern_push(
    cases: Seq<(PatternModel, TypeModel)>,
    case: (PatternModel, TypeModel),
    pattern: PatternModel,
)
    ensures
        with_pattern(cases.push(case), pattern) == (if case.0 == pattern {
            with_pattern(cases, pattern).push(case)
        } else {
            with_pattern(cases, pattern)
        }),
{
    reveal(Seq::filter);
    assert(cases.push(case).drop_last() =~= cases);
}

proof fn lemma_insert_stable(
    cases: Seq<(PatternModel, TypeModel)>,
    case: (PatternModel, TypeModel),
    pattern: PatternModel,
)
    requires
        ordered(cases),
    ensures
        with_pattern(insert_case(cases, case), pattern) == with_pattern(cases.push(case), pattern),
    decreases cases.len(),
{
    if cases.len() > 0 && !cases.last().0.at_most(case.0) {
        let front = cases.drop_last();
        let last = cases.last();
        lemma_insert_stable(front, case, pattern);
        lemma_with_pattern_push(insert_case(front, case), last, pattern);
        lemma_with_pattern_push(front, case, pattern);
        lemma_with_pattern_push(front, last, pattern);
        lemma_with_pattern_push(cases, case, pattern);
        assert(cases =~= front.push(last));
        lemma_at_most_total(case.0, case.0);
        assert(last.0 != case.0);
    }
}

/// Ordering the cases of a switch is stable: those with the same pattern keep the order in
/// which they were read.
pub proof fn law_order_is_stable(cases: Seq<(Seq<char>, Seq<char>)>, pattern: PatternModel)
    ensures
        with_pattern(lowered_cases(cases), pattern) == with_pattern(read_cases(cases), pattern),
    decreases cases.len(),
{
    if cases.len() == 0 {
        assert(read_cases(cases) =~= lowered_cases(cases));
    } else {
        let front = cases.drop_last();
        let last = lowered_case(cases.last());
        law_order_is_stable(front, pattern);
        law_cases_are_ordered(front);
        lemma_insert_stable(lowered_cases(front), last, pattern);
        assert(read_cases(cases) =~= read_cases(front).push(last));
        lemma_with_pattern_push(lowered_cases(front), last, pattern);
        lemma_with_pattern_push(read_cases(front), last, pattern);
    }
}

proof fn lemma_ordered_unique(a: Seq<(PatternModel, TypeModel)>, b: Seq<(PatternModel, TypeModel)>)
    requires
        ordered(a),
        ordered(b),
        distinct_patterns(a),
        a.to_multiset() == b.to_multiset(),
    ensures
        a == b,
    decreases a.len(),
{
    broadcast use group_to_multiset_ensures;

    to_multiset_len(a);
    to_multiset_len(b);
    if a.len() > 0 {
        let n = a.len() - 1;
        assert(a.to_multiset().count(a[n]) > 0);
        assert(b.to_multiset().count(b[n]) > 0);
        let i = choose|i: int| 0 <= i < b.len() && b[i] == a[n];
        let j = choose|j: int| 0 <= j < a.len() && a[j] == b[n];
        assert(b[i].0.at_most(b[n].0));
        assert(a[j].0.at_most(a[n].0));
        lemma_at_most_antisymmetric(a[n].0, b[n].0);
        assert(j == n);
        assert(a.remove(n) =~= a.drop_last());
        assert(b.remove(n) =~= b.drop_last());
        lemma_ordered_unique(a.drop_last(), b.drop_last());
        assert(a =~= a.drop_last().push(a[n]));
        assert(b =~= b.drop_last().push(b[n]));
    } else {
        assert(a =~= b);
    }
}

proof fn lemma_distinct_kept(a: Seq<(PatternModel, TypeModel)>, b: Seq<(PatternModel, TypeModel)>)
    requires
        distinct_patterns(a),
        a.to_multiset() == b.to_multiset(),
    ensures
        distinct_patterns(b),
{
    broadcast use group_to_multiset_ensures;

    assert forall|i: int, j: int| 0 <= i < j < b.len() implies (#[trigger] b[i]).0 != (#[trigger] b[j]).0 by {
        if b[i].0 == b[j].0 {
            assert(b.to_multiset().count(b[i]) > 0);
            assert(b.to_multiset().count(b[j]) > 0);
            let k = choose|k: int| 0 <= k < a.len() && a[k] == b[i];
            let l = choose|l: int| 0 <= l < a.len() && a[l] == b[j];
            assert(k == l);
            assert(b[i] == b[j]);
            assert(a.no_duplicates());
            a.lemma_multiset_has_no_duplicates();
            assert(a.to_multiset().contains(b[i]));
            assert(b.to_multiset().count(b[i]) == 1);
            let rest = b.remove(j);
            assert(rest[i] == b[i]);
            assert(rest.to_multiset().count(b[i]) > 0);
        }
    }
}

proof fn lemma_read_multiset(a: Seq<(Seq<char>, Seq<char>)>, b: Seq<(Seq<char>, Seq<char>)>)
    requires
        a.to_multiset() == b.to_multiset(),
    ensures
        read_cases(a).to_multiset() == read_cases(b).to_multiset(),
    decreases a.len(),
{
    broadcast use group_to_multiset_ensures;

    to_multiset_len(a);
    to_multiset_len(b);
    if a.len() > 0 {
        let n = a.len() - 1;
        assert(a.to_multiset().count(a[n]) > 0);
        let j = choose|j: int| 0 <= j < b.len() && b[j] == a[n];
        assert(a.remove(n) =~= a.drop_last());
        lemma_read_multiset(a.drop_last(), b.remove(j));
        let last = lowered_case(a[n]);
        assert(read_cases(a).remove(n) =~= read_cases(a.drop_last()));
        assert(read_cases(b).remove(j) =~= read_cases(b.remove(j)));
        assert(read_cases(a)[n] == last && read_cases(b)[j] == last);
        assert(read_cases(a).to_multiset().count(last) > 0);
        assert(read_cases(b).to_multiset().count(last) > 0);
        assert(read_cases(a).to_multiset() =~= read_cases(a).to_multiset().remove(last).insert(last));
        assert(read_cases(b).to_multiset() =~= read_cases(b).to_multiset().remove(last).insert(last));
    } else {
        assert(a =~= b);
    }
}

/// What comes out does not depend on the order in which the cases were read, where no two of
/// them have the same pattern.
pub proof fn law_reading_order_is_irrelevant(a: Seq<(Seq<char>, Seq<char>)>, b: Seq<(Seq<char>, Seq<char>)>)
    requires
        a.to_multiset() == b.to_multiset(),
        distinct_patterns(read_cases(a)),
    ensures
        lowered_cases(a) == lowered_cases(b),
{
    lemma_read_multiset(a, b);
    law_cases_are_ordered(a);
    law_cases_are_ordered(b);
    law_cases_are_kept(a);
    law_cases_are_kept(b);
    lemma_distinct_kept(read_cases(a), lowered_cases(a));
    lemma_ordered_unique(lowered_cases(a), lowered_cases(b));
}

/// The generated code is stable: two fields that differ only in the order in which the cases
/// of their switch were read have the same checked form, where no two cases have the same
/// pattern.
pub proof fn law_checked_form_is_stable(
    meta_doc: Option<de::MetaDoc>,
    attr: de::Attr,
    on: String,
    cases: Vec<(String, String)>,
    shuffled: Vec<(String, String)>,
)
    requires
        case_texts(cases@).to_multiset() == case_texts(shuffled@).to_multiset(),
        distinct_patterns(read_cases(case_texts(cases@))),
    ensures
        lowered(meta_doc, de::Attr { ty: Some(de::AttrType::Switch { switch_on: on, cases }), ..attr }) == lowered(
            meta_doc,
            de::Attr { ty: Some(de::AttrType::Switch { switch_on: on, cases: shuffled }), ..attr },
        ),
{
    law_reading_order_is_irrelevant(case_texts(cases@), case_texts(shuffled@));
}

} // verus!
