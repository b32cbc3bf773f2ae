//! The built-in types, and the common type of the cases of a switch.
use vstd::prelude::*;
use vstd::seq_lib::{group_to_multiset_ensures, to_multiset_len};

use crate::hir::builtin::{widenable, widened, BuiltInType, MAX_BITS};
use crate::hir::meta::Endianness;
use crate::hir::model::{unifiable, unified, RootDeps, TypeModel};
use crate::hir::pattern::PatternModel;
use crate::text::{decimal, digit_char, digits_value, is_digit, parse_number, without_plus};

verus! {

/// A type can be widened to itself, and stays what it is.
pub proof fn law_widening_is_idempotent(a: BuiltInType)
    ensures
        widenable(a, a),
        widened(a, a) == a,
{
}

/// Which of two types comes first makes no difference to their common type.
pub proof fn law_widening_is_commutative(a: BuiltInType, b: BuiltInType)
    ensures
        widenable(a, b) == widenable(b, a),
        widenable(a, b) ==> widened(a, b) == widened(b, a),
{
}

/// Which two of three types are widened first makes no difference to their common type.
pub proof fn law_widening_is_associative(a: BuiltInType, b: BuiltInType, c: BuiltInType)
    ensures
        widenable(a, b) && widenable(widened(a, b), c) <==> widenable(b, c) && widenable(a, widened(b, c)),
        widenable(a, b) && widenable(widened(a, b), c) ==> widened(widened(a, b), c) == widened(a, widened(b, c)),
{
}

/// The common type of two types is one of them, no narrower than either and of the same
/// signedness.
pub proof fn law_widening_loses_nothing(a: BuiltInType, b: BuiltInType)
    requires
        widenable(a, b),
    ensures
        widened(a, b) == a || widened(a, b) == b,
        a.width() <= widened(a, b).width(),
        b.width() <= widened(a, b).width(),
        widened(a, b).signed() == a.signed(),
        widened(a, b).signed() == b.signed(),
{
}

/// An integer type is the one of its own width and signedness.
pub proof fn law_integers_are_told_by_width(a: BuiltInType)
    requires
        a.integer(),
    ensures
        BuiltInType::of_width(a.width(), a.signed()) == a,
{
}

/// A case of the switch has the given plain built-in type.
pub open spec fn has_type(cases: Seq<(PatternModel, TypeModel)>, ty: BuiltInType) -> bool {
    exists|i: int| 0 <= i < cases.len() && (#[trigger] cases[i]).1.plain() == Some(ty)
}

/// There is a case, all cases have plain integer types, and any two of these can be widened to
/// one.
pub open spec fn pairwise_widenable(cases: Seq<(PatternModel, TypeModel)>) -> bool {
    &&& cases.len() > 0
    &&& forall|i: int|
        0 <= i < cases.len() ==> ((#[trigger] cases[i]).1.plain() matches Some(ty) && ty.integer())
    &&& forall|i: int, j: int|
        0 <= i < cases.len() && 0 <= j < cases.len() ==> widenable(
            (#[trigger] cases[i]).1.plain()->0,
            (#[trigger] cases[j]).1.plain()->0,
        )
}

/// The cases of a switch have a common type exactly where any two of them have one.
pub proof fn law_unifiable_is_pairwise(cases: Seq<(PatternModel, TypeModel)>)
    ensures
        unifiable(cases) <==> pairwise_widenable(cases),
        unifiable(cases) ==> has_type(cases, unified(cases)),
        unifiable(cases) ==> forall|i: int|
            0 <= i < cases.len() ==> widenable(unified(cases), (#[trigger] cases[i]).1.plain()->0),
    decreases cases.len(),
{
    if cases.len() > 0 {
        let front = cases.drop_last();
        let last = cases.last().1.plain();
        law_unifiable_is_pairwise(front);
        if cases.len() == 1 {
            assert(cases[0] == cases.last());
            if unifiable(cases) {
                assert(cases[0].1.plain() == Some(unified(cases)));
            }
        } else {
            assert forall|i: int| 0 <= i < front.len() implies #[trigger] front[i] == cases[i] by {}
            if unifiable(cases) {
                let w = unified(front);
                assert forall|i: int| 0 <= i < cases.len() implies (#[trigger] cases[i]).1.plain() is Some
                    && cases[i].1.plain()->0.integer() && widenable(w, cases[i].1.plain()->0) by {
                    if i < front.len() {
                        assert(front[i].1.plain()->0.integer());
                    }
                }
                let k = choose|k: int| 0 <= k < front.len() && (#[trigger] front[k]).1.plain() == Some(w);
                assert(cases[k].1.plain() == Some(w));
                assert(cases[cases.len() - 1].1.plain() == last);
                assert(has_type(cases, unified(cases)));
                assert(pairwise_widenable(cases));
            }
            if pairwise_widenable(cases) {
                assert(pairwise_widenable(front)) by {
                    assert forall|i: int, j: int| 0 <= i < front.len() && 0 <= j < front.len() implies widenable(
                        (#[trigger] front[i]).1.plain()->0,
                        (#[trigger] front[j]).1.plain()->0,
                    ) by {
                        assert(front[i] == cases[i] && front[j] == cases[j]);
                        assert(widenable(cases[i].1.plain()->0, cases[j].1.plain()->0));
                    }
                    assert forall|i: int| 0 <= i < front.len() implies (#[trigger] front[i]).1.plain() is Some
                        && front[i].1.plain()->0.integer() by {
                        assert(cases[i].1.plain()->0.integer());
                    }
                }
                let w = unified(front);
                let k = choose|k: int| 0 <= k < front.len() && (#[trigger] front[k]).1.plain() == Some(w);
                assert(cases[k].1.plain() == Some(w));
                assert(widenable(cases[k].1.plain()->0, cases[cases.len() - 1].1.plain()->0));
            }
        }
    }
}

/// The common type of the cases is an integer type that fits every case: it is no narrower and
/// of the same signedness.
pub proof fn law_unified_fits_every_case(cases: Seq<(PatternModel, TypeModel)>, i: int)
    requires
        unifiable(cases),
        0 <= i < cases.len(),
    ensures
        cases[i].1.plain() matches Some(ty) && ty.width() <= unified(cases).width() && ty.signed() == unified(
            cases,
        ).signed() && ty.integer(),
        unified(cases).integer(),
    decreases cases.len(),
{
    law_unifiable_is_pairwise(cases);
    if cases.len() > 1 {
        let front = cases.drop_last();
        law_widening_loses_nothing(unified(front), cases.last().1.plain()->0);
        if i < front.len() {
            law_unified_fits_every_case(front, i);
            assert(front[i] == cases[i]);
        }
    }
}

/// The common type of the cases is the smallest one that fits every case: a type that is no
/// narrower than any case is no narrower than the common type.
pub proof fn law_unified_is_smallest(cases: Seq<(PatternModel, TypeModel)>, ty: BuiltInType)
    requires
        unifiable(cases),
        forall|i: int| 0 <= i < cases.len() ==> (#[trigger] cases[i]).1.plain()->0.width() <= ty.width(),
    ensures
        unified(cases).width() <= ty.width(),
        has_type(cases, unified(cases)),
{
    law_unifiable_is_pairwise(cases);
}

/// The common type does not depend on the order of the cases.
pub proof fn law_unified_ignores_order(a: Seq<(PatternModel, TypeModel)>, b: Seq<(PatternModel, TypeModel)>)
    requires
        a.to_multiset() == b.to_multiset(),
    ensures
        unifiable(a) == unifiable(b),
        unifiable(a) ==> unified(a) == unified(b),
{
    if unifiable(a) {
        lemma_unified_permuted(a, b);
    }
    if unifiable(b) {
        lemma_unified_permuted(b, a);
    }
}

pub proof fn lemma_permuted_member<A>(a: Seq<A>, b: Seq<A>, i: int) -> (j: int)
    requires
        a.to_multiset() == b.to_multiset(),
        0 <= i < a.len(),
    ensures
        0 <= j < b.len(),
        b[j] == a[i],
{
    broadcast use group_to_multiset_ensures;

    assert(a.to_multiset().count(a[i]) > 0);
    assert(b.contains(a[i]));
    b.index_of(a[i])
}

proof fn lemma_unified_permuted(a: Seq<(PatternModel, TypeModel)>, b: Seq<(PatternModel, TypeModel)>)
    requires
        a.to_multiset() == b.to_multiset(),
        unifiable(a),
    ensures
        unifiable(b),
        unified(a) == unified(b),
{
    law_unifiable_is_pairwise(a);
    law_unifiable_is_pairwise(b);
    to_multiset_len(a);
    to_multiset_len(b);
    assert forall|i: int| 0 <= i < b.len() implies (#[trigger] b[i]).1.plain() is Some
        && b[i].1.plain()->0.integer() by {
        let k = lemma_permuted_member(b, a, i);
        assert(a[k].1.plain()->0.integer());
    }
    assert forall|i: int, j: int| 0 <= i < b.len() && 0 <= j < b.len() implies widenable(
        (#[trigger] b[i]).1.plain()->0,
        (#[trigger] b[j]).1.plain()->0,
    ) by {
        let k = lemma_permuted_member(b, a, i);
        let l = lemma_permuted_member(b, a, j);
        assert(widenable(a[k].1.plain()->0, a[l].1.plain()->0));
    }
    let i = choose|i: int| 0 <= i < a.len() && (#[trigger] a[i]).1.plain() == Some(unified(a));
    let j = choose|j: int| 0 <= j < b.len() && (#[trigger] b[j]).1.plain() == Some(unified(b));
    let k = lemma_permuted_member(a, b, i);
    let l = lemma_permuted_member(b, a, j);
    law_unified_fits_every_case(b, k);
    law_unified_fits_every_case(a, l);
    assert(widenable(a[i].1.plain()->0, a[l].1.plain()->0));
}

/// The name of a built-in type refers to that type.
pub proof fn law_names_are_read_back(ty: BuiltInType)
    requires
        !(ty is Bits),
    ensures
        BuiltInType::named(ty.ks_name()) == Some(ty),
{
    reveal_strlit("u1");
    reveal_strlit("u2");
    reveal_strlit("u4");
    reveal_strlit("u8");
    reveal_strlit("s1");
    reveal_strlit("s2");
    reveal_strlit("s4");
    reveal_strlit("s8");
    reveal_strlit("f4");
    reveal_strlit("f8");
    assert("u1"@[1] != "u2"@[1] && "u1"@[1] != "u4"@[1] && "u1"@[1] != "u8"@[1]);
    assert("u2"@[1] != "u4"@[1] && "u2"@[1] != "u8"@[1] && "u4"@[1] != "u8"@[1]);
    assert("s1"@[1] != "s2"@[1] && "s1"@[1] != "s4"@[1] && "s1"@[1] != "s8"@[1]);
    assert("s2"@[1] != "s4"@[1] && "s2"@[1] != "s8"@[1] && "s4"@[1] != "s8"@[1]);
    assert("f4"@[1] != "f8"@[1]);
    assert("u1"@[0] == 'u' && "u2"@[0] == 'u' && "u4"@[0] == 'u' && "u8"@[0] == 'u');
    assert("s1"@[0] == 's' && "s2"@[0] == 's' && "s4"@[0] == 's' && "s8"@[0] == 's');
    assert("f4"@[0] == 'f' && "f8"@[0] == 'f');
}

pub proof fn lemma_decimal(n: nat)
    ensures
        digits_value(decimal(n)) == n,
        decimal(n).len() > 0,
        forall|i: int| 0 <= i < decimal(n).len() ==> is_digit(#[trigger] decimal(n)[i]),
    decreases n,
{
    if n < 10 {
        let one = seq![digit_char(n)];
        assert(one.drop_last() =~= Seq::<char>::empty());
        assert(digits_value(Seq::<char>::empty()) == 0);
        assert(one.last() == digit_char(n));
    } else {
        lemma_decimal(n / 10);
        let d = decimal(n / 10);
        assert(d.push(digit_char(n % 10)).drop_last() =~= d);
    }
}

/// The decimal digits of a number are read as that number.
pub proof fn law_numbers_are_read_back(n: nat, max: nat)
    ensures
        parse_number(decimal(n), max) == (if n <= max {
            Some(n)
        } else {
            None
        }),
{
    lemma_decimal(n);
    assert(is_digit(decimal(n)[0]));
    assert(without_plus(decimal(n)) == decimal(n));
}

/// A case that is written as a number of up to 64 bits has that number as its pattern.
pub proof fn law_number_patterns_are_read_back(n: u64)
    ensures
        PatternModel::of_text(decimal(n as nat)) == PatternModel::Int(n),
{
    law_numbers_are_read_back(n as nat, u64::MAX as nat);
    lemma_decimal(n as nat);
    reveal_strlit("true");
    reveal_strlit("false");
    assert(is_digit(decimal(n as nat)[0]));
    assert("true"@[0] == 't' && "false"@[0] == 'f');
}

/// `b` and a width is a bit field of that width from 1 to 64 bits, and no built-in type
/// otherwise.
pub proof fn law_bit_fields_are_read_back(n: nat)
    ensures
        BuiltInType::named("b"@ + decimal(n)) == (if 1 <= n <= MAX_BITS {
            Some(BuiltInType::Bits(n as u8))
        } else {
            None
        }),
{
    reveal_strlit("b");
    let name = "b"@ + decimal(n);
    assert(name[0] == 'b');
    reveal_strlit("u1");
    reveal_strlit("u2");
    reveal_strlit("u4");
    reveal_strlit("u8");
    reveal_strlit("s1");
    reveal_strlit("s2");
    reveal_strlit("s4");
    reveal_strlit("s8");
    reveal_strlit("f4");
    reveal_strlit("f8");
    assert("u1"@[0] == 'u' && "u2"@[0] == 'u' && "u4"@[0] == 'u' && "u8"@[0] == 'u');
    assert("s1"@[0] == 's' && "s2"@[0] == 's' && "s4"@[0] == 's' && "s8"@[0] == 's');
    assert("f4"@[0] == 'f' && "f8"@[0] == 'f');
    assert(name.take(1) =~= "b"@);
    assert(name.skip(1) =~= decimal(n));
    law_numbers_are_read_back(n, MAX_BITS as nat);
}

/// A single bit is held by a `bool`, a wider bit field by the smallest unsigned integer type
/// that has room for it.
pub proof fn law_bit_fields_fit(n: u8)
    requires
        1 <= n <= MAX_BITS,
    ensures
        n == 1 ==> BuiltInType::Bits(n).rust_name() == "bool"@,
        n > 1 ==> exists|ty: BuiltInType| #[trigger]
            holds_bits(ty, n) && BuiltInType::Bits(n).rust_name() == ty.rust_name(),
{
    if n > 1 {
        let ty = if n <= 8 {
            BuiltInType::U8
        } else if n <= 16 {
            BuiltInType::U16
        } else if n <= 32 {
            BuiltInType::U32
        } else {
            BuiltInType::U64
        };
        assert(holds_bits(ty, n));
    }
}

/// The smallest unsigned integer type with room for `n` bits.
pub open spec fn holds_bits(ty: BuiltInType, n: u8) -> bool {
    &&& ty.integer() && !ty.signed()
    &&& n <= 8 * ty.width()
    &&& forall|other: BuiltInType|
        #![trigger other.width()]
        other.integer() && n <= 8 * other.width() ==> ty.width() <= other.width()
}

/// The byte order makes no difference to how single bytes and bit fields are read.
pub proof fn law_bytes_have_no_order(
    ty: BuiltInType,
    en: Option<Seq<char>>,
    a: Endianness,
    b: Endianness,
    deps: RootDeps,
)
    requires
        ty.width() == 1 || ty is Bits,
    ensures
        (TypeModel::BuiltIn { ty, en }).read(a, deps) == (TypeModel::BuiltIn { ty, en }).read(b, deps),
{
}

} // verus!
