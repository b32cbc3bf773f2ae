//! The names of the generated code.
use vstd::prelude::*;

use crate::text::{ascii_upper, dots_to_underscores, ident_continue, lemma_ident_prefix, upper_camel};
use crate::tokens::valid_ident;

verus! {

proof fn lemma_camel(s: Seq<char>)
    ensures
        forall|i: int| 0 <= i < upper_camel(s).len() ==> #[trigger] upper_camel(s)[i] != '_',
        upper_camel(s).len() > 0 ==> ascii_upper(upper_camel(s)[0]) == upper_camel(s)[0],
        upper_camel(s).len() == 0 ==> forall|i: int| 0 <= i < s.len() ==> #[trigger] s[i] == '_',
    decreases s.len(),
{
    if s.len() > 0 {
        let front = s.drop_last();
        lemma_camel(front);
        if s.last() == '_' {
            if upper_camel(front).len() == 0 {
                assert forall|i: int| 0 <= i < s.len() implies #[trigger] s[i] == '_' by {
                    if i < front.len() {
                        assert(front[i] == s[i]);
                    }
                }
            }
        } else {
            assert(upper_camel(front).len() == 0 && s.len() > 1 ==> front[s.len() - 2] == '_');
        }
    }
}

proof fn lemma_camel_keeps(s: Seq<char>)
    requires
        forall|i: int| 0 <= i < s.len() ==> #[trigger] s[i] != '_',
        s.len() > 0 ==> ascii_upper(s[0]) == s[0],
    ensures
        upper_camel(s) == s,
    decreases s.len(),
{
    if s.len() > 0 {
        let front = s.drop_last();
        lemma_camel_keeps(front);
        assert(s[s.len() - 1] != '_');
        assert(s =~= front.push(s.last()));
    } else {
        assert(upper_camel(s) =~= s);
    }
}

/// A name in UpperCamelCase has no underscores, and putting it in UpperCamelCase again leaves
/// it as it is.
pub proof fn law_camel_case_is_final(s: Seq<char>)
    ensures
        !upper_camel(s).contains('_'),
        upper_camel(upper_camel(s)) == upper_camel(s),
{
    lemma_camel(s);
    lemma_camel_keeps(upper_camel(s));
}

/// The parameter for a path of ASCII identifiers and dots into the root type has a valid
/// name.
pub proof fn law_root_parameters_have_names(below: Seq<char>)
    requires
        forall|i: int| 0 <= i < below.len() ==> ident_continue(#[trigger] below[i]) || below[i] == '.',
    ensures
        valid_ident("root_"@ + dots_to_underscores(below)),
{
    reveal_strlit("root_");
    let name = "root_"@ + dots_to_underscores(below);
    assert forall|i: int| 0 <= i < name.len() implies ident_continue(#[trigger] name[i]) by {
        if i >= 5 {
            assert(name[i] == dots_to_underscores(below)[i - 5]);
            assert(ident_continue(below[i - 5]) || below[i - 5] == '.');
        }
    }
    lemma_ident_prefix(name, name.len());
}

} // verus!
