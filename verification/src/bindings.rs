//! Filtering the generated declaration surface.
//!
//! The header-parsing front end hands back one declaration per foreign
//! function. Declarations whose names match the runtime-initialization
//! naming pattern are excluded: those symbols are hand-declared by the
//! lifecycle guard's owner with the correct contract, and must not appear
//! in the generated surface.

use vstd::prelude::*;
use crate::text::{has_prefix, str_has_prefix};

verus! {

/// One foreign function declaration: the function's name and the rendered
/// declaration text.
#[derive(Debug, PartialEq, Eq)]
pub struct Declaration {
    pub name: String,
    pub text: String,
}

impl Clone for Declaration {
    fn clone(&self) -> (r: Self)
        ensures
            r == *self,
    {
        Declaration { name: self.name.clone(), text: self.text.clone() }
    }
}

/// The name matches the runtime-initialization naming pattern.
pub open spec fn is_runtime_symbol(name: Seq<char>) -> bool {
    has_prefix(name, "hs_"@)
}

/// Whether the declaration names a runtime-initialization symbol and must
/// therefore be excluded from the generated surface.
pub fn declaration_blocklisted(d: &Declaration) -> (r: bool)
    ensures
        r == is_runtime_symbol(d.name@),
{
    str_has_prefix(d.name.as_str(), "hs_")
}

/// The declarations that survive the blocklist, in order.
pub open spec fn kept_declarations(s: Seq<Declaration>) -> Seq<Declaration>
    decreases s.len(),
{
    if s.len() == 0 {
        Seq::empty()
    } else if is_runtime_symbol(s.last().name@) {
        kept_declarations(s.drop_last())
    } else {
        kept_declarations(s.drop_last()).push(s.last())
    }
}

/// Drops every declaration whose name matches the runtime-initialization
/// pattern, keeping the rest in order.
pub fn filter_declarations(decls: &Vec<Declaration>) -> (r: Vec<Declaration>)
    ensures
        r@ == kept_declarations(decls@),
{
    let mut out: Vec<Declaration> = Vec::new();
    let n = decls.len();
    let mut i: usize = 0;
    while i < n
        invariant
            0 <= i <= n,
            n == decls@.len(),
            out@ == kept_declarations(decls@.take(i as int)),
        decreases n - i,
    {
        if !declaration_blocklisted(&decls[i]) {
            out.push(decls[i].clone());
        }
        proof {
            assert(decls@.take(i + 1int).drop_last() =~= decls@.take(i as int));
            assert(decls@.take(i + 1int).last() == decls@[i as int]);
        }
        i += 1;
    }
    proof {
        assert(decls@.take(n as int) =~= decls@);
    }
    out
}

/// Law: no kept declaration names a runtime-initialization symbol, and
/// every declaration that names none is kept.
pub proof fn lemma_blocklist_complete(s: Seq<Declaration>)
    ensures
        forall|k: int|
            0 <= k < kept_declarations(s).len() ==> !is_runtime_symbol(
                #[trigger] kept_declarations(s)[k].name@,
            ),
        forall|j: int|
            0 <= j < s.len() && !is_runtime_symbol(s[j].name@) ==> kept_declarations(s).contains(
                #[trigger] s[j],
            ),
    decreases s.len(),
{
    if s.len() > 0 {
        lemma_blocklist_complete(s.drop_last());
        let kept = kept_declarations(s);
        let init = kept_declarations(s.drop_last());
        assert forall|j: int|
            0 <= j < s.len() && !is_runtime_symbol(s[j].name@) implies kept.contains(
            #[trigger] s[j],
        ) by {
            if j < s.len() - 1 {
                assert(s.drop_last()[j] == s[j]);
                assert(init.contains(s[j]));
                let w = choose|w: int| 0 <= w < init.len() && init[w] == s[j];
                assert(kept[w] == s[j]);
            } else {
                assert(kept.last() == s[j]);
            }
        }
    }
}

} // verus!
