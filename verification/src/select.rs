//! Filters the declared functions down to the candidates of one peripheral
//! kind, in the reverse of declaration order (last declared first), an
//! ordering kept deliberately stable for output comparison.

use vstd::prelude::*;

use crate::classify::Kind;
use crate::decl::{FunctionDecl, FunctionDeclView};
use crate::strutil::{ends_with_str, is_prefix, is_suffix, starts_with_str};

verus! {

/// The models of a sequence of declarations.
pub open spec fn decls_view(fns: Seq<FunctionDecl>) -> Seq<FunctionDeclView> {
    fns.map_values(|f: FunctionDecl| f@)
}

/// The models of a sequence of borrowed declarations.
pub open spec fn decl_refs_view(fns: Seq<&FunctionDecl>) -> Seq<FunctionDeclView> {
    fns.map_values(|f: &FunctionDecl| f@)
}

/// Whether a function is a candidate: it carries the kind's prefix and is
/// neither an interrupt handler nor a callback hook (those are invoked by
/// the vendor runtime, never by user code).
pub open spec fn keep_spec(name: Seq<char>, kind: Kind) -> bool {
    &&& match kind {
        Kind::Hal => is_prefix("HAL_"@, name),
        Kind::Ll => is_prefix("LL_"@, name),
    }
    &&& !is_suffix("IRQHandler"@, name)
    &&& !is_suffix("Callback"@, name)
}

/// The candidates among `fns`, last declared first.
pub open spec fn select_spec(fns: Seq<FunctionDeclView>, kind: Kind) -> Seq<FunctionDeclView>
    decreases fns.len(),
{
    if fns.len() == 0 {
        Seq::empty()
    } else {
        let rest = select_spec(fns.drop_first(), kind);
        if keep_spec(fns[0].name, kind) {
            rest.push(fns[0])
        } else {
            rest
        }
    }
}

fn keep(f: &FunctionDecl, kind: Kind) -> (r: bool)
    ensures
        r == keep_spec(f@.name, kind),
{
    let prefix_ok = match kind {
        Kind::Hal => starts_with_str(f.name.as_str(), "HAL_"),
        Kind::Ll => starts_with_str(f.name.as_str(), "LL_"),
    };
    prefix_ok && !ends_with_str(f.name.as_str(), "IRQHandler")
        && !ends_with_str(f.name.as_str(), "Callback")
}

/// The candidate functions of this kind, in reverse declaration order.
pub fn select<'a>(functions: &'a Vec<FunctionDecl>, kind: Kind) -> (r: Vec<&'a FunctionDecl>)
    ensures
        decl_refs_view(r@) == select_spec(decls_view(functions@), kind),
{
    let ghost all = decls_view(functions@);
    let n = functions.len();
    let mut out: Vec<&'a FunctionDecl> = Vec::new();
    let mut i: usize = n;
    proof {
        assert(all.skip(n as int) =~= Seq::<FunctionDeclView>::empty());
        assert(decl_refs_view(out@) =~= select_spec(all.skip(n as int), kind));
    }
    while i > 0
        invariant
            0 <= i <= n,
            n == functions.len(),
            all == decls_view(functions@),
            decl_refs_view(out@) == select_spec(all.skip(i as int), kind),
        decreases i,
    {
        i = i - 1;
        let f = &functions[i];
        proof {
            assert(all.skip(i as int).drop_first() =~= all.skip(i + 1));
            assert(all.skip(i as int)[0] == f@);
        }
        if keep(f, kind) {
            out.push(f);
            proof {
                assert(decl_refs_view(out@) =~= select_spec(all.skip(i as int), kind));
            }
        }
    }
    proof {
        assert(all.skip(0) =~= all);
    }
    out
}

} // verus!
