//! Resolves the handle types of one peripheral: for HAL files from the
//! declared handle structs, for LL files from the first-argument types of
//! the peripheral's own functions. The result is deduplicated, first seen
//! first.

use vstd::prelude::*;

use crate::classify::Kind;
use crate::decl::{FunctionDecl, FunctionDeclView, StructDecl};
use crate::select::decls_view;
use crate::strutil::{
    contains_sub, ends_with_str, has_sub, is_suffix, lower_seq, str_eq, to_lower_ascii,
    to_upper_ascii, upper_seq,
};

verus! {

/// The models of a sequence of struct declarations: their names.
pub open spec fn structs_view(structs: Seq<StructDecl>) -> Seq<Seq<char>> {
    structs.map_values(|s: StructDecl| s@)
}

/// The models of a sequence of owned strings.
pub open spec fn strings_view(v: Seq<String>) -> Seq<Seq<char>> {
    v.map_values(|s: String| s@)
}

/// Whether a HAL struct name is a handle for this peripheral: it carries
/// the handle-struct tag, names the peripheral (case-insensitively), and is
/// not a `const` variant.
pub open spec fn hal_keep_spec(name: Seq<char>, periph: Seq<char>) -> bool {
    &&& is_suffix("_HandleTypeDef"@, name)
    &&& has_sub(lower_seq(name), lower_seq(periph))
    &&& !has_sub(name, "const"@)
}

/// The HAL handle types in struct order, each with the pointer marker
/// appended, duplicates still present.
pub open spec fn hal_candidates_spec(structs: Seq<Seq<char>>, periph: Seq<char>) -> Seq<Seq<char>>
    decreases structs.len(),
{
    if structs.len() == 0 {
        Seq::empty()
    } else {
        let rest = hal_candidates_spec(structs.drop_last(), periph);
        if hal_keep_spec(structs.last(), periph) {
            rest.push(structs.last() + " *"@)
        } else {
            rest
        }
    }
}

/// The register-block type an LL function hands its first argument, when
/// the function belongs to the peripheral and the type is a non-`const`
/// block typedef.
pub open spec fn ll_keep_spec(f: FunctionDeclView, periph: Seq<char>) -> Option<Seq<char>> {
    if has_sub(f.name, upper_seq(periph)) && f.arguments.len() > 0 {
        let t = f.arguments[0].type_text;
        if has_sub(t, "_TypeDef"@) && !has_sub(t, "const"@) {
            Some(t)
        } else {
            None
        }
    } else {
        None
    }
}

/// The LL handle types in function order, duplicates still present.
pub open spec fn ll_candidates_spec(fns: Seq<FunctionDeclView>, periph: Seq<char>) -> Seq<Seq<char>>
    decreases fns.len(),
{
    if fns.len() == 0 {
        Seq::empty()
    } else {
        let rest = ll_candidates_spec(fns.drop_last(), periph);
        match ll_keep_spec(fns.last(), periph) {
            Some(t) => rest.push(t),
            None => rest,
        }
    }
}

/// `s` with every repeated element dropped, keeping first occurrences in
/// their order.
pub open spec fn dedup_spec(s: Seq<Seq<char>>) -> Seq<Seq<char>>
    decreases s.len(),
{
    if s.len() == 0 {
        Seq::empty()
    } else {
        let rest = dedup_spec(s.drop_last());
        if rest.contains(s.last()) {
            rest
        } else {
            rest.push(s.last())
        }
    }
}

/// What resolving yields, for every input.
pub open spec fn resolve_spec(
    kind: Kind,
    periph: Seq<char>,
    structs: Seq<Seq<char>>,
    fns: Seq<FunctionDeclView>,
) -> Seq<Seq<char>> {
    match kind {
        Kind::Hal => dedup_spec(hal_candidates_spec(structs, periph)),
        Kind::Ll => dedup_spec(ll_candidates_spec(fns, periph)),
    }
}

fn vec_contains_str(v: &Vec<String>, x: &str) -> (r: bool)
    ensures
        r == strings_view(v@).contains(x@),
{
    let n = v.len();
    let mut i: usize = 0;
    while i < n
        invariant
            0 <= i <= n,
            n == v.len(),
            forall|j: int| 0 <= j < i ==> v@[j]@ != x@,
        decreases n - i,
    {
        if str_eq(v[i].as_str(), x) {
            assert(strings_view(v@)[i as int] == x@);
            return true;
        }
        i = i + 1;
    }
    assert forall|j: int| 0 <= j < strings_view(v@).len() implies strings_view(v@)[j] != x@ by {
        assert(strings_view(v@)[j] == v@[j]@);
    }
    false
}

/// The distinct handle types of this peripheral, first seen first; empty
/// when the peripheral exposes only free functions, which is not an error.
pub fn resolve(
    kind: Kind,
    peripheral: &str,
    structs: &Vec<StructDecl>,
    functions: &Vec<FunctionDecl>,
) -> (r: Vec<String>)
    ensures
        strings_view(r@) == resolve_spec(
            kind,
            peripheral@,
            structs_view(structs@),
            decls_view(functions@),
        ),
{
    let mut out: Vec<String> = Vec::new();
    match kind {
        Kind::Hal => {
            let ghost names = structs_view(structs@);
            let lower_p = to_lower_ascii(peripheral);
            let n = structs.len();
            let mut i: usize = 0;
            proof {
                assert(names.take(0) =~= Seq::<Seq<char>>::empty());
                assert(strings_view(out@) =~= dedup_spec(hal_candidates_spec(
                    names.take(0),
                    peripheral@,
                )));
            }
            while i < n
                invariant
                    0 <= i <= n,
                    n == structs.len(),
                    names == structs_view(structs@),
                    lower_p@ == lower_seq(peripheral@),
                    strings_view(out@) == dedup_spec(hal_candidates_spec(
                        names.take(i as int),
                        peripheral@,
                    )),
                decreases n - i,
            {
                let name = structs[i].name.as_str();
                proof {
                    assert(names.take(i + 1).drop_last() =~= names.take(i as int));
                    assert(names.take(i + 1).last() == name@);
                    let c_old = hal_candidates_spec(names.take(i as int), peripheral@);
                    let x = name@ + " *"@;
                    assert(c_old.push(x).drop_last() =~= c_old);
                    assert(c_old.push(x).last() == x);
                    assert(hal_candidates_spec(names.take(i + 1), peripheral@)
                        == if hal_keep_spec(name@, peripheral@) {
                            c_old.push(x)
                        } else {
                            c_old
                        });
                }
                let lower_name = to_lower_ascii(name);
                if ends_with_str(name, "_HandleTypeDef") && contains_sub(lower_name.as_str(), lower_p.as_str())
                    && !contains_sub(name, "const") {
                    let mut h = name.to_owned();
                    h.append(" *");
                    if !vec_contains_str(&out, h.as_str()) {
                        out.push(h);
                        proof {
                            assert(strings_view(out@) =~= dedup_spec(hal_candidates_spec(
                                names.take(i + 1),
                                peripheral@,
                            )));
                        }
                    }
                }
                i = i + 1;
            }
            proof {
                assert(names.take(n as int) =~= names);
            }
        },
        Kind::Ll => {
            let ghost fns = decls_view(functions@);
            let upper_p = to_upper_ascii(peripheral);
            let n = functions.len();
            let mut i: usize = 0;
            proof {
                assert(fns.take(0) =~= Seq::<FunctionDeclView>::empty());
                assert(strings_view(out@) =~= dedup_spec(ll_candidates_spec(
                    fns.take(0),
                    peripheral@,
                )));
            }
            while i < n
                invariant
                    0 <= i <= n,
                    n == functions.len(),
                    fns == decls_view(functions@),
                    upper_p@ == upper_seq(peripheral@),
                    strings_view(out@) == dedup_spec(ll_candidates_spec(
                        fns.take(i as int),
                        peripheral@,
                    )),
                decreases n - i,
            {
                let f = &functions[i];
                proof {
                    assert(fns.take(i + 1).drop_last() =~= fns.take(i as int));
                    assert(fns.take(i + 1).last() == f@);
                    let c_old = ll_candidates_spec(fns.take(i as int), peripheral@);
                    assert(ll_candidates_spec(fns.take(i + 1), peripheral@)
                        == match ll_keep_spec(f@, peripheral@) {
                            Some(t) => c_old.push(t),
                            None => c_old,
                        });
                    if ll_keep_spec(f@, peripheral@) is Some {
                        let t = ll_keep_spec(f@, peripheral@)->0;
                        assert(c_old.push(t).drop_last() =~= c_old);
                        assert(c_old.push(t).last() == t);
                    }
                }
                if contains_sub(f.name.as_str(), upper_p.as_str()) && f.arguments.len() > 0 {
                    let t = f.arguments[0].type_text.as_str();
                    proof {
                        assert(f@.arguments[0] == f.arguments@.map_values(|a: crate::decl::Argument| a@)[0]);
                    }
                    if contains_sub(t, "_TypeDef") && !contains_sub(t, "const") {
                        if !vec_contains_str(&out, t) {
                            out.push(t.to_owned());
                            proof {
                                assert(strings_view(out@) =~= dedup_spec(ll_candidates_spec(
                                    fns.take(i + 1),
                                    peripheral@,
                                )));
                            }
                        }
                    }
                }
                i = i + 1;
            }
            proof {
                assert(fns.take(n as int) =~= fns);
            }
        },
    }
    out
}

} // verus!
