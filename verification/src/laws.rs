//! The properties the pipeline keeps, stated and proved over the spec
//! functions that the executable contracts use.

use vstd::prelude::*;

use crate::classify::{classify_spec, kind_text, ClassifyError, FileClassificationView, Kind};
use crate::decl::FunctionDeclView;
use crate::resolve::{
    dedup_spec, hal_candidates_spec, hal_keep_spec, ll_candidates_spec, resolve_spec,
};
use crate::strutil::{
    find_char_spec, has_sub, is_suffix, lemma_find_char_spec, split_first_spec,
};
use crate::synth::{
    handle_needle_spec, method_name_spec, synth_spec, MethodDescriptorView, Visibility,
};

verus! {

/// Splitting at the first separator of `a + "_" + b` yields `(a, b)` when
/// `a` holds no separator of its own.
pub proof fn lemma_split_at_marker(a: Seq<char>, b: Seq<char>)
    requires
        !a.contains('_'),
    ensures
        split_first_spec(a + seq!['_'] + b, '_') == Some((a, b)),
{
    let s = a + seq!['_'] + b;
    assert(s[a.len() as int] == '_');
    assert forall|j: int| 0 <= j < a.len() implies s[j] != '_' by {
        if s[j] == '_' {
            assert(a[j] == '_');
            assert(a.contains('_'));
        }
    }
    lemma_find_char_spec(s, '_');
    match find_char_spec(s, '_') {
        Some(i) => {
            if i < a.len() {
                assert(s[i] != '_');
            }
            if i > a.len() {
                assert(s[a.len() as int] != '_');
            }
            assert(i == a.len());
            assert(s.subrange(0, i) =~= a);
            assert(s.subrange(i + 1, s.len() as int) =~= b);
        },
        None => {
            assert(s[a.len() as int] != '_');
        },
    }
}

/// A name `<version>_<kind>_<peripheral>` with a `.c` or `.h` extension, a
/// version without separators, a recognized kind, and a peripheral not
/// ending in `_ex`, classifies to exactly that triple.
pub proof fn lemma_classify_well_formed(
    version: Seq<char>,
    kind: Kind,
    periph: Seq<char>,
    ext: Seq<char>,
)
    requires
        !version.contains('_'),
        ext == ".c"@ || ext == ".h"@,
        !is_suffix("_ex"@, periph),
    ensures
        classify_spec(version + seq!['_'] + kind_text(kind) + seq!['_'] + periph + ext)
            == Ok::<FileClassificationView, ClassifyError>(FileClassificationView {
            version,
            kind,
            peripheral: periph,
            is_extension: false,
        }),
{
    reveal_strlit(".c");
    reveal_strlit(".h");
    reveal_strlit("hal");
    reveal_strlit("ll");
    let ktext = kind_text(kind);
    let f = version + seq!['_'] + ktext + seq!['_'] + periph + ext;
    assert(ext.len() == 2);
    assert(f.subrange(f.len() - 2, f.len() as int) =~= ext);
    if ext == ".c"@ {
        assert(is_suffix(".c"@, f));
    } else {
        assert(is_suffix(".h"@, f));
        if is_suffix(".c"@, f) {
            assert(f.subrange(f.len() - 2, f.len() as int)[1] == 'c');
            assert(ext[1] == 'h');
        }
    }
    let stem = f.take(f.len() - 2);
    assert(stem =~= version + seq!['_'] + (ktext + seq!['_'] + periph));
    lemma_split_at_marker(version, ktext + seq!['_'] + periph);
    assert(!ktext.contains('_')) by {
        if ktext.contains('_') {
            let i = choose|i: int| 0 <= i < ktext.len() && ktext[i] == '_';
            assert(ktext[i] != '_');
        }
    }
    lemma_split_at_marker(ktext, periph);
    match kind {
        Kind::Hal => {
            assert(ktext == "hal"@);
        },
        Kind::Ll => {
            assert(ktext == "ll"@);
            assert(ktext != "hal"@) by {
                assert("hal"@.len() == 3 && "ll"@.len() == 2);
            }
        },
    }
}

/// A file whose peripheral part ends in `_ex` always classifies as an
/// extension module, whatever its kind token says.
pub proof fn lemma_classify_extension_module(
    version: Seq<char>,
    kindtok: Seq<char>,
    periph: Seq<char>,
    ext: Seq<char>,
)
    requires
        !version.contains('_'),
        !kindtok.contains('_'),
        is_suffix("_ex"@, periph),
        ext == ".c"@ || ext == ".h"@,
    ensures
        classify_spec(version + seq!['_'] + kindtok + seq!['_'] + periph + ext)
            == Err::<FileClassificationView, ClassifyError>(ClassifyError::ExtensionModule),
{
    reveal_strlit(".c");
    reveal_strlit(".h");
    let f = version + seq!['_'] + kindtok + seq!['_'] + periph + ext;
    assert(ext.len() == 2);
    assert(f.subrange(f.len() - 2, f.len() as int) =~= ext);
    if ext == ".c"@ {
        assert(is_suffix(".c"@, f));
    } else {
        assert(is_suffix(".h"@, f));
        if is_suffix(".c"@, f) {
            assert(f.subrange(f.len() - 2, f.len() as int)[1] == 'c');
            assert(ext[1] == 'h');
        }
    }
    let stem = f.take(f.len() - 2);
    assert(stem =~= version + seq!['_'] + (kindtok + seq!['_'] + periph));
    lemma_split_at_marker(version, kindtok + seq!['_'] + periph);
    lemma_split_at_marker(kindtok, periph);
}

/// Deduplicating keeps exactly the elements of the input.
pub proof fn lemma_dedup_membership(s: Seq<Seq<char>>, x: Seq<char>)
    ensures
        dedup_spec(s).contains(x) <==> s.contains(x),
    decreases s.len(),
{
    if s.len() == 0 {
    } else {
        let t = s.drop_last();
        lemma_dedup_membership(t, x);
        assert(s.contains(x) <==> (t.contains(x) || s.last() == x)) by {
            if s.contains(x) {
                let i = choose|i: int| 0 <= i < s.len() && s[i] == x;
                if i < s.len() - 1 {
                    assert(t[i] == x);
                    assert(t.contains(x));
                }
            }
            if t.contains(x) {
                let i = choose|i: int| 0 <= i < t.len() && t[i] == x;
                assert(s[i] == x);
            }
            if s.last() == x {
                assert(s[s.len() - 1] == x);
            }
        }
        let d = dedup_spec(t);
        if d.contains(s.last()) {
        } else {
            assert(dedup_spec(s) == d.push(s.last()));
            assert(dedup_spec(s).contains(x) <==> (d.contains(x) || s.last() == x)) by {
                if dedup_spec(s).contains(x) {
                    let i = choose|i: int| 0 <= i < dedup_spec(s).len() && dedup_spec(s)[i] == x;
                    if i < d.len() {
                        assert(d[i] == x);
                    }
                }
                if d.contains(x) {
                    let i = choose|i: int| 0 <= i < d.len() && d[i] == x;
                    assert(dedup_spec(s)[i] == x);
                }
                if s.last() == x {
                    assert(dedup_spec(s).last() == x);
                }
            }
        }
    }
}

/// Deduplicating leaves no pair of equal elements.
pub proof fn lemma_dedup_distinct(s: Seq<Seq<char>>)
    ensures
        forall|i: int, j: int|
            0 <= i < j < dedup_spec(s).len() ==> dedup_spec(s)[i] != dedup_spec(s)[j],
    decreases s.len(),
{
    if s.len() == 0 {
    } else {
        let t = s.drop_last();
        lemma_dedup_distinct(t);
        let d = dedup_spec(t);
        if d.contains(s.last()) {
        } else {
            assert forall|i: int, j: int|
                0 <= i < j < dedup_spec(s).len() implies dedup_spec(s)[i] != dedup_spec(s)[j] by {
                if j < d.len() {
                } else {
                    assert(dedup_spec(s)[j] == s.last());
                    if d[i] == s.last() {
                        assert(d.contains(s.last()));
                    }
                }
            }
        }
    }
}

/// The position of the first occurrence of `x` in `s`; meaningful when `x`
/// occurs at all.
pub open spec fn first_occurrence(s: Seq<Seq<char>>, x: Seq<char>) -> int
    decreases s.len(),
{
    if s.len() == 0 {
        0
    } else if s.drop_last().contains(x) || s.last() != x {
        first_occurrence(s.drop_last(), x)
    } else {
        s.len() - 1
    }
}

/// `first_occurrence` points at the earliest index holding `x`.
pub proof fn lemma_first_occurrence(s: Seq<Seq<char>>, x: Seq<char>)
    requires
        s.contains(x),
    ensures
        0 <= first_occurrence(s, x) < s.len(),
        s[first_occurrence(s, x)] == x,
        forall|j: int| 0 <= j < first_occurrence(s, x) ==> s[j] != x,
    decreases s.len(),
{
    let t = s.drop_last();
    if t.contains(x) {
        lemma_first_occurrence(t, x);
        assert(forall|j: int| 0 <= j < t.len() ==> s[j] == t[j]);
    } else if s.last() != x {
        let i = choose|i: int| 0 <= i < s.len() && s[i] == x;
        assert(t[i] == x);
        assert(t.contains(x));
    } else {
        assert(first_occurrence(s, x) == s.len() - 1);
        assert forall|j: int| 0 <= j < s.len() - 1 implies s[j] != x by {
            if s[j] == x {
                assert(t[j] == x);
                assert(t.contains(x));
            }
        }
    }
}

/// The first occurrence of an element already present does not move when
/// one more element is appended.
pub proof fn lemma_first_occurrence_stable(s: Seq<Seq<char>>, x: Seq<char>)
    requires
        s.drop_last().contains(x),
        s.len() > 0,
    ensures
        first_occurrence(s, x) == first_occurrence(s.drop_last(), x),
{
}

/// Deduplicated elements stand in the order of their first occurrence.
pub proof fn lemma_dedup_first_seen(s: Seq<Seq<char>>)
    ensures
        forall|i: int, j: int|
            0 <= i < j < dedup_spec(s).len() ==> first_occurrence(s, dedup_spec(s)[i])
                < first_occurrence(s, dedup_spec(s)[j]),
    decreases s.len(),
{
    if s.len() == 0 {
    } else {
        let t = s.drop_last();
        let d = dedup_spec(t);
        lemma_dedup_first_seen(t);
        assert forall|k: int| 0 <= k < d.len() implies t.contains(d[k]) && first_occurrence(s, d[k])
            == first_occurrence(t, d[k]) by {
            assert(d.contains(d[k]));
            lemma_dedup_membership(t, d[k]);
            lemma_first_occurrence_stable(s, d[k]);
        }
        if d.contains(s.last()) {
            assert(dedup_spec(s) == d);
        } else {
            let x = s.last();
            lemma_dedup_membership(t, x);
            assert(!t.contains(x));
            assert(first_occurrence(s, x) == s.len() - 1);
            assert forall|i: int, j: int|
                0 <= i < j < dedup_spec(s).len() implies first_occurrence(s, dedup_spec(s)[i])
                < first_occurrence(s, dedup_spec(s)[j]) by {
                if j < d.len() {
                } else {
                    assert(dedup_spec(s)[j] == x);
                    assert(dedup_spec(s)[i] == d[i]);
                    lemma_first_occurrence(t, d[i]);
                    assert(first_occurrence(s, d[i]) == first_occurrence(t, d[i]) < t.len());
                }
            }
        }
    }
}

/// The candidate handle types, duplicates included, that resolving
/// deduplicates.
pub open spec fn candidates_of(
    kind: Kind,
    periph: Seq<char>,
    structs: Seq<Seq<char>>,
    fns: Seq<FunctionDeclView>,
) -> Seq<Seq<char>> {
    match kind {
        Kind::Hal => hal_candidates_spec(structs, periph),
        Kind::Ll => ll_candidates_spec(fns, periph),
    }
}

/// Resolving the same declarations twice yields the same handle list.
pub proof fn lemma_resolver_repeatable(
    r1: Seq<Seq<char>>,
    r2: Seq<Seq<char>>,
    kind: Kind,
    periph: Seq<char>,
    structs: Seq<Seq<char>>,
    fns: Seq<FunctionDeclView>,
)
    requires
        r1 == resolve_spec(kind, periph, structs, fns),
        r2 == resolve_spec(kind, periph, structs, fns),
    ensures
        r1 == r2,
{
}

/// The resolver's output holds each handle type once, keeps exactly the
/// candidate set, and lists handles in the order of their first
/// appearance.
pub proof fn lemma_resolver_distinct_first_seen(
    kind: Kind,
    periph: Seq<char>,
    structs: Seq<Seq<char>>,
    fns: Seq<FunctionDeclView>,
)
    ensures
        forall|i: int, j: int|
            0 <= i < j < resolve_spec(kind, periph, structs, fns).len() ==> resolve_spec(
                kind,
                periph,
                structs,
                fns,
            )[i] != resolve_spec(kind, periph, structs, fns)[j],
        forall|x: Seq<char>|
            resolve_spec(kind, periph, structs, fns).contains(x) <==> candidates_of(
                kind,
                periph,
                structs,
                fns,
            ).contains(x),
        forall|i: int, j: int|
            0 <= i < j < resolve_spec(kind, periph, structs, fns).len() ==> first_occurrence(
                candidates_of(kind, periph, structs, fns),
                resolve_spec(kind, periph, structs, fns)[i],
            ) < first_occurrence(
                candidates_of(kind, periph, structs, fns),
                resolve_spec(kind, periph, structs, fns)[j],
            ),
{
    let cands = candidates_of(kind, periph, structs, fns);
    assert(resolve_spec(kind, periph, structs, fns) == dedup_spec(cands));
    lemma_dedup_distinct(cands);
    lemma_dedup_first_seen(cands);
    assert forall|x: Seq<char>|
        resolve_spec(kind, periph, structs, fns).contains(x) <==> cands.contains(x) by {
        lemma_dedup_membership(cands, x);
    }
}

/// An instance method drops exactly the leading handle argument from its
/// parameter list, and only when that argument's type carries the handle;
/// every other synthesized method keeps every argument.
pub proof fn lemma_synth_parameters(
    f: FunctionDeclView,
    handle: Option<Seq<char>>,
    periph: Seq<char>,
)
    ensures
        match synth_spec(f, handle, periph) {
            Some(m) => match m.visibility {
                Visibility::Instance => f.arguments.len() > 0 && handle is Some && has_sub(
                    f.arguments[0].type_text,
                    handle_needle_spec(handle->0),
                ) && m.parameters == f.arguments.skip(1),
                Visibility::Static => m.parameters == f.arguments,
            },
            None => true,
        },
{
    match synth_spec(f, handle, periph) {
        Some(m) => {
            if f.arguments.len() == 0 {
                assert(m.parameters =~= f.arguments);
            }
        },
        None => {},
    }
}

/// A candidate without arguments synthesizes a parameterless static
/// forwarder exactly when its name carries the upper-cased peripheral
/// token; otherwise it synthesizes nothing.
pub proof fn lemma_synth_zero_args(
    f: FunctionDeclView,
    handle: Option<Seq<char>>,
    periph: Seq<char>,
)
    requires
        f.arguments.len() == 0,
        f.return_type_text is Some,
        method_name_spec(f.name, periph) is Some,
    ensures
        crate::strutil::has_sub(f.name, crate::strutil::upper_seq(periph)) ==> synth_spec(
            f,
            handle,
            periph,
        ) == Some(MethodDescriptorView {
            visibility: Visibility::Static,
            return_type_text: f.return_type_text->0,
            method_name: method_name_spec(f.name, periph)->0,
            parameters: Seq::<crate::decl::ArgumentView>::empty(),
            call_arguments: Seq::<Seq<char>>::empty(),
            original_function_name: f.name,
        }),
        !crate::strutil::has_sub(f.name, crate::strutil::upper_seq(periph)) ==> synth_spec(
            f,
            handle,
            periph,
        ) is None,
{
}

/// `e` is a kept HAL struct name with the pointer marker appended.
pub open spec fn is_marked_handle(e: Seq<char>, periph: Seq<char>) -> bool {
    exists|n: Seq<char>|
        #![trigger hal_keep_spec(n, periph)]
        hal_keep_spec(n, periph) && e == n + " *"@
}

/// No resolved handle type is a `const` variant: an LL handle never holds
/// the word, and a HAL handle is a kept struct name, itself `const`-free,
/// with the pointer marker appended.
pub proof fn lemma_resolve_no_const(
    kind: Kind,
    periph: Seq<char>,
    structs: Seq<Seq<char>>,
    fns: Seq<FunctionDeclView>,
)
    ensures
        forall|k: int|
            #![trigger resolve_spec(kind, periph, structs, fns)[k]]
            0 <= k < resolve_spec(kind, periph, structs, fns).len() ==> match kind {
                Kind::Hal => is_marked_handle(resolve_spec(kind, periph, structs, fns)[k], periph),
                Kind::Ll => !has_sub(resolve_spec(kind, periph, structs, fns)[k], "const"@),
            },
{
    let cands = candidates_of(kind, periph, structs, fns);
    let r = resolve_spec(kind, periph, structs, fns);
    assert(r == dedup_spec(cands));
    match kind {
        Kind::Hal => {
            lemma_hal_candidates_shape(structs, periph);
            assert forall|k: int| #![trigger r[k]] 0 <= k < r.len() implies is_marked_handle(
                r[k],
                periph,
            ) by {
                assert(r.contains(r[k]));
                lemma_dedup_membership(cands, r[k]);
                let i = choose|i: int| 0 <= i < cands.len() && cands[i] == r[k];
                assert(is_marked_handle(cands[i], periph));
            }
        },
        Kind::Ll => {
            lemma_ll_candidates_shape(fns, periph);
            assert forall|k: int| 0 <= k < r.len() implies !has_sub(r[k], "const"@) by {
                assert(r.contains(r[k]));
                lemma_dedup_membership(cands, r[k]);
                let i = choose|i: int| 0 <= i < cands.len() && cands[i] == r[k];
                assert(!has_sub(cands[i], "const"@));
            }
        },
    }
}

/// Every HAL candidate is a kept struct name with the pointer marker.
proof fn lemma_hal_candidates_shape(structs: Seq<Seq<char>>, periph: Seq<char>)
    ensures
        forall|k: int|
            #![trigger hal_candidates_spec(structs, periph)[k]]
            0 <= k < hal_candidates_spec(structs, periph).len() ==> is_marked_handle(
                hal_candidates_spec(structs, periph)[k],
                periph,
            ),
    decreases structs.len(),
{
    if structs.len() == 0 {
    } else {
        let t = structs.drop_last();
        lemma_hal_candidates_shape(t, periph);
        let c = hal_candidates_spec(structs, periph);
        let ct = hal_candidates_spec(t, periph);
        assert forall|k: int| #![trigger c[k]] 0 <= k < c.len() implies is_marked_handle(
            c[k],
            periph,
        ) by {
            if hal_keep_spec(structs.last(), periph) && k == ct.len() {
                assert(c[k] == structs.last() + " *"@);
                assert(hal_keep_spec(structs.last(), periph) && c[k] == structs.last() + " *"@);
            } else {
                assert(c[k] == hal_candidates_spec(t, periph)[k]);
                assert(is_marked_handle(hal_candidates_spec(t, periph)[k], periph));
            }
        }
    }
}

/// Every LL candidate is `const`-free.
proof fn lemma_ll_candidates_shape(fns: Seq<FunctionDeclView>, periph: Seq<char>)
    ensures
        forall|k: int|
            0 <= k < ll_candidates_spec(fns, periph).len() ==> !has_sub(
                ll_candidates_spec(fns, periph)[k],
                "const"@,
            ),
    decreases fns.len(),
{
    if fns.len() == 0 {
    } else {
        let t = fns.drop_last();
        lemma_ll_candidates_shape(t, periph);
        let c = ll_candidates_spec(fns, periph);
        let ct = ll_candidates_spec(t, periph);
        match crate::resolve::ll_keep_spec(fns.last(), periph) {
            Some(ty) => {
                assert forall|k: int| 0 <= k < c.len() implies !has_sub(c[k], "const"@) by {
                    if k < ct.len() {
                        assert(c[k] == ct[k]);
                    } else {
                        assert(c[k] == ty);
                    }
                }
            },
            None => {},
        }
    }
}

} // verus!
