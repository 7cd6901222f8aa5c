//! Renders the generated unit: the include of the original header, the
//! kind namespace, and either one class per resolved handle type or a
//! single static namespace named after the peripheral.

use vstd::prelude::*;

use crate::classify::{kind_str, kind_text, stem_spec, stem_string, FileClassification,
    FileClassificationView};
use crate::decl::{Argument, ArgumentView, FunctionDecl, FunctionDeclView, StructDecl};
use crate::resolve::{resolve, resolve_spec, strings_view, structs_view};
use crate::select::{decl_refs_view, decls_view, select, select_spec};
use crate::strutil::{rfind_char, rfind_char_spec};
use crate::synth::{synth_spec, synthesize, MethodDescriptor, MethodDescriptorView, Visibility};

verus! {

/// The Pascal-case image that the case converter yields; a function of the
/// characters alone.
pub uninterp spec fn pascal_of(s: Seq<char>) -> Seq<char>;

/// Relies on convert_case's `Casing::to_case` with `Case::Pascal`: the
/// result depends on the input characters alone.
#[verifier::external_body]
fn to_pascal(s: &str) -> (r: String)
    ensures
        r@ == pascal_of(s@),
{
    convert_case::Casing::to_case(&s, convert_case::Case::Pascal)
}

/// The parts joined with a comma separator.
pub open spec fn join_comma_spec(parts: Seq<Seq<char>>) -> Seq<char>
    decreases parts.len(),
{
    if parts.len() == 0 {
        Seq::empty()
    } else if parts.len() == 1 {
        parts[0]
    } else {
        join_comma_spec(parts.drop_last()) + ", "@ + parts.last()
    }
}

/// The pretty-printed texts of a parameter list.
pub open spec fn pretty_texts(params: Seq<ArgumentView>) -> Seq<Seq<char>> {
    params.map_values(|a: ArgumentView| a.pretty_text)
}

/// The source text of one synthesized method body.
pub open spec fn render_method_spec(m: MethodDescriptorView) -> Seq<char> {
    let prefix = if m.visibility is Static {
        "static "@
    } else {
        Seq::<char>::empty()
    };
    "\t"@ + prefix + "inline "@ + m.return_type_text + " "@ + m.method_name + "("@
        + join_comma_spec(pretty_texts(m.parameters)) + ") { return "@
        + m.original_function_name + "("@ + join_comma_spec(m.call_arguments) + "); }\n"@
}

/// The method texts of all candidates against one handle choice, in
/// candidate order; a candidate that synthesizes nothing adds nothing.
pub open spec fn methods_text_spec(
    cands: Seq<FunctionDeclView>,
    handle: Option<Seq<char>>,
    periph: Seq<char>,
) -> Seq<char>
    decreases cands.len(),
{
    if cands.len() == 0 {
        Seq::empty()
    } else {
        methods_text_spec(cands.drop_last(), handle, periph) + (match synth_spec(
            cands.last(),
            handle,
            periph,
        ) {
            Some(m) => render_method_spec(m),
            None => Seq::empty(),
        })
    }
}

/// The text of one wrapper class for one handle type: its field, its
/// converting constructor, and its instance methods. A handle name without
/// a separator is unexpected and renders nothing rather than failing the
/// file.
pub open spec fn class_text_spec(
    handle: Seq<char>,
    cands: Seq<FunctionDeclView>,
    periph: Seq<char>,
) -> Seq<char> {
    match rfind_char_spec(handle, '_') {
        None => Seq::empty(),
        Some(k) => {
            let cname = pascal_of(handle.subrange(0, k));
            "class "@ + cname + " {\n"@ + "public:\n"@ + handle + " handle;\n"@ + cname + "("@
                + handle + " _handle) : handle(_handle) {}\n"@
                + methods_text_spec(cands, Some(handle), periph) + "};\n"@
        },
    }
}

/// The class texts of all resolved handle types, in resolver order.
pub open spec fn classes_text_spec(
    handles: Seq<Seq<char>>,
    cands: Seq<FunctionDeclView>,
    periph: Seq<char>,
) -> Seq<char>
    decreases handles.len(),
{
    if handles.len() == 0 {
        Seq::empty()
    } else {
        classes_text_spec(handles.drop_last(), cands, periph) + class_text_spec(
            handles.last(),
            cands,
            periph,
        )
    }
}

/// The whole generated unit for one classified file and its declarations.
pub open spec fn generate_spec(
    c: FileClassificationView,
    structs: Seq<Seq<char>>,
    fns: Seq<FunctionDeclView>,
) -> Seq<char> {
    let handles = resolve_spec(c.kind, c.peripheral, structs, fns);
    let cands = select_spec(fns, c.kind);
    let head = "#pragma once\n"@ + "#include \""@ + stem_spec(c) + ".h\"\n"@ + "namespace "@
        + kind_text(c.kind) + " {\n"@;
    let body = if handles.len() == 0 {
        "namespace "@ + pascal_of(c.peripheral) + " {\n"@ + methods_text_spec(
            cands,
            None,
            c.peripheral,
        ) + "};\n"@
    } else {
        classes_text_spec(handles, cands, c.peripheral)
    };
    head + body + "};\n"@
}

fn join_pretty(params: &Vec<Argument>) -> (r: String)
    ensures
        r@ == join_comma_spec(pretty_texts(params@.map_values(|a: Argument| a@))),
{
    let ghost parts = pretty_texts(params@.map_values(|a: Argument| a@));
    let n = params.len();
    let mut out = String::new();
    let mut i: usize = 0;
    proof {
        assert(parts.take(0) =~= Seq::<Seq<char>>::empty());
    }
    while i < n
        invariant
            0 <= i <= n,
            n == params.len(),
            parts == pretty_texts(params@.map_values(|a: Argument| a@)),
            parts.len() == n,
            out@ == join_comma_spec(parts.take(i as int)),
        decreases n - i,
    {
        if i > 0 {
            out.append(", ");
        }
        out.append(params[i].pretty_text.as_str());
        proof {
            assert(parts.take(i + 1).drop_last() =~= parts.take(i as int));
            assert(parts.take(i + 1).last() == parts[i as int]);
            assert(parts[i as int] == params@[i as int]@.pretty_text);
        }
        i = i + 1;
    }
    proof {
        assert(parts.take(n as int) =~= parts);
    }
    out
}

fn join_strings(parts_vec: &Vec<String>) -> (r: String)
    ensures
        r@ == join_comma_spec(strings_view(parts_vec@)),
{
    let ghost parts = strings_view(parts_vec@);
    let n = parts_vec.len();
    let mut out = String::new();
    let mut i: usize = 0;
    proof {
        assert(parts.take(0) =~= Seq::<Seq<char>>::empty());
    }
    while i < n
        invariant
            0 <= i <= n,
            n == parts_vec.len(),
            parts == strings_view(parts_vec@),
            parts.len() == n,
            out@ == join_comma_spec(parts.take(i as int)),
        decreases n - i,
    {
        if i > 0 {
            out.append(", ");
        }
        out.append(parts_vec[i].as_str());
        proof {
            assert(parts.take(i + 1).drop_last() =~= parts.take(i as int));
            assert(parts.take(i + 1).last() == parts[i as int]);
        }
        i = i + 1;
    }
    proof {
        assert(parts.take(n as int) =~= parts);
    }
    out
}

/// The source text of one method descriptor, as it stands in the class or
/// namespace body.
pub fn render_method(m: &MethodDescriptor) -> (r: String)
    ensures
        r@ == render_method_spec(m@),
{
    let mut out = String::from_str("\t");
    if matches!(m.visibility, Visibility::Static) {
        out.append("static ");
    }
    out.append("inline ");
    out.append(m.return_type_text.as_str());
    out.append(" ");
    out.append(m.method_name.as_str());
    out.append("(");
    let pretty = join_pretty(&m.parameters);
    out.append(pretty.as_str());
    out.append(") { return ");
    out.append(m.original_function_name.as_str());
    out.append("(");
    let cargs = join_strings(&m.call_arguments);
    out.append(cargs.as_str());
    out.append("); }\n");
    proof {
        assert(out@ =~= render_method_spec(m@));
    }
    out
}

/// The concatenated method texts of the candidates against one handle
/// choice.
pub fn emit_methods(
    cands: &Vec<&FunctionDecl>,
    handle_type: Option<&str>,
    peripheral: &str,
) -> (r: String)
    ensures
        r@ == methods_text_spec(
            decl_refs_view(cands@),
            crate::synth::opt_str_view(handle_type),
            peripheral@,
        ),
{
    let ghost views = decl_refs_view(cands@);
    let ghost h = crate::synth::opt_str_view(handle_type);
    let n = cands.len();
    let mut out = String::new();
    let mut i: usize = 0;
    proof {
        assert(views.take(0) =~= Seq::<FunctionDeclView>::empty());
    }
    while i < n
        invariant
            0 <= i <= n,
            n == cands.len(),
            views == decl_refs_view(cands@),
            views.len() == n,
            h == crate::synth::opt_str_view(handle_type),
            out@ == methods_text_spec(views.take(i as int), h, peripheral@),
        decreases n - i,
    {
        let f: &FunctionDecl = cands[i];
        proof {
            assert(views.take(i + 1).drop_last() =~= views.take(i as int));
            assert(views.take(i + 1).last() == f@);
        }
        match synthesize(f, handle_type, peripheral) {
            Some(m) => {
                let text = render_method(&m);
                out.append(text.as_str());
            },
            None => {},
        }
        i = i + 1;
    }
    proof {
        assert(views.take(n as int) =~= views);
    }
    out
}

/// The text of one wrapper class for one handle type.
pub fn emit_class(handle: &str, cands: &Vec<&FunctionDecl>, peripheral: &str) -> (r: String)
    ensures
        r@ == class_text_spec(handle@, decl_refs_view(cands@), peripheral@),
{
    match rfind_char(handle, '_') {
        None => String::new(),
        Some(k) => {
            proof {
                crate::strutil::lemma_rfind_char_spec(handle@, '_');
            }
            let before = handle.substring_char(0, k);
            let cname = to_pascal(before);
            let mut out = String::from_str("class ");
            out.append(cname.as_str());
            out.append(" {\n");
            out.append("public:\n");
            out.append(handle);
            out.append(" handle;\n");
            out.append(cname.as_str());
            out.append("(");
            out.append(handle);
            out.append(" _handle) : handle(_handle) {}\n");
            let methods = emit_methods(cands, Some(handle), peripheral);
            out.append(methods.as_str());
            out.append("};\n");
            proof {
                assert(out@ =~= class_text_spec(handle@, decl_refs_view(cands@), peripheral@));
            }
            out
        },
    }
}

/// Runs the whole pipeline on one classified file: resolves the handle
/// types, selects the candidates, synthesizes their methods, and renders
/// the generated unit.
pub fn generate(
    c: &FileClassification,
    structs: &Vec<StructDecl>,
    functions: &Vec<FunctionDecl>,
) -> (r: String)
    ensures
        r@ == generate_spec(c@, structs_view(structs@), decls_view(functions@)),
{
    let handles = resolve(c.kind, c.peripheral.as_str(), structs, functions);
    let cands = select(functions, c.kind);
    let mut out = String::from_str("#pragma once\n");
    out.append("#include \"");
    let stem = stem_string(c);
    out.append(stem.as_str());
    out.append(".h\"\n");
    out.append("namespace ");
    out.append(kind_str(c.kind));
    out.append(" {\n");
    let ghost head = "#pragma once\n"@ + "#include \""@ + stem_spec(c@) + ".h\"\n"@
        + "namespace "@ + kind_text(c.kind) + " {\n"@;
    proof {
        assert(out@ =~= head);
    }
    if handles.len() == 0 {
        out.append("namespace ");
        let cname = to_pascal(c.peripheral.as_str());
        out.append(cname.as_str());
        out.append(" {\n");
        let methods = emit_methods(&cands, None, c.peripheral.as_str());
        out.append(methods.as_str());
        out.append("};\n");
        proof {
            assert(strings_view(handles@).len() == 0);
        }
    } else {
        let ghost handle_views = strings_view(handles@);
        let n = handles.len();
        let mut i: usize = 0;
        proof {
            assert(handle_views.take(0) =~= Seq::<Seq<char>>::empty());
            assert(out@ =~= head + classes_text_spec(
                handle_views.take(0),
                decl_refs_view(cands@),
                c.peripheral@,
            ));
        }
        while i < n
            invariant
                0 <= i <= n,
                n == handles.len(),
                handle_views == strings_view(handles@),
                handle_views.len() == n,
                out@ == head + classes_text_spec(
                    handle_views.take(i as int),
                    decl_refs_view(cands@),
                    c.peripheral@,
                ),
            decreases n - i,
        {
            proof {
                assert(handle_views.take(i + 1).drop_last() =~= handle_views.take(i as int));
                assert(handle_views.take(i + 1).last() == handles@[i as int]@);
            }
            let text = emit_class(handles[i].as_str(), &cands, c.peripheral.as_str());
            out.append(text.as_str());
            i = i + 1;
        }
        proof {
            assert(handle_views.take(n as int) =~= handle_views);
        }
    }
    out.append("};\n");
    proof {
        assert(out@ =~= generate_spec(c@, structs_view(structs@), decls_view(functions@)));
    }
    out
}

} // verus!
