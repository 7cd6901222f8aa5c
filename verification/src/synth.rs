//! Maps one candidate function to at most one method descriptor: an
//! instance method when its first argument carries the handle type, a
//! static method when its name carries the peripheral token, and nothing
//! otherwise. Any piece of the declaration that cannot be resolved makes
//! the one function synthesize nothing; it never fails the file.

use vstd::prelude::*;

use crate::decl::{Argument, ArgumentView, FunctionDecl, FunctionDeclView};
use crate::strutil::{
    contains_sub, has_sub, is_prefix, remove_first, remove_first_spec, split_first_spec,
    split_once_char, starts_with_str, to_upper_ascii, upper_seq,
};

verus! {

/// The snake-case image that the case converter yields; a function of the
/// characters alone.
pub uninterp spec fn snake_of(s: Seq<char>) -> Seq<char>;

/// Relies on convert_case's `Casing::to_case` with `Case::Snake`: the
/// result depends on the input characters alone.
#[verifier::external_body]
fn to_snake(s: &str) -> (r: String)
    ensures
        r@ == snake_of(s@),
{
    convert_case::Casing::to_case(&s, convert_case::Case::Snake)
}

/// How a synthesized method is attached to its wrapper.
#[derive(Clone, Copy, Debug, PartialEq, Eq, Structural)]
pub enum Visibility {
    Instance,
    Static,
}

/// One generated method: what to call, what to declare, and what to pass.
pub struct MethodDescriptor {
    pub visibility: Visibility,
    pub return_type_text: String,
    pub method_name: String,
    pub parameters: Vec<Argument>,
    pub call_arguments: Vec<String>,
    pub original_function_name: String,
}

/// The mathematical model of a [`MethodDescriptor`].
pub struct MethodDescriptorView {
    pub visibility: Visibility,
    pub return_type_text: Seq<char>,
    pub method_name: Seq<char>,
    pub parameters: Seq<ArgumentView>,
    pub call_arguments: Seq<Seq<char>>,
    pub original_function_name: Seq<char>,
}

impl View for MethodDescriptor {
    type V = MethodDescriptorView;

    open spec fn view(&self) -> MethodDescriptorView {
        MethodDescriptorView {
            visibility: self.visibility,
            return_type_text: self.return_type_text@,
            method_name: self.method_name@,
            parameters: self.parameters@.map_values(|a: Argument| a@),
            call_arguments: self.call_arguments@.map_values(|s: String| s@),
            original_function_name: self.original_function_name@,
        }
    }
}

/// The model of an optional borrowed string.
pub open spec fn opt_str_view(h: Option<&str>) -> Option<Seq<char>> {
    match h {
        Some(s) => Some(s@),
        None => None,
    }
}

/// The handle type as the containment test uses it: a leading `__` is
/// dropped.
pub open spec fn handle_needle_spec(h: Seq<char>) -> Seq<char> {
    if is_prefix("__"@, h) {
        h.skip(2)
    } else {
        h
    }
}

/// The name after the kind prefix token, with one occurrence of the
/// upper-cased peripheral token removed, before case conversion.
pub open spec fn pre_snake_spec(oname: Seq<char>, periph: Seq<char>) -> Option<Seq<char>> {
    match split_first_spec(oname, '_') {
        None => None,
        Some(p) => Some(remove_first_spec(p.1, upper_seq(periph) + "_"@)),
    }
}

/// The snake-case name stripped of a leading peripheral token and of a
/// leading separator.
pub open spec fn strip_periph_spec(s: Seq<char>, periph: Seq<char>) -> Seq<char> {
    let t = if is_prefix(periph, s) {
        s.skip(periph.len() as int)
    } else {
        s
    };
    if is_prefix("_"@, t) {
        t.skip(1)
    } else {
        t
    }
}

/// The method name derived from an original function name, stripped of all
/// peripheral and prefix redundancy; `None` when the name has no separator.
pub open spec fn method_name_spec(oname: Seq<char>, periph: Seq<char>) -> Option<Seq<char>> {
    match pre_snake_spec(oname, periph) {
        None => None,
        Some(s) => Some(strip_periph_spec(snake_of(s), periph)),
    }
}

/// Every argument has a resolved name.
pub open spec fn args_named_spec(args: Seq<ArgumentView>) -> bool {
    forall|j: int| 0 <= j < args.len() ==> args[j].name is Some
}

/// The bare argument names, in order.
pub open spec fn arg_names_spec(args: Seq<ArgumentView>) -> Seq<Seq<char>> {
    args.map_values(|a: ArgumentView| a.name->0)
}

/// What synthesizing yields, for every candidate function, handle type and
/// peripheral.
pub open spec fn synth_spec(
    f: FunctionDeclView,
    handle: Option<Seq<char>>,
    periph: Seq<char>,
) -> Option<MethodDescriptorView> {
    if f.return_type_text is None {
        None
    } else {
        match method_name_spec(f.name, periph) {
            None => None,
            Some(mname) => {
                let ret = f.return_type_text->0;
                if f.arguments.len() == 0 {
                    if has_sub(f.name, upper_seq(periph)) {
                        Some(MethodDescriptorView {
                            visibility: Visibility::Static,
                            return_type_text: ret,
                            method_name: mname,
                            parameters: Seq::empty(),
                            call_arguments: Seq::empty(),
                            original_function_name: f.name,
                        })
                    } else {
                        None
                    }
                } else if handle is Some && has_sub(
                    f.arguments[0].type_text,
                    handle_needle_spec(handle->0),
                ) {
                    let rest = f.arguments.skip(1);
                    if args_named_spec(rest) {
                        Some(MethodDescriptorView {
                            visibility: Visibility::Instance,
                            return_type_text: ret,
                            method_name: mname,
                            parameters: rest,
                            call_arguments: seq!["this->handle"@] + arg_names_spec(rest),
                            original_function_name: f.name,
                        })
                    } else {
                        None
                    }
                } else if has_sub(f.name, upper_seq(periph)) {
                    if args_named_spec(f.arguments) {
                        Some(MethodDescriptorView {
                            visibility: Visibility::Static,
                            return_type_text: ret,
                            method_name: mname,
                            parameters: f.arguments,
                            call_arguments: arg_names_spec(f.arguments),
                            original_function_name: f.name,
                        })
                    } else {
                        None
                    }
                } else {
                    None
                }
            },
        }
    }
}

fn strip_periph(s: &str, periph: &str) -> (r: String)
    ensures
        r@ == strip_periph_spec(s@, periph@),
{
    let t: &str = if starts_with_str(s, periph) {
        s.substring_char(periph.unicode_len(), s.unicode_len())
    } else {
        s
    };
    proof {
        reveal_strlit("_");
    }
    let u: &str = if starts_with_str(t, "_") {
        t.substring_char(1, t.unicode_len())
    } else {
        t
    };
    u.to_owned()
}

/// The target method name for an original function name and a peripheral:
/// the kind prefix token dropped, one upper-cased peripheral token removed,
/// the remainder in lower snake case with a leading peripheral token
/// stripped. `None` when the name holds no separator.
pub fn derive_method_name(original_name: &str, peripheral: &str) -> (r: Option<String>)
    ensures
        match r {
            Some(s) => method_name_spec(original_name@, peripheral@) == Some(s@),
            None => method_name_spec(original_name@, peripheral@) is None,
        },
{
    let after: &str = match split_once_char(original_name, '_') {
        Some(p) => p.1,
        None => {
            return None;
        },
    };
    let mut pat = to_upper_ascii(peripheral);
    pat.append("_");
    let trimmed = remove_first(after, pat.as_str());
    let snake = to_snake(trimmed.as_str());
    Some(strip_periph(snake.as_str(), peripheral))
}

fn clone_argument(a: &Argument) -> (r: Argument)
    ensures
        r@ == a@,
{
    Argument {
        name: match &a.name {
            Some(n) => Some(n.clone()),
            None => None,
        },
        type_text: a.type_text.clone(),
        pretty_text: a.pretty_text.clone(),
    }
}

/// Maps one candidate function to its method descriptor, or to nothing
/// when it does not pertain to this peripheral and handle or a needed piece
/// of the declaration is unresolved.
pub fn synthesize(
    f: &FunctionDecl,
    handle_type: Option<&str>,
    peripheral: &str,
) -> (r: Option<MethodDescriptor>)
    ensures
        match r {
            Some(m) => synth_spec(f@, opt_str_view(handle_type), peripheral@) == Some(m@),
            None => synth_spec(f@, opt_str_view(handle_type), peripheral@) is None,
        },
{
    let ret: &String = match &f.return_type_text {
        Some(t) => t,
        None => {
            return None;
        },
    };
    let mname = match derive_method_name(f.name.as_str(), peripheral) {
        Some(s) => s,
        None => {
            return None;
        },
    };
    let upper_p = to_upper_ascii(peripheral);
    let n_args = f.arguments.len();
    if n_args == 0 {
        if contains_sub(f.name.as_str(), upper_p.as_str()) {
            let m = MethodDescriptor {
                visibility: Visibility::Static,
                return_type_text: ret.clone(),
                method_name: mname,
                parameters: Vec::new(),
                call_arguments: Vec::new(),
                original_function_name: f.name.clone(),
            };
            proof {
                assert(m@.parameters =~= Seq::<ArgumentView>::empty());
                assert(m@.call_arguments =~= Seq::<Seq<char>>::empty());
            }
            return Some(m);
        }
        return None;
    }
    let ghost instance_cond = opt_str_view(handle_type) is Some && has_sub(
        f@.arguments[0].type_text,
        handle_needle_spec(opt_str_view(handle_type)->0),
    );
    let first_matches: bool = match handle_type {
        Some(h) => {
            proof {
                reveal_strlit("__");
            }
            let needle: &str = if starts_with_str(h, "__") {
                h.substring_char(2, h.unicode_len())
            } else {
                h
            };
            proof {
                assert(f@.arguments[0] == f.arguments@.map_values(|a: Argument| a@)[0]);
            }
            contains_sub(f.arguments[0].type_text.as_str(), needle)
        },
        None => false,
    };
    proof {
        assert(first_matches == instance_cond);
    }
    if first_matches {
        let mut params: Vec<Argument> = Vec::new();
        let mut call_args: Vec<String> = Vec::new();
        call_args.push(String::from_str("this->handle"));
        let ghost rest = f@.arguments.skip(1);
        let mut i: usize = 1;
        proof {
            assert(params@.map_values(|a: Argument| a@) =~= f@.arguments.subrange(1, 1));
            assert(call_args@.map_values(|s: String| s@) =~= seq!["this->handle"@] + arg_names_spec(
                f@.arguments.subrange(1, 1),
            ));
        }
        while i < n_args
            invariant
                1 <= i <= n_args,
                n_args == f.arguments.len(),
                rest == f@.arguments.skip(1),
                f@.arguments == f.arguments@.map_values(|a: Argument| a@),
                f@.arguments.len() == n_args,
                f@.return_type_text == Some(ret@),
                method_name_spec(f@.name, peripheral@) == Some(mname@),
                opt_str_view(handle_type) is Some,
                has_sub(
                    f@.arguments[0].type_text,
                    handle_needle_spec(opt_str_view(handle_type)->0),
                ),
                params@.map_values(|a: Argument| a@) == f@.arguments.subrange(1, i as int),
                args_named_spec(f@.arguments.subrange(1, i as int)),
                call_args@.map_values(|s: String| s@) == seq!["this->handle"@] + arg_names_spec(
                    f@.arguments.subrange(1, i as int),
                ),
            decreases n_args - i,
        {
            let a = &f.arguments[i];
            proof {
                assert(f@.arguments[i as int] == a@);
            }
            match &a.name {
                Some(nm) => {
                    let ghost cargs_old = call_args@;
                    let ghost params_old = params@;
                    call_args.push(nm.clone());
                    params.push(clone_argument(a));
                    proof {
                        assert(call_args@.map_values(|s: String| s@) =~= cargs_old.map_values(
                            |s: String| s@,
                        ).push(nm@));
                        assert(params@.map_values(|a: Argument| a@) =~= params_old.map_values(
                            |a: Argument| a@,
                        ).push(a@));
                        assert(f@.arguments.subrange(1, i + 1) =~= f@.arguments.subrange(
                            1,
                            i as int,
                        ).push(a@));
                        assert(arg_names_spec(f@.arguments.subrange(1, i + 1)) =~= arg_names_spec(
                            f@.arguments.subrange(1, i as int),
                        ).push(a@.name->0));
                        assert(params@.map_values(|a: Argument| a@) =~= f@.arguments.subrange(
                            1,
                            i + 1,
                        ));
                        assert(call_args@.map_values(|s: String| s@) =~= seq!["this->handle"@]
                            + arg_names_spec(f@.arguments.subrange(1, i + 1)));
                    }
                },
                None => {
                    proof {
                        assert(rest[i - 1].name is None);
                        assert(!args_named_spec(rest));
                    }
                    return None;
                },
            }
            i = i + 1;
        }
        proof {
            assert(f@.arguments.subrange(1, n_args as int) =~= rest);
        }
        let m = MethodDescriptor {
            visibility: Visibility::Instance,
            return_type_text: ret.clone(),
            method_name: mname,
            parameters: params,
            call_arguments: call_args,
            original_function_name: f.name.clone(),
        };
        return Some(m);
    }
    if contains_sub(f.name.as_str(), upper_p.as_str()) {
        let mut params: Vec<Argument> = Vec::new();
        let mut call_args: Vec<String> = Vec::new();
        let mut i: usize = 0;
        proof {
            assert(params@.map_values(|a: Argument| a@) =~= f@.arguments.subrange(0, 0));
            assert(call_args@.map_values(|s: String| s@) =~= arg_names_spec(f@.arguments.subrange(
                0,
                0,
            )));
        }
        while i < n_args
            invariant
                0 <= i <= n_args,
                n_args == f.arguments.len(),
                f@.arguments == f.arguments@.map_values(|a: Argument| a@),
                f@.arguments.len() == n_args,
                n_args >= 1,
                f@.return_type_text == Some(ret@),
                method_name_spec(f@.name, peripheral@) == Some(mname@),
                !(opt_str_view(handle_type) is Some && has_sub(
                    f@.arguments[0].type_text,
                    handle_needle_spec(opt_str_view(handle_type)->0),
                )),
                has_sub(f@.name, upper_seq(peripheral@)),
                params@.map_values(|a: Argument| a@) == f@.arguments.subrange(0, i as int),
                args_named_spec(f@.arguments.subrange(0, i as int)),
                call_args@.map_values(|s: String| s@) == arg_names_spec(f@.arguments.subrange(
                    0,
                    i as int,
                )),
            decreases n_args - i,
        {
            let a = &f.arguments[i];
            proof {
                assert(f@.arguments[i as int] == a@);
            }
            match &a.name {
                Some(nm) => {
                    let ghost cargs_old = call_args@;
                    let ghost params_old = params@;
                    call_args.push(nm.clone());
                    params.push(clone_argument(a));
                    proof {
                        assert(call_args@.map_values(|s: String| s@) =~= cargs_old.map_values(
                            |s: String| s@,
                        ).push(nm@));
                        assert(params@.map_values(|a: Argument| a@) =~= params_old.map_values(
                            |a: Argument| a@,
                        ).push(a@));
                        assert(f@.arguments.subrange(0, i + 1) =~= f@.arguments.subrange(
                            0,
                            i as int,
                        ).push(a@));
                        assert(arg_names_spec(f@.arguments.subrange(0, i + 1)) =~= arg_names_spec(
                            f@.arguments.subrange(0, i as int),
                        ).push(a@.name->0));
                        assert(params@.map_values(|a: Argument| a@) =~= f@.arguments.subrange(
                            0,
                            i + 1,
                        ));
                        assert(call_args@.map_values(|s: String| s@) =~= arg_names_spec(
                            f@.arguments.subrange(0, i + 1),
                        ));
                    }
                },
                None => {
                    proof {
                        assert(!args_named_spec(f@.arguments));
                    }
                    return None;
                },
            }
            i = i + 1;
        }
        proof {
            assert(f@.arguments.subrange(0, n_args as int) =~= f@.arguments);
        }
        let m = MethodDescriptor {
            visibility: Visibility::Static,
            return_type_text: ret.clone(),
            method_name: mname,
            parameters: params,
            call_arguments: call_args,
            original_function_name: f.name.clone(),
        };
        return Some(m);
    }
    None
}

} // verus!
