//! Synthesis of the dispatch arms: one `pattern => handler(arguments)` arm
//! per variant, in declared order.
use vstd::prelude::*;
use vstd::string::*;
use crate::annotation::{annotation_payloads, named_payloads};
use crate::model::{ArgMode, EnumDesc, ErrorKind, FieldDesc, GenError, VariantDesc};
use crate::text::{contains_path_sep, decimal, decimal_string, has_path_sep, join_commas, join_with_commas};

verus! {

/// The name of the per-variant handler annotation.
pub open spec fn handler_attr_name() -> Seq<char> {
    seq!['h', 'a', 'n', 'd', 'l', 'e', 'r']
}

/// The name that the auxiliary argument carries in generated code.
pub open spec fn arg_param_name() -> Seq<char> {
    seq!['a', 'r', 'g', 's']
}

/// The call target for handler text `h` on enum `e`: verbatim when already
/// qualified, else qualified by the enum's name.
pub open spec fn resolve_handler(e: Seq<char>, h: Seq<char>) -> Seq<char> {
    if has_path_sep(h) {
        h
    } else {
        e + seq![':', ':'] + h
    }
}

/// The binding of field `i`: its own name, or `__` and its 1-based position.
pub open spec fn field_binding(f: FieldDesc, i: int) -> Seq<char> {
    match f.name {
        Some(n) => n@,
        None => seq!['_', '_'] + decimal((i + 1) as nat),
    }
}

pub open spec fn field_bindings(fs: Seq<FieldDesc>) -> Seq<Seq<char>> {
    Seq::new(fs.len(), |i: int| field_binding(fs[i], i))
}

/// The arguments of a handler call: the bindings, then the auxiliary argument if any.
pub open spec fn call_args(bindings: Seq<Seq<char>>, mode: ArgMode) -> Seq<Seq<char>> {
    match mode {
        ArgMode::NoArgument => bindings,
        _ => bindings.push(arg_param_name()),
    }
}

/// `E::V` for a variant without fields, else `E::V(b1,b2,...)`.
pub open spec fn arm_pattern(e: Seq<char>, v: Seq<char>, bindings: Seq<Seq<char>>) -> Seq<char> {
    let path = e + seq![':', ':'] + v;
    if bindings.len() == 0 {
        path
    } else {
        path + seq!['('] + join_commas(bindings) + seq![')']
    }
}

/// The text of one arm.
pub open spec fn arm_text(
    e: Seq<char>,
    v: Seq<char>,
    bindings: Seq<Seq<char>>,
    handler: Seq<char>,
    mode: ArgMode,
) -> Seq<char> {
    arm_pattern(e, v, bindings) + seq![' ', '=', '>', ' '] + resolve_handler(e, handler) + seq!['(']
        + join_commas(call_args(bindings, mode)) + seq![')']
}

/// The arm of variant `v` of enum `e`, or the rule it breaks.
pub open spec fn variant_arm(e: Seq<char>, v: VariantDesc, mode: ArgMode) -> Result<Seq<char>, ErrorKind> {
    let hs = named_payloads(v.annotations@, handler_attr_name());
    if hs.len() == 0 {
        Err(ErrorKind::MissingHandlerAnnotation)
    } else if hs.len() > 1 {
        Err(ErrorKind::DuplicateHandlerAnnotation)
    } else {
        Ok(arm_text(e, v.name@, field_bindings(v.fields@), hs[0], mode))
    }
}

/// The arms of variants `vs`, in order, or the first rule broken with the
/// name of the variant that breaks it.
pub open spec fn variant_arms(e: Seq<char>, vs: Seq<VariantDesc>, mode: ArgMode) -> Result<
    Seq<Seq<char>>,
    (ErrorKind, Seq<char>),
>
    decreases vs.len(),
{
    if vs.len() == 0 {
        Ok(Seq::empty())
    } else {
        match variant_arms(e, vs.drop_last(), mode) {
            Err(err) => Err(err),
            Ok(prev) => match variant_arm(e, vs.last(), mode) {
                Err(k) => Err((k, vs.last().name@)),
                Ok(a) => Ok(prev.push(a)),
            },
        }
    }
}

/// The arm texts of the described type, or the diagnostic that stops generation.
pub open spec fn dispatch_arms(d: EnumDesc, mode: ArgMode) -> Result<Seq<Seq<char>>, (ErrorKind, Seq<char>)> {
    if !d.is_enum {
        Err((ErrorKind::NotAnEnum, d.name@))
    } else {
        variant_arms(d.name@, d.variants@, mode)
    }
}

/// A result of texts, seen as sequences of characters.
pub open spec fn texts_view(r: Result<Vec<String>, GenError>) -> Result<Seq<Seq<char>>, (ErrorKind, Seq<char>)> {
    match r {
        Ok(v) => Ok(v@.map_values(|s: String| s@)),
        Err(e) => Err(e@),
    }
}

/// Once a prefix of the variants breaks a rule, that first diagnostic is
/// the outcome for the whole sequence.
pub(crate) proof fn lemma_first_error_stands(e: Seq<char>, vs: Seq<VariantDesc>, j: int, mode: ArgMode)
    requires
        0 <= j <= vs.len(),
        variant_arms(e, vs.subrange(0, j), mode) is Err,
    ensures
        variant_arms(e, vs, mode) == variant_arms(e, vs.subrange(0, j), mode),
    decreases vs.len() - j,
{
    if vs.len() == j {
        assert(vs.subrange(0, j) =~= vs);
    } else {
        assert(vs.drop_last().subrange(0, j) =~= vs.subrange(0, j));
        lemma_first_error_stands(e, vs.drop_last(), j, mode);
    }
}

/// The call target for handler text `h` on the enum named `enum_name`.
pub fn resolve_handler_name(enum_name: &str, h: &str) -> (r: String)
    ensures
        r@ == resolve_handler(enum_name@, h@),
{
    if contains_path_sep(h) {
        String::from_str(h)
    } else {
        proof { reveal_strlit("::"); }
        let r = String::from_str(enum_name).concat("::").concat(h);
        r
    }
}

/// The call-site binding of each field, in declared order.
pub fn field_placeholders(fields: &Vec<FieldDesc>) -> (r: Vec<String>)
    ensures
        r@.map_values(|s: String| s@) == field_bindings(fields@),
{
    let mut r: Vec<String> = Vec::new();
    let mut i: usize = 0;
    while i < fields.len()
        invariant
            i <= fields.len(),
            r@.map_values(|s: String| s@) == field_bindings(fields@).subrange(0, i as int),
        decreases fields.len() - i,
    {
        let b = match &fields[i].name {
            Some(n) => n.clone(),
            None => {
                proof { reveal_strlit("__"); }
                String::from_str("__").concat(decimal_string(i + 1).as_str())
            },
        };
        assert(b@ == field_binding(fields@[i as int], i as int));
        let ghost before = r@;
        r.push(b);
        assert(r@.map_values(|s: String| s@) =~= field_bindings(fields@).subrange(0, i + 1)) by {
            assert(before.map_values(|s: String| s@) =~= field_bindings(fields@).subrange(0, i as int));
            assert(r@.map_values(|s: String| s@) =~= before.map_values(|s: String| s@).push(b@));
        }
        i = i + 1;
    }
    assert(field_bindings(fields@).subrange(0, i as int) =~= field_bindings(fields@));
    r
}

/// The arm of variant `v` of the enum named `enum_name`, or the rule it
/// breaks, reported with the variant's name.
pub fn variant_arm_text(enum_name: &str, v: &VariantDesc, mode: ArgMode) -> (r: Result<String, GenError>)
    ensures
        match r {
            Ok(t) => variant_arm(enum_name@, *v, mode) == Ok::<Seq<char>, ErrorKind>(t@),
            Err(e) => variant_arm(enum_name@, *v, mode) == Err::<Seq<char>, ErrorKind>(e.kind)
                && e.name@ == v.name@,
        },
{
    proof {
        reveal_strlit("handler");
        assert("handler"@ =~= handler_attr_name());
    }
    let hs = annotation_payloads(&v.annotations, "handler");
    proof {
        assert(hs@.map_values(|s: String| s@).len() == hs@.len());
    }
    if hs.len() == 0 {
        return Err(GenError { kind: ErrorKind::MissingHandlerAnnotation, name: v.name.clone() });
    }
    if hs.len() > 1 {
        return Err(GenError { kind: ErrorKind::DuplicateHandlerAnnotation, name: v.name.clone() });
    }
    proof {
        assert(hs@.map_values(|s: String| s@)[0] == hs@[0]@);
    }
    let bindings = field_placeholders(&v.fields);
    let mut args = bindings.clone();
    proof {
        assert forall|j: int| 0 <= j < bindings.len() implies args@[j] == bindings@[j] by {
            assert(cloned::<String>(bindings[j], args[j]));
        }
        assert(args@ =~= bindings@);
    }
    match mode {
        ArgMode::NoArgument => {},
        _ => {
            proof { reveal_strlit("args"); }
            let a = String::from_str("args");
            assert(a@ =~= arg_param_name());
            let ghost before = args@;
            args.push(a);
            assert(args@.map_values(|s: String| s@) =~= before.map_values(|s: String| s@).push(
                arg_param_name(),
            ));
        },
    }
    proof {
        reveal_strlit("::");
        reveal_strlit("(");
        reveal_strlit(")");
        reveal_strlit(" => ");
    }
    let mut text = String::from_str(enum_name).concat("::").concat(v.name.as_str());
    if bindings.len() > 0 {
        text = text.concat("(").concat(join_with_commas(&bindings).as_str()).concat(")");
    }
    let handler = resolve_handler_name(enum_name, hs[0].as_str());
    let text = text.concat(" => ").concat(handler.as_str()).concat("(").concat(
        join_with_commas(&args).as_str(),
    ).concat(")");
    proof {
        let bs = field_bindings(v.fields@);
        assert(bs.len() == v.fields@.len());
        assert(bindings@.map_values(|s: String| s@).len() == bindings@.len());
        assert(text@ =~= arm_text(enum_name@, v.name@, bs, hs@[0]@, mode));
    }
    Ok(text)
}

/// The arm texts of the described type, in variant order, or the first
/// diagnostic that stops generation.
pub fn synthesize_arms(d: &EnumDesc, mode: ArgMode) -> (r: Result<Vec<String>, GenError>)
    ensures
        texts_view(r) == dispatch_arms(*d, mode),
{
    if !d.is_enum {
        return Err(GenError { kind: ErrorKind::NotAnEnum, name: d.name.clone() });
    }
    let mut arms: Vec<String> = Vec::new();
    let mut i: usize = 0;
    proof {
        assert(d.variants@.subrange(0, 0) =~= Seq::<VariantDesc>::empty());
        assert(arms@.map_values(|s: String| s@) =~= Seq::<Seq<char>>::empty());
    }
    while i < d.variants.len()
        invariant
            i <= d.variants.len(),
            d.is_enum,
            variant_arms(d.name@, d.variants@.subrange(0, i as int), mode) == Ok::<
                Seq<Seq<char>>,
                (ErrorKind, Seq<char>),
            >(arms@.map_values(|s: String| s@)),
        decreases d.variants.len() - i,
    {
        proof {
            assert(d.variants@.subrange(0, i + 1).drop_last() =~= d.variants@.subrange(0, i as int));
        }
        match variant_arm_text(d.name.as_str(), &d.variants[i], mode) {
            Err(e) => {
                proof {
                    lemma_first_error_stands(d.name@, d.variants@, i + 1, mode);
                }
                return Err(e);
            },
            Ok(t) => {
                let ghost before = arms@;
                arms.push(t);
                assert(arms@.map_values(|s: String| s@) =~= before.map_values(|s: String| s@).push(t@));
            },
        }
        i = i + 1;
    }
    assert(d.variants@.subrange(0, i as int) =~= d.variants@);
    Ok(arms)
}

} // verus!
