//! Turning a described enum into syntax: the arms parsed by `syn`, and the
//! auxiliary argument's type read from the enum-level annotation.
use vstd::prelude::*;
use crate::annotation::{annotation_payloads, named_payloads};
use crate::dispatch::{dispatch_arms, synthesize_arms};
use crate::model::{ArgMode, EnumDesc, ErrorKind, GenError};
use crate::text::{contains_quote, has_quote};

verus! {

#[verifier::external_type_specification]
#[verifier::external_body]
pub struct ExArm(syn::Arm);

#[verifier::external_type_specification]
#[verifier::external_body]
pub struct ExSynError(syn::Error);

#[verifier::external_type_specification]
#[verifier::external_body]
pub struct ExTypePath(syn::TypePath);

/// Relies on `syn::parse_str::<syn::Arm>`: parses the whole text as one
/// match arm. Text with a double quote is left out: the lexer of
/// `proc-macro2` reads `c"..."` as one literal, for which `syn` 1 panics.
/// Which texts parse is left open: `proc-macro2` picks its lexer at run time.
#[verifier::external_body]
fn parse_arm(text: &str) -> (r: Result<syn::Arm, syn::Error>)
    requires
        !has_quote(text@),
{
    syn::parse_str::<syn::Arm>(text)
}

/// Relies on `syn::parse_str::<syn::TypePath>`: parses the whole text as one
/// type path. Text with a double quote is left out, as for `parse_arm`.
#[verifier::external_body]
fn parse_type_path(text: &str) -> (r: Result<syn::TypePath, syn::Error>)
    requires
        !has_quote(text@),
{
    syn::parse_str::<syn::TypePath>(text)
}

/// The name of the enum-level annotation that gives the auxiliary argument's type.
pub open spec fn argtype_attr_name() -> Seq<char> {
    seq!['e', 'x', 'e', 'c', 'u', 't', 'e', '_', 'w', 'i', 't', 'h']
}

/// The payloads of the enum's auxiliary-type annotations, in order.
pub open spec fn argtype_payloads(d: EnumDesc) -> Seq<Seq<char>> {
    named_payloads(d.annotations@, argtype_attr_name())
}

/// The diagnostic that reading the auxiliary argument's type gives before
/// any parse: no annotation, more than one, or one whose text holds a quote.
/// `None` leaves the outcome to the parser.
pub open spec fn argtype_error(d: EnumDesc) -> Option<ErrorKind> {
    let ps = argtype_payloads(d);
    if ps.len() == 0 {
        Some(ErrorKind::MissingArgumentType)
    } else if ps.len() > 1 {
        Some(ErrorKind::DuplicateArgumentType)
    } else if has_quote(ps[0]) {
        Some(ErrorKind::UnparseableArgumentType)
    } else {
        None
    }
}

/// No arm text before `i` holds a quote, and `i` is an index of `ts`: the
/// arms before it were all handed to the parser.
pub open spec fn quote_free_before(ts: Seq<Seq<char>>, i: int) -> bool {
    0 <= i < ts.len() && forall|j: int| 0 <= j < i ==> !has_quote(#[trigger] ts[j])
}

/// The type of the auxiliary argument, read from the single `execute_with`
/// annotation of the enum; the diagnostic names the enum.
pub fn parse_argtype(d: &EnumDesc) -> (r: Result<syn::TypePath, GenError>)
    ensures
        argtype_error(*d) matches Some(k) ==> r is Err && r->Err_0.kind == k,
        argtype_error(*d) is None && r is Err ==> r->Err_0.kind == ErrorKind::UnparseableArgumentType,
        r is Err ==> r->Err_0.name@ == d.name@,
{
    proof {
        reveal_strlit("execute_with");
        assert("execute_with"@ =~= argtype_attr_name());
    }
    let ps = annotation_payloads(&d.annotations, "execute_with");
    proof {
        assert(ps@.map_values(|s: String| s@).len() == ps@.len());
    }
    if ps.len() == 0 {
        return Err(GenError { kind: ErrorKind::MissingArgumentType, name: d.name.clone() });
    }
    if ps.len() > 1 {
        return Err(GenError { kind: ErrorKind::DuplicateArgumentType, name: d.name.clone() });
    }
    proof {
        assert(ps@.map_values(|s: String| s@)[0] == ps@[0]@);
    }
    if contains_quote(ps[0].as_str()) {
        return Err(GenError { kind: ErrorKind::UnparseableArgumentType, name: d.name.clone() });
    }
    match parse_type_path(ps[0].as_str()) {
        Ok(ty) => Ok(ty),
        Err(_) => Err(GenError { kind: ErrorKind::UnparseableArgumentType, name: d.name.clone() }),
    }
}

/// What `base_derive_macro` promises, for a result that is `Ok` with `len`
/// arms when `is_ok`, else the error `err`: the diagnostic of
/// `dispatch_arms` where it gives one; else one arm per variant, all free of
/// quotes; or `ArmSynthesisFailure` naming a variant whose arm is the first
/// that holds a quote or an earlier one that the parser refused.
pub open spec fn arms_outcome(
    d: EnumDesc,
    mode: ArgMode,
    is_ok: bool,
    len: int,
    err: (ErrorKind, Seq<char>),
) -> bool {
    match dispatch_arms(d, mode) {
        Err(e) => !is_ok && err == e,
        Ok(ts) => {
            &&& (is_ok ==> len == ts.len() && forall|i: int| 0 <= i < ts.len() ==> !has_quote(#[trigger] ts[i]))
            &&& (!is_ok ==> err.0 == ErrorKind::ArmSynthesisFailure && exists|i: int|
                #[trigger] quote_free_before(ts, i) && err.1 == d.variants@[i].name@)
        },
    }
}

/// The dispatch arms of the described type, parsed, one per variant in
/// declared order.
pub fn base_derive_macro(d: &EnumDesc, mode: ArgMode) -> (r: Result<Vec<syn::Arm>, GenError>)
    ensures
        arms_outcome(*d, mode, r is Ok, if r is Ok { r->Ok_0.len() as int } else { 0 }, r->Err_0@),
{
    let texts = synthesize_arms(d, mode);
    match texts {
        Err(e) => Err(e),
        Ok(texts) => {
            let ghost tx = texts@.map_values(|s: String| s@);
            proof {
                crate::laws::lemma_arms_align(d.name@, d.variants@, mode);
            }
            let mut arms: Vec<syn::Arm> = Vec::new();
            let mut i: usize = 0;
            while i < texts.len()
                invariant
                    i <= texts.len(),
                    tx == texts@.map_values(|s: String| s@),
                    dispatch_arms(*d, mode) == Ok::<Seq<Seq<char>>, (ErrorKind, Seq<char>)>(tx),
                    texts.len() == d.variants.len(),
                    arms.len() == i,
                    forall|j: int| 0 <= j < i ==> !has_quote(#[trigger] tx[j]),
                decreases texts.len() - i,
            {
                let parsed = if contains_quote(texts[i].as_str()) {
                    None
                } else {
                    match parse_arm(texts[i].as_str()) {
                        Ok(a) => Some(a),
                        Err(_) => None,
                    }
                };
                match parsed {
                    Some(a) => arms.push(a),
                    None => {
                        let name = d.variants[i].name.clone();
                        assert(quote_free_before(dispatch_arms(*d, mode)->Ok_0, i as int));
                        assert(name@ == d.variants@[i as int].name@);
                        return Err(GenError { kind: ErrorKind::ArmSynthesisFailure, name });
                    },
                }
                i = i + 1;
            }
            Ok(arms)
        },
    }
}

/// What the impl of an execution trait is assembled from.
pub struct DispatchParts {
    /// The auxiliary argument's type; `None` when the mode passes no argument.
    pub arg_type: Option<syn::TypePath>,
    /// The dispatch arms, one per variant in declared order.
    pub arms: Vec<syn::Arm>,
}

/// Everything the impl for `mode` needs: in the argument-taking modes first
/// the auxiliary argument's type (its diagnostics come first), then the arms.
pub fn generate_dispatch(d: &EnumDesc, mode: ArgMode) -> (r: Result<DispatchParts, GenError>)
    ensures
        mode != ArgMode::NoArgument && argtype_error(*d) is Some ==> r is Err && Some(r->Err_0.kind)
            == argtype_error(*d) && r->Err_0.name@ == d.name@,
        mode == ArgMode::NoArgument ==> arms_outcome(
            *d,
            mode,
            r is Ok,
            if r is Ok { r->Ok_0.arms.len() as int } else { 0 },
            r->Err_0@,
        ),
        mode != ArgMode::NoArgument && argtype_error(*d) is None ==> (r is Err && r->Err_0.kind
            == ErrorKind::UnparseableArgumentType && r->Err_0.name@ == d.name@) || arms_outcome(
            *d,
            mode,
            r is Ok,
            if r is Ok { r->Ok_0.arms.len() as int } else { 0 },
            r->Err_0@,
        ),
        r is Ok ==> (r->Ok_0.arg_type is Some <==> mode != ArgMode::NoArgument),
{
    let arg_type = match mode {
        ArgMode::NoArgument => None,
        _ => match parse_argtype(d) {
            Ok(ty) => Some(ty),
            Err(e) => {
                return Err(e);
            },
        },
    };
    match base_derive_macro(d, mode) {
        Ok(arms) => Ok(DispatchParts { arg_type, arms }),
        Err(e) => Err(e),
    }
}

} // verus!
