//! Properties of dispatch synthesis, stated over the specifications of
//! `crate::dispatch` and proved.
use vstd::prelude::*;
use crate::annotation::named_payloads;
use crate::dispatch::{
    arg_param_name, arm_pattern, arm_text, call_args, dispatch_arms, field_bindings, handler_attr_name,
    lemma_first_error_stands, resolve_handler, variant_arm, variant_arms,
};
use crate::model::{ArgMode, EnumDesc, ErrorKind, FieldDesc, VariantDesc};
use crate::pipeline::{threads, Execute, ExecuteWith, ExecuteWithMut};
use crate::text::{has_path_sep, join_commas};

verus! {

/// When the arms of `vs` are synthesized, there is one per variant, and arm
/// `i` is the arm of variant `i`.
pub proof fn lemma_arms_align(e: Seq<char>, vs: Seq<VariantDesc>, mode: ArgMode)
    ensures
        variant_arms(e, vs, mode) matches Ok(ts) ==> ts.len() == vs.len() && forall|i: int|
            0 <= i < vs.len() ==> variant_arm(e, #[trigger] vs[i], mode) == Ok::<Seq<char>, ErrorKind>(ts[i]),
    decreases vs.len(),
{
    if vs.len() > 0 {
        lemma_arms_align(e, vs.drop_last(), mode);
        if let Ok(ts) = variant_arms(e, vs, mode) {
            assert forall|i: int| 0 <= i < vs.len() implies variant_arm(e, #[trigger] vs[i], mode) == Ok::<Seq<char>, ErrorKind>(ts[i]) by {
                if i < vs.len() - 1 {
                    assert(vs.drop_last()[i] == vs[i]);
                }
            }
        }
    }
}

/// The handler payloads written on variant `v`.
pub open spec fn handlers_of(v: VariantDesc) -> Seq<Seq<char>> {
    named_payloads(v.annotations@, handler_attr_name())
}

/// Every variant of `d` carries exactly one handler annotation.
pub open spec fn well_annotated(d: EnumDesc) -> bool {
    forall|i: int| 0 <= i < d.variants@.len() ==> (#[trigger] handlers_of(d.variants@[i])).len() == 1
}

/// All arms are produced when no variant breaks a rule.
proof fn lemma_arms_ok(e: Seq<char>, vs: Seq<VariantDesc>, mode: ArgMode)
    requires
        forall|i: int| 0 <= i < vs.len() ==> (#[trigger] variant_arm(e, vs[i], mode)) is Ok,
    ensures
        variant_arms(e, vs, mode) is Ok,
    decreases vs.len(),
{
    if vs.len() > 0 {
        assert forall|i: int| 0 <= i < vs.drop_last().len() implies (#[trigger] variant_arm(e, vs.drop_last()[i], mode)) is Ok by {
            assert(vs.drop_last()[i] == vs[i]);
        }
        lemma_arms_ok(e, vs.drop_last(), mode);
        assert(variant_arm(e, vs[vs.len() - 1], mode) is Ok);
    }
}

/// When some variant breaks a rule, no arms are produced.
proof fn lemma_arms_err(e: Seq<char>, vs: Seq<VariantDesc>, mode: ArgMode, k: int)
    requires
        0 <= k < vs.len(),
        variant_arm(e, vs[k], mode) is Err,
    ensures
        variant_arms(e, vs, mode) is Err,
    decreases vs.len(),
{
    if k < vs.len() - 1 {
        assert(vs.drop_last()[k] == vs[k]);
        lemma_arms_err(e, vs.drop_last(), mode, k);
    }
}

/// An enum whose every variant carries exactly one handler annotation gets
/// exactly one arm per variant, in declared order: arm `i` matches the
/// pattern of variant `i` and calls the handler written on it.
pub proof fn lemma_one_arm_per_variant(d: EnumDesc, mode: ArgMode)
    requires
        d.is_enum,
        well_annotated(d),
    ensures
        dispatch_arms(d, mode) is Ok,
        dispatch_arms(d, mode)->Ok_0.len() == d.variants@.len(),
        forall|i: int|
            0 <= i < d.variants@.len() ==> #[trigger] dispatch_arms(d, mode)->Ok_0[i] == arm_text(
                d.name@,
                d.variants@[i].name@,
                field_bindings(d.variants@[i].fields@),
                handlers_of(d.variants@[i])[0],
                mode,
            ),
{
    let vs = d.variants@;
    assert forall|i: int| 0 <= i < vs.len() implies (#[trigger] variant_arm(d.name@, vs[i], mode)) is Ok by {
        assert(handlers_of(vs[i]).len() == 1);
    }
    lemma_arms_ok(d.name@, vs, mode);
    lemma_arms_align(d.name@, vs, mode);
    assert forall|i: int| 0 <= i < vs.len() implies #[trigger] dispatch_arms(d, mode)->Ok_0[i] == arm_text(
        d.name@,
        vs[i].name@,
        field_bindings(vs[i].fields@),
        handlers_of(vs[i])[0],
        mode,
    ) by {
        assert(handlers_of(vs[i]).len() == 1);
        assert(variant_arm(d.name@, vs[i], mode) is Ok);
    }
}

/// Generation of the arms fails exactly when the type is not an enum or some
/// variant carries no handler annotation or more than one.
pub proof fn lemma_generation_fails_iff(d: EnumDesc, mode: ArgMode)
    ensures
        dispatch_arms(d, mode) is Err <==> !d.is_enum || !well_annotated(d),
{
    if d.is_enum {
        if well_annotated(d) {
            lemma_one_arm_per_variant(d, mode);
        } else {
            let k = choose|k: int| 0 <= k < d.variants@.len() && (#[trigger] handlers_of(d.variants@[k])).len() != 1;
            lemma_arms_err(d.name@, d.variants@, mode, k);
        }
    }
}

/// A variant with no fields is matched by its bare path; a call passes one
/// argument per field, in declared order, named fields under their own
/// names, followed by the auxiliary argument exactly when the mode has one.
pub proof fn lemma_call_arity(fs: Seq<FieldDesc>, mode: ArgMode)
    ensures
        call_args(field_bindings(fs), mode).len() == fs.len() + if mode == ArgMode::NoArgument {
            0int
        } else {
            1int
        },
        forall|i: int|
            0 <= i < fs.len() ==> #[trigger] call_args(field_bindings(fs), mode)[i] == field_bindings(fs)[i],
        forall|i: int|
            0 <= i < fs.len() && (#[trigger] fs[i]).name is Some ==> field_bindings(fs)[i] == fs[i].name->0@,
        mode != ArgMode::NoArgument ==> call_args(field_bindings(fs), mode).last() == arg_param_name(),
        forall|e: Seq<char>, v: Seq<char>|
            fs.len() == 0 ==> #[trigger] arm_pattern(e, v, field_bindings(fs)) == e + seq![':', ':'] + v,
{
}

/// An unqualified handler name `h` on enum `e` resolves to `e::h`; a name
/// that already holds `::` is used verbatim.
pub proof fn lemma_handler_resolution(e: Seq<char>, h: Seq<char>)
    ensures
        !has_path_sep(h) ==> resolve_handler(e, h) == e + seq![':', ':'] + h,
        has_path_sep(h) ==> resolve_handler(e, h) == h,
{
}

/// Running a sequence with a shared argument runs every element with that
/// same argument value.
pub proof fn lemma_shared_argument_reaches_every_element<T: ExecuteWith<TArg>, TArg: ?Sized>(items: Vec<T>, arg: &TArg)
    requires
        items.executed_with(arg),
    ensures
        forall|i: int| 0 <= i < items@.len() ==> (#[trigger] items@[i]).executed_with(arg),
{
}

/// Running a sequence with an exclusive argument runs the elements in order,
/// each starting from the argument as the previous one left it.
pub proof fn lemma_exclusive_argument_threads_in_order<T: ExecuteWithMut<TArg>, TArg: ?Sized>(
    items: Vec<T>,
    before: &TArg,
    after: &TArg,
)
    requires
        items.executed_with_mut(before, after),
    ensures
        exists|states: Seq<&TArg>|
            {
                &&& states.len() == items@.len() + 1
                &&& states[0] == before
                &&& states[items@.len() as int] == after
                &&& forall|i: int|
                    0 <= i < items@.len() ==> (#[trigger] items@[i]).executed_with_mut(states[i], states[i + 1])
            },
{
    let states = choose|states: Seq<&TArg>|
        #[trigger] threads(items@, states) && states[0] == before && states.last() == after;
    assert(threads(items@, states));
}

/// Running a sequence runs every element.
pub proof fn lemma_sequence_executes_every_element<T: Execute>(items: Vec<T>)
    requires
        items.executed(),
    ensures
        forall|i: int| 0 <= i < items@.len() ==> (#[trigger] items@[i]).executed(),
{
}

/// The arm of a variant `v` with exactly one handler annotation `h` on enum
/// `e`: `e::v => resolve(e, h)(x)` without fields, where `x` is empty without
/// an auxiliary argument and `args` with one; `e::v(b1,..,bn) =>
/// resolve(e, h)(b1,..,bn)` with fields, followed by `,args` with one.
pub proof fn lemma_variant_arm_shape(e: Seq<char>, v: VariantDesc, mode: ArgMode)
    requires
        handlers_of(v).len() == 1,
    ensures
        v.fields@.len() == 0 ==> variant_arm(e, v, mode) == Ok::<Seq<char>, ErrorKind>(
            e + seq![':', ':'] + v.name@ + seq![' ', '=', '>', ' '] + resolve_handler(e, handlers_of(v)[0])
                + seq!['('] + (if mode == ArgMode::NoArgument {
                Seq::<char>::empty()
            } else {
                arg_param_name()
            }) + seq![')'],
        ),
        v.fields@.len() > 0 ==> variant_arm(e, v, mode) == Ok::<Seq<char>, ErrorKind>(
            e + seq![':', ':'] + v.name@ + seq!['('] + join_commas(field_bindings(v.fields@)) + seq![')']
                + seq![' ', '=', '>', ' '] + resolve_handler(e, handlers_of(v)[0]) + seq!['(']
                + join_commas(field_bindings(v.fields@)) + (if mode == ArgMode::NoArgument {
                Seq::<char>::empty()
            } else {
                seq![','] + arg_param_name()
            }) + seq![')'],
        ),
{
    let bs = field_bindings(v.fields@);
    let args = call_args(bs, mode);
    if mode != ArgMode::NoArgument {
        assert(args.drop_last() =~= bs);
        if bs.len() == 0 {
            assert(args =~= seq![arg_param_name()]);
        }
    }
    let expect_args = if mode == ArgMode::NoArgument {
        join_commas(bs)
    } else if bs.len() == 0 {
        arg_param_name()
    } else {
        join_commas(bs) + seq![','] + arg_param_name()
    };
    assert(join_commas(args) == expect_args);
    if bs.len() == 0 {
        assert(join_commas(bs) =~= Seq::<char>::empty());
    }
    let r = variant_arm(e, v, mode)->Ok_0;
    if v.fields@.len() == 0 {
        assert(r =~= e + seq![':', ':'] + v.name@ + seq![' ', '=', '>', ' '] + resolve_handler(e, handlers_of(v)[0])
            + seq!['('] + (if mode == ArgMode::NoArgument {
            Seq::<char>::empty()
        } else {
            arg_param_name()
        }) + seq![')']);
    } else {
        assert(r =~= e + seq![':', ':'] + v.name@ + seq!['('] + join_commas(bs) + seq![')']
            + seq![' ', '=', '>', ' '] + resolve_handler(e, handlers_of(v)[0]) + seq!['(']
            + join_commas(bs) + (if mode == ArgMode::NoArgument {
            Seq::<char>::empty()
        } else {
            seq![','] + arg_param_name()
        }) + seq![')']);
    }
}

/// Generation of the arms stops at the first variant that carries no handler
/// annotation or more than one, naming it and the rule it breaks.
pub proof fn lemma_first_broken_variant_reported(d: EnumDesc, mode: ArgMode, k: int)
    requires
        d.is_enum,
        0 <= k < d.variants@.len(),
        handlers_of(d.variants@[k]).len() != 1,
        forall|j: int| 0 <= j < k ==> (#[trigger] handlers_of(d.variants@[j])).len() == 1,
    ensures
        dispatch_arms(d, mode) == Err::<Seq<Seq<char>>, (ErrorKind, Seq<char>)>(
            (
                if handlers_of(d.variants@[k]).len() == 0 {
                    ErrorKind::MissingHandlerAnnotation
                } else {
                    ErrorKind::DuplicateHandlerAnnotation
                },
                d.variants@[k].name@,
            ),
        ),
{
    let vs = d.variants@;
    let pre = vs.subrange(0, k);
    assert forall|j: int| 0 <= j < pre.len() implies (#[trigger] variant_arm(d.name@, pre[j], mode)) is Ok by {
        assert(pre[j] == vs[j]);
        assert(handlers_of(vs[j]).len() == 1);
    }
    lemma_arms_ok(d.name@, pre, mode);
    assert(vs.subrange(0, k + 1).drop_last() =~= pre);
    assert(vs.subrange(0, k + 1).last() == vs[k]);
    lemma_first_error_stands(d.name@, vs, k + 1, mode);
}

} // verus!
