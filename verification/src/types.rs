//! Declared field types and the renderer that turns them into display
//! strings.

use vstd::prelude::*;
use crate::chars::{chars_to_string, str_to_chars};
use crate::error::SchemaError;

verus! {

/// A field's declared type: a named type with zero or more generic
/// arguments, or a form (a function pointer, a tuple) that the schema
/// compiler does not support.
#[derive(Debug, PartialEq, Eq)]
pub enum TypeExpr {
    Named { base: String, args: Vec<TypeExpr> },
    Unsupported,
}

/// How many levels of generic nesting the renderer will follow before it
/// fails with a `TypeRenderingError`.
pub const RENDER_DEPTH_LIMIT: u64 = 64;

/// Whether every node of the type expression is a simple named or generic
/// form.
pub open spec fn type_well_formed(t: TypeExpr) -> bool
    decreases t,
{
    match t {
        TypeExpr::Named { base, args } => forall|i: int|
            0 <= i < args@.len() ==> type_well_formed(#[trigger] args@[i]),
        TypeExpr::Unsupported => false,
    }
}

/// The nesting depth of the type expression.
pub open spec fn type_depth(t: TypeExpr) -> nat
    decreases t,
{
    match t {
        TypeExpr::Named { base, args } => 1 + args_depth(args@),
        TypeExpr::Unsupported => 1,
    }
}

/// The largest nesting depth among the type arguments.
pub open spec fn args_depth(args: Seq<TypeExpr>) -> nat
    decreases args,
{
    if args.len() == 0 {
        0
    } else {
        let rest = args_depth(args.drop_last());
        let last = type_depth(args.last());
        if rest >= last {
            rest
        } else {
            last
        }
    }
}

/// The canonical display string of a well-formed type expression:
/// `base<arg, arg, ...>`, recursing depth first, left to right.
pub open spec fn render_spec(t: TypeExpr) -> Seq<char>
    decreases t,
{
    match t {
        TypeExpr::Named { base, args } => if args@.len() == 0 {
            base@
        } else {
            base@ + seq!['<'] + render_args_spec(args@) + seq!['>']
        },
        TypeExpr::Unsupported => Seq::<char>::empty(),
    }
}

/// The display strings of the type arguments, separated by `", "`.
pub open spec fn render_args_spec(args: Seq<TypeExpr>) -> Seq<char>
    decreases args,
{
    if args.len() == 0 {
        Seq::<char>::empty()
    } else if args.len() == 1 {
        render_spec(args[0])
    } else {
        render_args_spec(args.drop_last()) + ", "@ + render_spec(args.last())
    }
}

/// The exact outcome of rendering `t` with `budget` levels of nesting
/// available: the display string, or the schema error that stops the
/// renderer.
pub open spec fn render_result(t: TypeExpr, budget: nat) -> Result<Seq<char>, SchemaError>
    decreases t,
{
    match t {
        TypeExpr::Unsupported => Err(SchemaError::UnsupportedTypeError),
        TypeExpr::Named { base, args } => if budget == 0 {
            Err(SchemaError::TypeRenderingError)
        } else if args@.len() == 0 {
            Ok(base@)
        } else {
            match render_args_result(args@, (budget - 1) as nat) {
                Ok(x) => Ok(base@ + seq!['<'] + x + seq!['>']),
                Err(e) => Err(e),
            }
        },
    }
}

/// The exact outcome of rendering a list of type arguments: the first
/// failure wins, in declaration order.
pub open spec fn render_args_result(args: Seq<TypeExpr>, budget: nat) -> Result<
    Seq<char>,
    SchemaError,
>
    decreases args,
{
    if args.len() == 0 {
        Ok(Seq::<char>::empty())
    } else if args.len() == 1 {
        render_result(args[0], budget)
    } else {
        match render_args_result(args.drop_last(), budget) {
            Ok(rest) => match render_result(args.last(), budget) {
                Ok(lastr) => Ok(rest + ", "@ + lastr),
                Err(e) => Err(e),
            },
            Err(e) => Err(e),
        }
    }
}

/// A successful render with budget `budget` is the canonical display
/// string: the renderer fails only on unsupported forms or exhausted
/// budget.
pub proof fn lemma_render_total(t: TypeExpr, budget: nat)
    requires
        type_well_formed(t),
        type_depth(t) <= budget,
    ensures
        render_result(t, budget) == Ok::<Seq<char>, SchemaError>(render_spec(t)),
    decreases t,
{
    match t {
        TypeExpr::Named { base, args } => {
            if args@.len() > 0 {
                lemma_render_args_total(args@, (budget - 1) as nat);
            }
        },
        TypeExpr::Unsupported => {
        },
    }
}

/// Companion of [`lemma_render_total`] for argument lists.
pub proof fn lemma_render_args_total(args: Seq<TypeExpr>, budget: nat)
    requires
        forall|i: int| 0 <= i < args.len() ==> type_well_formed(#[trigger] args[i]),
        args_depth(args) <= budget,
    ensures
        render_args_result(args, budget) == Ok::<Seq<char>, SchemaError>(render_args_spec(args)),
    decreases args,
{
    if args.len() == 1 {
        lemma_render_total(args[0], budget);
    } else if args.len() > 1 {
        assert(forall|i: int|
            0 <= i < args.drop_last().len() ==> type_well_formed(#[trigger] args.drop_last()[i]));
        lemma_render_args_total(args.drop_last(), budget);
        lemma_render_total(args.last(), budget);
    }
}

/// When the arguments up to `j` render and argument `j` fails, the failure
/// at `j` is the outcome for the whole list.
proof fn lemma_render_args_prefix_err(args: Seq<TypeExpr>, budget: nat, j: int)
    requires
        0 <= j < args.len(),
        render_args_result(args.take(j), budget) is Ok,
        render_result(args[j], budget) is Err,
    ensures
        render_args_result(args, budget) == Result::<Seq<char>, SchemaError>::Err(
            render_result(args[j], budget)->Err_0,
        ),
    decreases args.len(),
{
    if j == args.len() - 1 {
        if args.len() > 1 {
            assert(args.drop_last() =~= args.take(j));
        }
    } else {
        assert(args.drop_last().take(j) =~= args.take(j));
        assert(args.drop_last()[j] == args[j]);
        lemma_render_args_prefix_err(args.drop_last(), budget, j);
    }
}

/// Renders the type arguments `args`, separated by `", "`, appending to
/// `out`.
fn render_args_expr(args: &Vec<TypeExpr>, budget: u64, out: &mut Vec<char>) -> (r: Result<
    (),
    SchemaError,
>)
    ensures
        match render_args_result(args@, budget as nat) {
            Ok(x) => r is Ok && final(out)@ == old(out)@ + x,
            Err(e) => r matches Err(x) && x == e,
        },
    decreases args,
{
    let mut j: usize = 0;
    let ghost orig = out@;
    while j < args.len()
        invariant
            0 <= j <= args@.len(),
            render_args_result(args@.take(j as int), budget as nat) matches Ok(x) && out@ == orig
                + x,
        decreases args@.len() - j,
    {
        if j > 0 {
            out.push(',');
            out.push(' ');
        }
        proof {
            assert(decreases_to!(args => args@));
            assert(decreases_to!(args@ => args@[j as int]));
        }
        let sub = render_expr(&args[j], budget, out);
        proof {
            reveal_strlit(", ");
            assert(", "@ =~= seq![',', ' ']);
            assert(args@.take(j + 1 as int).drop_last() =~= args@.take(j as int));
            assert(args@.take(j + 1 as int).last() == args@[j as int]);
            if j == 0 {
                assert(args@.take(1).len() == 1);
                assert(args@.take(1)[0] == args@[0]);
            }
        }
        match sub {
            Ok(_) => {
            },
            Err(e) => {
                proof {
                    lemma_render_args_prefix_err(args@, budget as nat, j as int);
                }
                return Err(e);
            },
        }
        j = j + 1;
    }
    assert(args@.take(j as int) =~= args@);
    Ok(())
}

/// Renders the type expression `t` with `budget` levels of nesting
/// available, appending to `out`.
fn render_expr(t: &TypeExpr, budget: u64, out: &mut Vec<char>) -> (r: Result<(), SchemaError>)
    ensures
        match render_result(*t, budget as nat) {
            Ok(x) => r is Ok && final(out)@ == old(out)@ + x,
            Err(e) => r matches Err(x) && x == e,
        },
    decreases t,
{
    match t {
        TypeExpr::Unsupported => Err(SchemaError::UnsupportedTypeError),
        TypeExpr::Named { base, args } => {
            if budget == 0 {
                return Err(SchemaError::TypeRenderingError);
            }
            let mut cs = str_to_chars(base.as_str());
            out.append(&mut cs);
            if args.len() == 0 {
                return Ok(());
            }
            out.push('<');
            match render_args_expr(args, budget - 1, out) {
                Ok(_) => {
                    out.push('>');
                    assert(out@ =~= old(out)@ + (base@ + seq!['<'] + render_args_result(
                        args@,
                        (budget - 1) as nat,
                    )->Ok_0 + seq!['>']));
                    Ok(())
                },
                Err(e) => Err(e),
            }
        },
    }
}

/// Renders a declared type as its display string: `base_name` for a plain
/// type, `base_name<...>` for a generic one, recursing depth first, left to
/// right. Fails with `UnsupportedTypeError` on a type expression that is
/// not a simple named or generic form, and with `TypeRenderingError` when
/// nesting exceeds [`RENDER_DEPTH_LIMIT`].
pub fn render(t: &TypeExpr) -> (r: Result<String, SchemaError>)
    ensures
        match render_result(*t, RENDER_DEPTH_LIMIT as nat) {
            Ok(x) => r matches Ok(s) && s@ == x,
            Err(e) => r matches Err(x) && x == e,
        },
{
    let mut out: Vec<char> = Vec::new();
    match render_expr(t, RENDER_DEPTH_LIMIT, &mut out) {
        Ok(_) => Ok(chars_to_string(&out)),
        Err(e) => Err(e),
    }
}

} // verus!
