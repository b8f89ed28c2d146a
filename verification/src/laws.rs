//! Laws of the machine, stated and proved over the specification.

use vstd::prelude::*;

use crate::eval::DP;
use crate::eval::EOut;
use crate::eval::EvalError;
use crate::eval::binop_step;
use crate::eval::binop_val;
use crate::eval::drain_print_spec;
use crate::eval::is_binop;
use crate::eval::step_spec;
use crate::eval::stream_next_spec;
use crate::eval::take_step;
use crate::numfmt::int_image;
use crate::token::TokS;
use crate::value::StrS;
use crate::value::ValS;

verus! {

/// Binary operators bind right to left: with `a` then `b` pushed (`b` on
/// top), every binary opcode computes `b OP a` — the most recently pushed
/// operand is the left one. For quotient and remainder the right operand `a`
/// must not be zero, or the operation is an error.
pub proof fn lemma_binop_right_to_left(t: TokS, pre: Seq<ValS>, a: i64, b: i64)
    requires
        is_binop(t),
        (t is Divide || t is Modulus) ==> a != 0,
    ensures
        ({
            let bs = binop_step(t, pre.push(ValS::Number(a)).push(ValS::Number(b)));
            bs.0 is Ok && bs.1 == pre.push(ValS::Number(binop_val(t, b, a).unwrap()))
        }),
{
    let st = pre.push(ValS::Number(a)).push(ValS::Number(b));
    assert(st.last() == ValS::Number(b));
    assert(st.drop_last() =~= pre.push(ValS::Number(a)));
    assert(pre.push(ValS::Number(a)).drop_last() =~= pre);
}

/// `take` is insensitive to which operand was pushed last: a count `n` and a
/// stream `s` bound the stream to at most `n` elements whichever of the two
/// is on top of the stack.
pub proof fn lemma_take_order_insensitive(pre: Seq<ValS>, n: i64, s: StrS)
    ensures
        take_step(pre.push(ValS::Number(n)).push(ValS::Iter(s))) == take_step(
            pre.push(ValS::Iter(s)).push(ValS::Number(n)),
        ),
        take_step(pre.push(ValS::Number(n)).push(ValS::Iter(s))).0 is Ok,
        take_step(pre.push(ValS::Number(n)).push(ValS::Iter(s))).1 == pre.push(
            ValS::Iter(
                StrS::Taken {
                    remaining: if n < 0 {
                        0nat
                    } else {
                        n as nat
                    },
                    inner: Box::new(s),
                },
            ),
        ),
{
    let st1 = pre.push(ValS::Number(n)).push(ValS::Iter(s));
    let st2 = pre.push(ValS::Iter(s)).push(ValS::Number(n));
    assert(st1.drop_last() =~= pre.push(ValS::Number(n)));
    assert(pre.push(ValS::Number(n)).drop_last() =~= pre);
    assert(st2.drop_last() =~= pre.push(ValS::Iter(s)));
    assert(pre.push(ValS::Iter(s)).drop_last() =~= pre);
}

/// Printing a stream writes each element's decimal image followed by one
/// space: one pulled element advances the drain with exactly
/// `image ++ " "` appended.
pub proof fn lemma_print_stream_element(s: StrS, out: Seq<u8>, fuel: nat)
    requires
        fuel > 0,
    ensures
        ({
            let sn = stream_next_spec(s, out, (fuel - 1) as nat);
            sn.res matches Ok(Some(v)) ==> drain_print_spec(s, out, fuel) == drain_print_spec(
                sn.strm,
                sn.out + int_image(v as int) + seq![32u8],
                (fuel - 1) as nat,
            )
        }),
{
}

/// Printing an exhausted stream emits just the final line break.
pub proof fn lemma_print_empty_stream(s: StrS, out: Seq<u8>, fuel: nat)
    requires
        fuel > 0,
        stream_next_spec(s, out, (fuel - 1) as nat).res == Ok::<Option<i64>, EvalError>(None),
    ensures
        drain_print_spec(s, out, fuel) == (DP {
            err: None,
            out: stream_next_spec(s, out, (fuel - 1) as nat).out + seq![10u8],
        }),
{
}

/// `Duplicate` on an empty stack is fatal.
pub proof fn lemma_duplicate_empty_fatal(out: Seq<u8>, fuel: nat)
    requires
        fuel > 0,
    ensures
        (step_spec(TokS::Duplicate, Seq::empty(), out, fuel).err == Some(
            EvalError::NothingToDuplicate,
        )),
{
}

/// `Pop` on an empty stack is a no-op.
pub proof fn lemma_pop_empty_no_op(out: Seq<u8>, fuel: nat)
    requires
        fuel > 0,
    ensures
        step_spec(TokS::Pop, Seq::empty(), out, fuel) == (EOut {
            stack: Seq::<ValS>::empty(),
            out,
            err: None,
        }),
{
}

} // verus!
