//! The stack-machine evaluator.
//!
//! `eval` processes a token sequence strictly in order against a mutable
//! stack, appending everything the `print` opcode emits to an output buffer.
//! Binary operators pop twice: the first value popped (the most recently
//! pushed) is the *left* operand. Popping from an empty stack yields a
//! documented default (`0` for a number, the stream of the naturals from `0`
//! for a stream, false for a condition) rather than failing; only `Duplicate`
//! and `Length` demand a value.
//!
//! Fold runs its body against the *shared* stack, accumulator on top;
//! filter and map build lazy streams whose bodies run against a fresh
//! one-element stack per element when pulled. Every recursion — nested
//! combinators pulling from inner streams, bodies re-invoking the evaluator —
//! is bounded by an explicit step budget `fuel`; a program that exhausts it
//! (for instance by draining an unbounded stream) stops with `OutOfFuel`.
//!
//! The whole machine is specified by the mutually recursive functions
//! `eval_spec`, `step_spec`, `stream_next_spec` and the drain specifications;
//! each executable function is proved to produce exactly the state they
//! describe.

use vstd::prelude::*;

use crate::numfmt::int_image;
use crate::numfmt::push_int_image;
use crate::token::TokS;
use crate::token::Token;
use crate::token::dup_tokens;
use crate::token::lemma_toks_view_index;
use crate::token::toks_view;
use crate::value::StrS;
use crate::value::ValS;
use crate::value::Stream;
use crate::value::Value;
use crate::value::lemma_stack_view_drop_last;
use crate::value::lemma_stack_view_push;
use crate::value::stack_view;

verus! {

/// A fatal evaluation error: execution stops at once; output already emitted
/// stays.
#[derive(Debug, Clone, Copy, PartialEq, Eq)]
pub enum EvalError {
    /// An operand slot expecting a number held a stream.
    ExpectedNumber,
    /// An operand slot expecting a stream held a number.
    ExpectedIter,
    /// Division or remainder by zero.
    DivByZero,
    /// `Duplicate` on an empty stack.
    NothingToDuplicate,
    /// `Length` on an empty stack.
    LengthOfNothing,
    /// The step budget ran out.
    OutOfFuel,
}

/// A machine state in the specification: stack, output, and the error that
/// stopped execution, if one did.
#[verifier::ext_equal]
pub struct EOut {
    pub stack: Seq<ValS>,
    pub out: Seq<u8>,
    pub err: Option<EvalError>,
}

/// The specified result of pulling one element from a stream.
#[verifier::ext_equal]
pub struct SN {
    pub res: Result<Option<i64>, EvalError>,
    pub strm: StrS,
    pub out: Seq<u8>,
}

/// The specified result of draining a stream to its count.
#[verifier::ext_equal]
pub struct DC {
    pub cnt: nat,
    pub err: Option<EvalError>,
    pub out: Seq<u8>,
}

/// The specified result of draining a stream to print it.
#[verifier::ext_equal]
pub struct DP {
    pub err: Option<EvalError>,
    pub out: Seq<u8>,
}

/// Pop a number: the top of the stack if it is one, `0` from an empty stack,
/// an error if the top is a stream.
pub open spec fn pop_number_spec(st: Seq<ValS>) -> (Result<i64, EvalError>, Seq<ValS>) {
    if st.len() == 0 {
        (Ok(0i64), st)
    } else {
        match st.last() {
            ValS::Number(n) => (Ok(n), st.drop_last()),
            ValS::Iter(_) => (Err(EvalError::ExpectedNumber), st.drop_last()),
        }
    }
}

/// Pop a stream: the top if it is one, the naturals from `0` from an empty
/// stack, an error if the top is a number.
pub open spec fn pop_iter_spec(st: Seq<ValS>) -> (Result<StrS, EvalError>, Seq<ValS>) {
    if st.len() == 0 {
        (Ok(StrS::Range { next: 0, last: i64::MAX }), st)
    } else {
        match st.last() {
            ValS::Iter(s) => (Ok(s), st.drop_last()),
            ValS::Number(_) => (Err(EvalError::ExpectedIter), st.drop_last()),
        }
    }
}

/// Pop a condition: a number is true iff nonzero, a stream is always true,
/// an empty stack is false.
pub open spec fn pop_bool_spec(st: Seq<ValS>) -> (bool, Seq<ValS>) {
    if st.len() == 0 {
        (false, st)
    } else {
        match st.last() {
            ValS::Number(n) => (n != 0, st.drop_last()),
            ValS::Iter(_) => (true, st.drop_last()),
        }
    }
}

/// The ten binary operators that pop two numbers.
pub open spec fn is_binop(t: TokS) -> bool {
    ||| t is Plus
    ||| t is Minus
    ||| t is Times
    ||| t is Divide
    ||| t is Modulus
    ||| t is Divides
    ||| t is Greater
    ||| t is Less
    ||| t is Eq
    ||| t is Neq
}

/// The value of a binary operator on left operand `a` (popped first, the old
/// top of stack) and right operand `b` (popped second). Additions,
/// subtractions and multiplications wrap; quotient and remainder truncate
/// toward zero and wrap on overflow; `Divides` pushes `1` exactly when the
/// remainder `a % b` is zero, and `0` when `b` is zero (nothing but zero
/// divides zero ways).
pub open spec fn binop_val(t: TokS, a: i64, b: i64) -> Result<i64, EvalError> {
    match t {
        TokS::Plus => Ok(vstd::wrapping::i64_specs::wrapping_add(a, b)),
        TokS::Minus => Ok(vstd::wrapping::i64_specs::wrapping_sub(a, b)),
        TokS::Times => Ok(vstd::wrapping::i64_specs::wrapping_mul(a, b)),
        TokS::Divide => if b == 0 {
            Err(EvalError::DivByZero)
        } else {
            match a.checked_div(b) {
                Some(q) => Ok(q),
                None => Ok(i64::MIN),
            }
        },
        TokS::Modulus => if b == 0 {
            Err(EvalError::DivByZero)
        } else {
            match a.checked_rem(b) {
                Some(m) => Ok(m),
                None => Ok(0i64),
            }
        },
        TokS::Divides => if b == 0 {
            Ok(0i64)
        } else {
            match a.checked_rem(b) {
                Some(m) => Ok(if m == 0 {
                    1i64
                } else {
                    0i64
                }),
                None => Ok(1i64),
            }
        },
        TokS::Greater => Ok(
            if a > b {
                1i64
            } else {
                0i64
            },
        ),
        TokS::Less => Ok(
            if a < b {
                1i64
            } else {
                0i64
            },
        ),
        TokS::Eq => Ok(
            if a == b {
                1i64
            } else {
                0i64
            },
        ),
        TokS::Neq => Ok(
            if a != b {
                1i64
            } else {
                0i64
            },
        ),
        _ => Err(EvalError::ExpectedNumber),
    }
}

/// A binary operator's whole effect on the stack: pop the left operand, pop
/// the right operand, push the value.
pub open spec fn binop_step(t: TokS, st: Seq<ValS>) -> (Result<(), EvalError>, Seq<ValS>) {
    let pa = pop_number_spec(st);
    match pa.0 {
        Err(e) => (Err(e), pa.1),
        Ok(a) => {
            let pb = pop_number_spec(pa.1);
            match pb.0 {
                Err(e) => (Err(e), pb.1),
                Ok(b) => match binop_val(t, a, b) {
                    Err(e) => (Err(e), pb.1),
                    Ok(v) => (Ok(()), pb.1.push(ValS::Number(v))),
                },
            }
        },
    }
}

/// Floor and ceiling: on whole numbers both return their operand.
pub open spec fn unop_step(st: Seq<ValS>) -> (Result<(), EvalError>, Seq<ValS>) {
    let pa = pop_number_spec(st);
    match pa.0 {
        Err(e) => (Err(e), pa.1),
        Ok(a) => (Ok(()), pa.1.push(ValS::Number(a))),
    }
}

/// `take`'s whole effect: the operand order is read off the current top of
/// stack — a stream on top means the count lies beneath it, anything else
/// means the count is on top and the stream beneath. A negative count bounds
/// the stream to nothing.
pub open spec fn take_step(st: Seq<ValS>) -> (Result<(), EvalError>, Seq<ValS>) {
    if st.len() > 0 && st.last() is Iter {
        let pi = pop_iter_spec(st);
        let pn = pop_number_spec(pi.1);
        match pn.0 {
            Err(e) => (Err(e), pn.1),
            Ok(n) => (
                Ok(()),
                pn.1.push(
                    ValS::Iter(
                        StrS::Taken {
                            remaining: if n < 0 {
                                0nat
                            } else {
                                n as nat
                            },
                            inner: Box::new(pi.0.unwrap()),
                        },
                    ),
                ),
            ),
        }
    } else {
        let pn = pop_number_spec(st);
        match pn.0 {
            Err(e) => (Err(e), pn.1),
            Ok(n) => {
                let pi = pop_iter_spec(pn.1);
                match pi.0 {
                    Err(e) => (Err(e), pi.1),
                    Ok(s) => (
                        Ok(()),
                        pi.1.push(
                            ValS::Iter(
                                StrS::Taken {
                                    remaining: if n < 0 {
                                        0nat
                                    } else {
                                        n as nat
                                    },
                                    inner: Box::new(s),
                                },
                            ),
                        ),
                    ),
                }
            },
        }
    }
}

/// The stream enumerating `0, 1, ..., n - 1`, as `length` builds it from a
/// number.
pub open spec fn enum_range(n: i64) -> StrS {
    if n <= 0 {
        StrS::Range { next: 1, last: 0 }
    } else {
        StrS::Range { next: 0, last: (n - 1) as i64 }
    }
}

/// A drained stream's count as a number (saturating at the largest one).
pub open spec fn count_i64(c: nat) -> i64 {
    if c > i64::MAX {
        i64::MAX
    } else {
        c as i64
    }
}

/// The error of a handler result, if any.
pub open spec fn err_opt(r: Result<(), EvalError>) -> Option<EvalError> {
    match r {
        Ok(u) => None,
        Err(e) => Some(e),
    }
}

/// Pull one element from a stream. A `Range` yields its next number; `Taken`
/// passes the pull through while its bound lasts; `Mapped` runs its body on
/// the fresh stack `[e]` and pops the result, which must be a number;
/// `Filtered` pulls from within until its body, run the same way, leaves a
/// true condition on top.
pub open spec fn stream_next_spec(s: StrS, out: Seq<u8>, fuel: nat) -> SN
    decreases fuel, 0int,
{
    if fuel == 0 {
        SN { res: Err(EvalError::OutOfFuel), strm: s, out }
    } else {
        match s {
            StrS::Range { next, last } => if next > last {
                SN { res: Ok(None), strm: s, out }
            } else if next < last {
                SN { res: Ok(Some(next)), strm: StrS::Range { next: (next + 1) as i64, last }, out }
            } else {
                SN { res: Ok(Some(next)), strm: StrS::Range { next: 1, last: 0 }, out }
            },
            StrS::Taken { remaining, inner } => if remaining == 0 {
                SN { res: Ok(None), strm: s, out }
            } else {
                let r = stream_next_spec(*inner, out, (fuel - 1) as nat);
                match r.res {
                    Err(e) => SN {
                        res: Err(e),
                        strm: StrS::Taken { remaining, inner: Box::new(r.strm) },
                        out: r.out,
                    },
                    Ok(None) => SN {
                        res: Ok(None),
                        strm: StrS::Taken { remaining, inner: Box::new(r.strm) },
                        out: r.out,
                    },
                    Ok(Some(v)) => SN {
                        res: Ok(Some(v)),
                        strm: StrS::Taken {
                            remaining: (remaining - 1) as nat,
                            inner: Box::new(r.strm),
                        },
                        out: r.out,
                    },
                }
            },
            StrS::Mapped { body, inner } => {
                let r = stream_next_spec(*inner, out, (fuel - 1) as nat);
                let strm2 = StrS::Mapped { body, inner: Box::new(r.strm) };
                match r.res {
                    Err(e) => SN { res: Err(e), strm: strm2, out: r.out },
                    Ok(None) => SN { res: Ok(None), strm: strm2, out: r.out },
                    Ok(Some(v)) => {
                        let e = eval_spec(
                            body,
                            0,
                            seq![ValS::Number(v)],
                            r.out,
                            (fuel - 1) as nat,
                        );
                        match e.err {
                            Some(er) => SN { res: Err(er), strm: strm2, out: e.out },
                            None => {
                                let pn = pop_number_spec(e.stack);
                                match pn.0 {
                                    Err(er) => SN { res: Err(er), strm: strm2, out: e.out },
                                    Ok(m) => SN { res: Ok(Some(m)), strm: strm2, out: e.out },
                                }
                            },
                        }
                    },
                }
            },
            StrS::Filtered { body, inner } => {
                let r = stream_next_spec(*inner, out, (fuel - 1) as nat);
                let strm2 = StrS::Filtered { body, inner: Box::new(r.strm) };
                match r.res {
                    Err(e) => SN { res: Err(e), strm: strm2, out: r.out },
                    Ok(None) => SN { res: Ok(None), strm: strm2, out: r.out },
                    Ok(Some(v)) => {
                        let e = eval_spec(
                            body,
                            0,
                            seq![ValS::Number(v)],
                            r.out,
                            (fuel - 1) as nat,
                        );
                        match e.err {
                            Some(er) => SN { res: Err(er), strm: strm2, out: e.out },
                            None => if pop_bool_spec(e.stack).0 {
                                SN { res: Ok(Some(v)), strm: strm2, out: e.out }
                            } else {
                                stream_next_spec(strm2, e.out, (fuel - 1) as nat)
                            },
                        }
                    },
                }
            },
        }
    }
}

/// Fold's drain: for each element, push it and run the body against the
/// shared stack, leaving the new accumulator on top.
pub open spec fn fold_drain_spec(
    body: Seq<TokS>,
    s: StrS,
    st: Seq<ValS>,
    out: Seq<u8>,
    fuel: nat,
) -> EOut
    decreases fuel, 0int,
{
    if fuel == 0 {
        EOut { stack: st, out, err: Some(EvalError::OutOfFuel) }
    } else {
        let r = stream_next_spec(s, out, (fuel - 1) as nat);
        match r.res {
            Err(e) => EOut { stack: st, out: r.out, err: Some(e) },
            Ok(None) => EOut { stack: st, out: r.out, err: None },
            Ok(Some(v)) => {
                let e = eval_spec(body, 0, st.push(ValS::Number(v)), r.out, (fuel - 1) as nat);
                if e.err is Some {
                    e
                } else {
                    fold_drain_spec(body, r.strm, e.stack, e.out, (fuel - 1) as nat)
                }
            },
        }
    }
}

/// Fold's whole effect: pop a stream; with `first`, its first element seeds
/// the accumulator without running the body; then drain.
pub open spec fn fold_step(
    body: Seq<TokS>,
    first: bool,
    st: Seq<ValS>,
    out: Seq<u8>,
    fuel: nat,
) -> EOut
    decreases fuel, 1int,
{
    let pi = pop_iter_spec(st);
    match pi.0 {
        Err(e) => EOut { stack: pi.1, out, err: Some(e) },
        Ok(s0) => if first {
            let r = stream_next_spec(s0, out, fuel);
            match r.res {
                Err(e) => EOut { stack: pi.1, out: r.out, err: Some(e) },
                Ok(None) => EOut { stack: pi.1, out: r.out, err: None },
                Ok(Some(v)) => fold_drain_spec(
                    body,
                    r.strm,
                    pi.1.push(ValS::Number(v)),
                    r.out,
                    fuel,
                ),
            }
        } else {
            fold_drain_spec(body, s0, pi.1, out, fuel)
        },
    }
}

/// Drain a stream to its element count.
pub open spec fn drain_count_spec(s: StrS, out: Seq<u8>, fuel: nat) -> DC
    decreases fuel, 0int,
{
    if fuel == 0 {
        DC { cnt: 0, err: Some(EvalError::OutOfFuel), out }
    } else {
        let r = stream_next_spec(s, out, (fuel - 1) as nat);
        match r.res {
            Err(e) => DC { cnt: 0, err: Some(e), out: r.out },
            Ok(None) => DC { cnt: 0, err: None, out: r.out },
            Ok(Some(v)) => {
                let d = drain_count_spec(r.strm, r.out, (fuel - 1) as nat);
                DC { cnt: d.cnt + 1, err: d.err, out: d.out }
            },
        }
    }
}

/// `length`'s whole effect: a number `n` becomes the stream `0 .. n`; a
/// stream is fully drained to its count. An empty stack is an error.
pub open spec fn length_step(st: Seq<ValS>, out: Seq<u8>, fuel: nat) -> EOut
    decreases fuel, 1int,
{
    if st.len() == 0 {
        EOut { stack: st, out, err: Some(EvalError::LengthOfNothing) }
    } else {
        match st.last() {
            ValS::Number(n) => EOut {
                stack: st.drop_last().push(ValS::Iter(enum_range(n))),
                out,
                err: None,
            },
            ValS::Iter(s) => {
                let d = drain_count_spec(s, out, fuel);
                match d.err {
                    Some(e) => EOut { stack: st.drop_last(), out: d.out, err: Some(e) },
                    None => EOut {
                        stack: st.drop_last().push(ValS::Number(count_i64(d.cnt))),
                        out: d.out,
                        err: None,
                    },
                }
            },
        }
    }
}

/// Drain a stream to print it: each element's decimal image followed by one
/// space, then a final line break.
pub open spec fn drain_print_spec(s: StrS, out: Seq<u8>, fuel: nat) -> DP
    decreases fuel, 0int,
{
    if fuel == 0 {
        DP { err: Some(EvalError::OutOfFuel), out }
    } else {
        let r = stream_next_spec(s, out, (fuel - 1) as nat);
        match r.res {
            Err(e) => DP { err: Some(e), out: r.out },
            Ok(None) => DP { err: None, out: r.out + seq![10u8] },
            Ok(Some(v)) => drain_print_spec(
                r.strm,
                r.out + int_image(v as int) + seq![32u8],
                (fuel - 1) as nat,
            ),
        }
    }
}

/// `print`'s whole effect: a number's decimal image and a line break; a
/// stream drained as `drain_print_spec` says; an empty stack prints the
/// default number `0`.
pub open spec fn print_step(st: Seq<ValS>, out: Seq<u8>, fuel: nat) -> EOut
    decreases fuel, 1int,
{
    if st.len() == 0 {
        EOut { stack: st, out: out + int_image(0) + seq![10u8], err: None }
    } else {
        match st.last() {
            ValS::Number(n) => EOut {
                stack: st.drop_last(),
                out: out + int_image(n as int) + seq![10u8],
                err: None,
            },
            ValS::Iter(s) => {
                let d = drain_print_spec(s, out, fuel);
                EOut { stack: st.drop_last(), out: d.out, err: d.err }
            },
        }
    }
}

/// One opcode's whole effect on the machine state.
pub open spec fn step_spec(t: TokS, st: Seq<ValS>, out: Seq<u8>, fuel: nat) -> EOut
    decreases fuel, 2int,
{
    if fuel == 0 {
        EOut { stack: st, out, err: Some(EvalError::OutOfFuel) }
    } else if is_binop(t) {
        let bs = binop_step(t, st);
        EOut { stack: bs.1, out, err: err_opt(bs.0) }
    } else {
        match t {
            TokS::Number(n) => EOut { stack: st.push(ValS::Number(n)), out, err: None },
            TokS::Floor => {
                let us = unop_step(st);
                EOut { stack: us.1, out, err: err_opt(us.0) }
            },
            TokS::Ceil => {
                let us = unop_step(st);
                EOut { stack: us.1, out, err: err_opt(us.0) }
            },
            TokS::Natural => EOut {
                stack: st.push(ValS::Iter(StrS::Range { next: 1, last: i64::MAX })),
                out,
                err: None,
            },
            TokS::NaturalTo => {
                let pn = pop_number_spec(st);
                match pn.0 {
                    Err(e) => EOut { stack: pn.1, out, err: Some(e) },
                    Ok(k) => EOut {
                        stack: pn.1.push(ValS::Iter(StrS::Range { next: 1, last: k })),
                        out,
                        err: None,
                    },
                }
            },
            TokS::Range => {
                let pn = pop_number_spec(st);
                match pn.0 {
                    Err(e) => EOut { stack: pn.1, out, err: Some(e) },
                    Ok(k) => EOut {
                        stack: pn.1.push(ValS::Iter(StrS::Range { next: k, last: i64::MAX })),
                        out,
                        err: None,
                    },
                }
            },
            TokS::Take => {
                let ts = take_step(st);
                EOut { stack: ts.1, out, err: err_opt(ts.0) }
            },
            TokS::Length => length_step(st, out, (fuel - 1) as nat),
            TokS::Fold(body, first) => fold_step(body, first, st, out, (fuel - 1) as nat),
            TokS::Filter(body) => {
                let pi = pop_iter_spec(st);
                match pi.0 {
                    Err(e) => EOut { stack: pi.1, out, err: Some(e) },
                    Ok(s) => EOut {
                        stack: pi.1.push(
                            ValS::Iter(StrS::Filtered { body, inner: Box::new(s) }),
                        ),
                        out,
                        err: None,
                    },
                }
            },
            TokS::MapOp(body) => {
                let pi = pop_iter_spec(st);
                match pi.0 {
                    Err(e) => EOut { stack: pi.1, out, err: Some(e) },
                    Ok(s) => EOut {
                        stack: pi.1.push(ValS::Iter(StrS::Mapped { body, inner: Box::new(s) })),
                        out,
                        err: None,
                    },
                }
            },
            TokS::Pop => EOut {
                stack: if st.len() > 0 {
                    st.drop_last()
                } else {
                    st
                },
                out,
                err: None,
            },
            TokS::Duplicate => if st.len() == 0 {
                EOut { stack: st, out, err: Some(EvalError::NothingToDuplicate) }
            } else {
                EOut { stack: st.push(st.last()), out, err: None }
            },
            TokS::Print => print_step(st, out, (fuel - 1) as nat),
            _ => EOut { stack: st, out, err: None },
        }
    }
}

/// The machine: process the tokens from index `i` strictly in order; stop at
/// the first error.
pub open spec fn eval_spec(
    toks: Seq<TokS>,
    i: int,
    st: Seq<ValS>,
    out: Seq<u8>,
    fuel: nat,
) -> EOut
    decreases fuel, 3int,
{
    if i < 0 || i >= toks.len() {
        EOut { stack: st, out, err: None }
    } else if fuel == 0 {
        EOut { stack: st, out, err: Some(EvalError::OutOfFuel) }
    } else {
        let so = step_spec(toks[i], st, out, (fuel - 1) as nat);
        if so.err is Some {
            so
        } else {
            eval_spec(toks, i + 1, so.stack, so.out, (fuel - 1) as nat)
        }
    }
}

/// Pop the top value, demanding a number; an empty stack yields `0`.
pub fn pop_number(stack: &mut Vec<Value>) -> (r: Result<i64, EvalError>)
    ensures
        ({
            let p = pop_number_spec(stack_view(old(stack)@));
            r == p.0 && stack_view(final(stack)@) == p.1
        }),
{
    match stack.pop() {
        None => Ok(0),
        Some(Value::Number(n)) => {
            proof {
                lemma_stack_view_drop_last(old(stack)@);
            }
            Ok(n)
        },
        Some(Value::Iter(s)) => {
            proof {
                lemma_stack_view_drop_last(old(stack)@);
            }
            Err(EvalError::ExpectedNumber)
        },
    }
}

/// Pop the top value, demanding a stream; an empty stack yields the naturals
/// from `0`.
pub fn pop_iter(stack: &mut Vec<Value>) -> (r: Result<Stream, EvalError>)
    ensures
        ({
            let p = pop_iter_spec(stack_view(old(stack)@));
            stack_view(final(stack)@) == p.1 && (match r {
                Ok(s) => p.0 == Ok::<StrS, EvalError>(s@),
                Err(e) => p.0 == Err::<StrS, EvalError>(e),
            })
        }),
{
    match stack.pop() {
        None => Ok(Stream::Range { next: 0, last: i64::MAX }),
        Some(Value::Iter(s)) => {
            proof {
                lemma_stack_view_drop_last(old(stack)@);
            }
            Ok(s)
        },
        Some(Value::Number(n)) => {
            proof {
                lemma_stack_view_drop_last(old(stack)@);
            }
            Err(EvalError::ExpectedIter)
        },
    }
}

/// Pop the top value as a condition.
pub fn pop_bool(stack: &mut Vec<Value>) -> (r: bool)
    ensures
        ({
            let p = pop_bool_spec(stack_view(old(stack)@));
            r == p.0 && stack_view(final(stack)@) == p.1
        }),
{
    match stack.pop() {
        None => false,
        Some(Value::Number(n)) => {
            proof {
                lemma_stack_view_drop_last(old(stack)@);
            }
            n != 0
        },
        Some(Value::Iter(s)) => {
            proof {
                lemma_stack_view_drop_last(old(stack)@);
            }
            true
        },
    }
}

/// Push a number literal.
pub fn number(n: i64, stack: &mut Vec<Value>)
    ensures
        stack_view(final(stack)@) == stack_view(old(stack)@).push(ValS::Number(n)),
{
    stack.push(Value::Number(n));
    proof {
        lemma_stack_view_push(old(stack)@, Value::Number(n));
    }
}

/// The shared body of the ten binary operators.
fn binop(t: &Token, stack: &mut Vec<Value>) -> (r: Result<(), EvalError>)
    requires
        is_binop(t@),
    ensures
        ({
            let bs = binop_step(t@, stack_view(old(stack)@));
            r == bs.0 && stack_view(final(stack)@) == bs.1
        }),
{
    let a = match pop_number(stack) {
        Ok(a) => a,
        Err(e) => {
            return Err(e);
        },
    };
    let b = match pop_number(stack) {
        Ok(b) => b,
        Err(e) => {
            return Err(e);
        },
    };
    let v: i64 = match t {
        Token::Plus => a.wrapping_add(b),
        Token::Minus => a.wrapping_sub(b),
        Token::Times => a.wrapping_mul(b),
        Token::Divide => {
            if b == 0 {
                return Err(EvalError::DivByZero);
            }
            match a.checked_div(b) {
                Some(q) => q,
                None => i64::MIN,
            }
        },
        Token::Modulus => {
            if b == 0 {
                return Err(EvalError::DivByZero);
            }
            match a.checked_rem(b) {
                Some(m) => m,
                None => 0,
            }
        },
        Token::Divides => {
            if b == 0 {
                0
            } else {
                match a.checked_rem(b) {
                    Some(m) => if m == 0 {
                        1
                    } else {
                        0
                    },
                    None => 1,
                }
            }
        },
        Token::Greater => if a > b {
            1
        } else {
            0
        },
        Token::Less => if a < b {
            1
        } else {
            0
        },
        Token::Eq => if a == b {
            1
        } else {
            0
        },
        Token::Neq => if a != b {
            1
        } else {
            0
        },
        _ => {
            proof {
                assert(false);
            }
            0
        },
    };
    stack.push(Value::Number(v));
    proof {
        lemma_stack_view_push(stack@.drop_last(), Value::Number(v));
        assert(stack@.drop_last().push(Value::Number(v)) =~= stack@);
    }
    Ok(())
}

/// Add the two numbers on top of the stack.
pub fn plus(stack: &mut Vec<Value>) -> (r: Result<(), EvalError>)
    ensures
        ({
            let bs = binop_step(TokS::Plus, stack_view(old(stack)@));
            r == bs.0 && stack_view(final(stack)@) == bs.1
        }),
{
    binop(&Token::Plus, stack)
}

/// Subtract: the old top of stack minus the value beneath it.
pub fn minus(stack: &mut Vec<Value>) -> (r: Result<(), EvalError>)
    ensures
        ({
            let bs = binop_step(TokS::Minus, stack_view(old(stack)@));
            r == bs.0 && stack_view(final(stack)@) == bs.1
        }),
{
    binop(&Token::Minus, stack)
}

/// Multiply the two numbers on top of the stack.
pub fn times(stack: &mut Vec<Value>) -> (r: Result<(), EvalError>)
    ensures
        ({
            let bs = binop_step(TokS::Times, stack_view(old(stack)@));
            r == bs.0 && stack_view(final(stack)@) == bs.1
        }),
{
    binop(&Token::Times, stack)
}

/// Divide: the old top of stack by the value beneath it.
pub fn divide(stack: &mut Vec<Value>) -> (r: Result<(), EvalError>)
    ensures
        ({
            let bs = binop_step(TokS::Divide, stack_view(old(stack)@));
            r == bs.0 && stack_view(final(stack)@) == bs.1
        }),
{
    binop(&Token::Divide, stack)
}

/// Remainder: the old top of stack modulo the value beneath it.
pub fn modulus(stack: &mut Vec<Value>) -> (r: Result<(), EvalError>)
    ensures
        ({
            let bs = binop_step(TokS::Modulus, stack_view(old(stack)@));
            r == bs.0 && stack_view(final(stack)@) == bs.1
        }),
{
    binop(&Token::Modulus, stack)
}

/// Push `1` when the remainder of the top by the value beneath is zero.
pub fn divides(stack: &mut Vec<Value>) -> (r: Result<(), EvalError>)
    ensures
        ({
            let bs = binop_step(TokS::Divides, stack_view(old(stack)@));
            r == bs.0 && stack_view(final(stack)@) == bs.1
        }),
{
    binop(&Token::Divides, stack)
}

/// Floor of the top number: whole numbers are their own floor.
pub fn floor(stack: &mut Vec<Value>) -> (r: Result<(), EvalError>)
    ensures
        ({
            let us = unop_step(stack_view(old(stack)@));
            r == us.0 && stack_view(final(stack)@) == us.1
        }),
{
    let a = match pop_number(stack) {
        Ok(a) => a,
        Err(e) => {
            return Err(e);
        },
    };
    number(a, stack);
    Ok(())
}

/// Ceiling of the top number: whole numbers are their own ceiling.
pub fn ceil(stack: &mut Vec<Value>) -> (r: Result<(), EvalError>)
    ensures
        ({
            let us = unop_step(stack_view(old(stack)@));
            r == us.0 && stack_view(final(stack)@) == us.1
        }),
{
    let a = match pop_number(stack) {
        Ok(a) => a,
        Err(e) => {
            return Err(e);
        },
    };
    number(a, stack);
    Ok(())
}

/// Greater-than on the two numbers on top, old top on the left.
pub fn greater(stack: &mut Vec<Value>) -> (r: Result<(), EvalError>)
    ensures
        ({
            let bs = binop_step(TokS::Greater, stack_view(old(stack)@));
            r == bs.0 && stack_view(final(stack)@) == bs.1
        }),
{
    binop(&Token::Greater, stack)
}

/// Less-than on the two numbers on top, old top on the left.
pub fn less(stack: &mut Vec<Value>) -> (r: Result<(), EvalError>)
    ensures
        ({
            let bs = binop_step(TokS::Less, stack_view(old(stack)@));
            r == bs.0 && stack_view(final(stack)@) == bs.1
        }),
{
    binop(&Token::Less, stack)
}

/// Equality of the two numbers on top.
pub fn eq(stack: &mut Vec<Value>) -> (r: Result<(), EvalError>)
    ensures
        ({
            let bs = binop_step(TokS::Eq, stack_view(old(stack)@));
            r == bs.0 && stack_view(final(stack)@) == bs.1
        }),
{
    binop(&Token::Eq, stack)
}

/// Inequality of the two numbers on top.
pub fn neq(stack: &mut Vec<Value>) -> (r: Result<(), EvalError>)
    ensures
        ({
            let bs = binop_step(TokS::Neq, stack_view(old(stack)@));
            r == bs.0 && stack_view(final(stack)@) == bs.1
        }),
{
    binop(&Token::Neq, stack)
}

/// Push the infinite ascending stream `1, 2, 3, ...`.
pub fn natural(stack: &mut Vec<Value>)
    ensures
        stack_view(final(stack)@) == stack_view(old(stack)@).push(
            ValS::Iter(StrS::Range { next: 1, last: i64::MAX }),
        ),
{
    let v = Value::Iter(Stream::Range { next: 1, last: i64::MAX });
    stack.push(v);
    proof {
        lemma_stack_view_push(old(stack)@, Value::Iter(Stream::Range { next: 1, last: i64::MAX }));
    }
}

/// Pop a number `k` and push the stream `1 ..= k` (empty when `k < 1`).
pub fn natural_to(stack: &mut Vec<Value>) -> (r: Result<(), EvalError>)
    ensures
        ({
            let pn = pop_number_spec(stack_view(old(stack)@));
            match pn.0 {
                Err(e) => r == Err::<(), EvalError>(e) && stack_view(final(stack)@) == pn.1,
                Ok(k) => r is Ok && stack_view(final(stack)@) == pn.1.push(
                    ValS::Iter(StrS::Range { next: 1, last: k }),
                ),
            }
        }),
{
    let k = match pop_number(stack) {
        Ok(k) => k,
        Err(e) => {
            return Err(e);
        },
    };
    let ghost mid = stack@;
    stack.push(Value::Iter(Stream::Range { next: 1, last: k }));
    proof {
        lemma_stack_view_push(mid, Value::Iter(Stream::Range { next: 1, last: k }));
    }
    Ok(())
}

/// Pop a number and push the infinite ascending stream starting there.
pub fn range(stack: &mut Vec<Value>) -> (r: Result<(), EvalError>)
    ensures
        ({
            let pn = pop_number_spec(stack_view(old(stack)@));
            match pn.0 {
                Err(e) => r == Err::<(), EvalError>(e) && stack_view(final(stack)@) == pn.1,
                Ok(k) => r is Ok && stack_view(final(stack)@) == pn.1.push(
                    ValS::Iter(StrS::Range { next: k, last: i64::MAX }),
                ),
            }
        }),
{
    let k = match pop_number(stack) {
        Ok(k) => k,
        Err(e) => {
            return Err(e);
        },
    };
    let ghost mid = stack@;
    stack.push(Value::Iter(Stream::Range { next: k, last: i64::MAX }));
    proof {
        lemma_stack_view_push(mid, Value::Iter(Stream::Range { next: k, last: i64::MAX }));
    }
    Ok(())
}

/// Bound a stream to at most a popped count of elements; the operand order
/// is read off whichever value is on top.
pub fn take(stack: &mut Vec<Value>) -> (r: Result<(), EvalError>)
    ensures
        ({
            let ts = take_step(stack_view(old(stack)@));
            r == ts.0 && stack_view(final(stack)@) == ts.1
        }),
{
    let top_is_iter = if stack.len() > 0 {
        match &stack[stack.len() - 1] {
            Value::Iter(_) => true,
            _ => false,
        }
    } else {
        false
    };
    if top_is_iter {
        let s = match pop_iter(stack) {
            Ok(s) => s,
            Err(e) => {
                proof {
                    assert(false);
                }
                return Err(e);
            },
        };
        let n = match pop_number(stack) {
            Ok(n) => n,
            Err(e) => {
                return Err(e);
            },
        };
        let rem: u64 = if n < 0 {
            0
        } else {
            n as u64
        };
        let ghost mid = stack@;
        let v = Value::Iter(Stream::Taken { remaining: rem, inner: Box::new(s) });
        stack.push(v);
        proof {
            lemma_stack_view_push(mid, stack@.last());
        }
        Ok(())
    } else {
        let n = match pop_number(stack) {
            Ok(n) => n,
            Err(e) => {
                return Err(e);
            },
        };
        let s = match pop_iter(stack) {
            Ok(s) => s,
            Err(e) => {
                return Err(e);
            },
        };
        let rem: u64 = if n < 0 {
            0
        } else {
            n as u64
        };
        let ghost mid = stack@;
        let v = Value::Iter(Stream::Taken { remaining: rem, inner: Box::new(s) });
        stack.push(v);
        proof {
            lemma_stack_view_push(mid, stack@.last());
        }
        Ok(())
    }
}

/// Discard the top value; nothing happens on an empty stack.
pub fn pop(stack: &mut Vec<Value>)
    ensures
        stack_view(final(stack)@) == (if stack_view(old(stack)@).len() > 0 {
            stack_view(old(stack)@).drop_last()
        } else {
            stack_view(old(stack)@)
        }),
{
    let r = stack.pop();
    proof {
        if old(stack)@.len() > 0 {
            lemma_stack_view_drop_last(old(stack)@);
        }
    }
}

/// Push an independent copy of the top value; an empty stack is an error.
pub fn duplicate(stack: &mut Vec<Value>) -> (r: Result<(), EvalError>)
    ensures
        ({
            let sv = stack_view(old(stack)@);
            if sv.len() == 0 {
                r == Err::<(), EvalError>(EvalError::NothingToDuplicate) && stack_view(
                    final(stack)@,
                ) == sv
            } else {
                r is Ok && stack_view(final(stack)@) == sv.push(sv.last())
            }
        }),
{
    if stack.len() == 0 {
        return Err(EvalError::NothingToDuplicate);
    }
    let v = stack[stack.len() - 1].dup();
    stack.push(v);
    proof {
        lemma_stack_view_push(old(stack)@, stack@.last());
    }
    Ok(())
}

/// Keep a popped stream behind a lazy filter.
pub fn filter(f: Vec<Token>, stack: &mut Vec<Value>) -> (r: Result<(), EvalError>)
    ensures
        ({
            let pi = pop_iter_spec(stack_view(old(stack)@));
            match pi.0 {
                Err(e) => r == Err::<(), EvalError>(e) && stack_view(final(stack)@) == pi.1,
                Ok(s) => r is Ok && stack_view(final(stack)@) == pi.1.push(
                    ValS::Iter(StrS::Filtered { body: toks_view(f@), inner: Box::new(s) }),
                ),
            }
        }),
{
    let s = match pop_iter(stack) {
        Ok(s) => s,
        Err(e) => {
            return Err(e);
        },
    };
    let ghost mid = stack@;
    let v = Value::Iter(Stream::Filtered { body: f, inner: Box::new(s) });
    stack.push(v);
    proof {
        lemma_stack_view_push(mid, stack@.last());
    }
    Ok(())
}

/// Put a popped stream behind a lazy element-wise map.
pub fn map(f: Vec<Token>, stack: &mut Vec<Value>) -> (r: Result<(), EvalError>)
    ensures
        ({
            let pi = pop_iter_spec(stack_view(old(stack)@));
            match pi.0 {
                Err(e) => r == Err::<(), EvalError>(e) && stack_view(final(stack)@) == pi.1,
                Ok(s) => r is Ok && stack_view(final(stack)@) == pi.1.push(
                    ValS::Iter(StrS::Mapped { body: toks_view(f@), inner: Box::new(s) }),
                ),
            }
        }),
{
    let s = match pop_iter(stack) {
        Ok(s) => s,
        Err(e) => {
            return Err(e);
        },
    };
    let ghost mid = stack@;
    let v = Value::Iter(Stream::Mapped { body: f, inner: Box::new(s) });
    stack.push(v);
    proof {
        lemma_stack_view_push(mid, stack@.last());
    }
    Ok(())
}

/// Pull one element from a stream, returning the advanced stream.
pub fn stream_step(s: Stream, out: &mut Vec<u8>, fuel: u64) -> (r: (
    Result<Option<i64>, EvalError>,
    Stream,
))
    ensures
        ({
            let sn = stream_next_spec(s@, old(out)@, fuel as nat);
            r.0 == sn.res && r.1@ == sn.strm && final(out)@ == sn.out
        }),
    decreases fuel, 0int,
{
    if fuel == 0 {
        return (Err(EvalError::OutOfFuel), s);
    }
    match s {
        Stream::Range { next, last } => {
            if next > last {
                (Ok(None), Stream::Range { next, last })
            } else if next < last {
                (Ok(Some(next)), Stream::Range { next: next + 1, last })
            } else {
                (Ok(Some(next)), Stream::Range { next: 1, last: 0 })
            }
        },
        Stream::Taken { remaining, inner } => {
            if remaining == 0 {
                (Ok(None), Stream::Taken { remaining, inner })
            } else {
                let (r0, s2) = stream_step(*inner, out, fuel - 1);
                match r0 {
                    Err(e) => (Err(e), Stream::Taken { remaining, inner: Box::new(s2) }),
                    Ok(None) => (Ok(None), Stream::Taken { remaining, inner: Box::new(s2) }),
                    Ok(Some(v)) => (
                        Ok(Some(v)),
                        Stream::Taken { remaining: remaining - 1, inner: Box::new(s2) },
                    ),
                }
            }
        },
        Stream::Mapped { body, inner } => {
            let (r0, s2) = stream_step(*inner, out, fuel - 1);
            match r0 {
                Err(e) => (Err(e), Stream::Mapped { body, inner: Box::new(s2) }),
                Ok(None) => (Ok(None), Stream::Mapped { body, inner: Box::new(s2) }),
                Ok(Some(v)) => {
                    let mut tmp: Vec<Value> = Vec::new();
                    tmp.push(Value::Number(v));
                    proof {
                        assert(stack_view(tmp@) =~= seq![ValS::Number(v)]);
                    }
                    match eval(&body, &mut tmp, out, fuel - 1) {
                        Err(e) => (Err(e), Stream::Mapped { body, inner: Box::new(s2) }),
                        Ok(u) => match pop_number(&mut tmp) {
                            Err(e) => (Err(e), Stream::Mapped { body, inner: Box::new(s2) }),
                            Ok(m) => (Ok(Some(m)), Stream::Mapped { body, inner: Box::new(s2) }),
                        },
                    }
                },
            }
        },
        Stream::Filtered { body, inner } => {
            let (r0, s2) = stream_step(*inner, out, fuel - 1);
            match r0 {
                Err(e) => (Err(e), Stream::Filtered { body, inner: Box::new(s2) }),
                Ok(None) => (Ok(None), Stream::Filtered { body, inner: Box::new(s2) }),
                Ok(Some(v)) => {
                    let mut tmp: Vec<Value> = Vec::new();
                    tmp.push(Value::Number(v));
                    proof {
                        assert(stack_view(tmp@) =~= seq![ValS::Number(v)]);
                    }
                    match eval(&body, &mut tmp, out, fuel - 1) {
                        Err(e) => (Err(e), Stream::Filtered { body, inner: Box::new(s2) }),
                        Ok(u) => {
                            if pop_bool(&mut tmp) {
                                (Ok(Some(v)), Stream::Filtered { body, inner: Box::new(s2) })
                            } else {
                                stream_step(
                                    Stream::Filtered { body, inner: Box::new(s2) },
                                    out,
                                    fuel - 1,
                                )
                            }
                        },
                    }
                },
            }
        },
    }
}

/// Pop a stream and fold its elements into an accumulator kept on the shared
/// stack: with `first`, the first element seeds the accumulator; every other
/// element is pushed and the body run to combine it.
#[verifier::loop_isolation(false)]
#[verifier::rlimit(50)]
pub fn fold(f: &Vec<Token>, first: bool, stack: &mut Vec<Value>, out: &mut Vec<u8>, fuel: u64) -> (r:
    Result<(), EvalError>)
    ensures
        ({
            let fo = fold_step(
                toks_view(f@),
                first,
                stack_view(old(stack)@),
                old(out)@,
                fuel as nat,
            );
            stack_view(final(stack)@) == fo.stack && final(out)@ == fo.out && (match r {
                Ok(u) => fo.err is None,
                Err(e) => fo.err == Some(e),
            })
        }),
    decreases fuel, 1int,
{
    let mut s = match pop_iter(stack) {
        Ok(s) => s,
        Err(e) => {
            return Err(e);
        },
    };
    if first {
        let (r0, s2) = stream_step(s, out, fuel);
        s = s2;
        match r0 {
            Err(e) => {
                return Err(e);
            },
            Ok(None) => {
                return Ok(());
            },
            Ok(Some(v)) => {
                number(v, stack);
            },
        }
    }
    let ghost target = fold_drain_spec(
        toks_view(f@),
        s@,
        stack_view(stack@),
        out@,
        fuel as nat,
    );
    proof {
        assert(fold_step(
            toks_view(f@),
            first,
            stack_view(old(stack)@),
            old(out)@,
            fuel as nat,
        ) == target);
    }
    let mut fl: u64 = fuel;
    loop
        invariant
            fl <= fuel,
            target == fold_drain_spec(toks_view(f@), s@, stack_view(stack@), out@, fl as nat),
        decreases fl,
    {
        let ghost s_l = s@;
        let ghost st_l = stack_view(stack@);
        let ghost out_l = out@;
        let ghost fl_l = fl as nat;
        if fl == 0 {
            return Err(EvalError::OutOfFuel);
        }
        fl = fl - 1;
        let (r0, s2) = stream_step(s, out, fl);
        s = s2;
        let ghost sn = stream_next_spec(s_l, out_l, (fl_l - 1) as nat);
        match r0 {
            Err(e) => {
                proof {
                    assert(target == EOut { stack: st_l, out: sn.out, err: Some(e) });
                }
                return Err(e);
            },
            Ok(None) => {
                proof {
                    assert(target == EOut { stack: st_l, out: sn.out, err: None });
                }
                return Ok(());
            },
            Ok(Some(v)) => {
                number(v, stack);
                let ghost ev = eval_spec(
                    toks_view(f@),
                    0,
                    st_l.push(ValS::Number(v)),
                    sn.out,
                    (fl_l - 1) as nat,
                );
                match eval(f, stack, out, fl) {
                    Err(e) => {
                        proof {
                            assert(target == ev);
                        }
                        return Err(e);
                    },
                    Ok(u) => {
                        proof {
                            assert(target == fold_drain_spec(
                                toks_view(f@),
                                sn.strm,
                                ev.stack,
                                ev.out,
                                (fl_l - 1) as nat,
                            ));
                        }
                    },
                }
            },
        }
    }
}

/// Drain a stream to its element count.
#[verifier::loop_isolation(false)]
#[verifier::rlimit(50)]
fn drain_count(s: Stream, out: &mut Vec<u8>, fuel: u64) -> (r: Result<u64, EvalError>)
    ensures
        ({
            let d = drain_count_spec(s@, old(out)@, fuel as nat);
            final(out)@ == d.out && (match r {
                Ok(c) => d.err is None && c as nat == d.cnt,
                Err(e) => d.err == Some(e),
            })
        }),
    decreases fuel, 0int,
{
    let ghost target = drain_count_spec(s@, old(out)@, fuel as nat);
    let mut cur = s;
    let mut c: u64 = 0;
    let mut fl: u64 = fuel;
    loop
        invariant
            fl <= fuel,
            c <= fuel - fl,
            ({
                let d = drain_count_spec(cur@, out@, fl as nat);
                target.err == d.err && target.out == d.out && target.cnt == c + d.cnt
            }),
        decreases fl,
    {
        let ghost cur_l = cur@;
        let ghost out_l = out@;
        let ghost fl_l = fl as nat;
        if fl == 0 {
            return Err(EvalError::OutOfFuel);
        }
        fl = fl - 1;
        let (r0, s2) = stream_step(cur, out, fl);
        cur = s2;
        let ghost sn = stream_next_spec(cur_l, out_l, (fl_l - 1) as nat);
        proof {
            assert(drain_count_spec(cur_l, out_l, fl_l) == (match sn.res {
                Err(e) => DC { cnt: 0, err: Some(e), out: sn.out },
                Ok(None) => DC { cnt: 0, err: None, out: sn.out },
                Ok(Some(v)) => {
                    let d = drain_count_spec(sn.strm, sn.out, (fl_l - 1) as nat);
                    DC { cnt: d.cnt + 1, err: d.err, out: d.out }
                },
            }));
        }
        match r0 {
            Err(e) => {
                return Err(e);
            },
            Ok(None) => {
                return Ok(c);
            },
            Ok(Some(v)) => {
                c = c + 1;
            },
        }
    }
}

/// Drain a stream to print it: each element and one space, then a line break.
#[verifier::loop_isolation(false)]
#[verifier::rlimit(50)]
fn drain_print(s: Stream, out: &mut Vec<u8>, fuel: u64) -> (r: Result<(), EvalError>)
    ensures
        ({
            let d = drain_print_spec(s@, old(out)@, fuel as nat);
            final(out)@ == d.out && (match r {
                Ok(u) => d.err is None,
                Err(e) => d.err == Some(e),
            })
        }),
    decreases fuel, 0int,
{
    let ghost target = drain_print_spec(s@, old(out)@, fuel as nat);
    let mut cur = s;
    let mut fl: u64 = fuel;
    loop
        invariant
            fl <= fuel,
            target == drain_print_spec(cur@, out@, fl as nat),
        decreases fl,
    {
        let ghost cur_l = cur@;
        let ghost out_l = out@;
        let ghost fl_l = fl as nat;
        if fl == 0 {
            return Err(EvalError::OutOfFuel);
        }
        fl = fl - 1;
        let (r0, s2) = stream_step(cur, out, fl);
        cur = s2;
        let ghost sn = stream_next_spec(cur_l, out_l, (fl_l - 1) as nat);
        match r0 {
            Err(e) => {
                proof {
                    assert(target == DP { err: Some(e), out: sn.out });
                }
                return Err(e);
            },
            Ok(None) => {
                out.push(10);
                proof {
                    assert(out@ =~= sn.out + seq![10u8]);
                    assert(target == DP { err: None, out: sn.out + seq![10u8] });
                }
                return Ok(());
            },
            Ok(Some(v)) => {
                push_int_image(out, v);
                out.push(32);
                proof {
                    assert(out@ =~= (sn.out + int_image(v as int)) + seq![32u8]);
                    assert(target == drain_print_spec(
                        sn.strm,
                        sn.out + int_image(v as int) + seq![32u8],
                        (fl_l - 1) as nat,
                    ));
                }
            },
        }
    }
}

/// Turn a popped number into the stream counting up to it, or drain a popped
/// stream to its count; demands a value.
pub fn length(stack: &mut Vec<Value>, out: &mut Vec<u8>, fuel: u64) -> (r: Result<(), EvalError>)
    ensures
        ({
            let lo = length_step(stack_view(old(stack)@), old(out)@, fuel as nat);
            stack_view(final(stack)@) == lo.stack && final(out)@ == lo.out && (match r {
                Ok(u) => lo.err is None,
                Err(e) => lo.err == Some(e),
            })
        }),
    decreases fuel, 1int,
{
    match stack.pop() {
        None => Err(EvalError::LengthOfNothing),
        Some(Value::Number(n)) => {
            proof {
                lemma_stack_view_drop_last(old(stack)@);
            }
            let s = if n <= 0 {
                Stream::Range { next: 1, last: 0 }
            } else {
                Stream::Range { next: 0, last: n - 1 }
            };
            let ghost mid = stack@;
            stack.push(Value::Iter(s));
            proof {
                lemma_stack_view_push(mid, stack@.last());
            }
            Ok(())
        },
        Some(Value::Iter(s)) => {
            proof {
                lemma_stack_view_drop_last(old(stack)@);
            }
            match drain_count(s, out, fuel) {
                Err(e) => Err(e),
                Ok(c) => {
                    let v: i64 = if c > 0x7fff_ffff_ffff_ffffu64 {
                        i64::MAX
                    } else {
                        c as i64
                    };
                    let ghost mid = stack@;
                    stack.push(Value::Number(v));
                    proof {
                        lemma_stack_view_push(mid, stack@.last());
                    }
                    Ok(())
                },
            }
        },
    }
}

/// Print the popped top of the stack: a number and a line break, or a fully
/// drained stream; an empty stack prints the default number `0`.
pub fn print(stack: &mut Vec<Value>, out: &mut Vec<u8>, fuel: u64) -> (r: Result<(), EvalError>)
    ensures
        ({
            let po = print_step(stack_view(old(stack)@), old(out)@, fuel as nat);
            stack_view(final(stack)@) == po.stack && final(out)@ == po.out && (match r {
                Ok(u) => po.err is None,
                Err(e) => po.err == Some(e),
            })
        }),
    decreases fuel, 1int,
{
    match stack.pop() {
        None => {
            push_int_image(out, 0);
            out.push(10);
            proof {
                assert(out@ =~= (old(out)@ + int_image(0)) + seq![10u8]);
            }
            Ok(())
        },
        Some(Value::Number(n)) => {
            proof {
                lemma_stack_view_drop_last(old(stack)@);
            }
            push_int_image(out, n);
            out.push(10);
            proof {
                assert(out@ =~= (old(out)@ + int_image(n as int)) + seq![10u8]);
            }
            Ok(())
        },
        Some(Value::Iter(s)) => {
            proof {
                lemma_stack_view_drop_last(old(stack)@);
            }
            drain_print(s, out, fuel)
        },
    }
}

/// Execute one opcode against the machine state.
#[verifier::rlimit(100)]
fn step(t: &Token, stack: &mut Vec<Value>, out: &mut Vec<u8>, fuel: u64) -> (r: Result<
    (),
    EvalError,
>)
    ensures
        ({
            let so = step_spec(t@, stack_view(old(stack)@), old(out)@, fuel as nat);
            stack_view(final(stack)@) == so.stack && final(out)@ == so.out && (match r {
                Ok(u) => so.err is None,
                Err(e) => so.err == Some(e),
            })
        }),
    decreases fuel, 2int,
{
    if fuel == 0 {
        return Err(EvalError::OutOfFuel);
    }
    match t {
        Token::Number(n) => {
            number(*n, stack);
            Ok(())
        },
        Token::Plus => plus(stack),
        Token::Minus => minus(stack),
        Token::Times => times(stack),
        Token::Divide => divide(stack),
        Token::Modulus => modulus(stack),
        Token::Divides => divides(stack),
        Token::Floor => floor(stack),
        Token::Ceil => ceil(stack),
        Token::Greater => greater(stack),
        Token::Less => less(stack),
        Token::Eq => eq(stack),
        Token::Neq => neq(stack),
        Token::Natural => {
            natural(stack);
            Ok(())
        },
        Token::NaturalTo => natural_to(stack),
        Token::Range => range(stack),
        Token::Take => take(stack),
        Token::Length => length(stack, out, fuel - 1),
        Token::Fold(body, first) => fold(body, *first, stack, out, fuel - 1),
        Token::Filter(body) => filter(dup_tokens(body), stack),
        Token::MapOp(body) => map(dup_tokens(body), stack),
        Token::Pop => {
            pop(stack);
            Ok(())
        },
        Token::Duplicate => duplicate(stack),
        Token::Print => print(stack, out, fuel - 1),
    }
}

/// Run a token sequence against the stack, in order, appending printed bytes
/// to `out`, within a step budget of `fuel`. The result is exactly the state
/// `eval_spec` assigns to the program: on `Ok` no error occurred; on `Err`
/// execution stopped there, with the stack and the output as the
/// specification leaves them.
#[verifier::loop_isolation(false)]
#[verifier::rlimit(50)]
pub fn eval(tokens: &Vec<Token>, stack: &mut Vec<Value>, out: &mut Vec<u8>, fuel: u64) -> (r:
    Result<(), EvalError>)
    ensures
        ({
            let e = eval_spec(
                toks_view(tokens@),
                0,
                stack_view(old(stack)@),
                old(out)@,
                fuel as nat,
            );
            stack_view(final(stack)@) == e.stack && final(out)@ == e.out && (match r {
                Ok(u) => e.err is None,
                Err(err) => e.err == Some(err),
            })
        }),
    decreases fuel, 3int,
{
    let ghost t0 = toks_view(tokens@);
    let ghost target = eval_spec(t0, 0, stack_view(old(stack)@), old(out)@, fuel as nat);
    proof {
        lemma_toks_view_index(tokens@);
    }
    let mut i: usize = 0;
    let mut f: u64 = fuel;
    loop
        invariant
            i <= tokens@.len(),
            f <= fuel,
            t0 == toks_view(tokens@),
            t0.len() == tokens@.len(),
            forall|j: int| 0 <= j < tokens@.len() ==> t0[j] == crate::token::tok_view(tokens@[j]),
            target == eval_spec(t0, i as int, stack_view(stack@), out@, f as nat),
        decreases tokens@.len() - i,
    {
        if i >= tokens.len() {
            break ;
        }
        if f == 0 {
            return Err(EvalError::OutOfFuel);
        }
        f = f - 1;
        match step(&tokens[i], stack, out, f) {
            Err(e) => {
                return Err(e);
            },
            Ok(u) => {
                i = i + 1;
            },
        }
    }
    Ok(())
}

} // verus!
