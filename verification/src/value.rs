//! The value model: numbers and clonable lazy streams.
//!
//! A stream is a small closed set of generators: an inclusive ascending
//! integer range, and three derived combinators (`Taken`, `Mapped`,
//! `Filtered`) that wrap an inner stream — the latter two together with an
//! owned copy of the executable body they run per element. No element is
//! computed until pulled, and duplicating a stream copies its *current*
//! iteration state, so the copy continues independently from the same point.

use vstd::prelude::*;

use crate::token::Token;
use crate::token::TokS;
use crate::token::dup_tokens;
use crate::token::toks_view;

verus! {

/// A lazy stream of numbers.
///
/// `Range { next, last }` yields `next, next + 1, ..., last` (empty when
/// `next > last`); an unbounded constructor uses `last == i64::MAX`.
/// `Taken` bounds its inner stream to at most `remaining` further elements.
/// `Mapped` and `Filtered` run `body` on a fresh one-element stack per inner
/// element when pulled.
#[derive(Debug)]
pub enum Stream {
    Range { next: i64, last: i64 },
    Taken { remaining: u64, inner: Box<Stream> },
    Mapped { body: Vec<Token>, inner: Box<Stream> },
    Filtered { body: Vec<Token>, inner: Box<Stream> },
}

/// A value on the evaluator's stack: a number or a stream.
#[derive(Debug)]
pub enum Value {
    Number(i64),
    Iter(Stream),
}

/// The mathematical model of a `Stream`.
pub enum StrS {
    Range { next: i64, last: i64 },
    Taken { remaining: nat, inner: Box<StrS> },
    Mapped { body: Seq<TokS>, inner: Box<StrS> },
    Filtered { body: Seq<TokS>, inner: Box<StrS> },
}

/// The mathematical model of a `Value`.
pub enum ValS {
    Number(i64),
    Iter(StrS),
}

/// The model of one stream.
pub open spec fn stream_view(s: Stream) -> StrS
    decreases s,
{
    match s {
        Stream::Range { next, last } => StrS::Range { next, last },
        Stream::Taken { remaining, inner } => StrS::Taken {
            remaining: remaining as nat,
            inner: Box::new(stream_view(*inner)),
        },
        Stream::Mapped { body, inner } => StrS::Mapped {
            body: toks_view(body@),
            inner: Box::new(stream_view(*inner)),
        },
        Stream::Filtered { body, inner } => StrS::Filtered {
            body: toks_view(body@),
            inner: Box::new(stream_view(*inner)),
        },
    }
}

/// The model of one value.
pub open spec fn val_view(v: Value) -> ValS {
    match v {
        Value::Number(n) => ValS::Number(n),
        Value::Iter(s) => ValS::Iter(stream_view(s)),
    }
}

impl View for Stream {
    type V = StrS;

    open spec fn view(&self) -> StrS {
        stream_view(*self)
    }
}

impl View for Value {
    type V = ValS;

    open spec fn view(&self) -> ValS {
        val_view(*self)
    }
}

/// The model of a whole stack: the models of its values, bottom first.
pub open spec fn stack_view(s: Seq<Value>) -> Seq<ValS> {
    Seq::new(s.len(), |i: int| val_view(s[i]))
}

impl Stream {
    /// A duplicate continuing independently from the current position: the
    /// copy has the same model, hence the same remaining elements.
    pub fn dup(&self) -> (r: Stream)
        ensures
            r@ == self@,
        decreases self,
    {
        match self {
            Stream::Range { next, last } => Stream::Range { next: *next, last: *last },
            Stream::Taken { remaining, inner } => Stream::Taken {
                remaining: *remaining,
                inner: Box::new(inner.dup()),
            },
            Stream::Mapped { body, inner } => Stream::Mapped {
                body: dup_tokens(body),
                inner: Box::new(inner.dup()),
            },
            Stream::Filtered { body, inner } => Stream::Filtered {
                body: dup_tokens(body),
                inner: Box::new(inner.dup()),
            },
        }
    }
}

impl Value {
    /// A structural copy with the same model; a stream copy iterates
    /// independently from the original's current position.
    pub fn dup(&self) -> (r: Value)
        ensures
            r@ == self@,
    {
        match self {
            Value::Number(n) => Value::Number(*n),
            Value::Iter(s) => Value::Iter(s.dup()),
        }
    }
}

/// Pushing a value onto a stack pushes its model.
pub proof fn lemma_stack_view_push(s: Seq<Value>, v: Value)
    ensures
        stack_view(s.push(v)) == stack_view(s).push(val_view(v)),
{
    assert(stack_view(s.push(v)) =~= stack_view(s).push(val_view(v)));
}

/// Dropping the top of a stack drops the top of its model.
pub proof fn lemma_stack_view_drop_last(s: Seq<Value>)
    requires
        s.len() > 0,
    ensures
        stack_view(s.drop_last()) == stack_view(s).drop_last(),
{
    assert(stack_view(s.drop_last()) =~= stack_view(s).drop_last());
}

} // verus!
