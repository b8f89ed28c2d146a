//! The opcode datatype.
//!
//! A `Token` is one operation of the language. Higher-order operators carry
//! their executable body as a fully parsed token sequence: only stream
//! *values* are lazy at run time, never the program structure.

use vstd::prelude::*;

verus! {

/// One opcode of the language, as produced by the tokenizer.
///
/// `Fold(body, keep_first)` seeds its accumulator with the stream's first
/// element when `keep_first` is true; `Filter` and `Map` carry the body they
/// run per element.
#[derive(Debug)]
pub enum Token {
    Number(i64),
    Plus,
    Minus,
    Times,
    Divide,
    Modulus,
    Divides,
    Floor,
    Ceil,
    Greater,
    Less,
    Eq,
    Neq,
    Natural,
    NaturalTo,
    Range,
    Take,
    Length,
    Fold(Vec<Token>, bool),
    Filter(Vec<Token>),
    MapOp(Vec<Token>),
    Pop,
    Duplicate,
    Print,
}

/// The mathematical model of a `Token`: the same shape over `Seq`.
pub enum TokS {
    Number(i64),
    Plus,
    Minus,
    Times,
    Divide,
    Modulus,
    Divides,
    Floor,
    Ceil,
    Greater,
    Less,
    Eq,
    Neq,
    Natural,
    NaturalTo,
    Range,
    Take,
    Length,
    Fold(Seq<TokS>, bool),
    Filter(Seq<TokS>),
    MapOp(Seq<TokS>),
    Pop,
    Duplicate,
    Print,
}

/// The model of one token.
pub open spec fn tok_view(t: Token) -> TokS
    decreases t,
{
    match t {
        Token::Number(n) => TokS::Number(n),
        Token::Plus => TokS::Plus,
        Token::Minus => TokS::Minus,
        Token::Times => TokS::Times,
        Token::Divide => TokS::Divide,
        Token::Modulus => TokS::Modulus,
        Token::Divides => TokS::Divides,
        Token::Floor => TokS::Floor,
        Token::Ceil => TokS::Ceil,
        Token::Greater => TokS::Greater,
        Token::Less => TokS::Less,
        Token::Eq => TokS::Eq,
        Token::Neq => TokS::Neq,
        Token::Natural => TokS::Natural,
        Token::NaturalTo => TokS::NaturalTo,
        Token::Range => TokS::Range,
        Token::Take => TokS::Take,
        Token::Length => TokS::Length,
        Token::Fold(body, first) => TokS::Fold(toks_view(body@), first),
        Token::Filter(body) => TokS::Filter(toks_view(body@)),
        Token::MapOp(body) => TokS::MapOp(toks_view(body@)),
        Token::Pop => TokS::Pop,
        Token::Duplicate => TokS::Duplicate,
        Token::Print => TokS::Print,
    }
}

/// The model of a token sequence, element by element.
pub open spec fn toks_view(ts: Seq<Token>) -> Seq<TokS>
    decreases ts,
{
    if ts.len() == 0 {
        Seq::empty()
    } else {
        toks_view(ts.drop_last()).push(tok_view(ts.last()))
    }
}

impl View for Token {
    type V = TokS;

    open spec fn view(&self) -> TokS {
        tok_view(*self)
    }
}

/// `toks_view` maps `tok_view` over the sequence: same length, same elements.
pub proof fn lemma_toks_view_index(ts: Seq<Token>)
    ensures
        toks_view(ts).len() == ts.len(),
        forall|i: int| 0 <= i < ts.len() ==> toks_view(ts)[i] == tok_view(ts[i]),
    decreases ts,
{
    if ts.len() > 0 {
        lemma_toks_view_index(ts.drop_last());
    }
}

/// Appending one token to a sequence appends its model.
pub proof fn lemma_toks_view_push(ts: Seq<Token>, t: Token)
    ensures
        toks_view(ts.push(t)) == toks_view(ts).push(tok_view(t)),
{
    assert(ts.push(t).drop_last() =~= ts);
    assert(ts.push(t).last() == t);
}

impl Token {
    /// A structural copy: the duplicate has the same model as the original.
    pub fn dup(&self) -> (t: Token)
        ensures
            t@ == self@,
        decreases self,
    {
        match self {
            Token::Number(n) => Token::Number(*n),
            Token::Plus => Token::Plus,
            Token::Minus => Token::Minus,
            Token::Times => Token::Times,
            Token::Divide => Token::Divide,
            Token::Modulus => Token::Modulus,
            Token::Divides => Token::Divides,
            Token::Floor => Token::Floor,
            Token::Ceil => Token::Ceil,
            Token::Greater => Token::Greater,
            Token::Less => Token::Less,
            Token::Eq => Token::Eq,
            Token::Neq => Token::Neq,
            Token::Natural => Token::Natural,
            Token::NaturalTo => Token::NaturalTo,
            Token::Range => Token::Range,
            Token::Take => Token::Take,
            Token::Length => Token::Length,
            Token::Fold(body, first) => Token::Fold(dup_tokens(body), *first),
            Token::Filter(body) => Token::Filter(dup_tokens(body)),
            Token::MapOp(body) => Token::MapOp(dup_tokens(body)),
            Token::Pop => Token::Pop,
            Token::Duplicate => Token::Duplicate,
            Token::Print => Token::Print,
        }
    }
}

/// A structural copy of a whole token sequence, with the same model.
pub fn dup_tokens(ts: &Vec<Token>) -> (r: Vec<Token>)
    ensures
        toks_view(r@) == toks_view(ts@),
    decreases ts,
{
    let mut r: Vec<Token> = Vec::new();
    let mut i: usize = 0;
    proof {
        lemma_toks_view_index(ts@);
    }
    while i < ts.len()
        invariant
            i <= ts.len(),
            r@.len() == i,
            toks_view(r@) == toks_view(ts@.subrange(0, i as int)),
        decreases ts.len() - i,
    {
        let t = ts[i].dup();
        proof {
            lemma_toks_view_push(r@, t);
            lemma_toks_view_index(ts@.subrange(0, i as int));
            lemma_toks_view_index(ts@.subrange(0, i + 1));
            lemma_toks_view_index(ts@);
            assert(toks_view(ts@.subrange(0, i + 1)) =~= toks_view(
                ts@.subrange(0, i as int),
            ).push(tok_view(ts@[i as int])));
        }
        r.push(t);
        i = i + 1;
    }
    proof {
        assert(ts@.subrange(0, ts@.len() as int) =~= ts@);
    }
    r
}

} // verus!
