//! The tokenizer.
//!
//! Source text is scanned left to right. Single characters map to fixed-arity
//! opcodes; maximal runs of hexadecimal digits merge into one base-16 number
//! literal; higher-order operators take an executable body, either the single
//! next character (short form) or everything up to the matching `}` (block
//! form). Nesting is handled with an explicit stack of partially built token
//! lists, one frame per open block, so arbitrarily deep nesting costs no call
//! depth.
//!
//! The specification `lex_spec` is a pushdown machine consuming one or two
//! characters per step; `lex` is proved to return exactly its result.

use vstd::prelude::*;

use crate::token::TokS;
use crate::token::Token;
use crate::token::lemma_toks_view_push;
use crate::token::toks_view;

verus! {

/// A fatal tokenizing error: the whole program is rejected before any
/// evaluation.
#[derive(Debug, Clone, Copy, PartialEq, Eq)]
pub enum LexError {
    /// A `}` appeared while no block was open.
    BlockEndOutsideBlock,
    /// A character that is no opcode, digit or whitespace.
    UnknownChar(char),
    /// A hexadecimal literal too large for a 64-bit number.
    NumberTooLarge,
}

/// Which higher-order operator an open block belongs to.
#[derive(Debug, Clone, Copy, PartialEq, Eq)]
pub enum BodyKind {
    /// `|`: fold seeding the accumulator with the first element.
    FoldFirst,
    /// `\`: fold running the body for every element.
    FoldPlain,
    /// `#`: filter.
    FilterBody,
    /// `M`: map.
    MapBody,
}

/// One frame of the tokenizer's model: the tokens built so far at this
/// nesting level, and which operator opened the level (`None` at the bottom).
#[verifier::ext_equal]
pub struct LexFrame {
    pub toks: Seq<TokS>,
    pub kind: Option<BodyKind>,
}

/// The hexadecimal value of a digit character, if it is one. Literal digits
/// are `0`-`9` and upper-case `A`-`F`.
pub open spec fn hex_val(c: char) -> Option<i64> {
    if c == '0' {
        Some(0i64)
    } else if c == '1' {
        Some(1i64)
    } else if c == '2' {
        Some(2i64)
    } else if c == '3' {
        Some(3i64)
    } else if c == '4' {
        Some(4i64)
    } else if c == '5' {
        Some(5i64)
    } else if c == '6' {
        Some(6i64)
    } else if c == '7' {
        Some(7i64)
    } else if c == '8' {
        Some(8i64)
    } else if c == '9' {
        Some(9i64)
    } else if c == 'A' {
        Some(10i64)
    } else if c == 'B' {
        Some(11i64)
    } else if c == 'C' {
        Some(12i64)
    } else if c == 'D' {
        Some(13i64)
    } else if c == 'E' {
        Some(14i64)
    } else if c == 'F' {
        Some(15i64)
    } else {
        None
    }
}

/// Whitespace that the tokenizer skips.
pub open spec fn is_space(c: char) -> bool {
    c == ' ' || c == '\t' || c == '\n' || c == '\r'
}

/// The fixed table of single characters that map to one opcode outright.
pub open spec fn char_token(c: char) -> Option<TokS> {
    if c == '+' {
        Some(TokS::Plus)
    } else if c == '-' {
        Some(TokS::Minus)
    } else if c == '*' {
        Some(TokS::Times)
    } else if c == '/' {
        Some(TokS::Divide)
    } else if c == '%' {
        Some(TokS::Modulus)
    } else if c == '_' {
        Some(TokS::Divides)
    } else if c == '[' {
        Some(TokS::Floor)
    } else if c == ']' {
        Some(TokS::Ceil)
    } else if c == '>' {
        Some(TokS::Greater)
    } else if c == '<' {
        Some(TokS::Less)
    } else if c == '=' {
        Some(TokS::Eq)
    } else if c == '!' {
        Some(TokS::Neq)
    } else if c == 'N' {
        Some(TokS::Natural)
    } else if c == 'n' {
        Some(TokS::NaturalTo)
    } else if c == 'R' {
        Some(TokS::Range)
    } else if c == 't' {
        Some(TokS::Take)
    } else if c == ',' {
        Some(TokS::Length)
    } else if c == ';' {
        Some(TokS::Pop)
    } else if c == '$' {
        Some(TokS::Duplicate)
    } else if c == 'p' {
        Some(TokS::Print)
    } else {
        None
    }
}

/// The token a block operator builds from its finished body.
pub open spec fn make_token(k: BodyKind, body: Seq<TokS>) -> TokS {
    match k {
        BodyKind::FoldFirst => TokS::Fold(body, true),
        BodyKind::FoldPlain => TokS::Fold(body, false),
        BodyKind::FilterBody => TokS::Filter(body),
        BodyKind::MapBody => TokS::MapOp(body),
    }
}

/// The body of a short-form higher-order operator: the single next character
/// tokenized as a complete program of its own (so a block opener there yields
/// an operator with an empty body, and whitespace or end of input an empty
/// body).
pub open spec fn single_body(c: char) -> Result<Seq<TokS>, LexError> {
    if c == 'F' {
        Ok(seq![TokS::Fold(Seq::empty(), false)])
    } else if hex_val(c) is Some {
        Ok(seq![TokS::Number(hex_val(c).unwrap())])
    } else if char_token(c) is Some {
        Ok(seq![char_token(c).unwrap()])
    } else if is_space(c) {
        Ok(Seq::empty())
    } else if c == 's' {
        Ok(seq![TokS::Fold(seq![TokS::Plus], true)])
    } else if c == 'f' {
        Ok(seq![TokS::Fold(Seq::empty(), true)])
    } else if c == 'm' {
        Ok(seq![TokS::MapOp(Seq::empty())])
    } else if c == '|' {
        Ok(seq![TokS::Fold(Seq::empty(), true)])
    } else if c == '\\' {
        Ok(seq![TokS::Fold(Seq::empty(), false)])
    } else if c == '#' {
        Ok(seq![TokS::Filter(Seq::empty())])
    } else if c == 'M' {
        Ok(seq![TokS::MapOp(Seq::empty())])
    } else if c == '}' {
        Err(LexError::BlockEndOutsideBlock)
    } else {
        Err(LexError::UnknownChar(c))
    }
}

/// The top frame with one more finished token.
pub open spec fn push_top(frames: Seq<LexFrame>, t: TokS) -> Seq<LexFrame>
    recommends
        frames.len() > 0,
{
    frames.update(
        frames.len() - 1,
        LexFrame { toks: frames.last().toks.push(t), kind: frames.last().kind },
    )
}

/// The pending hexadecimal literal, if any, finished into a number token.
pub open spec fn flush_top(frames: Seq<LexFrame>, cur: Option<i64>) -> Seq<LexFrame>
    recommends
        frames.len() > 0,
{
    match cur {
        None => frames,
        Some(v) => push_top(frames, TokS::Number(v)),
    }
}

/// The frame stack at the start of tokenizing: one empty bottom frame.
pub open spec fn init_frames() -> Seq<LexFrame> {
    seq![LexFrame { toks: Seq::empty(), kind: None }]
}

/// The tokenizer as a pushdown machine over the source characters.
///
/// `i` is the cursor, `frames` the stack of partially built token lists (one
/// per open block above the bottom frame), `cur` a hexadecimal literal in
/// progress. `block` tells how an unmatched `}` at the bottom is treated:
/// inside a block it ends tokenizing, at the top level it is an error.
pub open spec fn lex_spec(
    s: Seq<char>,
    block: bool,
    i: int,
    frames: Seq<LexFrame>,
    cur: Option<i64>,
) -> Result<Seq<TokS>, LexError>
    recommends
        frames.len() > 0,
    decreases s.len() - (if i < s.len() { i } else { s.len() as int }), frames.len(),
{
    if frames.len() == 0 {
        Ok(Seq::empty())
    } else if i < 0 || i >= s.len() {
        // End of input: finish the pending literal, then close every block
        // still open (reaching the end inside a block just ends that block).
        let fl = flush_top(frames, cur);
        if fl.len() <= 1 {
            Ok(fl.last().toks)
        } else {
            match fl.last().kind {
                Some(k) => lex_spec(
                    s,
                    block,
                    i,
                    push_top(fl.drop_last(), make_token(k, fl.last().toks)),
                    None,
                ),
                None => Ok(fl.last().toks),
            }
        }
    } else {
        let c = s[i];
        if hex_val(c) is Some && (cur is Some || c != 'F') {
            let d = hex_val(c).unwrap();
            match cur {
                None => lex_spec(s, block, i + 1, frames, Some(d)),
                Some(v) => if 16 * (v as int) + (d as int) > i64::MAX {
                    Err(LexError::NumberTooLarge)
                } else {
                    lex_spec(s, block, i + 1, frames, Some((16 * v + d) as i64))
                },
            }
        } else {
            let fl = flush_top(frames, cur);
            if char_token(c) is Some {
                lex_spec(s, block, i + 1, push_top(fl, char_token(c).unwrap()), None)
            } else if is_space(c) {
                lex_spec(s, block, i + 1, fl, None)
            } else if c == 's' {
                lex_spec(s, block, i + 1, push_top(fl, TokS::Fold(seq![TokS::Plus], true)), None)
            } else if c == 'f' || c == 'F' || c == 'm' {
                // Short form: the body is the single next character, tokenized
                // as a one-character program of its own.
                let body = if i + 1 < s.len() {
                    single_body(s[i + 1])
                } else {
                    Ok(Seq::empty())
                };
                match body {
                    Err(e) => Err(e),
                    Ok(b) => {
                        let t = if c == 'f' {
                            TokS::Fold(b, true)
                        } else if c == 'F' {
                            TokS::Fold(b, false)
                        } else {
                            TokS::MapOp(b)
                        };
                        let ni = if i + 2 <= s.len() {
                            i + 2
                        } else {
                            s.len() as int
                        };
                        lex_spec(s, block, ni, push_top(fl, t), None)
                    },
                }
            } else if c == '\\' {
                lex_spec(s, block, i + 1, fl.push(LexFrame { toks: Seq::empty(), kind: Some(BodyKind::FoldPlain) }), None)
            } else if c == '|' {
                lex_spec(s, block, i + 1, fl.push(LexFrame { toks: Seq::empty(), kind: Some(BodyKind::FoldFirst) }), None)
            } else if c == '#' {
                lex_spec(s, block, i + 1, fl.push(LexFrame { toks: Seq::empty(), kind: Some(BodyKind::FilterBody) }), None)
            } else if c == 'M' {
                lex_spec(s, block, i + 1, fl.push(LexFrame { toks: Seq::empty(), kind: Some(BodyKind::MapBody) }), None)
            } else if c == '}' {
                match fl.last().kind {
                    Some(k) => lex_spec(
                        s,
                        block,
                        i + 1,
                        push_top(fl.drop_last(), make_token(k, fl.last().toks)),
                        None,
                    ),
                    None => if block {
                        Ok(fl.last().toks)
                    } else {
                        Err(LexError::BlockEndOutsideBlock)
                    },
                }
            } else {
                Err(LexError::UnknownChar(c))
            }
        }
    }
}

/// The specified result of tokenizing `s` from the start.
pub open spec fn lex_result(s: Seq<char>, block: bool) -> Result<Seq<TokS>, LexError> {
    lex_spec(s, block, 0, init_frames(), None)
}

/// The model of an executable tokenizer result.
pub open spec fn lex_res_view(r: Result<Vec<Token>, LexError>) -> Result<Seq<TokS>, LexError> {
    match r {
        Ok(ts) => Ok(toks_view(ts@)),
        Err(e) => Err(e),
    }
}

/// One frame of the executable tokenizer.
pub struct Frame {
    pub toks: Vec<Token>,
    pub kind: Option<BodyKind>,
}

/// The model of one executable frame.
pub open spec fn frame_view(f: Frame) -> LexFrame {
    LexFrame { toks: toks_view(f.toks@), kind: f.kind }
}

/// The model of the executable frame stack.
pub open spec fn frames_view(fs: Seq<Frame>) -> Seq<LexFrame> {
    Seq::new(fs.len(), |j: int| frame_view(fs[j]))
}

/// Only the bottom frame of a well-formed stack is the top level.
pub open spec fn wf_frames(fs: Seq<Frame>) -> bool {
    &&& fs.len() >= 1
    &&& fs[0].kind is None
    &&& forall|j: int| 1 <= j < fs.len() ==> fs[j].kind is Some
}

proof fn lemma_frames_view_push(fs: Seq<Frame>, f: Frame)
    ensures
        frames_view(fs.push(f)) =~~= frames_view(fs).push(frame_view(f)),
{
}

proof fn lemma_frames_view_drop_last(fs: Seq<Frame>)
    requires
        fs.len() > 0,
    ensures
        frames_view(fs.drop_last()) =~~= frames_view(fs).drop_last(),
{
}

/// The executable counterpart of `hex_val`.
fn hex_digit(c: char) -> (r: Option<i64>)
    ensures
        r == hex_val(c),
{
    match c {
        '0' => Some(0),
        '1' => Some(1),
        '2' => Some(2),
        '3' => Some(3),
        '4' => Some(4),
        '5' => Some(5),
        '6' => Some(6),
        '7' => Some(7),
        '8' => Some(8),
        '9' => Some(9),
        'A' => Some(10),
        'B' => Some(11),
        'C' => Some(12),
        'D' => Some(13),
        'E' => Some(14),
        'F' => Some(15),
        _ => None,
    }
}

/// The executable counterpart of `char_token`.
fn simple_token(c: char) -> (r: Option<Token>)
    ensures
        match r {
            Some(t) => char_token(c) == Some(t@),
            None => char_token(c) is None,
        },
{
    match c {
        '+' => Some(Token::Plus),
        '-' => Some(Token::Minus),
        '*' => Some(Token::Times),
        '/' => Some(Token::Divide),
        '%' => Some(Token::Modulus),
        '_' => Some(Token::Divides),
        '[' => Some(Token::Floor),
        ']' => Some(Token::Ceil),
        '>' => Some(Token::Greater),
        '<' => Some(Token::Less),
        '=' => Some(Token::Eq),
        '!' => Some(Token::Neq),
        'N' => Some(Token::Natural),
        'n' => Some(Token::NaturalTo),
        'R' => Some(Token::Range),
        't' => Some(Token::Take),
        ',' => Some(Token::Length),
        ';' => Some(Token::Pop),
        '$' => Some(Token::Duplicate),
        'p' => Some(Token::Print),
        _ => None,
    }
}

/// The executable counterpart of `is_space`.
fn space(c: char) -> (r: bool)
    ensures
        r == is_space(c),
{
    c == ' ' || c == '\t' || c == '\n' || c == '\r'
}

/// The executable counterpart of `single_body`.
fn single_body_tokens(c: char) -> (r: Result<Vec<Token>, LexError>)
    ensures
        lex_res_view(r) == single_body(c),
{
    let mut v: Vec<Token> = Vec::new();
    if c == 'F' {
        let body: Vec<Token> = Vec::new();
        proof {
            assert(toks_view(body@) =~= Seq::<TokS>::empty());
        }
        let t = Token::Fold(body, false);
        proof {
            lemma_toks_view_push(v@, t);
            assert(toks_view(v@.push(t)) =~= seq![t@]);
        }
        v.push(t);
        Ok(v)
    } else if let Some(d) = hex_digit(c) {
        v.push(Token::Number(d));
        proof {
            reveal_with_fuel(toks_view, 2);
            assert(toks_view(v@) =~= seq![TokS::Number(hex_val(c).unwrap())]);
        }
        Ok(v)
    } else if let Some(t) = simple_token(c) {
        proof {
            lemma_toks_view_push(v@, t);
            assert(toks_view(v@.push(t)) =~= seq![t@]);
        }
        v.push(t);
        Ok(v)
    } else if space(c) {
        proof {
            assert(toks_view(v@) =~= Seq::<TokS>::empty());
        }
        Ok(v)
    } else if c == 's' {
        let mut body: Vec<Token> = Vec::new();
        body.push(Token::Plus);
        proof {
            reveal_with_fuel(toks_view, 2);
            assert(toks_view(body@) =~= seq![TokS::Plus]);
        }
        let t = Token::Fold(body, true);
        proof {
            lemma_toks_view_push(v@, t);
            assert(toks_view(v@.push(t)) =~= seq![t@]);
        }
        v.push(t);
        Ok(v)
    } else if c == 'f' || c == 'F' || c == 'm' || c == '|' || c == '\\' || c == '#' || c == 'M' {
        let body: Vec<Token> = Vec::new();
        proof {
            assert(toks_view(body@) =~= Seq::<TokS>::empty());
        }
        let t = if c == 'f' || c == '|' {
            Token::Fold(body, true)
        } else if c == 'F' || c == '\\' {
            Token::Fold(body, false)
        } else if c == 'm' || c == 'M' {
            Token::MapOp(body)
        } else {
            Token::Filter(body)
        };
        proof {
            lemma_toks_view_push(v@, t);
            assert(toks_view(v@.push(t)) =~= seq![t@]);
        }
        v.push(t);
        Ok(v)
    } else if c == '}' {
        Err(LexError::BlockEndOutsideBlock)
    } else {
        Err(LexError::UnknownChar(c))
    }
}

/// Finish one token into the top frame.
fn frame_push_tok(frames: &mut Vec<Frame>, t: Token)
    requires
        old(frames)@.len() > 0,
    ensures
        final(frames)@.len() == old(frames)@.len(),
        frames_view(final(frames)@) == push_top(frames_view(old(frames)@), t@),
        final(frames)@[final(frames)@.len() - 1].kind == old(frames)@[old(frames)@.len() - 1].kind,
        forall|j: int| 0 <= j < final(frames)@.len() - 1 ==> final(frames)@[j] == old(frames)@[j],
{
    let mut top = frames.pop().unwrap();
    proof {
        lemma_toks_view_push(top.toks@, t);
    }
    top.toks.push(t);
    frames.push(top);
    proof {
        assert(frames_view(frames@) =~~= push_top(frames_view(old(frames)@), t@));
    }
}

/// Close the top block: pop its frame and finish its operator's token into
/// the frame beneath.
fn frame_close(frames: &mut Vec<Frame>, k: BodyKind)
    requires
        old(frames)@.len() >= 2,
        old(frames)@.last().kind == Some(k),
    ensures
        final(frames)@.len() == old(frames)@.len() - 1,
        frames_view(final(frames)@) == push_top(
            frames_view(old(frames)@).drop_last(),
            make_token(k, frames_view(old(frames)@).last().toks),
        ),
        final(frames)@[final(frames)@.len() - 1].kind == old(frames)@[old(frames)@.len() - 2].kind,
        forall|j: int| 0 <= j < final(frames)@.len() - 1 ==> final(frames)@[j] == old(frames)@[j],
{
    let top = frames.pop().unwrap();
    let t = match k {
        BodyKind::FoldFirst => Token::Fold(top.toks, true),
        BodyKind::FoldPlain => Token::Fold(top.toks, false),
        BodyKind::FilterBody => Token::Filter(top.toks),
        BodyKind::MapBody => Token::MapOp(top.toks),
    };
    proof {
        lemma_frames_view_drop_last(old(frames)@);
    }
    frame_push_tok(frames, t);
    proof {
        assert(frames_view(frames@) =~~= push_top(
            frames_view(old(frames)@).drop_last(),
            make_token(k, frames_view(old(frames)@).last().toks),
        ));
    }
}

/// Tokenize a whole source text.
///
/// Returns the token sequence that `lex_result` specifies: the fixed opcode
/// table applied character by character, maximal hexadecimal literals, and
/// recursively delimited higher-order bodies. With `block` false an unmatched
/// `}` is an error; with `block` true it ends tokenizing, as when the text is
/// the inside of a block.
pub fn lex(src: &Vec<char>, block: bool) -> (r: Result<Vec<Token>, LexError>)
    ensures
        lex_res_view(r) == lex_result(src@, block),
{
    let ghost s = src@;
    let mut frames: Vec<Frame> = Vec::new();
    frames.push(Frame { toks: Vec::new(), kind: None });
    let mut i: usize = 0;
    let mut cur: Option<i64> = None;
    proof {
        assert(frames_view(frames@) =~~= init_frames());
    }
    loop
        invariant
            s == src@,
            wf_frames(frames@),
            i <= s.len(),
            (match cur {
                Some(v) => v >= 0,
                None => true,
            }),
            lex_result(s, block) == lex_spec(s, block, i as int, frames_view(frames@), cur),
        ensures
            i == s.len(),
        decreases s.len() - i,
    {
        let ghost fv = frames_view(frames@);
        let ghost cur0 = cur;
        if i >= src.len() {
            break ;
        }
        let c = src[i];
        let in_run = match cur {
            Some(v) => true,
            None => false,
        };
        let hd = hex_digit(c);
        if hd.is_some() && (in_run || c != 'F') {
            let d = hd.unwrap();
            match cur {
                None => {
                    cur = Some(d);
                },
                Some(v) => {
                    let w = match v.checked_mul(16) {
                        Some(p) => p.checked_add(d),
                        None => None,
                    };
                    match w {
                        Some(nv) => {
                            cur = Some(nv);
                        },
                        None => {
                            assert(16 * (v as int) + (d as int) > i64::MAX);
                            return Err(LexError::NumberTooLarge);
                        },
                    }
                },
            }
            i = i + 1;
            continue ;
        }
        // Finish a pending literal before any non-digit character.
        if let Some(v) = cur {
            frame_push_tok(&mut frames, Token::Number(v));
            cur = None;
        }
        assert(frames_view(frames@) == flush_top(fv, cur0));
        if let Some(t) = simple_token(c) {
            frame_push_tok(&mut frames, t);
            i = i + 1;
        } else if space(c) {
            i = i + 1;
        } else if c == 's' {
            let mut body: Vec<Token> = Vec::new();
            body.push(Token::Plus);
            proof {
                reveal_with_fuel(toks_view, 2);
                assert(toks_view(body@) =~= seq![TokS::Plus]);
            }
            frame_push_tok(&mut frames, Token::Fold(body, true));
            i = i + 1;
        } else if c == 'f' || c == 'F' || c == 'm' {
            let body = if i + 1 < src.len() {
                single_body_tokens(src[i + 1])
            } else {
                Ok(Vec::new())
            };
            match body {
                Err(e) => {
                    return Err(e);
                },
                Ok(b) => {
                    proof {
                        if i + 1 >= s.len() {
                            assert(toks_view(b@) =~= Seq::<TokS>::empty());
                        }
                    }
                    let t = if c == 'f' {
                        Token::Fold(b, true)
                    } else if c == 'F' {
                        Token::Fold(b, false)
                    } else {
                        Token::MapOp(b)
                    };
                    frame_push_tok(&mut frames, t);
                    if i + 1 < src.len() {
                        i = i + 2;
                    } else {
                        i = i + 1;
                    }
                },
            }
        } else if c == '\\' || c == '|' || c == '#' || c == 'M' {
            let k = if c == '\\' {
                BodyKind::FoldPlain
            } else if c == '|' {
                BodyKind::FoldFirst
            } else if c == '#' {
                BodyKind::FilterBody
            } else {
                BodyKind::MapBody
            };
            let ghost before = frames@;
            frames.push(Frame { toks: Vec::new(), kind: Some(k) });
            proof {
                lemma_frames_view_push(before, frames@.last());
                assert(frames_view(frames@) =~~= flush_top(fv, cur0).push(
                    LexFrame { toks: Seq::empty(), kind: Some(k) },
                ));
            }
            i = i + 1;
        } else if c == '}' {
            if frames.len() == 1 {
                if block {
                    let bottom = frames.pop().unwrap();
                    return Ok(bottom.toks);
                } else {
                    return Err(LexError::BlockEndOutsideBlock);
                }
            } else {
                let k = match frames[frames.len() - 1].kind {
                    Some(k) => k,
                    None => {
                        proof {
                            assert(false);
                        }
                        BodyKind::FoldPlain
                    },
                };
                frame_close(&mut frames, k);
                i = i + 1;
            }
        } else {
            return Err(LexError::UnknownChar(c));
        }
    }
    // End of input: close every block still open, innermost first.
    proof {
        assert(i == s.len());
    }
    let ghost fv_end = frames_view(frames@);
    let ghost cur_end = cur;
    if let Some(v) = cur {
        frame_push_tok(&mut frames, Token::Number(v));
        cur = None;
    }
    proof {
        assert(frames_view(frames@) == flush_top(fv_end, cur_end));
        assert(lex_spec(s, block, s.len() as int, fv_end, cur_end) == lex_spec(
            s,
            block,
            s.len() as int,
            flush_top(fv_end, cur_end),
            None,
        ));
    }
    loop
        invariant
            s == src@,
            wf_frames(frames@),
            lex_result(s, block) == lex_spec(s, block, s.len() as int, frames_view(frames@), None),
        decreases frames@.len(),
    {
        if frames.len() == 1 {
            let ghost fv2 = frames_view(frames@);
            let bottom = frames.pop().unwrap();
            proof {
                assert(fv2.last().toks == toks_view(bottom.toks@));
            }
            return Ok(bottom.toks);
        }
        let k = match frames[frames.len() - 1].kind {
            Some(k) => k,
            None => {
                proof {
                    assert(false);
                }
                BodyKind::FoldPlain
            },
        };
        frame_close(&mut frames, k);
    }
}

} // verus!
