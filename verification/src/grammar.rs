//! The Badger grammar as the parser reads it: for each parsing routine, the
//! outcome it has on a token sequence at a position.
//!
//! An outcome is either the position after the construct together with the
//! tree events it emits, or the failure (byte offset, message) it reports.
//! Alternatives are ordered: the first one whose lookahead matches is taken.
//! Whitespace and comments (trivia) are emitted as tokens wherever they are
//! skipped, so that every token ends up in the tree.

use crate::kinds::SyntaxKind;
use crate::lexer::SpecToken;
use crate::text::byte_len;
use crate::tree::{finish_event, start_event, token_event, Event};
use vstd::prelude::*;

verus! {

/// A parse failure: byte offset and message.
pub type Failure = (int, Seq<char>);

/// The outcome of a parsing routine: the position after it and the events it
/// emitted, or the failure it reported.
pub type Outcome = Result<(int, Seq<Event>), Failure>;

/// How generic parameter lists are read.
#[derive(Clone, Copy, PartialEq, Eq, Structural)]
pub enum GenericParamMode {
    /// `<T, U>`: plain names.
    BareNames,
    /// Interface slots: a name or a type shape such as `[]T` or `Iterator<T>`.
    ShapeOrName,
}

/// How a parameter is written.
#[derive(Clone, Copy, PartialEq, Eq, Structural)]
pub enum ParamMode {
    /// `name: Type`.
    Typed,
    /// `name`, with an optional `: Type`.
    Inferable,
    /// `name: Type`, or a bare type: the parameters of a function type, whose
    /// names are documentation only.
    NameOptional,
}

/// The first position at or after `pos` that holds no trivia.
pub open spec fn skip_trivia(toks: Seq<SpecToken>, pos: int) -> int
    decreases toks.len() - pos,
{
    if 0 <= pos < toks.len() && toks[pos].kind.trivia() {
        skip_trivia(toks, pos + 1)
    } else {
        pos
    }
}

/// The kind of the `n`-th non-trivia token at or after `pos`.
pub open spec fn nth_nontrivia(toks: Seq<SpecToken>, pos: int, n: nat) -> Option<SyntaxKind>
    decreases n,
{
    let p = skip_trivia(toks, pos);
    if !(0 <= p < toks.len()) {
        None
    } else if n == 0 {
        Some(toks[p].kind)
    } else {
        nth_nontrivia(toks, p + 1, (n - 1) as nat)
    }
}

/// The kind of the next non-trivia token.
pub open spec fn peek(toks: Seq<SpecToken>, pos: int) -> Option<SyntaxKind> {
    nth_nontrivia(toks, pos, 0)
}

/// Whether the next non-trivia token has kind `kind`.
pub open spec fn at(toks: Seq<SpecToken>, pos: int, kind: SyntaxKind) -> bool {
    peek(toks, pos) == Some(kind)
}

/// The events that add the tokens `a..b` to the tree, in order.
pub open spec fn bumped(toks: Seq<SpecToken>, a: int, b: int) -> Seq<Event> {
    Seq::new(
        (b - a) as nat,
        |k: int| token_event(toks[a + k].kind.raw_of(), toks[a + k].text),
    )
}

/// The byte offset just past the last token, or 0 without tokens.
pub open spec fn eof_offset(toks: Seq<SpecToken>) -> int {
    if toks.len() == 0 {
        0
    } else {
        (toks.last().offset + byte_len(toks.last().text)) as int
    }
}

/// A failure reported at the end of the input.
pub open spec fn error_at_eof(toks: Seq<SpecToken>, msg: Seq<char>) -> Failure {
    (eof_offset(toks), msg)
}

/// A failure reported at the next non-trivia token, or at the end of input.
pub open spec fn error_at_next(toks: Seq<SpecToken>, pos: int, msg: Seq<char>) -> Failure {
    let p = skip_trivia(toks, pos);
    if 0 <= p < toks.len() {
        (toks[p].offset as int, msg)
    } else {
        error_at_eof(toks, msg)
    }
}

/// The outcome of a step that makes no progress. The parser never takes it:
/// every step that it guards moves forward. Guarding keeps the recursion evidently finite.
pub open spec fn stuck() -> Failure {
    (0, Seq::empty())
}

/// `from < to`, within the tokens.
pub open spec fn fwd(toks: Seq<SpecToken>, from: int, to: int) -> bool {
    from < to <= toks.len()
}

/// `from <= to`, within the tokens.
pub open spec fn fwd_eq(toks: Seq<SpecToken>, from: int, to: int) -> bool {
    from <= to <= toks.len()
}

/// The events of a node of kind `kind` around `evs`.
pub open spec fn node(kind: SyntaxKind, evs: Seq<Event>) -> Seq<Event> {
    seq![start_event(kind.raw_of())] + evs + seq![finish_event()]
}

/// The outcome `r`, with `evs` emitted before it.
pub open spec fn join(evs: Seq<Event>, r: Outcome) -> Outcome {
    match r {
        Ok((p, e)) => Ok((p, evs + e)),
        Err(x) => Err(x),
    }
}

pub proof fn lemma_join_join(a: Seq<Event>, b: Seq<Event>, r: Outcome)
    ensures
        join(a, join(b, r)) == join(a + b, r),
{
    if let Ok((p, e)) = r {
        assert(a + (b + e) =~= (a + b) + e);
    }
}

pub proof fn lemma_join_empty(r: Outcome)
    ensures
        join(Seq::empty(), r) == r,
{
    if let Ok((p, e)) = r {
        assert(Seq::<Event>::empty() + e =~= e);
    }
}

/// The outcome `r`, wrapped in a node of kind `kind`.
pub open spec fn wrap(kind: SyntaxKind, r: Outcome) -> Outcome {
    match r {
        Ok((p, e)) => Ok((p, node(kind, e))),
        Err(x) => Err(x),
    }
}

/// Skips trivia, then takes a token of kind `kind` or fails with `msg` there.
pub open spec fn g_expect(toks: Seq<SpecToken>, pos: int, kind: SyntaxKind, msg: Seq<char>) -> Outcome {
    let p = skip_trivia(toks, pos);
    if 0 <= p < toks.len() && toks[p].kind == kind {
        Ok((p + 1, bumped(toks, pos, p + 1)))
    } else {
        Err(error_at_next(toks, p, msg))
    }
}

/// Skips trivia, then takes a token of kind `kind` if it comes next.
pub open spec fn g_eat(toks: Seq<SpecToken>, pos: int, kind: SyntaxKind) -> Outcome {
    Ok((eat_pos(toks, pos, kind), bumped(toks, pos, eat_pos(toks, pos, kind))))
}

/// Whether skipping trivia reaches a token of kind `kind`.
pub open spec fn eat_hit(toks: Seq<SpecToken>, pos: int, kind: SyntaxKind) -> bool {
    let p = skip_trivia(toks, pos);
    0 <= p < toks.len() && toks[p].kind == kind
}

/// The position after skipping trivia and, on a hit, the token of kind `kind`.
pub open spec fn eat_pos(toks: Seq<SpecToken>, pos: int, kind: SyntaxKind) -> int {
    if eat_hit(toks, pos, kind) {
        skip_trivia(toks, pos) + 1
    } else {
        skip_trivia(toks, pos)
    }
}

/// `r`, then skipping trivia and a token of kind `kind` if it comes next.
pub open spec fn then_eat(r: Outcome, toks: Seq<SpecToken>, kind: SyntaxKind) -> Outcome {
    match r {
        Ok((p, e)) => Ok((eat_pos(toks, p, kind), e + bumped(toks, p, eat_pos(toks, p, kind)))),
        Err(x) => Err(x),
    }
}

/// `r`, then a token of kind `kind`.
pub open spec fn then_expect(r: Outcome, toks: Seq<SpecToken>, kind: SyntaxKind, msg: Seq<char>) -> Outcome {
    match r {
        Ok((p, e)) => join(e, g_expect(toks, p, kind, msg)),
        Err(x) => Err(x),
    }
}

/// Skips trivia, then takes a name or `Self`, or fails with `msg`.
pub open spec fn g_name_like(toks: Seq<SpecToken>, pos: int, msg: Seq<char>) -> Outcome {
    let p = skip_trivia(toks, pos);
    if 0 <= p < toks.len() && (toks[p].kind == SyntaxKind::Ident || toks[p].kind
        == SyntaxKind::SelfTypeKw) {
        Ok((p + 1, bumped(toks, pos, p + 1)))
    } else {
        Err(error_at_next(toks, p, msg))
    }
}

/// Skips trivia, then takes a name or `self`, or fails with `msg`.
pub open spec fn g_param_name(toks: Seq<SpecToken>, pos: int, msg: Seq<char>) -> Outcome {
    let p = skip_trivia(toks, pos);
    if 0 <= p < toks.len() && (toks[p].kind == SyntaxKind::Ident || toks[p].kind
        == SyntaxKind::SelfKw) {
        Ok((p + 1, bumped(toks, pos, p + 1)))
    } else {
        Err(error_at_next(toks, p, msg))
    }
}

/// Skips trivia, then takes whatever token comes next.
pub open spec fn g_bump_nontrivia(toks: Seq<SpecToken>, pos: int) -> Outcome {
    let p = skip_trivia(toks, pos);
    if 0 <= p < toks.len() {
        Ok((p + 1, bumped(toks, pos, p + 1)))
    } else {
        Err(error_at_eof(toks, "unexpected end of file"@))
    }
}

/// `.name` segments after a type name, for as long as a `.` follows.
#[verifier::opaque]
pub open spec fn g_type_path(toks: Seq<SpecToken>, pos: int) -> Outcome
    decreases toks.len() - pos,
{
    let p1 = eat_pos(toks, pos, SyntaxKind::Dot);
    let e1 = bumped(toks, pos, p1);
    if !eat_hit(toks, pos, SyntaxKind::Dot) {
        Ok((p1, e1))
    } else {
        match g_expect(toks, p1, SyntaxKind::Ident, "expected path segment"@) {
            Err(x) => Err(x),
            Ok((p2, e2)) => if fwd(toks, pos, p2) {
                join(e1 + e2, g_type_path(toks, p2))
            } else {
                Err(stuck())
            },
        }
    }
}

/// A type.
#[verifier::opaque]
pub open spec fn g_type(toks: Seq<SpecToken>, pos: int) -> Outcome
    decreases toks.len() - pos, 1nat,
{
    wrap(
        SyntaxKind::Type,
        match peek(toks, pos) {
            Some(SyntaxKind::FnKw) => g_function_type(toks, pos),
            Some(SyntaxKind::LBracket) => match g_expect(
                toks,
                pos,
                SyntaxKind::LBracket,
                "expected `[`"@,
            ) {
                Err(x) => Err(x),
                Ok((p1, e1)) => if at(toks, p1, SyntaxKind::RBracket) {
                    match g_expect(toks, p1, SyntaxKind::RBracket, "expected `]`"@) {
                        Err(x) => Err(x),
                        Ok((p2, e2)) => if fwd(toks, pos, p2) {
                            join(e1 + e2, g_type(toks, p2))
                        } else {
                            Err(stuck())
                        },
                    }
                } else {
                    let r2 = if at(toks, p1, SyntaxKind::Int) {
                        g_expect(toks, p1, SyntaxKind::Int, "expected array length"@)
                    } else {
                        Ok((p1, Seq::empty()))
                    };
                    match then_expect(r2, toks, SyntaxKind::RBracket, "expected `]`"@) {
                        Err(x) => Err(x),
                        Ok((p3, e3)) => if fwd(toks, pos, p3) {
                            join(e1 + e3, g_type(toks, p3))
                        } else {
                            Err(stuck())
                        },
                    }
                },
            },
            Some(SyntaxKind::LParen) => match g_expect(
                toks,
                pos,
                SyntaxKind::LParen,
                "expected `(`"@,
            ) {
                Err(x) => Err(x),
                Ok((p1, e1)) => {
                    let r2 = if at(toks, p1, SyntaxKind::RParen) {
                        Ok((p1, Seq::empty()))
                    } else if fwd(toks, pos, p1) {
                        g_type_seq(toks, p1)
                    } else {
                        Err(stuck())
                    };
                    join(e1, then_expect(r2, toks, SyntaxKind::RParen, "expected `)`"@))
                },
            },
            Some(SyntaxKind::Ident) | Some(SyntaxKind::SelfTypeKw) => match g_name_like(
                toks,
                pos,
                "expected type"@,
            ) {
                Err(x) => Err(x),
                Ok((p1, e1)) => match g_type_path(toks, p1) {
                    Err(x) => Err(x),
                    Ok((p2, e2)) => if at(toks, p2, SyntaxKind::Lt) {
                        if fwd(toks, pos, p2) {
                            join(e1 + e2, g_generic_args(toks, p2))
                        } else {
                            Err(stuck())
                        }
                    } else {
                        Ok((p2, e1 + e2))
                    },
                },
            },
            _ => Err(error_at_next(toks, pos, "expected type"@)),
        },
    )
}

/// `fn(params) -> ret !effect(e)` as a type.
#[verifier::opaque]
pub open spec fn g_function_type(toks: Seq<SpecToken>, pos: int) -> Outcome
    decreases toks.len() - pos, 0nat,
{
    wrap(
        SyntaxKind::FunctionType,
        match g_expect(toks, pos, SyntaxKind::FnKw, "expected `fn`"@) {
            Err(x) => Err(x),
            Ok((p1, e1)) => if !fwd(toks, pos, p1) {
                Err(stuck())
            } else {
                match g_param_list(toks, p1, ParamMode::NameOptional) {
                    Err(x) => Err(x),
                    Ok((p2, e2)) => if fwd(toks, pos, p2) {
                        join(e1 + e2, g_ret_effect(toks, p2))
                    } else {
                        Err(stuck())
                    },
                }
            },
        },
    )
}

/// `<T, U>` after a type name.
#[verifier::opaque]
pub open spec fn g_generic_args(toks: Seq<SpecToken>, pos: int) -> Outcome
    decreases toks.len() - pos, 0nat,
{
    wrap(
        SyntaxKind::GenericArgList,
        match g_expect(toks, pos, SyntaxKind::Lt, "expected `<`"@) {
            Err(x) => Err(x),
            Ok((p1, e1)) => {
                let r2 = if at(toks, p1, SyntaxKind::Gt) {
                    Ok((p1, Seq::empty()))
                } else if fwd(toks, pos, p1) {
                    g_type_seq(toks, p1)
                } else {
                    Err(stuck())
                };
                join(e1, then_expect(r2, toks, SyntaxKind::Gt, "expected `>`"@))
            },
        },
    )
}

/// One or more types separated by commas.
#[verifier::opaque]
pub open spec fn g_type_seq(toks: Seq<SpecToken>, pos: int) -> Outcome
    decreases toks.len() - pos, 2nat,
{
    match g_type(toks, pos) {
        Err(x) => Err(x),
        Ok((p1, e1)) => {
            let p2 = eat_pos(toks, p1, SyntaxKind::Comma);
            let e2 = bumped(toks, p1, p2);
            if !eat_hit(toks, p1, SyntaxKind::Comma) {
                Ok((p2, e1 + e2))
            } else if fwd(toks, pos, p2) {
                join(e1 + e2, g_type_seq(toks, p2))
            } else {
                Err(stuck())
            }
        },
    }
}

/// `(a: T, b: U)`.
#[verifier::opaque]
pub open spec fn g_param_list(toks: Seq<SpecToken>, pos: int, mode: ParamMode) -> Outcome
    decreases toks.len() - pos, 0nat,
{
    wrap(
        SyntaxKind::ParamList,
        match g_expect(toks, pos, SyntaxKind::LParen, "expected `(`"@) {
            Err(x) => Err(x),
            Ok((p1, e1)) => {
                let r2 = if at(toks, p1, SyntaxKind::RParen) {
                    Ok((p1, Seq::empty()))
                } else if fwd(toks, pos, p1) {
                    g_param_seq(toks, p1, mode)
                } else {
                    Err(stuck())
                };
                join(e1, then_expect(r2, toks, SyntaxKind::RParen, "expected `)`"@))
            },
        },
    )
}

/// One or more parameters separated by commas.
#[verifier::opaque]
pub open spec fn g_param_seq(toks: Seq<SpecToken>, pos: int, mode: ParamMode) -> Outcome
    decreases toks.len() - pos, 3nat,
{
    match g_param(toks, pos, mode) {
        Err(x) => Err(x),
        Ok((p1, e1)) => {
            let p2 = eat_pos(toks, p1, SyntaxKind::Comma);
            let e2 = bumped(toks, p1, p2);
            if !eat_hit(toks, p1, SyntaxKind::Comma) {
                Ok((p2, e1 + e2))
            } else if fwd(toks, pos, p2) {
                join(e1 + e2, g_param_seq(toks, p2, mode))
            } else {
                Err(stuck())
            }
        },
    }
}

/// Whether a name or `self` and then `:` come next.
pub open spec fn named_param_ahead(toks: Seq<SpecToken>, pos: int) -> bool {
    &&& (nth_nontrivia(toks, pos, 0) == Some(SyntaxKind::Ident) || nth_nontrivia(toks, pos, 0)
        == Some(SyntaxKind::SelfKw))
    &&& nth_nontrivia(toks, pos, 1) == Some(SyntaxKind::Colon)
}

/// `name: Type`, where the type may be left out in `Inferable` mode and the
/// name and `:` in `NameOptional` mode.
#[verifier::opaque]
pub open spec fn g_param(toks: Seq<SpecToken>, pos: int, mode: ParamMode) -> Outcome
    decreases toks.len() - pos, 2nat,
{
    wrap(
        SyntaxKind::Param,
        if mode == ParamMode::NameOptional && !named_param_ahead(toks, pos) {
            g_type(toks, pos)
        } else {
            match g_param_name(toks, pos, "expected parameter name"@) {
            Err(x) => Err(x),
            Ok((p1, e1)) => {
                let p2 = eat_pos(toks, p1, SyntaxKind::Colon);
                let e2 = bumped(toks, p1, p2);
                if eat_hit(toks, p1, SyntaxKind::Colon) {
                    if fwd(toks, pos, p2) {
                        join(e1 + e2, g_type(toks, p2))
                    } else {
                        Err(stuck())
                    }
                } else if mode == ParamMode::Typed {
                    Err(error_at_next(toks, p2, "expected `:`"@))
                } else {
                    Ok((p2, e1 + e2))
                }
            },
            }
        },
    )
}

/// An optional `-> Type`, with an optional `!effect(name)` after it.
#[verifier::opaque]
pub open spec fn g_ret_effect(toks: Seq<SpecToken>, pos: int) -> Outcome
    decreases toks.len() - pos, 0nat,
{
    let p1 = eat_pos(toks, pos, SyntaxKind::Arrow);
    let e1 = bumped(toks, pos, p1);
    if !eat_hit(toks, pos, SyntaxKind::Arrow) {
        Ok((p1, e1))
    } else if !fwd(toks, pos, p1) {
        Err(stuck())
    } else {
        match g_type(toks, p1) {
            Err(x) => Err(x),
            Ok((p2, e2)) => if at(toks, p2, SyntaxKind::EffectMarker) {
                join(e1 + e2, g_effect_tail(toks, p2))
            } else {
                Ok((p2, e1 + e2))
            },
        }
    }
}

/// `!effect(name)`.
#[verifier::opaque]
pub open spec fn g_effect_tail(toks: Seq<SpecToken>, pos: int) -> Outcome {
    wrap(
        SyntaxKind::EffectTail,
        then_expect(
            then_expect(
                then_expect(
                    g_expect(toks, pos, SyntaxKind::EffectMarker, "expected `!effect`"@),
                    toks,
                    SyntaxKind::LParen,
                    "expected `(`"@,
                ),
                toks,
                SyntaxKind::Ident,
                "expected effect name"@,
            ),
            toks,
            SyntaxKind::RParen,
            "expected `)`"@,
        ),
    )
}

/// An expression.
#[verifier::opaque]
pub open spec fn g_expr(toks: Seq<SpecToken>, pos: int) -> Outcome
    decreases toks.len() - pos, 3nat,
{
    wrap(SyntaxKind::Expr, g_expr_inner(toks, pos))
}

/// The message for an expression that cannot start with a token of kind `k`.
pub open spec fn unexpected_expr_message(k: SyntaxKind) -> Seq<char> {
    "unexpected expression token `"@ + k.name_of() + "`"@
}

/// The message for an item that cannot start with a token of kind `k`.
pub open spec fn unexpected_item_message(k: SyntaxKind) -> Seq<char> {
    "unexpected top-level token `"@ + k.name_of() + "`"@
}

/// Whether an expression that is a single token can start with `k`.
pub open spec fn is_atom_start(k: SyntaxKind) -> bool {
    ||| k == SyntaxKind::Ident
    ||| k == SyntaxKind::SelfKw
    ||| k == SyntaxKind::TrueKw
    ||| k == SyntaxKind::FalseKw
    ||| k == SyntaxKind::Int
    ||| k == SyntaxKind::String
    ||| k == SyntaxKind::Char
}

/// A head expression followed by field accesses and calls.
#[verifier::opaque]
pub open spec fn g_expr_inner(toks: Seq<SpecToken>, pos: int) -> Outcome
    decreases toks.len() - pos, 2nat,
{
    let head = match peek(toks, pos) {
        Some(SyntaxKind::FnKw) => g_fn_expr(toks, pos),
        Some(SyntaxKind::LBrace) => g_block(toks, pos),
        Some(SyntaxKind::BuiltinImport) => g_import_expr(toks, pos),
        Some(k) => if is_atom_start(k) {
            g_bump_nontrivia(toks, pos)
        } else {
            Err(error_at_next(toks, pos, unexpected_expr_message(k)))
        },
        None => Err(error_at_eof(toks, "expected expression"@)),
    };
    match head {
        Err(x) => Err(x),
        Ok((p1, e1)) => if fwd_eq(toks, pos, p1) {
            join(e1, g_postfix(toks, p1))
        } else {
            Err(stuck())
        },
    }
}

/// Field accesses `.name` and calls `(args)`, for as long as they come.
#[verifier::opaque]
pub open spec fn g_postfix(toks: Seq<SpecToken>, pos: int) -> Outcome
    decreases toks.len() - pos, 1nat,
{
    if at(toks, pos, SyntaxKind::Dot) {
        match then_expect(
            g_expect(toks, pos, SyntaxKind::Dot, "expected `.`"@),
            toks,
            SyntaxKind::Ident,
            "expected field or method name"@,
        ) {
            Err(x) => Err(x),
            Ok((p1, e1)) => if fwd(toks, pos, p1) {
                join(e1, g_postfix(toks, p1))
            } else {
                Err(stuck())
            },
        }
    } else if at(toks, pos, SyntaxKind::LParen) {
        match g_arg_list(toks, pos) {
            Err(x) => Err(x),
            Ok((p1, e1)) => if fwd(toks, pos, p1) {
                join(e1, g_postfix(toks, p1))
            } else {
                Err(stuck())
            },
        }
    } else {
        Ok((pos, Seq::empty()))
    }
}

/// `.name` segments after an import, for as long as a `.` comes next.
#[verifier::opaque]
pub open spec fn g_import_path(toks: Seq<SpecToken>, pos: int) -> Outcome
    decreases toks.len() - pos,
{
    if at(toks, pos, SyntaxKind::Dot) {
        match then_expect(
            g_expect(toks, pos, SyntaxKind::Dot, "expected `.`"@),
            toks,
            SyntaxKind::Ident,
            "expected path segment"@,
        ) {
            Err(x) => Err(x),
            Ok((p1, e1)) => if fwd(toks, pos, p1) {
                join(e1, g_import_path(toks, p1))
            } else {
                Err(stuck())
            },
        }
    } else {
        Ok((pos, Seq::empty()))
    }
}

/// `@import(args).path`.
#[verifier::opaque]
pub open spec fn g_import_expr(toks: Seq<SpecToken>, pos: int) -> Outcome
    decreases toks.len() - pos, 0nat,
{
    match g_expect(toks, pos, SyntaxKind::BuiltinImport, "expected `@import`"@) {
        Err(x) => Err(x),
        Ok((p1, e1)) => if !fwd(toks, pos, p1) {
            Err(stuck())
        } else {
            match g_arg_list(toks, p1) {
                Err(x) => Err(x),
                Ok((p2, e2)) => join(e1 + e2, g_import_path(toks, p2)),
            }
        },
    }
}

/// `fn(params) -> ret => expr` or `fn(params) -> ret { ... }`.
#[verifier::opaque]
pub open spec fn g_fn_expr(toks: Seq<SpecToken>, pos: int) -> Outcome
    decreases toks.len() - pos, 0nat,
{
    wrap(
        SyntaxKind::FnExpr,
        match g_expect(toks, pos, SyntaxKind::FnKw, "expected `fn`"@) {
            Err(x) => Err(x),
            Ok((p1, e1)) => match g_param_list(toks, p1, ParamMode::Inferable) {
                Err(x) => Err(x),
                Ok((p2, e2)) => match g_ret_effect(toks, p2) {
                    Err(x) => Err(x),
                    Ok((p3, e3)) => {
                        let p4 = eat_pos(toks, p3, SyntaxKind::FatArrow);
                        let e4 = bumped(toks, p3, p4);
                        if !fwd(toks, pos, p4) {
                            Err(stuck())
                        } else if eat_hit(toks, p3, SyntaxKind::FatArrow) {
                            join(e1 + e2 + e3 + e4, g_expr(toks, p4))
                        } else {
                            join(e1 + e2 + e3 + e4, g_block(toks, p4))
                        }
                    },
                },
            },
        },
    )
}

/// `(a, b)` as call arguments.
#[verifier::opaque]
pub open spec fn g_arg_list(toks: Seq<SpecToken>, pos: int) -> Outcome
    decreases toks.len() - pos, 0nat,
{
    wrap(
        SyntaxKind::ArgList,
        match g_expect(toks, pos, SyntaxKind::LParen, "expected `(`"@) {
            Err(x) => Err(x),
            Ok((p1, e1)) => {
                let r2 = if at(toks, p1, SyntaxKind::RParen) {
                    Ok((p1, Seq::empty()))
                } else if fwd(toks, pos, p1) {
                    g_arg_seq(toks, p1)
                } else {
                    Err(stuck())
                };
                join(e1, then_expect(r2, toks, SyntaxKind::RParen, "expected `)`"@))
            },
        },
    )
}

/// One or more expressions separated by commas.
#[verifier::opaque]
pub open spec fn g_arg_seq(toks: Seq<SpecToken>, pos: int) -> Outcome
    decreases toks.len() - pos, 4nat,
{
    match g_expr(toks, pos) {
        Err(x) => Err(x),
        Ok((p1, e1)) => {
            let p2 = eat_pos(toks, p1, SyntaxKind::Comma);
            let e2 = bumped(toks, p1, p2);
            if !eat_hit(toks, p1, SyntaxKind::Comma) {
                Ok((p2, e1 + e2))
            } else if fwd(toks, pos, p2) {
                join(e1 + e2, g_arg_seq(toks, p2))
            } else {
                Err(stuck())
            }
        },
    }
}

/// `{ e1; e2; e3 }`.
#[verifier::opaque]
pub open spec fn g_block(toks: Seq<SpecToken>, pos: int) -> Outcome
    decreases toks.len() - pos, 0nat,
{
    wrap(
        SyntaxKind::Block,
        match g_expect(toks, pos, SyntaxKind::LBrace, "expected `{`"@) {
            Err(x) => Err(x),
            Ok((p1, e1)) => if !fwd(toks, pos, p1) {
                Err(stuck())
            } else {
                join(e1, then_expect(g_block_items(toks, p1), toks, SyntaxKind::RBrace, "expected `}`"@))
            },
        },
    )
}

/// The expressions of a block: each followed by `;`, up to `}` or to one without `;`.
#[verifier::opaque]
pub open spec fn g_block_items(toks: Seq<SpecToken>, pos: int) -> Outcome
    decreases toks.len() - pos, 4nat,
{
    if at(toks, pos, SyntaxKind::RBrace) {
        Ok((pos, Seq::empty()))
    } else if pos >= toks.len() {
        Err(error_at_next(toks, pos, "expected `}`"@))
    } else {
        match g_expr(toks, pos) {
            Err(x) => Err(x),
            Ok((p1, e1)) => {
                let p2 = eat_pos(toks, p1, SyntaxKind::Semi);
                let e2 = bumped(toks, p1, p2);
                if !eat_hit(toks, p1, SyntaxKind::Semi) {
                    Ok((p2, e1 + e2))
                } else if fwd(toks, pos, p2) {
                    join(e1 + e2, g_block_items(toks, p2))
                } else {
                    Err(stuck())
                }
            },
        }
    }
}

/// `r`, then a type.
pub open spec fn then_type(r: Outcome, toks: Seq<SpecToken>) -> Outcome {
    match r {
        Ok((p, e)) => join(e, g_type(toks, p)),
        Err(x) => Err(x),
    }
}

/// `r`, then an expression.
pub open spec fn then_expr(r: Outcome, toks: Seq<SpecToken>) -> Outcome {
    match r {
        Ok((p, e)) => join(e, g_expr(toks, p)),
        Err(x) => Err(x),
    }
}

/// `r`, then a generic parameter list if a `<` comes next.
pub open spec fn then_generics(r: Outcome, toks: Seq<SpecToken>, mode: GenericParamMode) -> Outcome {
    match r {
        Ok((p, e)) => if at(toks, p, SyntaxKind::Lt) {
            join(e, g_generic_params(toks, p, mode))
        } else {
            Ok((p, e))
        },
        Err(x) => Err(x),
    }
}

/// `<T, U>` after a declared name.
#[verifier::opaque]
pub open spec fn g_generic_params(toks: Seq<SpecToken>, pos: int, mode: GenericParamMode) -> Outcome {
    wrap(
        SyntaxKind::GenericParamList,
        match g_expect(toks, pos, SyntaxKind::Lt, "expected `<`"@) {
            Err(x) => Err(x),
            Ok((p1, e1)) => {
                let r2 = if at(toks, p1, SyntaxKind::Gt) {
                    Ok((p1, Seq::empty()))
                } else {
                    g_generic_param_seq(toks, p1, mode)
                };
                join(e1, then_expect(r2, toks, SyntaxKind::Gt, "expected `>`"@))
            },
        },
    )
}

/// One or more generic parameters separated by commas.
#[verifier::opaque]
pub open spec fn g_generic_param_seq(toks: Seq<SpecToken>, pos: int, mode: GenericParamMode) -> Outcome
    decreases toks.len() - pos,
{
    let first = match mode {
        GenericParamMode::BareNames => g_expect(
            toks,
            pos,
            SyntaxKind::Ident,
            "expected generic parameter"@,
        ),
        GenericParamMode::ShapeOrName => g_generic_slot(toks, pos),
    };
    match first {
        Err(x) => Err(x),
        Ok((p1, e1)) => {
            let p2 = eat_pos(toks, p1, SyntaxKind::Comma);
            let e2 = bumped(toks, p1, p2);
            if !eat_hit(toks, p1, SyntaxKind::Comma) {
                Ok((p2, e1 + e2))
            } else if fwd(toks, pos, p2) {
                join(e1 + e2, g_generic_param_seq(toks, p2, mode))
            } else {
                Err(stuck())
            }
        },
    }
}

/// An interface generic slot: a bare name, or a shape such as `[]T` or `Iterator<T>`.
#[verifier::opaque]
pub open spec fn g_generic_slot(toks: Seq<SpecToken>, pos: int) -> Outcome {
    match peek(toks, pos) {
        Some(SyntaxKind::LBracket) => g_type(toks, pos),
        Some(SyntaxKind::Ident) | Some(SyntaxKind::SelfTypeKw) => if nth_nontrivia(toks, pos, 1)
            == Some(SyntaxKind::Lt) {
            g_type(toks, pos)
        } else {
            g_name_like(toks, pos, "expected generic slot"@)
        },
        _ => Err(error_at_next(toks, pos, "expected generic slot"@)),
    }
}

/// `{a, b} = expr;`.
#[verifier::opaque]
pub open spec fn g_import_binding(toks: Seq<SpecToken>, pos: int) -> Outcome {
    wrap(
        SyntaxKind::ImportBinding,
        match g_expect(toks, pos, SyntaxKind::LBrace, "expected `{`"@) {
            Err(x) => Err(x),
            Ok((p1, e1)) => join(
                e1,
                then_expect(
                    then_expr(
                        then_expect(
                            then_expect(
                                g_import_names(toks, p1),
                                toks,
                                SyntaxKind::RBrace,
                                "expected `}`"@,
                            ),
                            toks,
                            SyntaxKind::Eq,
                            "expected `=`"@,
                        ),
                        toks,
                    ),
                    toks,
                    SyntaxKind::Semi,
                    "expected `;`"@,
                ),
            ),
        },
    )
}

/// One or more imported names separated by commas.
#[verifier::opaque]
pub open spec fn g_import_names(toks: Seq<SpecToken>, pos: int) -> Outcome
    decreases toks.len() - pos,
{
    match g_expect(toks, pos, SyntaxKind::Ident, "expected imported name"@) {
        Err(x) => Err(x),
        Ok((p1, e1)) => {
            let p2 = eat_pos(toks, p1, SyntaxKind::Comma);
            let e2 = bumped(toks, p1, p2);
            if !eat_hit(toks, p1, SyntaxKind::Comma) {
                Ok((p2, e1 + e2))
            } else if fwd(toks, pos, p2) {
                join(e1 + e2, g_import_names(toks, p2))
            } else {
                Err(stuck())
            }
        },
    }
}

/// `pub @import(...);`.
#[verifier::opaque]
pub open spec fn g_reexport(toks: Seq<SpecToken>, pos: int) -> Outcome {
    wrap(
        SyntaxKind::ReExport,
        then_expect(
            then_expr(g_expect(toks, pos, SyntaxKind::PubKw, "expected `pub`"@), toks),
            toks,
            SyntaxKind::Semi,
            "expected `;`"@,
        ),
    )
}

/// `pub type Name<T> = Type;`, where `pub` may be left out.
#[verifier::opaque]
pub open spec fn g_type_alias(toks: Seq<SpecToken>, pos: int) -> Outcome {
    wrap(
        SyntaxKind::TypeAlias,
        then_expect(
            then_type(
                then_expect(
                    then_generics(
                        then_expect(
                            then_expect(
                                g_eat(toks, pos, SyntaxKind::PubKw),
                                toks,
                                SyntaxKind::TypeKw,
                                "expected `type`"@,
                            ),
                            toks,
                            SyntaxKind::Ident,
                            "expected type alias name"@,
                        ),
                        toks,
                        GenericParamMode::BareNames,
                    ),
                    toks,
                    SyntaxKind::Eq,
                    "expected `=`"@,
                ),
                toks,
            ),
            toks,
            SyntaxKind::Semi,
            "expected `;`"@,
        ),
    )
}

/// `pub <keyword> Name<T>`, where `pub` may be left out: the head that struct,
/// enum and interface declarations share.
#[verifier::opaque]
pub open spec fn g_decl_head(
    toks: Seq<SpecToken>,
    pos: int,
    keyword: SyntaxKind,
    keyword_msg: Seq<char>,
    name_msg: Seq<char>,
    mode: GenericParamMode,
) -> Outcome {
    then_generics(
        then_expect(
            then_expect(
                g_eat(toks, pos, SyntaxKind::PubKw),
                toks,
                keyword,
                keyword_msg,
            ),
            toks,
            SyntaxKind::Ident,
            name_msg,
        ),
        toks,
        mode,
    )
}

/// `r`, then `}` and an optional `;`.
pub open spec fn then_close(r: Outcome, toks: Seq<SpecToken>) -> Outcome {
    then_eat(then_expect(r, toks, SyntaxKind::RBrace, "expected `}`"@), toks, SyntaxKind::Semi)
}

/// `pub struct Name<T> { fields };`, where `pub` and the `;` may be left out.
#[verifier::opaque]
pub open spec fn g_struct_decl(toks: Seq<SpecToken>, pos: int) -> Outcome {
    wrap(
        SyntaxKind::StructDecl,
        then_close(
            match then_expect(
                g_decl_head(
                    toks,
                    pos,
                    SyntaxKind::StructKw,
                    "expected `struct`"@,
                    "expected struct name"@,
                    GenericParamMode::BareNames,
                ),
                toks,
                SyntaxKind::LBrace,
                "expected `{`"@,
            ) {
                Err(x) => Err(x),
                Ok((p1, e1)) => join(e1, g_fields(toks, p1)),
            },
            toks,
        ),
    )
}

/// Fields up to the closing `}`.
#[verifier::opaque]
pub open spec fn g_fields(toks: Seq<SpecToken>, pos: int) -> Outcome
    decreases toks.len() - pos,
{
    if at(toks, pos, SyntaxKind::RBrace) {
        Ok((pos, Seq::empty()))
    } else if pos >= toks.len() {
        Err(error_at_next(toks, pos, "expected `}`"@))
    } else {
        match g_field(toks, pos) {
            Err(x) => Err(x),
            Ok((p1, e1)) => if fwd(toks, pos, p1) {
                join(e1, g_fields(toks, p1))
            } else {
                Err(stuck())
            },
        }
    }
}

/// `name: Type;`.
#[verifier::opaque]
pub open spec fn g_field(toks: Seq<SpecToken>, pos: int) -> Outcome {
    wrap(
        SyntaxKind::Field,
        then_expect(
            then_type(
                then_expect(
                    g_expect(toks, pos, SyntaxKind::Ident, "expected field name"@),
                    toks,
                    SyntaxKind::Colon,
                    "expected `:`"@,
                ),
                toks,
            ),
            toks,
            SyntaxKind::Semi,
            "expected `;`"@,
        ),
    )
}

/// `pub enum Name<T> { variants };`, where `pub` and the `;` may be left out.
#[verifier::opaque]
pub open spec fn g_enum_decl(toks: Seq<SpecToken>, pos: int) -> Outcome {
    wrap(
        SyntaxKind::EnumDecl,
        then_close(
            match then_expect(
                g_decl_head(
                    toks,
                    pos,
                    SyntaxKind::EnumKw,
                    "expected `enum`"@,
                    "expected enum name"@,
                    GenericParamMode::BareNames,
                ),
                toks,
                SyntaxKind::LBrace,
                "expected `{`"@,
            ) {
                Err(x) => Err(x),
                Ok((p1, e1)) => join(e1, g_variants(toks, p1)),
            },
            toks,
        ),
    )
}

/// Variants up to the closing `}`.
#[verifier::opaque]
pub open spec fn g_variants(toks: Seq<SpecToken>, pos: int) -> Outcome
    decreases toks.len() - pos,
{
    if at(toks, pos, SyntaxKind::RBrace) {
        Ok((pos, Seq::empty()))
    } else if pos >= toks.len() {
        Err(error_at_next(toks, pos, "expected `}`"@))
    } else {
        match g_variant(toks, pos) {
            Err(x) => Err(x),
            Ok((p1, e1)) => if fwd(toks, pos, p1) {
                join(e1, g_variants(toks, p1))
            } else {
                Err(stuck())
            },
        }
    }
}

/// `Name;` or `Name(T, U);`.
#[verifier::opaque]
pub open spec fn g_variant(toks: Seq<SpecToken>, pos: int) -> Outcome {
    wrap(
        SyntaxKind::Variant,
        match g_expect(toks, pos, SyntaxKind::Ident, "expected variant name"@) {
            Err(x) => Err(x),
            Ok((p1, e1)) => {
                let p2 = eat_pos(toks, p1, SyntaxKind::LParen);
                let e2 = bumped(toks, p1, p2);
                let r3 = if eat_hit(toks, p1, SyntaxKind::LParen) {
                    let r_types = if at(toks, p2, SyntaxKind::RParen) {
                        Ok((p2, Seq::empty()))
                    } else {
                        g_type_seq(toks, p2)
                    };
                    then_expect(r_types, toks, SyntaxKind::RParen, "expected `)`"@)
                } else {
                    Ok((p2, Seq::empty()))
                };
                join(e1 + e2, then_expect(r3, toks, SyntaxKind::Semi, "expected `;`"@))
            },
        },
    )
}

/// `pub interface Name<T> extends A, B { methods };`, where `pub`, the
/// `extends` clause and the `;` may be left out.
#[verifier::opaque]
pub open spec fn g_interface_decl(toks: Seq<SpecToken>, pos: int) -> Outcome {
    wrap(
        SyntaxKind::InterfaceDecl,
        then_close(
            match then_expect(
                match g_decl_head(
                    toks,
                    pos,
                    SyntaxKind::InterfaceKw,
                    "expected `interface`"@,
                    "expected interface name"@,
                    GenericParamMode::ShapeOrName,
                ) {
                    Err(x) => Err(x),
                    Ok((p1, e1)) => if at(toks, p1, SyntaxKind::ExtendsKw) {
                        join(e1, g_extends_clause(toks, p1))
                    } else {
                        Ok((p1, e1))
                    },
                },
                toks,
                SyntaxKind::LBrace,
                "expected `{`"@,
            ) {
                Err(x) => Err(x),
                Ok((p2, e2)) => join(e2, g_method_sigs(toks, p2)),
            },
            toks,
        ),
    )
}

/// `extends A, B`.
#[verifier::opaque]
pub open spec fn g_extends_clause(toks: Seq<SpecToken>, pos: int) -> Outcome {
    wrap(
        SyntaxKind::ExtendsClause,
        match g_expect(toks, pos, SyntaxKind::ExtendsKw, "expected `extends`"@) {
            Err(x) => Err(x),
            Ok((p1, e1)) => join(e1, g_type_seq(toks, p1)),
        },
    )
}

/// Method signatures up to the closing `}`.
#[verifier::opaque]
pub open spec fn g_method_sigs(toks: Seq<SpecToken>, pos: int) -> Outcome
    decreases toks.len() - pos,
{
    if at(toks, pos, SyntaxKind::RBrace) {
        Ok((pos, Seq::empty()))
    } else if pos >= toks.len() {
        Err(error_at_next(toks, pos, "expected `}`"@))
    } else {
        match g_method_sig(toks, pos) {
            Err(x) => Err(x),
            Ok((p1, e1)) => if fwd(toks, pos, p1) {
                join(e1, g_method_sigs(toks, p1))
            } else {
                Err(stuck())
            },
        }
    }
}

/// `name<T>(params) -> ret`: a method's signature up to its body.
#[verifier::opaque]
pub open spec fn g_method_head(toks: Seq<SpecToken>, pos: int) -> Outcome {
    match then_generics(
        g_expect(toks, pos, SyntaxKind::Ident, "expected method name"@),
        toks,
        GenericParamMode::BareNames,
    ) {
        Err(x) => Err(x),
        Ok((p1, e1)) => match g_param_list(toks, p1, ParamMode::Typed) {
            Err(x) => Err(x),
            Ok((p2, e2)) => join(e1 + e2, g_ret_effect(toks, p2)),
        },
    }
}

/// What ends a method signature: `;`, or a block body and an optional `;`.
#[verifier::opaque]
pub open spec fn g_method_end(toks: Seq<SpecToken>, pos: int) -> Outcome {
    let p1 = eat_pos(toks, pos, SyntaxKind::Semi);
    let e1 = bumped(toks, pos, p1);
    if eat_hit(toks, pos, SyntaxKind::Semi) {
        Ok((p1, e1))
    } else {
        join(e1, then_eat(g_block(toks, p1), toks, SyntaxKind::Semi))
    }
}

/// `name<T>(params) -> ret;` or the same with a block body and an optional `;`.
#[verifier::opaque]
pub open spec fn g_method_sig(toks: Seq<SpecToken>, pos: int) -> Outcome {
    wrap(
        SyntaxKind::MethodSig,
        match g_method_head(toks, pos) {
            Err(x) => Err(x),
            Ok((p1, e1)) => join(e1, g_method_end(toks, p1)),
        },
    )
}

/// `pub name` with an optional `: Type`, where `pub` may be left out: a
/// binding up to its `=`.
#[verifier::opaque]
pub open spec fn g_binding_head(toks: Seq<SpecToken>, pos: int) -> Outcome {
    match then_expect(
        g_eat(toks, pos, SyntaxKind::PubKw),
        toks,
        SyntaxKind::Ident,
        "expected binding name"@,
    ) {
        Err(x) => Err(x),
        Ok((p1, e1)) => {
            let p2 = eat_pos(toks, p1, SyntaxKind::Colon);
            let e2 = bumped(toks, p1, p2);
            if eat_hit(toks, p1, SyntaxKind::Colon) {
                join(e1 + e2, g_type(toks, p2))
            } else {
                Ok((p2, e1 + e2))
            }
        },
    }
}

/// `pub name: Type = expr;`, where `pub`, the type and the `;` may be left out.
#[verifier::opaque]
pub open spec fn g_binding(toks: Seq<SpecToken>, pos: int) -> Outcome {
    wrap(
        SyntaxKind::Binding,
        then_eat(
            then_expr(
                then_expect(g_binding_head(toks, pos), toks, SyntaxKind::Eq, "expected `=`"@),
                toks,
            ),
            toks,
            SyntaxKind::Semi,
        ),
    )
}

/// One top-level item, chosen by its first non-trivia token and, after `pub`,
/// by the second. Without `pub` a declaration is private to its module.
#[verifier::opaque]
pub open spec fn g_item(toks: Seq<SpecToken>, pos: int) -> Outcome {
    wrap(
        SyntaxKind::Item,
        match peek(toks, pos) {
            Some(SyntaxKind::LBrace) => g_import_binding(toks, pos),
            Some(SyntaxKind::TypeKw) => g_type_alias(toks, pos),
            Some(SyntaxKind::StructKw) => g_struct_decl(toks, pos),
            Some(SyntaxKind::EnumKw) => g_enum_decl(toks, pos),
            Some(SyntaxKind::InterfaceKw) => g_interface_decl(toks, pos),
            Some(SyntaxKind::Ident) => g_binding(toks, pos),
            Some(SyntaxKind::PubKw) => {
                let second = nth_nontrivia(toks, pos, 1);
                if second == Some(SyntaxKind::BuiltinImport) {
                    g_reexport(toks, pos)
                } else if second == Some(SyntaxKind::TypeKw) {
                    g_type_alias(toks, pos)
                } else if second == Some(SyntaxKind::StructKw) {
                    g_struct_decl(toks, pos)
                } else if second == Some(SyntaxKind::EnumKw) {
                    g_enum_decl(toks, pos)
                } else if second == Some(SyntaxKind::InterfaceKw) {
                    g_interface_decl(toks, pos)
                } else {
                    g_binding(toks, pos)
                }
            },
            Some(k) => Err(error_at_next(toks, pos, unexpected_item_message(k))),
            None => Ok((pos, Seq::empty())),
        },
    )
}

/// Trivia and items up to the end of the tokens.
#[verifier::opaque]
pub open spec fn g_items(toks: Seq<SpecToken>, pos: int) -> Outcome
    decreases toks.len() - pos,
{
    if pos < 0 || pos >= toks.len() {
        Ok((pos, Seq::empty()))
    } else if toks[pos].kind.trivia() {
        if fwd(toks, pos, pos + 1) {
            join(bumped(toks, pos, pos + 1), g_items(toks, pos + 1))
        } else {
            Err(stuck())
        }
    } else {
        match g_item(toks, pos) {
            Err(x) => Err(x),
            Ok((p1, e1)) => if fwd(toks, pos, p1) {
                join(e1, g_items(toks, p1))
            } else {
                Err(stuck())
            },
        }
    }
}

/// The events of the whole tree for `toks`: a `Root` node around all items,
/// or the first failure.
#[verifier::opaque]
pub open spec fn g_root(toks: Seq<SpecToken>) -> Result<Seq<Event>, Failure> {
    match g_items(toks, 0) {
        Ok((p, e)) => Ok(node(SyntaxKind::Root, e)),
        Err(x) => Err(x),
    }
}

} // verus!
