//! Laws of the grammar: how its constructs compose, stated over the token
//! sequence rather than over the routines that read them.

use crate::grammar::{
    at, bumped, eat_hit, eat_pos, g_arg_list, g_arg_seq, g_block, g_block_items, g_decl_head,
    g_expr, g_expr_inner, g_extends_clause, g_field, g_fields, g_generic_args,
    g_generic_param_seq, g_generic_params, g_generic_slot, g_import_names, g_import_path,
    g_method_sig, g_method_sigs, g_param, g_param_list, g_param_seq, g_postfix, g_type,
    g_type_path, g_type_seq, g_variant, g_variants, join, nth_nontrivia, skip_trivia, Failure,
    GenericParamMode, Outcome, ParamMode,
};
use crate::kinds::SyntaxKind;
use crate::lexer::{
    digits_end, ident_end, ident_start, is_ascii_digit, keyword_of, lex_step, line_end, quoted_end,
    LexStep, SpecToken,
};
use crate::tree::Event;
use vstd::prelude::*;

verus! {

/// The first position at or after `p` without trivia is not before `p`, and
/// not past the end unless `p` is.
pub proof fn lemma_skip_trivia_bounds(toks: Seq<SpecToken>, p: int)
    requires
        0 <= p,
    ensures
        p <= skip_trivia(toks, p),
        p <= toks.len() ==> skip_trivia(toks, p) <= toks.len(),
    decreases toks.len() - p,
{
    if p < toks.len() && toks[p].kind.trivia() {
        lemma_skip_trivia_bounds(toks, p + 1);
    }
}

/// Adding the tokens `a..b` and then `b..c` adds the tokens `a..c`.
pub proof fn lemma_bumped_concat(toks: Seq<SpecToken>, a: int, b: int, c: int)
    requires
        a <= b <= c,
    ensures
        bumped(toks, a, b) + bumped(toks, b, c) =~= bumped(toks, a, c),
{
}

/// Types separated by commas, the first starting at `q`: `ends[k]` is where
/// the `k`-th type ends, and every type but the last is followed by a comma,
/// after which the next type starts.
pub open spec fn comma_separated_types(toks: Seq<SpecToken>, q: int, ends: Seq<int>) -> bool
    decreases ends.len(),
{
    &&& ends.len() >= 1
    &&& g_type(toks, q) matches Ok((p, _)) && p == ends[0] && q < p <= toks.len()
    &&& ends.len() > 1 ==> at(toks, ends[0], SyntaxKind::Comma) && comma_separated_types(
        toks,
        skip_trivia(toks, ends[0]) + 1,
        ends.drop_first(),
    )
}

proof fn lemma_type_seq(toks: Seq<SpecToken>, q: int, ends: Seq<int>, close: SyntaxKind)
    requires
        0 <= q,
        close != SyntaxKind::Comma,
        comma_separated_types(toks, q, ends),
        at(toks, ends.last(), close),
    ensures
        g_type_seq(toks, q) matches Ok((p, _)) && p == skip_trivia(toks, ends.last()),
    decreases ends.len(),
{
    reveal_with_fuel(g_type_seq, 1);
    reveal(g_type);
    let p1 = ends[0];
    lemma_skip_trivia_bounds(toks, p1);
    let e1 = g_type(toks, q)->Ok_0.1;
    assert(g_type(toks, q) == Ok::<(int, Seq<Event>), Failure>((p1, e1)));
    if ends.len() > 1 {
        let rest = ends.drop_first();
        assert(rest.last() == ends.last());
        let p2 = skip_trivia(toks, p1) + 1;
        lemma_type_seq(toks, p2, rest, close);
        assert(at(toks, p1, SyntaxKind::Comma));
        assert(eat_hit(toks, p1, SyntaxKind::Comma));
        assert(eat_pos(toks, p1, SyntaxKind::Comma) == p2);
        assert(q < p2 <= toks.len());
        assert(g_type_seq(toks, p2) matches Ok((p, _)) && p == skip_trivia(toks, ends.last()));
        let e2 = bumped(toks, p1, p2);
        assert(g_type_seq(toks, q) == join(e1 + e2, g_type_seq(toks, p2)));
    } else {
        assert(ends.last() == p1);
        assert(!eat_hit(toks, p1, SyntaxKind::Comma));
        assert(eat_pos(toks, p1, SyntaxKind::Comma) == skip_trivia(toks, p1));
    }
}

/// A generic argument list `<T1, ..., Tn>` of one or more types separated by
/// commas reads every type and ends just after the `>`.
pub proof fn law_generic_args_read_every_type(toks: Seq<SpecToken>, pos: int, ends: Seq<int>)
    requires
        0 <= pos,
        at(toks, pos, SyntaxKind::Lt),
        comma_separated_types(toks, skip_trivia(toks, pos) + 1, ends),
        at(toks, ends.last(), SyntaxKind::Gt),
    ensures
        g_generic_args(toks, pos) matches Ok((p, _)) && p == skip_trivia(toks, ends.last()) + 1,
{
    reveal_with_fuel(g_generic_args, 1);
    reveal(g_type);
    reveal(g_type_seq);
    let q = skip_trivia(toks, pos) + 1;
    lemma_skip_trivia_bounds(toks, pos);
    lemma_skip_trivia_bounds(toks, q);
    lemma_type_seq(toks, q, ends, SyntaxKind::Gt);
    lemma_skip_trivia_bounds(toks, ends.last());
}

/// Names separated by commas, the first at or after `q` (past trivia):
/// `ends[k]` is the position just after the `k`-th name, and every name but
/// the last is followed by a comma, after which the next name comes.
pub open spec fn comma_separated_names(toks: Seq<SpecToken>, q: int, ends: Seq<int>) -> bool
    decreases ends.len(),
{
    let n = skip_trivia(toks, q);
    &&& ends.len() >= 1
    &&& 0 <= n < toks.len() && toks[n].kind == SyntaxKind::Ident && ends[0] == n + 1
    &&& ends.len() > 1 ==> at(toks, ends[0], SyntaxKind::Comma) && comma_separated_names(
        toks,
        skip_trivia(toks, ends[0]) + 1,
        ends.drop_first(),
    )
}

proof fn lemma_generic_param_seq(
    toks: Seq<SpecToken>,
    q: int,
    ends: Seq<int>,
    mode: GenericParamMode,
)
    requires
        0 <= q,
        comma_separated_names(toks, q, ends),
        at(toks, ends.last(), SyntaxKind::Gt),
    ensures
        g_generic_param_seq(toks, q, mode) matches Ok((p, _)) && p == skip_trivia(
            toks,
            ends.last(),
        ),
    decreases ends.len(),
{
    reveal_with_fuel(g_generic_param_seq, 1);
    let n = skip_trivia(toks, q);
    let p1 = n + 1;
    lemma_skip_trivia_bounds(toks, q);
    lemma_skip_trivia_bounds(toks, p1);
    if ends.len() > 1 {
        assert(!at(toks, p1, SyntaxKind::Lt));
    } else {
        assert(ends.last() == p1);
        assert(!at(toks, p1, SyntaxKind::Lt));
    }
    if mode == GenericParamMode::ShapeOrName {
        law_generic_slot_bare_name(toks, q);
    }
    if ends.len() > 1 {
        let rest = ends.drop_first();
        assert(rest.last() == ends.last());
        let p2 = skip_trivia(toks, p1) + 1;
        lemma_generic_param_seq(toks, p2, rest, mode);
        assert(eat_pos(toks, p1, SyntaxKind::Comma) == p2);
    } else {
        assert(!eat_hit(toks, p1, SyntaxKind::Comma));
    }
}

/// A generic parameter list `<N1, ..., Nn>` of one or more names separated by
/// commas reads every name and ends just after the `>`, for declarations and
/// interfaces alike.
pub proof fn law_generic_params_read_every_name(
    toks: Seq<SpecToken>,
    pos: int,
    ends: Seq<int>,
    mode: GenericParamMode,
)
    requires
        0 <= pos,
        at(toks, pos, SyntaxKind::Lt),
        comma_separated_names(toks, skip_trivia(toks, pos) + 1, ends),
        at(toks, ends.last(), SyntaxKind::Gt),
    ensures
        g_generic_params(toks, pos, mode) matches Ok((p, _)) && p == skip_trivia(toks, ends.last())
            + 1,
{
    reveal(g_generic_params);
    let q = skip_trivia(toks, pos) + 1;
    lemma_skip_trivia_bounds(toks, pos);
    lemma_skip_trivia_bounds(toks, q);
    lemma_generic_param_seq(toks, q, ends, mode);
    lemma_skip_trivia_bounds(toks, ends.last());
}

/// Expressions separated by commas, the first starting at `q`: `ends[k]` is
/// where the `k`-th expression ends, and every one but the last is followed by
/// a comma, after which the next one starts.
pub open spec fn comma_separated_exprs(toks: Seq<SpecToken>, q: int, ends: Seq<int>) -> bool
    decreases ends.len(),
{
    &&& ends.len() >= 1
    &&& g_expr(toks, q) matches Ok((p, _)) && p == ends[0] && q < p <= toks.len()
    &&& ends.len() > 1 ==> at(toks, ends[0], SyntaxKind::Comma) && comma_separated_exprs(
        toks,
        skip_trivia(toks, ends[0]) + 1,
        ends.drop_first(),
    )
}

proof fn lemma_arg_seq(toks: Seq<SpecToken>, q: int, ends: Seq<int>)
    requires
        0 <= q,
        comma_separated_exprs(toks, q, ends),
        at(toks, ends.last(), SyntaxKind::RParen),
    ensures
        g_arg_seq(toks, q) matches Ok((p, _)) && p == skip_trivia(toks, ends.last()),
    decreases ends.len(),
{
    reveal_with_fuel(g_arg_seq, 1);
    reveal(g_expr);
    let p1 = ends[0];
    lemma_skip_trivia_bounds(toks, p1);
    if ends.len() > 1 {
        let rest = ends.drop_first();
        assert(rest.last() == ends.last());
        let p2 = skip_trivia(toks, p1) + 1;
        lemma_arg_seq(toks, p2, rest);
        assert(eat_pos(toks, p1, SyntaxKind::Comma) == p2);
    } else {
        assert(!eat_hit(toks, p1, SyntaxKind::Comma));
    }
}

/// A call's argument list `(E1, ..., En)` of one or more expressions separated
/// by commas reads every expression and ends just after the `)`.
pub proof fn law_arg_list_reads_every_expr(toks: Seq<SpecToken>, pos: int, ends: Seq<int>)
    requires
        0 <= pos,
        at(toks, pos, SyntaxKind::LParen),
        comma_separated_exprs(toks, skip_trivia(toks, pos) + 1, ends),
        at(toks, ends.last(), SyntaxKind::RParen),
    ensures
        g_arg_list(toks, pos) matches Ok((p, _)) && p == skip_trivia(toks, ends.last()) + 1,
{
    reveal_with_fuel(g_arg_list, 1);
    reveal(g_expr);
    reveal(g_expr_inner);
    reveal(g_arg_seq);
    let q = skip_trivia(toks, pos) + 1;
    lemma_skip_trivia_bounds(toks, pos);
    lemma_skip_trivia_bounds(toks, q);
    lemma_arg_seq(toks, q, ends);
    lemma_skip_trivia_bounds(toks, ends.last());
}

/// A tuple type `(T1, ..., Tn)` of one or more types separated by commas
/// reads every type and ends just after the `)`.
pub proof fn law_tuple_type_reads_every_type(toks: Seq<SpecToken>, pos: int, ends: Seq<int>)
    requires
        0 <= pos,
        at(toks, pos, SyntaxKind::LParen),
        comma_separated_types(toks, skip_trivia(toks, pos) + 1, ends),
        at(toks, ends.last(), SyntaxKind::RParen),
    ensures
        g_type(toks, pos) matches Ok((p, _)) && p == skip_trivia(toks, ends.last()) + 1,
{
    reveal_with_fuel(g_type, 2);
    reveal(g_type_seq);
    let q = skip_trivia(toks, pos) + 1;
    lemma_skip_trivia_bounds(toks, pos);
    lemma_skip_trivia_bounds(toks, q);
    lemma_type_seq(toks, q, ends, SyntaxKind::RParen);
    lemma_skip_trivia_bounds(toks, ends.last());
}

/// Statements of a block, the first starting at `q`: `ends[k]` is where the
/// `k`-th expression ends, each is followed by `;`, and after the last `;`
/// comes `}`.
pub open spec fn statements(toks: Seq<SpecToken>, q: int, ends: Seq<int>) -> bool
    decreases ends.len(),
{
    let next = skip_trivia(toks, ends[0]) + 1;
    &&& ends.len() >= 1
    &&& g_expr(toks, q) matches Ok((p, _)) && p == ends[0] && q < p <= toks.len()
    &&& at(toks, ends[0], SyntaxKind::Semi)
    &&& if ends.len() == 1 {
        at(toks, next, SyntaxKind::RBrace)
    } else {
        statements(toks, next, ends.drop_first())
    }
}

/// The position just after the `;` of the last statement.
pub open spec fn after_statements(toks: Seq<SpecToken>, ends: Seq<int>) -> int {
    skip_trivia(toks, ends.last()) + 1
}

proof fn lemma_block_items(toks: Seq<SpecToken>, q: int, ends: Seq<int>)
    requires
        0 <= q,
        statements(toks, q, ends),
    ensures
        g_block_items(toks, q) matches Ok((p, _)) && p == after_statements(toks, ends),
    decreases ends.len(),
{
    reveal_with_fuel(g_block_items, 2);
    reveal(g_expr);
    let p1 = ends[0];
    let next = skip_trivia(toks, p1) + 1;
    lemma_skip_trivia_bounds(toks, p1);
    lemma_skip_trivia_bounds(toks, next);
    assert(eat_hit(toks, p1, SyntaxKind::Semi));
    assert(eat_pos(toks, p1, SyntaxKind::Semi) == next);
    assert(!at(toks, q, SyntaxKind::RBrace)) by {
        reveal(g_expr_inner);
    }
    if ends.len() > 1 {
        let rest = ends.drop_first();
        assert(rest.last() == ends.last());
        lemma_block_items(toks, next, rest);
    } else {
        assert(ends.last() == p1);
    }
}

/// A block `{ E1; ...; En; }` of one or more statements reads every one and
/// ends just after the `}`.
pub proof fn law_block_reads_every_statement(toks: Seq<SpecToken>, pos: int, ends: Seq<int>)
    requires
        0 <= pos,
        at(toks, pos, SyntaxKind::LBrace),
        statements(toks, skip_trivia(toks, pos) + 1, ends),
    ensures
        g_block(toks, pos) matches Ok((p, _)) && p == skip_trivia(
            toks,
            after_statements(toks, ends),
        ) + 1,
{
    reveal_with_fuel(g_block, 1);
    reveal(g_block_items);
    let q = skip_trivia(toks, pos) + 1;
    lemma_skip_trivia_bounds(toks, pos);
    lemma_skip_trivia_bounds(toks, q);
    lemma_block_items(toks, q, ends);
    lemma_statements_end(toks, q, ends);
}

proof fn lemma_statements_end(toks: Seq<SpecToken>, q: int, ends: Seq<int>)
    requires
        statements(toks, q, ends),
    ensures
        at(toks, after_statements(toks, ends), SyntaxKind::RBrace),
    decreases ends.len(),
{
    if ends.len() > 1 {
        let rest = ends.drop_first();
        assert(rest.last() == ends.last());
        lemma_statements_end(toks, skip_trivia(toks, ends[0]) + 1, rest);
    }
}

/// A field `name: Type;` reads its type and ends just after the `;`.
pub proof fn law_field(toks: Seq<SpecToken>, pos: int)
    requires
        0 <= pos,
        0 <= skip_trivia(toks, pos) < toks.len(),
        toks[skip_trivia(toks, pos)].kind == SyntaxKind::Ident,
        at(toks, skip_trivia(toks, pos) + 1, SyntaxKind::Colon),
        g_type(toks, skip_trivia(toks, skip_trivia(toks, pos) + 1) + 1) matches Ok((p, _)) && at(
            toks,
            p,
            SyntaxKind::Semi,
        ),
    ensures
        g_field(toks, pos) matches Ok((q, _)) && q == skip_trivia(
            toks,
            g_type(toks, skip_trivia(toks, skip_trivia(toks, pos) + 1) + 1)->Ok_0.0,
        ) + 1,
{
    reveal(g_field);
}

/// A variant with a payload, `Name(T1, ..., Tn);`, reads every type and ends
/// just after the `;`.
pub proof fn law_variant_payload(toks: Seq<SpecToken>, pos: int, ends: Seq<int>)
    requires
        0 <= pos,
        0 <= skip_trivia(toks, pos) < toks.len(),
        toks[skip_trivia(toks, pos)].kind == SyntaxKind::Ident,
        at(toks, skip_trivia(toks, pos) + 1, SyntaxKind::LParen),
        comma_separated_types(
            toks,
            skip_trivia(toks, skip_trivia(toks, pos) + 1) + 1,
            ends,
        ),
        at(toks, ends.last(), SyntaxKind::RParen),
        at(toks, skip_trivia(toks, ends.last()) + 1, SyntaxKind::Semi),
    ensures
        g_variant(toks, pos) matches Ok((p, _)) && p == skip_trivia(
            toks,
            skip_trivia(toks, ends.last()) + 1,
        ) + 1,
{
    reveal(g_variant);
    reveal(g_type);
    let n = skip_trivia(toks, pos);
    let q = skip_trivia(toks, n + 1) + 1;
    lemma_skip_trivia_bounds(toks, pos);
    lemma_skip_trivia_bounds(toks, n + 1);
    lemma_skip_trivia_bounds(toks, q);
    lemma_type_seq(toks, q, ends, SyntaxKind::RParen);
    assert(eat_hit(toks, n + 1, SyntaxKind::LParen));
    assert(eat_pos(toks, n + 1, SyntaxKind::LParen) == q);
}

/// Consecutive constructs read by `f`, the first starting at `q`: `ends[k]` is
/// where the `k`-th ends, and the next starts there.
pub open spec fn run_of(f: spec_fn(int) -> Outcome, len: int, q: int, ends: Seq<int>) -> bool
    decreases ends.len(),
{
    &&& ends.len() >= 1
    &&& f(q) matches Ok((p, _)) && p == ends[0] && q < p <= len
    &&& ends.len() > 1 ==> run_of(f, len, ends[0], ends.drop_first())
}

proof fn lemma_fields(toks: Seq<SpecToken>, q: int, ends: Seq<int>)
    requires
        0 <= q,
        run_of(|p: int| g_field(toks, p), toks.len() as int, q, ends),
        at(toks, ends.last(), SyntaxKind::RBrace),
    ensures
        g_fields(toks, q) matches Ok((p, _)) && p == ends.last(),
    decreases ends.len(),
{
    reveal_with_fuel(g_fields, 2);
    reveal(g_field);
    if ends.len() > 1 {
        let rest = ends.drop_first();
        assert(rest.last() == ends.last());
        lemma_fields(toks, ends[0], rest);
    }
}

/// A struct body's fields are read one after the other up to the `}`.
pub proof fn law_fields_read_every_field(toks: Seq<SpecToken>, q: int, ends: Seq<int>)
    requires
        0 <= q,
        run_of(|p: int| g_field(toks, p), toks.len() as int, q, ends),
        at(toks, ends.last(), SyntaxKind::RBrace),
    ensures
        g_fields(toks, q) matches Ok((p, _)) && p == ends.last(),
{
    lemma_fields(toks, q, ends);
}

proof fn lemma_variants(toks: Seq<SpecToken>, q: int, ends: Seq<int>)
    requires
        0 <= q,
        run_of(|p: int| g_variant(toks, p), toks.len() as int, q, ends),
        at(toks, ends.last(), SyntaxKind::RBrace),
    ensures
        g_variants(toks, q) matches Ok((p, _)) && p == ends.last(),
    decreases ends.len(),
{
    reveal_with_fuel(g_variants, 2);
    reveal(g_variant);
    if ends.len() > 1 {
        let rest = ends.drop_first();
        assert(rest.last() == ends.last());
        lemma_variants(toks, ends[0], rest);
    }
}

/// An enum body's variants are read one after the other up to the `}`.
pub proof fn law_variants_read_every_variant(toks: Seq<SpecToken>, q: int, ends: Seq<int>)
    requires
        0 <= q,
        run_of(|p: int| g_variant(toks, p), toks.len() as int, q, ends),
        at(toks, ends.last(), SyntaxKind::RBrace),
    ensures
        g_variants(toks, q) matches Ok((p, _)) && p == ends.last(),
{
    lemma_variants(toks, q, ends);
}

proof fn lemma_import_names(toks: Seq<SpecToken>, q: int, ends: Seq<int>)
    requires
        0 <= q,
        comma_separated_names(toks, q, ends),
        at(toks, ends.last(), SyntaxKind::RBrace),
    ensures
        g_import_names(toks, q) matches Ok((p, _)) && p == skip_trivia(toks, ends.last()),
    decreases ends.len(),
{
    reveal_with_fuel(g_import_names, 1);
    let n = skip_trivia(toks, q);
    let p1 = n + 1;
    lemma_skip_trivia_bounds(toks, q);
    lemma_skip_trivia_bounds(toks, p1);
    if ends.len() > 1 {
        let rest = ends.drop_first();
        assert(rest.last() == ends.last());
        let p2 = skip_trivia(toks, p1) + 1;
        lemma_import_names(toks, p2, rest);
        assert(eat_pos(toks, p1, SyntaxKind::Comma) == p2);
    } else {
        assert(ends.last() == p1);
        assert(!eat_hit(toks, p1, SyntaxKind::Comma));
    }
}

/// The names of a destructuring import `{a, b, c}` are read one after the
/// other up to the `}`.
pub proof fn law_import_names_read_every_name(toks: Seq<SpecToken>, q: int, ends: Seq<int>)
    requires
        0 <= q,
        comma_separated_names(toks, q, ends),
        at(toks, ends.last(), SyntaxKind::RBrace),
    ensures
        g_import_names(toks, q) matches Ok((p, _)) && p == skip_trivia(toks, ends.last()),
{
    lemma_import_names(toks, q, ends);
}

/// An `extends A, B, C` clause reads every type, up to the `{` that follows.
pub proof fn law_extends_reads_every_type(toks: Seq<SpecToken>, pos: int, ends: Seq<int>)
    requires
        0 <= pos,
        at(toks, pos, SyntaxKind::ExtendsKw),
        comma_separated_types(toks, skip_trivia(toks, pos) + 1, ends),
        at(toks, ends.last(), SyntaxKind::LBrace),
    ensures
        g_extends_clause(toks, pos) matches Ok((p, _)) && p == skip_trivia(toks, ends.last()),
{
    reveal(g_extends_clause);
    let q = skip_trivia(toks, pos) + 1;
    lemma_skip_trivia_bounds(toks, pos);
    lemma_type_seq(toks, q, ends, SyntaxKind::LBrace);
}

/// `.name` segments, the first `.` at or after `q`: `ends[k]` is the position
/// just after the `k`-th name, and no `.` follows the last.
pub open spec fn dotted_names(toks: Seq<SpecToken>, q: int, ends: Seq<int>) -> bool
    decreases ends.len(),
{
    let n = skip_trivia(toks, skip_trivia(toks, q) + 1);
    &&& ends.len() >= 1
    &&& at(toks, q, SyntaxKind::Dot)
    &&& 0 <= n < toks.len() && toks[n].kind == SyntaxKind::Ident && ends[0] == n + 1
    &&& if ends.len() == 1 {
        !at(toks, ends[0], SyntaxKind::Dot)
    } else {
        dotted_names(toks, ends[0], ends.drop_first())
    }
}

proof fn lemma_type_path(toks: Seq<SpecToken>, q: int, ends: Seq<int>)
    requires
        0 <= q,
        dotted_names(toks, q, ends),
    ensures
        g_type_path(toks, q) matches Ok((p, _)) && p == skip_trivia(toks, ends.last()),
        g_import_path(toks, q) matches Ok((p, _)) && p == ends.last(),
    decreases ends.len(),
{
    reveal_with_fuel(g_type_path, 2);
    reveal_with_fuel(g_import_path, 2);
    let d = skip_trivia(toks, q);
    let n = skip_trivia(toks, d + 1);
    lemma_skip_trivia_bounds(toks, q);
    lemma_skip_trivia_bounds(toks, d + 1);
    lemma_skip_trivia_bounds(toks, n + 1);
    assert(eat_hit(toks, q, SyntaxKind::Dot));
    if ends.len() > 1 {
        let rest = ends.drop_first();
        assert(rest.last() == ends.last());
        lemma_type_path(toks, n + 1, rest);
    } else {
        assert(ends.last() == n + 1);
        assert(!eat_hit(toks, n + 1, SyntaxKind::Dot));
    }
}

/// A dotted path `.a.b.c` after a type name or an import reads every segment.
pub proof fn law_paths_read_every_segment(toks: Seq<SpecToken>, q: int, ends: Seq<int>)
    requires
        0 <= q,
        dotted_names(toks, q, ends),
    ensures
        g_type_path(toks, q) matches Ok((p, _)) && p == skip_trivia(toks, ends.last()),
        g_import_path(toks, q) matches Ok((p, _)) && p == ends.last(),
{
    lemma_type_path(toks, q, ends);
}

proof fn lemma_method_sigs(toks: Seq<SpecToken>, q: int, ends: Seq<int>)
    requires
        0 <= q,
        run_of(|p: int| g_method_sig(toks, p), toks.len() as int, q, ends),
        at(toks, ends.last(), SyntaxKind::RBrace),
        forall|k: int| 0 <= k < ends.len() - 1 ==> !at(toks, #[trigger] ends[k], SyntaxKind::RBrace),
        !at(toks, q, SyntaxKind::RBrace),
    ensures
        g_method_sigs(toks, q) matches Ok((p, _)) && p == ends.last(),
    decreases ends.len(),
{
    reveal_with_fuel(g_method_sigs, 2);
    if ends.len() > 1 {
        let rest = ends.drop_first();
        assert(rest.last() == ends.last());
        assert(!at(toks, ends[0], SyntaxKind::RBrace));
        lemma_method_sigs(toks, ends[0], rest);
    }
}

/// An interface body's method signatures are read one after the other up to
/// the `}`.
pub proof fn law_method_sigs_read_every_signature(toks: Seq<SpecToken>, q: int, ends: Seq<int>)
    requires
        0 <= q,
        run_of(|p: int| g_method_sig(toks, p), toks.len() as int, q, ends),
        at(toks, ends.last(), SyntaxKind::RBrace),
        forall|k: int| 0 <= k < ends.len() - 1 ==> !at(toks, #[trigger] ends[k], SyntaxKind::RBrace),
        !at(toks, q, SyntaxKind::RBrace),
    ensures
        g_method_sigs(toks, q) matches Ok((p, _)) && p == ends.last(),
{
    lemma_method_sigs(toks, q, ends);
}

/// Parameters separated by commas, the first starting at `q`: `ends[k]` is
/// where the `k`-th parameter ends, and every one but the last is followed by a
/// comma, after which the next one starts.
pub open spec fn comma_separated_params(
    toks: Seq<SpecToken>,
    q: int,
    ends: Seq<int>,
    mode: ParamMode,
) -> bool
    decreases ends.len(),
{
    &&& ends.len() >= 1
    &&& g_param(toks, q, mode) matches Ok((p, _)) && p == ends[0] && q < p <= toks.len()
    &&& ends.len() > 1 ==> at(toks, ends[0], SyntaxKind::Comma) && comma_separated_params(
        toks,
        skip_trivia(toks, ends[0]) + 1,
        ends.drop_first(),
        mode,
    )
}

proof fn lemma_param_seq(toks: Seq<SpecToken>, q: int, ends: Seq<int>, mode: ParamMode)
    requires
        0 <= q,
        comma_separated_params(toks, q, ends, mode),
        at(toks, ends.last(), SyntaxKind::RParen),
    ensures
        g_param_seq(toks, q, mode) matches Ok((p, _)) && p == skip_trivia(toks, ends.last()),
    decreases ends.len(),
{
    reveal_with_fuel(g_param_seq, 1);
    reveal(g_param);
    let p1 = ends[0];
    lemma_skip_trivia_bounds(toks, p1);
    if ends.len() > 1 {
        let rest = ends.drop_first();
        assert(rest.last() == ends.last());
        let p2 = skip_trivia(toks, p1) + 1;
        lemma_param_seq(toks, p2, rest, mode);
        assert(eat_pos(toks, p1, SyntaxKind::Comma) == p2);
    } else {
        assert(!eat_hit(toks, p1, SyntaxKind::Comma));
    }
}

/// A parameter list `(P1, ..., Pn)` of one or more parameters separated by
/// commas reads every parameter and ends just after the `)`, in every mode.
pub proof fn law_param_list_reads_every_param(
    toks: Seq<SpecToken>,
    pos: int,
    ends: Seq<int>,
    mode: ParamMode,
)
    requires
        0 <= pos,
        at(toks, pos, SyntaxKind::LParen),
        comma_separated_params(toks, skip_trivia(toks, pos) + 1, ends, mode),
        at(toks, ends.last(), SyntaxKind::RParen),
    ensures
        g_param_list(toks, pos, mode) matches Ok((p, _)) && p == skip_trivia(toks, ends.last())
            + 1,
{
    reveal_with_fuel(g_param_list, 1);
    reveal(g_param_seq);
    reveal(g_param);
    reveal(g_type);
    let q = skip_trivia(toks, pos) + 1;
    lemma_skip_trivia_bounds(toks, pos);
    lemma_skip_trivia_bounds(toks, q);
    lemma_param_seq(toks, q, ends, mode);
    lemma_skip_trivia_bounds(toks, ends.last());
}

/// After a call's argument list the expression goes on: the suffixes that
/// follow a `(args)` are read as they would be on their own.
pub proof fn law_postfix_after_call(toks: Seq<SpecToken>, pos: int)
    requires
        at(toks, pos, SyntaxKind::LParen),
        g_arg_list(toks, pos) matches Ok((p1, _)) && pos < p1 <= toks.len(),
    ensures
        g_postfix(toks, pos) == (match g_arg_list(toks, pos) {
            Ok((p1, e1)) => join(e1, g_postfix(toks, p1)),
            Err(x) => Err(x),
        }),
{
    reveal_with_fuel(g_postfix, 1);
    reveal(g_arg_list);
}

/// After a field access `.name` the expression goes on: the suffixes that
/// follow are read as they would be on their own.
pub proof fn law_postfix_after_field(toks: Seq<SpecToken>, pos: int)
    requires
        0 <= pos,
        at(toks, pos, SyntaxKind::Dot),
        at(toks, skip_trivia(toks, pos) + 1, SyntaxKind::Ident),
    ensures
        g_postfix(toks, pos) == join(
            bumped(toks, pos, skip_trivia(toks, skip_trivia(toks, pos) + 1) + 1),
            g_postfix(toks, skip_trivia(toks, skip_trivia(toks, pos) + 1) + 1),
        ),
{
    reveal_with_fuel(g_postfix, 1);
    let d = skip_trivia(toks, pos);
    let n = skip_trivia(toks, d + 1);
    lemma_skip_trivia_bounds(toks, pos);
    lemma_skip_trivia_bounds(toks, d + 1);
    lemma_bumped_concat(toks, pos, d + 1, n + 1);
}

/// A declaration head `pub? <keyword> Name` reads a generic parameter list
/// when `<` follows the name, whatever the keyword, and stops after the name
/// otherwise.
pub proof fn law_decl_head_generics(
    toks: Seq<SpecToken>,
    pos: int,
    keyword: SyntaxKind,
    keyword_msg: Seq<char>,
    name_msg: Seq<char>,
    mode: GenericParamMode,
)
    requires
        0 <= pos,
        ({
            let b = skip_trivia(toks, eat_pos(toks, pos, SyntaxKind::PubKw));
            let c = skip_trivia(toks, b + 1);
            &&& 0 <= b < toks.len() && toks[b].kind == keyword
            &&& 0 <= c < toks.len() && toks[c].kind == SyntaxKind::Ident
        }),
    ensures
        ({
            let c = skip_trivia(toks, skip_trivia(toks, eat_pos(toks, pos, SyntaxKind::PubKw)) + 1);
            let head = bumped(toks, pos, c + 1);
            g_decl_head(toks, pos, keyword, keyword_msg, name_msg, mode) == if at(
                toks,
                c + 1,
                SyntaxKind::Lt,
            ) {
                join(head, g_generic_params(toks, c + 1, mode))
            } else {
                Ok((c + 1, head))
            }
        }),
{
    reveal(g_decl_head);
    let a = eat_pos(toks, pos, SyntaxKind::PubKw);
    let b = skip_trivia(toks, a);
    let c = skip_trivia(toks, b + 1);
    lemma_skip_trivia_bounds(toks, pos);
    lemma_skip_trivia_bounds(toks, a);
    lemma_skip_trivia_bounds(toks, b + 1);
    lemma_bumped_concat(toks, pos, a, b + 1);
    lemma_bumped_concat(toks, pos, b + 1, c + 1);
}

/// An interface generic slot that is a single name or `Self`, with no `<`
/// after it, is a bare parameter: it takes exactly that token.
pub proof fn law_generic_slot_bare_name(toks: Seq<SpecToken>, pos: int)
    requires
        0 <= pos,
        0 <= skip_trivia(toks, pos) < toks.len(),
        toks[skip_trivia(toks, pos)].kind == SyntaxKind::Ident || toks[skip_trivia(toks, pos)].kind
            == SyntaxKind::SelfTypeKw,
        !at(toks, skip_trivia(toks, pos) + 1, SyntaxKind::Lt),
    ensures
        g_generic_slot(toks, pos) == Ok::<(int, Seq<Event>), Failure>(
            (skip_trivia(toks, pos) + 1, bumped(toks, pos, skip_trivia(toks, pos) + 1)),
        ),
{
    reveal(g_generic_slot);
    assert(nth_nontrivia(toks, pos, 1) == nth_nontrivia(toks, skip_trivia(toks, pos) + 1, 0));
}

/// The inside of a quoted literal from `j` on, up to its closing quote at
/// `e - 1`: plain characters and escape pairs (a backslash and the character
/// after it, whatever it is), then the quote.
pub open spec fn quoted_body(s: Seq<char>, j: int, e: int, quote: char) -> bool
    decreases e - j,
{
    if 0 <= j < e <= s.len() {
        ||| s[j] == quote && e == j + 1
        ||| s[j] == '\\' && j + 2 < e && quoted_body(s, j + 2, e, quote)
        ||| s[j] != '\\' && s[j] != quote && quoted_body(s, j + 1, e, quote)
    } else {
        false
    }
}

/// A literal made of plain characters and escape pairs closes at its first
/// unescaped quote.
pub proof fn law_quoted_end(s: Seq<char>, j: int, e: int, quote: char)
    requires
        quote != '\\',
        quoted_body(s, j, e, quote),
    ensures
        quoted_end(s, j, quote, false) == Some(e),
    decreases e - j,
{
    if s[j] == quote && e == j + 1 {
    } else if s[j] == '\\' {
        law_quoted_end(s, j + 2, e, quote);
        assert(quoted_end(s, j + 1, quote, true) == quoted_end(s, j + 2, quote, false));
    } else {
        law_quoted_end(s, j + 1, e, quote);
    }
}

/// A string or char literal made of plain characters and escape pairs lexes
/// as one token that ends just after its closing quote.
pub proof fn law_quoted_literal_token(s: Seq<char>, i: int, e: int)
    requires
        0 <= i < s.len(),
        s[i] == '"' || s[i] == '\'',
        quoted_body(s, i + 1, e, s[i]),
    ensures
        lex_step(s, i) == LexStep::Token(
            if s[i] == '"' {
                SyntaxKind::String
            } else {
                SyntaxKind::Char
            },
            e,
        ),
{
    reveal(lex_step);
    law_quoted_end(s, i + 1, e, s[i]);
    if i + 2 <= s.len() {
        assert(s.subrange(i, i + 2)[0] == s[i]);
    }
    if i + 3 <= s.len() {
        assert(s.subrange(i, i + 3)[0] == s[i]);
    }
    if i + 7 <= s.len() {
        assert(s.subrange(i, i + 7)[0] == s[i]);
    }
    if i + 8 <= s.len() {
        assert(s.subrange(i, i + 8)[0] == s[i]);
    }
}

/// A comment runs to the end of its line: `///` starts a doc comment and `//`
/// a line comment, and either stops before the first line feed or carriage
/// return.
pub proof fn law_comment_token(s: Seq<char>, i: int)
    requires
        0 <= i,
        i + 2 <= s.len(),
        s[i] == '/' && s[i + 1] == '/',
    ensures
        lex_step(s, i) == LexStep::Token(
            if i + 2 < s.len() && s[i + 2] == '/' {
                SyntaxKind::DocComment
            } else {
                SyntaxKind::LineComment
            },
            line_end(s, i),
        ),
{
    reveal(lex_step);
    assert(s.subrange(i, i + 2) =~= seq!['/', '/']);
    if i + 2 < s.len() && s[i + 2] == '/' {
        assert(s.subrange(i, i + 3) =~= seq!['/', '/', '/']);
    } else if i + 3 <= s.len() {
        assert(s.subrange(i, i + 3)[2] == s[i + 2]);
    }
}

/// The two-character marks `->`, `=>`, `<=` and `|>` lex as one token each,
/// before the one-character marks they begin with.
pub proof fn law_two_character_marks(s: Seq<char>, i: int)
    requires
        0 <= i,
        i + 2 <= s.len(),
        (s[i] == '-' || s[i] == '=' || s[i] == '<' || s[i] == '|') && (if s[i] == '<' {
            s[i + 1] == '='
        } else {
            s[i + 1] == '>'
        }),
    ensures
        lex_step(s, i) == LexStep::Token(
            if s[i] == '-' {
                SyntaxKind::Arrow
            } else if s[i] == '=' {
                SyntaxKind::FatArrow
            } else if s[i] == '<' {
                SyntaxKind::Le
            } else {
                SyntaxKind::PipeGt
            },
            i + 2,
        ),
{
    reveal(lex_step);
    lemma_first_char_of_marks(s, i);
    let t = s.subrange(i, i + 2);
    assert(t[0] == s[i] && t[1] == s[i + 1]);
    if s[i] == '-' {
        assert(t =~= seq!['-', '>']);
    } else if s[i] == '=' {
        assert(t =~= seq!['=', '>']);
    } else if s[i] == '<' {
        assert(t =~= seq!['<', '=']);
    } else {
        assert(t =~= seq!['|', '>']);
    }
}

/// An identifier lexes as one token that runs to the end of its identifier
/// characters: a keyword if it spells one, a name otherwise.
pub proof fn law_identifier_token(s: Seq<char>, i: int)
    requires
        0 <= i < s.len(),
        ident_start(s[i]),
    ensures
        lex_step(s, i) == LexStep::Token(
            match keyword_of(s.subrange(i, ident_end(s, i))) {
                Some(k) => k,
                None => SyntaxKind::Ident,
            },
            ident_end(s, i),
        ),
{
    reveal(lex_step);
    lemma_first_char_of_marks(s, i);
}

/// A run of digits lexes as one integer token that runs to its last digit.
pub proof fn law_integer_token(s: Seq<char>, i: int)
    requires
        0 <= i < s.len(),
        is_ascii_digit(s[i]),
    ensures
        lex_step(s, i) == LexStep::Token(SyntaxKind::Int, digits_end(s, i)),
{
    reveal(lex_step);
    lemma_first_char_of_marks(s, i);
}

/// A mark of two, three, seven or eight characters at `i` starts with `s[i]`.
proof fn lemma_first_char_of_marks(s: Seq<char>, i: int)
    requires
        0 <= i < s.len(),
    ensures
        forall|n: int|
            #![trigger s.subrange(i, i + n)]
            1 <= n && i + n <= s.len() ==> s.subrange(i, i + n)[0] == s[i],
{
}

} // verus!
