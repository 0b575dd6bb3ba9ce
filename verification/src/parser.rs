//! Recursive-descent parser that builds the lossless tree from tokens.

use crate::grammar::{
    Failure, GenericParamMode, Outcome, ParamMode, at, bumped, eat_hit, eat_pos, eof_offset,
    error_at_eof, error_at_next, fwd, g_arg_list, g_arg_seq, g_binding, g_binding_head, g_block,
    g_block_items, g_bump_nontrivia, g_decl_head, g_eat, g_effect_tail, g_enum_decl, g_expect, g_expr,
    g_expr_inner, g_extends_clause, g_field, g_fields, g_fn_expr, g_function_type,
    g_generic_args, g_generic_param_seq, g_generic_params, g_generic_slot, g_import_binding,
    g_import_expr, g_import_names, g_import_path, g_interface_decl, g_item, g_items,
    g_method_end, g_method_head, g_method_sig, g_method_sigs, g_name_like, g_param,
    g_param_list, g_param_name, g_param_seq, g_postfix, g_reexport, g_ret_effect, g_root,
    g_struct_decl, g_type, g_type_alias, g_type_path, g_type_seq, g_variant, g_variants, join,
    lemma_join_empty, lemma_join_join, node, nth_nontrivia, skip_trivia, stuck,
    unexpected_expr_message, unexpected_item_message,
};
use crate::kinds::{lemma_kind_raw_roundtrip, SyntaxKind};
use crate::lexer::{
    lemma_laid_out_within, lemma_lex_from_covers, lex, lex_from, spec_token, token_pairs, token_views,
    tokenize, tokens_laid_out, SpecToken, Token,
};
use crate::text::{byte_len, lemma_byte_len_append};
use crate::tree::{
    Event, FINISH_TAG, TOKEN_TAG, balanced, builder_events, builder_finish, builder_finish_node,
    builder_start_node, builder_token, depth, event_tokens, events_text, finish_event,
    green_events, lemma_depth_append, lemma_event_tokens_wrap, lemma_never_below_depth,
    lemma_events_text_push, lemma_push_event, lemma_texts_concat_append, never_below, texts_concat, new_builder, single_tree, start_event, token_event,
};
use crate::{Parse, ParseError};
use rowan::{GreenNode, GreenNodeBuilder};
use vstd::prelude::*;
use vstd::string::StringExecFns;

verus! {

broadcast use vstd::string::group_string_axioms;

/// The parser's state: the tokens, the position of the next token and the
/// tree built so far.
pub struct Parser {
    tokens: Vec<Token>,
    pos: usize,
    builder: GreenNodeBuilder<'static>,
}

/// Whether `first`, a token, may open the declaration node that `decl` starts:
/// `{` a destructuring import; `pub` any declaration; the keyword a
/// module-private type alias, struct, enum or interface; a name a
/// module-private binding.
pub open spec fn declaration_opening(decl: Event, first: Event) -> bool {
    let k = SyntaxKind::kind_of_raw(first.1);
    &&& first.0 == TOKEN_TAG
    &&& {
        ||| decl == start_event(SyntaxKind::ImportBinding.raw_of()) && k == SyntaxKind::LBrace
        ||| decl == start_event(SyntaxKind::ReExport.raw_of()) && k == SyntaxKind::PubKw
        ||| decl == start_event(SyntaxKind::TypeAlias.raw_of()) && (k == SyntaxKind::PubKw || k
            == SyntaxKind::TypeKw)
        ||| decl == start_event(SyntaxKind::StructDecl.raw_of()) && (k == SyntaxKind::PubKw || k
            == SyntaxKind::StructKw)
        ||| decl == start_event(SyntaxKind::EnumDecl.raw_of()) && (k == SyntaxKind::PubKw || k
            == SyntaxKind::EnumKw)
        ||| decl == start_event(SyntaxKind::InterfaceDecl.raw_of()) && (k == SyntaxKind::PubKw || k
            == SyntaxKind::InterfaceKw)
        ||| decl == start_event(SyntaxKind::Binding.raw_of()) && (k == SyntaxKind::PubKw || k
            == SyntaxKind::Ident)
    }
}

/// The events of an item: an `Item` node around exactly one declaration node,
/// whose first token may open it.
pub open spec fn item_node(evs: Seq<Event>) -> bool {
    &&& evs.len() >= 2
    &&& evs[0] == start_event(SyntaxKind::Item.raw_of())
    &&& evs.last() == finish_event()
    &&& single_tree(evs.subrange(1, evs.len() - 1))
    &&& evs.len() >= 3
    &&& declaration_opening(evs[1], evs[2])
}

/// A child of the root: a single trivia token, or an item.
pub open spec fn top_level_child(evs: Seq<Event>) -> bool {
    ||| evs.len() == 1 && evs[0].0 == TOKEN_TAG && SyntaxKind::kind_of_raw(evs[0].1).trivia()
    ||| item_node(evs)
}

/// The events of the runs `segs`, one after the other.
pub open spec fn concat_runs(segs: Seq<Seq<Event>>) -> Seq<Event>
    decreases segs.len(),
{
    if segs.len() == 0 {
        Seq::empty()
    } else {
        concat_runs(segs.drop_last()) + segs.last()
    }
}

/// Where a failure may be reported: at the end of the input, or at a token
/// other than trivia, at or after index `from`.
pub open spec fn error_site(toks: Seq<SpecToken>, from: int, off: int) -> bool {
    ||| off == eof_offset(toks)
    ||| exists|k: int|
        from <= k < toks.len() && !toks[k].kind.trivia() && #[trigger] toks[k].offset == off
}

/// Whether the tokens' byte positions fit in memory: no token starts after the
/// end of the last one, which is a `usize`.
pub open spec fn tokens_fit(toks: Seq<SpecToken>) -> bool {
    &&& eof_offset(toks) <= usize::MAX
    &&& forall|k: int| 0 <= k < toks.len() ==> #[trigger] toks[k].offset <= eof_offset(toks)
}

impl Parser {
    fn new(tokens: Vec<Token>) -> (p: Parser)
        requires
            tokens_fit(token_views(tokens@)),
            byte_len(texts_concat(token_pairs(token_views(tokens@)))) <= u32::MAX,
        ensures
            p.wf(),
            p.pos == 0,
            p.events() == Seq::<Event>::empty(),
            p.toks() == token_views(tokens@),
    {
        let p = Parser { tokens, pos: 0, builder: new_builder() };
        proof {
            reveal(Parser::text_fits);
            assert(p.toks().take(0) =~= Seq::<SpecToken>::empty());
            assert(token_pairs(p.toks().take(0)) =~= Seq::<(u16, Seq<char>)>::empty());
        }
        p
    }

    pub closed spec fn toks(self) -> Seq<SpecToken> {
        token_views(self.tokens@)
    }

    pub closed spec fn position(self) -> int {
        self.pos as int
    }

    pub closed spec fn events(self) -> Seq<Event> {
        builder_events(self.builder)
    }

    pub closed spec fn wf(self) -> bool {
        &&& self.pos <= self.tokens@.len()
        &&& never_below(self.events(), 0)
        &&& tokens_fit(self.toks())
        &&& self.text_fits()
    }

    /// The tree has received the texts of the tokens before `pos`, and all the
    /// tokens' texts together fit in a `u32`, as rowan's text lengths must.
    #[verifier::opaque]
    pub closed spec fn text_fits(self) -> bool {
        &&& events_text(self.events()) == texts_concat(token_pairs(self.toks().take(self.pos as int)))
        &&& byte_len(texts_concat(token_pairs(self.toks()))) <= u32::MAX
    }

    /// The first `n` tokens' texts take no more bytes than all of them, and
    /// adding token `n` adds its text.
    proof fn lemma_prefix_texts(toks: Seq<SpecToken>, n: int)
        requires
            0 <= n <= toks.len(),
        ensures
            byte_len(texts_concat(token_pairs(toks.take(n)))) <= byte_len(
                texts_concat(token_pairs(toks)),
            ),
            n < toks.len() ==> texts_concat(token_pairs(toks.take(n + 1))) == texts_concat(
                token_pairs(toks.take(n)),
            ) + toks[n].text,
    {
        assert(token_pairs(toks) =~= token_pairs(toks.take(n)) + token_pairs(toks.skip(n)));
        lemma_texts_concat_append(token_pairs(toks.take(n)), token_pairs(toks.skip(n)));
        lemma_byte_len_append(
            texts_concat(token_pairs(toks.take(n))),
            texts_concat(token_pairs(toks.skip(n))),
        );
        if n < toks.len() {
            assert(token_pairs(toks.take(n + 1)).drop_last() =~= token_pairs(toks.take(n)));
        }
    }

    /// The events added after the prefix `e0`.
    pub closed spec fn since(self, e0: Seq<Event>) -> Seq<Event> {
        self.events().skip(e0.len() as int)
    }

    /// Since the mark `(p0, e0)`, the tree has received exactly the tokens
    /// `p0..pos`, and its nodes never closed more than they opened.
    pub closed spec fn progress(self, p0: int, e0: Seq<Event>) -> bool {
        &&& self.tracks(p0, e0)
        &&& depth(self.events()) >= depth(e0)
    }

    /// The bookkeeping part of [`Parser::progress`].
    #[verifier::opaque]
    pub closed spec fn tracks(self, p0: int, e0: Seq<Event>) -> bool {
        &&& 0 <= p0 <= self.pos <= self.tokens@.len()
        &&& e0.len() <= self.events().len()
        &&& self.events().take(e0.len() as int) == e0
        &&& never_below(self.since(e0), 0)
        &&& event_tokens(self.since(e0)) == token_pairs(self.toks().subrange(p0, self.pos as int))
    }

    /// Every mark at which `before` was making progress is still one.
    pub closed spec fn keeps_progress(self, before: Parser) -> bool {
        forall|p0: int, e0: Seq<Event>| #[trigger]
            before.progress(p0, e0) ==> self.progress(p0, e0)
    }

    /// The routine that took the parser from `before` to `self` and returned
    /// `res` had the outcome `r`. Either way the position only moves forward,
    /// and the tree has received exactly the tokens it passed, in order. On a
    /// failure the parser stands at or before the token the failure is reported
    /// at: it never takes the offending token. It does keep the tokens before
    /// it, as the routine takes them one by one (`pub type = T;` fails at `=`
    /// after taking `pub` and `type`).
    pub closed spec fn reached(self, before: Parser, res: Result<(), ParseError>, r: Outcome) -> bool {
        &&& self.tokens@ == before.tokens@
        &&& self.wf()
        &&& before.pos <= self.pos
        &&& depth(self.events()) >= depth(before.events())
        &&& match r {
            Ok((p, evs)) => {
                &&& res is Ok
                &&& self.pos == p
                &&& self.events() =~= before.events() + evs
                &&& depth(self.events()) == depth(before.events())
                &&& self.keeps_progress(before)
            },
            Err((off, msg)) => res matches Err(e) && e.offset == off && e.message@ == msg
                && off <= eof_offset(self.toks()) && error_site(self.toks(), self.pos as int, off)
                && self.keeps_progress(before),
        }
    }

    /// Whether the parser stands at a token other than trivia.
    pub closed spec fn at_token(self) -> bool {
        self.pos < self.tokens@.len() && !self.toks()[self.pos as int].kind.trivia()
    }

    /// The event that adds the token the parser stands at.
    pub closed spec fn current_event(self) -> Event {
        token_event(self.toks()[self.pos as int].kind.raw_of(), self.toks()[self.pos as int].text)
    }

    /// Marking a parser where it stands: it is making progress from there.
    proof fn lemma_fresh_mark(p: Parser)
        requires
            p.wf(),
        ensures
            p.progress(p.pos as int, p.events()),
    {
        reveal(Parser::tracks);
        assert(p.since(p.events()) =~= Seq::<Event>::empty());
        assert(p.toks().subrange(p.pos as int, p.pos as int) =~= Seq::<SpecToken>::empty());
        assert(token_pairs(Seq::<SpecToken>::empty()) =~= Seq::<(u16, Seq<char>)>::empty());
        assert(p.events().take(p.events().len() as int) =~= p.events());
    }

    /// What a parser received since the mark `opened`, where it has as many
    /// nodes open as there, is a balanced run.
    proof fn lemma_balanced_since(p: Parser, opened: Parser)
        requires
            p.progress(opened.pos as int, opened.events()),
            depth(p.events()) == depth(opened.events()),
        ensures
            balanced(p.since(opened.events())),
            p.events() =~= opened.events() + p.since(opened.events()),
    {
        reveal(Parser::tracks);
        let e0 = opened.events();
        assert(p.events() =~= p.events().take(e0.len() as int) + p.since(e0));
        lemma_depth_append(e0, p.since(e0));
    }

    /// A node opened on top of `before`, filled with a balanced run and closed
    /// is one tree of that kind.
    proof fn lemma_node_since(
        before: Parser,
        opened: Parser,
        closing: Parser,
        after: Parser,
        kind: SyntaxKind,
    )
        requires
            opened.events() == before.events().push(start_event(kind.raw_of())),
            balanced(closing.since(opened.events())),
            closing.events() =~= opened.events() + closing.since(opened.events()),
            after.events() == closing.events().push(finish_event()),
        ensures
            single_tree(after.since(before.events())),
            after.since(before.events())[0] == start_event(kind.raw_of()),
    {
        let inner = closing.since(opened.events());
        let t = after.since(before.events());
        assert(t =~= seq![start_event(kind.raw_of())] + inner + seq![finish_event()]);
        assert(t.subrange(1, t.len() - 1) =~= inner);
    }

    /// An `Item` node opened on top of `before`, filled with one declaration
    /// node and closed is an item.
    proof fn lemma_item_since(before: Parser, opened: Parser, closing: Parser, after: Parser)
        requires
            opened.events() == before.events().push(start_event(SyntaxKind::Item.raw_of())),
            closing.events() =~= opened.events() + closing.since(opened.events()),
            single_tree(closing.since(opened.events())),
            closing.since(opened.events()).len() >= 2,
            declaration_opening(closing.since(opened.events())[0], closing.since(opened.events())[1]),
            after.events() == closing.events().push(finish_event()),
        ensures
            item_node(after.since(before.events())),
    {
        let inner = closing.since(opened.events());
        let t = after.since(before.events());
        assert(t =~= seq![start_event(SyntaxKind::Item.raw_of())] + inner + seq![finish_event()]);
        assert(t.subrange(1, t.len() - 1) =~= inner);
        assert(t[1] == inner[0]);
        assert(t[2] == inner[1]);
    }

    proof fn lemma_push_keeps_progress(before: Parser, after: Parser, x: Event)
        requires
            before.wf(),
            after.tokens@ == before.tokens@,
            after.events() == before.events().push(x),
            x.0 != TOKEN_TAG,
            after.pos == before.pos,
        ensures
            forall|p0: int, e0: Seq<Event>| #[trigger]
                before.progress(p0, e0) && (x.0 == FINISH_TAG ==> depth(before.events()) > depth(
                    e0,
                )) ==> after.progress(p0, e0),
    {
        reveal(Parser::tracks);
        assert forall|p0: int, e0: Seq<Event>| #[trigger]
            before.progress(p0, e0) && (x.0 == FINISH_TAG ==> depth(before.events()) > depth(
                e0,
            )) implies after.progress(p0, e0) by {
            let n = e0.len() as int;
            let s0 = before.since(e0);
            assert(after.since(e0) =~= s0.push(x));
            assert(after.events().take(n) =~= before.events().take(n));
            assert(before.events() =~= e0 + s0);
            lemma_depth_append(e0, s0);
            assert(s0.push(x).drop_last() =~= s0);
            assert(before.events().push(x).drop_last() =~= before.events());
            if s0.len() > 0 {
                assert(never_below(s0, 0) ==> depth(s0) >= 0);
            }
        }
    }

    fn start_node(&mut self, kind: SyntaxKind)
        requires
            old(self).wf(),
        ensures
            final(self).tokens@ == old(self).tokens@,
            final(self).pos == old(self).pos,
            final(self).wf(),
            final(self).events() == old(self).events().push(start_event(kind.raw_of())),
            depth(final(self).events()) == depth(old(self).events()) + 1,
            final(self).keeps_progress(*old(self)),
    {
        let raw = kind.to_raw();
        builder_start_node(&mut self.builder, raw);
        proof {
            reveal(Parser::text_fits);
            lemma_events_text_push(old(self).events(), start_event(raw));
            lemma_never_below_depth(old(self).events(), 0);
            lemma_push_event(old(self).events(), start_event(raw), 0);
            Self::lemma_push_keeps_progress(*old(self), *self, start_event(raw));
            assert(self.events().drop_last() =~= old(self).events());
        }
    }

    fn finish_node(&mut self)
        requires
            old(self).wf(),
            depth(old(self).events()) > 0,
        ensures
            final(self).tokens@ == old(self).tokens@,
            final(self).pos == old(self).pos,
            final(self).wf(),
            final(self).events() == old(self).events().push(finish_event()),
            depth(final(self).events()) == depth(old(self).events()) - 1,
            forall|p0: int, e0: Seq<Event>| #[trigger]
                old(self).progress(p0, e0) && depth(old(self).events()) > depth(e0)
                    ==> final(self).progress(p0, e0),
    {
        proof {
            reveal(Parser::text_fits);
            Self::lemma_prefix_texts(self.toks(), self.pos as int);
        }
        builder_finish_node(&mut self.builder);
        proof {
            lemma_events_text_push(old(self).events(), finish_event());
            lemma_push_event(old(self).events(), finish_event(), 0);
            Self::lemma_push_keeps_progress(*old(self), *self, finish_event());
            assert(self.events().drop_last() =~= old(self).events());
        }
    }

    fn bump(&mut self)
        requires
            old(self).wf(),
            old(self).pos < old(self).tokens@.len(),
        ensures
            final(self).tokens@ == old(self).tokens@,
            final(self).pos == old(self).pos + 1,
            final(self).wf(),
            final(self).events() == old(self).events() + bumped(
                old(self).toks(),
                old(self).pos as int,
                old(self).pos + 1,
            ),
            depth(final(self).events()) == depth(old(self).events()),
            final(self).keeps_progress(*old(self)),
    {
        let ghost toks = self.toks();
        let ghost i = self.pos as int;
        let _n = self.tokens.len();
        let token = &self.tokens[self.pos];
        proof {
            reveal(Parser::text_fits);
            Self::lemma_prefix_texts(toks, i);
            Self::lemma_prefix_texts(toks, i + 1);
            assert(toks[i] == self.tokens@[i]@);
        }
        builder_token(&mut self.builder, token.kind.to_raw(), token.text.as_str());
        self.pos = self.pos + 1;
        proof {
            lemma_events_text_push(old(self).events(), token_event(toks[i].kind.raw_of(), toks[i].text));
            let x = token_event(toks[i].kind.raw_of(), toks[i].text);
            reveal(Parser::tracks);
            lemma_push_event(old(self).events(), x, 0);
            assert(toks[i] == self.tokens@[i]@);
            assert(bumped(toks, i, i + 1) =~= seq![x]);
            assert(self.events() =~= old(self).events().push(x));
            assert(self.events().drop_last() =~= old(self).events());
            assert forall|p0: int, e0: Seq<Event>| #[trigger]
                old(self).progress(p0, e0) implies self.progress(p0, e0) by {
                let n = e0.len() as int;
                let s0 = old(self).since(e0);
                assert(self.since(e0) =~= s0.push(x));
                assert(self.events().take(n) =~= old(self).events().take(n));
                assert(s0.push(x).drop_last() =~= s0);
                assert(old(self).events() =~= e0 + s0);
                lemma_depth_append(e0, s0);
                assert(token_pairs(toks.subrange(p0, i + 1)) =~= token_pairs(
                    toks.subrange(p0, i),
                ).push((toks[i].kind.raw_of(), toks[i].text)));
            }
        }
    }

    fn current_kind(&self) -> (k: Option<SyntaxKind>)
        ensures
            k == (if self.pos < self.tokens@.len() {
                Some(self.toks()[self.pos as int].kind)
            } else {
                None
            }),
    {
        if self.pos < self.tokens.len() {
            Some(self.tokens[self.pos].kind)
        } else {
            None
        }
    }

    fn at_eof(&self) -> (b: bool)
        ensures
            b == (self.pos >= self.tokens@.len()),
    {
        self.pos >= self.tokens.len()
    }

    fn consume_trivia(&mut self)
        requires
            old(self).wf(),
        ensures
            final(self).tokens@ == old(self).tokens@,
            final(self).pos == skip_trivia(old(self).toks(), old(self).pos as int),
            old(self).pos <= final(self).pos <= final(self).tokens@.len(),
            final(self).wf(),
            final(self).events() == old(self).events() + bumped(
                old(self).toks(),
                old(self).pos as int,
                final(self).pos as int,
            ),
            depth(final(self).events()) == depth(old(self).events()),
            final(self).keeps_progress(*old(self)),
    {
        let ghost toks = self.toks();
        let ghost start = self.pos as int;
        loop
            invariant
                self.tokens@ == old(self).tokens@,
                self.toks() == toks,
                self.wf(),
                start <= self.pos,
                skip_trivia(toks, start) == skip_trivia(toks, self.pos as int),
                self.events() == old(self).events() + bumped(toks, start, self.pos as int),
                depth(self.events()) == depth(old(self).events()),
                self.keeps_progress(*old(self)),
            ensures
                self.tokens@ == old(self).tokens@,
                self.wf(),
                start <= self.pos,
                self.pos == skip_trivia(toks, start),
                self.events() == old(self).events() + bumped(toks, start, self.pos as int),
                depth(self.events()) == depth(old(self).events()),
                self.keeps_progress(*old(self)),
            decreases self.tokens@.len() - self.pos,
        {
            match self.current_kind() {
                Some(k) => {
                    if !k.is_trivia() {
                        break ;
                    }
                },
                None => {
                    break ;
                },
            }
            let ghost before = *self;
            self.bump();
            proof {
                assert(bumped(toks, start, self.pos as int) =~= bumped(
                    toks,
                    start,
                    before.pos as int,
                ) + bumped(toks, before.pos as int, self.pos as int));
            }
        }
    }

    fn error_at_eof(&self, message: String) -> (e: ParseError)
        requires
            self.wf(),
        ensures
            (e.offset as int, e.message@) == error_at_eof(self.toks(), message@),
            e.offset <= eof_offset(self.toks()),
            error_site(self.toks(), self.pos as int, e.offset as int),
    {
        let n = self.tokens.len();
        if n == 0 {
            ParseError { offset: 0, message }
        } else {
            let last = &self.tokens[n - 1];
            assert(self.toks().last() == last@);
            let len = last.text.as_str().len();
            ParseError { offset: last.offset + len, message }
        }
    }

    fn error_at_next(&self, message: String) -> (e: ParseError)
        requires
            self.wf(),
        ensures
            (e.offset as int, e.message@) == error_at_next(self.toks(), self.pos as int, message@),
            e.offset <= eof_offset(self.toks()),
            error_site(self.toks(), self.pos as int, e.offset as int),
    {
        let ghost toks = self.toks();
        let mut i = self.pos;
        while i < self.tokens.len() && self.tokens[i].kind.is_trivia()
            invariant
                self.pos <= i <= self.tokens@.len(),
                toks == self.toks(),
                skip_trivia(toks, self.pos as int) == skip_trivia(toks, i as int),
            decreases self.tokens@.len() - i,
        {
            assert(toks[i as int] == self.tokens@[i as int]@);
            i = i + 1;
        }
        if i < self.tokens.len() {
            assert(toks[i as int] == self.tokens@[i as int]@);
            assert(toks[i as int].offset <= eof_offset(toks));
            assert(!toks[i as int].kind.trivia());
            ParseError { offset: self.tokens[i].offset, message }
        } else {
            self.error_at_eof(message)
        }
    }

    fn nth_nontrivia_kind(&self, n: usize) -> (k: Option<SyntaxKind>)
        requires
            self.wf(),
        ensures
            k == nth_nontrivia(self.toks(), self.pos as int, n as nat),
    {
        let ghost toks = self.toks();
        let mut i = self.pos;
        let mut left = n;
        while i < self.tokens.len()
            invariant
                self.pos <= i <= self.tokens@.len(),
                toks == self.toks(),
                nth_nontrivia(toks, self.pos as int, n as nat) == nth_nontrivia(
                    toks,
                    i as int,
                    left as nat,
                ),
            decreases self.tokens@.len() - i,
        {
            assert(toks[i as int] == self.tokens@[i as int]@);
            let kind = self.tokens[i].kind;
            if !kind.is_trivia() {
                if left == 0 {
                    return Some(kind);
                }
                left = left - 1;
            }
            i = i + 1;
        }
        None
    }

    fn at_nontrivia(&self, kind: SyntaxKind) -> (b: bool)
        requires
            self.wf(),
        ensures
            b == at(self.toks(), self.pos as int, kind),
    {
        match self.nth_nontrivia_kind(0) {
            Some(k) => k == kind,
            None => false,
        }
    }

    fn expect(&mut self, kind: SyntaxKind, message: &str) -> (res: Result<(), ParseError>)
        requires
            old(self).wf(),
        ensures
            final(self).reached(
                *old(self),
                res,
                g_expect(old(self).toks(), old(self).pos as int, kind, message@),
            ),
            res is Ok ==> old(self).pos < final(self).pos,
    {
        let ghost toks = self.toks();
        let ghost start = self.pos as int;
        self.consume_trivia();
        let hit = match self.current_kind() {
            Some(k) => k == kind,
            None => false,
        };
        if hit {
            let ghost mid = *self;
            self.bump();
            proof {
                assert(bumped(toks, start, self.pos as int) =~= bumped(toks, start, mid.pos as int)
                    + bumped(toks, mid.pos as int, self.pos as int));
            }
            Ok(())
        } else {
            Err(self.error_at_next(String::from_str(message)))
        }
    }
    fn eat(&mut self, kind: SyntaxKind) -> (b: bool)
        requires
            old(self).wf(),
        ensures
            final(self).tokens@ == old(self).tokens@,
            final(self).wf(),
            b == eat_hit(old(self).toks(), old(self).pos as int, kind),
            b ==> old(self).pos < final(self).pos,
            final(self).pos == eat_pos(old(self).toks(), old(self).pos as int, kind),
            old(self).pos <= final(self).pos <= final(self).tokens@.len(),
            final(self).events() =~= old(self).events() + bumped(
                old(self).toks(),
                old(self).pos as int,
                final(self).pos as int,
            ),
            depth(final(self).events()) == depth(old(self).events()),
            final(self).keeps_progress(*old(self)),
            final(self).reached(
                *old(self),
                Ok(()),
                g_eat(old(self).toks(), old(self).pos as int, kind),
            ),
    {
        let ghost toks = self.toks();
        let ghost start = self.pos as int;
        self.consume_trivia();
        let hit = match self.current_kind() {
            Some(k) => k == kind,
            None => false,
        };
        if hit {
            let ghost mid = *self;
            self.bump();
            proof {
                assert(bumped(toks, start, self.pos as int) =~= bumped(toks, start, mid.pos as int)
                    + bumped(toks, mid.pos as int, self.pos as int));
            }
            true
        } else {
            false
        }
    }

    fn expect_ident(&mut self, message: &str) -> (res: Result<(), ParseError>)
        requires
            old(self).wf(),
        ensures
            final(self).reached(
                *old(self),
                res,
                g_expect(old(self).toks(), old(self).pos as int, SyntaxKind::Ident, message@),
            ),
            res is Ok ==> old(self).pos < final(self).pos,
    {
        self.expect(SyntaxKind::Ident, message)
    }

    fn expect_name_like(&mut self, message: &str) -> (res: Result<(), ParseError>)
        requires
            old(self).wf(),
        ensures
            final(self).reached(
                *old(self),
                res,
                g_name_like(old(self).toks(), old(self).pos as int, message@),
            ),
            res is Ok ==> old(self).pos < final(self).pos,
    {
        let ghost toks = self.toks();
        let ghost start = self.pos as int;
        self.consume_trivia();
        match self.current_kind() {
            Some(SyntaxKind::Ident) | Some(SyntaxKind::SelfTypeKw) => {
                let ghost mid = *self;
                self.bump();
                proof {
                    assert(bumped(toks, start, self.pos as int) =~= bumped(toks, start, mid.pos as int)
                        + bumped(toks, mid.pos as int, self.pos as int));
                }
                Ok(())
            },
            _ => Err(self.error_at_next(String::from_str(message))),
        }
    }

    fn expect_param_name(&mut self, message: &str) -> (res: Result<(), ParseError>)
        requires
            old(self).wf(),
        ensures
            final(self).reached(
                *old(self),
                res,
                g_param_name(old(self).toks(), old(self).pos as int, message@),
            ),
            res is Ok ==> old(self).pos < final(self).pos,
    {
        let ghost toks = self.toks();
        let ghost start = self.pos as int;
        self.consume_trivia();
        match self.current_kind() {
            Some(SyntaxKind::Ident) | Some(SyntaxKind::SelfKw) => {
                let ghost mid = *self;
                self.bump();
                proof {
                    assert(bumped(toks, start, self.pos as int) =~= bumped(toks, start, mid.pos as int)
                        + bumped(toks, mid.pos as int, self.pos as int));
                }
                Ok(())
            },
            _ => Err(self.error_at_next(String::from_str(message))),
        }
    }

    fn bump_nontrivia(&mut self) -> (res: Result<(), ParseError>)
        requires
            old(self).wf(),
        ensures
            final(self).reached(*old(self), res, g_bump_nontrivia(old(self).toks(), old(self).pos as int)),
            res is Ok ==> old(self).pos < final(self).pos,
    {
        let ghost toks = self.toks();
        let ghost start = self.pos as int;
        self.consume_trivia();
        if self.at_eof() {
            return Err(self.error_at_eof(String::from_str("unexpected end of file")));
        }
        let ghost mid = *self;
        self.bump();
        proof {
            assert(bumped(toks, start, self.pos as int) =~= bumped(toks, start, mid.pos as int)
                + bumped(toks, mid.pos as int, self.pos as int));
        }
        Ok(())
    }

    #[verifier::rlimit(90)]
    fn parse_type(&mut self) -> (res: Result<(), ParseError>)
        requires
            old(self).wf(),
        ensures
            final(self).reached(*old(self), res, g_type(old(self).toks(), old(self).pos as int)),
            res is Ok ==> old(self).pos < final(self).pos,
        decreases old(self).tokens@.len() - old(self).pos, 1nat,
    {
        proof {
            reveal_with_fuel(g_type, 1);
            reveal(g_function_type);
            reveal(g_generic_args);
            reveal(g_type_seq);
        }
        let ghost toks = self.toks();
        let ghost start = *self;
        self.start_node(SyntaxKind::Type);
        let ghost opened = *self;
        let result = match self.nth_nontrivia_kind(0) {
            Some(SyntaxKind::FnKw) => self.parse_function_type_inner(),
            Some(SyntaxKind::LBracket) => {
                self.expect(SyntaxKind::LBracket, "expected `[`")?;
                if self.at_nontrivia(SyntaxKind::RBracket) {
                    self.expect(SyntaxKind::RBracket, "expected `]`")?;
                    self.parse_type()
                } else {
                    if self.at_nontrivia(SyntaxKind::Int) {
                        self.expect(SyntaxKind::Int, "expected array length")?;
                    }
                    self.expect(SyntaxKind::RBracket, "expected `]`")?;
                    self.parse_type()
                }
            },
            Some(SyntaxKind::LParen) => {
                self.expect(SyntaxKind::LParen, "expected `(`")?;
                if !self.at_nontrivia(SyntaxKind::RParen) {
                    self.parse_type_seq()?;
                }
                self.expect(SyntaxKind::RParen, "expected `)`")?;
                Ok(())
            },
            Some(SyntaxKind::Ident) | Some(SyntaxKind::SelfTypeKw) => {
                self.expect_name_like("expected type")?;
                self.parse_type_path()?;
                if self.at_nontrivia(SyntaxKind::Lt) {
                    self.parse_generic_args()?;
                }
                Ok(())
            },
            _ => Err(self.error_at_next(String::from_str("expected type"))),
        };
        let ghost inner_end = *self;
        self.finish_node();
        proof {
            if result is Ok {
                assert(self.events() =~= start.events() + node(
                    SyntaxKind::Type,
                    inner_end.events().skip(opened.events().len() as int),
                ));
            }
        }
        result
    }

    fn parse_type_path(&mut self) -> (res: Result<(), ParseError>)
        requires
            old(self).wf(),
        ensures
            final(self).reached(*old(self), res, g_type_path(old(self).toks(), old(self).pos as int)),
            res is Ok ==> old(self).pos <= final(self).pos,
        decreases old(self).tokens@.len() - old(self).pos,
    {
        proof {
            reveal_with_fuel(g_type_path, 1);
        }
        let ghost start = *self;
        if !self.eat(SyntaxKind::Dot) {
            return Ok(());
        }
        let ghost s1 = *self;
        self.expect_ident("expected path segment")?;
        let ghost s2 = *self;
        let r = self.parse_type_path();
        proof {
            if r is Ok {
                assert(self.events() =~= start.events() + (s1.events().skip(start.events().len() as int) + s2.events().skip(s1.events().len() as int)) + self.events().skip(s2.events().len() as int));
            }
        }
        r
    }

    fn parse_type_seq(&mut self) -> (res: Result<(), ParseError>)
        requires
            old(self).wf(),
        ensures
            final(self).reached(*old(self), res, g_type_seq(old(self).toks(), old(self).pos as int)),
            res is Ok ==> old(self).pos < final(self).pos,
        decreases old(self).tokens@.len() - old(self).pos, 2nat,
    {
        proof {
            reveal_with_fuel(g_type_seq, 1);
            reveal(g_type);
        }
        let ghost start = *self;
        self.parse_type()?;
        let ghost s1 = *self;
        if !self.eat(SyntaxKind::Comma) {
            return Ok(());
        }
        let ghost s2 = *self;
        let r = self.parse_type_seq();
        r
    }

    fn parse_function_type_inner(&mut self) -> (res: Result<(), ParseError>)
        requires
            old(self).wf(),
        ensures
            final(self).reached(*old(self), res, g_function_type(old(self).toks(), old(self).pos as int)),
            res is Ok ==> old(self).pos < final(self).pos,
        decreases old(self).tokens@.len() - old(self).pos, 0nat,
    {
        proof {
            reveal_with_fuel(g_function_type, 1);
            reveal(g_param_list);
            reveal(g_ret_effect);
        }
        let ghost start = *self;
        self.start_node(SyntaxKind::FunctionType);
        self.expect(SyntaxKind::FnKw, "expected `fn`")?;
        self.parse_param_list(ParamMode::NameOptional)?;
        self.parse_return_and_effect_tail()?;
        self.finish_node();
        Ok(())
    }

    #[verifier::rlimit(60)]
    fn parse_generic_args(&mut self) -> (res: Result<(), ParseError>)
        requires
            old(self).wf(),
        ensures
            final(self).reached(*old(self), res, g_generic_args(old(self).toks(), old(self).pos as int)),
            res is Ok ==> old(self).pos < final(self).pos,
        decreases old(self).tokens@.len() - old(self).pos, 0nat,
    {
        proof {
            reveal_with_fuel(g_generic_args, 1);
            reveal(g_type_seq);
        }
        self.start_node(SyntaxKind::GenericArgList);
        self.expect(SyntaxKind::Lt, "expected `<`")?;
        if !self.at_nontrivia(SyntaxKind::Gt) {
            self.parse_type_seq()?;
        }
        self.expect(SyntaxKind::Gt, "expected `>`")?;
        self.finish_node();
        Ok(())
    }

    #[verifier::rlimit(40)]
    fn parse_param_list(&mut self, mode: ParamMode) -> (res: Result<(), ParseError>)
        requires
            old(self).wf(),
        ensures
            final(self).reached(*old(self), res, g_param_list(old(self).toks(), old(self).pos as int, mode)),
            res is Ok ==> old(self).pos < final(self).pos,
        decreases old(self).tokens@.len() - old(self).pos, 0nat,
    {
        proof {
            reveal_with_fuel(g_param_list, 1);
            reveal(g_param_seq);
        }
        self.start_node(SyntaxKind::ParamList);
        self.expect(SyntaxKind::LParen, "expected `(`")?;
        if !self.at_nontrivia(SyntaxKind::RParen) {
            self.parse_param_seq(mode)?;
        }
        self.expect(SyntaxKind::RParen, "expected `)`")?;
        self.finish_node();
        Ok(())
    }

    #[verifier::rlimit(60)]
    fn parse_param_seq(&mut self, mode: ParamMode) -> (res: Result<(), ParseError>)
        requires
            old(self).wf(),
        ensures
            final(self).reached(*old(self), res, g_param_seq(old(self).toks(), old(self).pos as int, mode)),
            res is Ok ==> old(self).pos < final(self).pos,
        decreases old(self).tokens@.len() - old(self).pos, 3nat,
    {
        proof {
            reveal_with_fuel(g_param_seq, 1);
            reveal(g_param);
        }
        self.parse_param(mode)?;
        if !self.eat(SyntaxKind::Comma) {
            return Ok(());
        }
        self.parse_param_seq(mode)
    }

    #[verifier::rlimit(60)]
    fn parse_param(&mut self, mode: ParamMode) -> (res: Result<(), ParseError>)
        requires
            old(self).wf(),
        ensures
            final(self).reached(*old(self), res, g_param(old(self).toks(), old(self).pos as int, mode)),
            res is Ok ==> old(self).pos < final(self).pos,
        decreases old(self).tokens@.len() - old(self).pos, 2nat,
    {
        proof {
            reveal_with_fuel(g_param, 1);
            reveal(g_type);
        }
        let named = match mode {
            ParamMode::NameOptional => {
                let first = self.nth_nontrivia_kind(0);
                let second = self.nth_nontrivia_kind(1);
                matches!(first, Some(SyntaxKind::Ident) | Some(SyntaxKind::SelfKw))
                    && matches!(second, Some(SyntaxKind::Colon))
            },
            _ => true,
        };
        self.start_node(SyntaxKind::Param);
        if named {
            self.expect_param_name("expected parameter name")?;
            if self.eat(SyntaxKind::Colon) {
                self.parse_type()?;
            } else if mode == ParamMode::Typed {
                return Err(self.error_at_next(String::from_str("expected `:`")));
            }
        } else {
            self.parse_type()?;
        }
        self.finish_node();
        Ok(())
    }

    fn parse_return_and_effect_tail(&mut self) -> (res: Result<(), ParseError>)
        requires
            old(self).wf(),
        ensures
            final(self).reached(*old(self), res, g_ret_effect(old(self).toks(), old(self).pos as int)),
            res is Ok ==> old(self).pos <= final(self).pos,
        decreases old(self).tokens@.len() - old(self).pos, 0nat,
    {
        proof {
            reveal_with_fuel(g_ret_effect, 1);
            reveal(g_type);
        }
        if self.eat(SyntaxKind::Arrow) {
            self.parse_type()?;
            if self.at_nontrivia(SyntaxKind::EffectMarker) {
                self.parse_effect_tail()?;
            }
        }
        Ok(())
    }

    fn parse_effect_tail(&mut self) -> (res: Result<(), ParseError>)
        requires
            old(self).wf(),
        ensures
            final(self).reached(*old(self), res, g_effect_tail(old(self).toks(), old(self).pos as int)),
            res is Ok ==> old(self).pos < final(self).pos,
    {
        proof {
            reveal(g_effect_tail);
        }
        self.start_node(SyntaxKind::EffectTail);
        self.expect(SyntaxKind::EffectMarker, "expected `!effect`")?;
        self.expect(SyntaxKind::LParen, "expected `(`")?;
        self.expect_ident("expected effect name")?;
        self.expect(SyntaxKind::RParen, "expected `)`")?;
        self.finish_node();
        Ok(())
    }

    fn parse_expr(&mut self) -> (res: Result<(), ParseError>)
        requires
            old(self).wf(),
        ensures
            final(self).reached(*old(self), res, g_expr(old(self).toks(), old(self).pos as int)),
            res is Ok ==> old(self).pos < final(self).pos,
        decreases old(self).tokens@.len() - old(self).pos, 3nat,
    {
        proof {
            reveal_with_fuel(g_expr, 1);
            reveal(g_expr_inner);
        }
        self.start_node(SyntaxKind::Expr);
        let result = self.parse_expr_inner();
        self.finish_node();
        result
    }

    /// The message for an expression that cannot start with a token of kind `kind`.
    fn unexpected_expr_token(kind: SyntaxKind) -> (m: String)
        ensures
            m@ == unexpected_expr_message(kind),
    {
        let mut m = String::from_str("unexpected expression token `");
        m.append(kind.debug_name());
        m.append("`");
        m
    }

    #[verifier::rlimit(60)]
    fn parse_expr_inner(&mut self) -> (res: Result<(), ParseError>)
        requires
            old(self).wf(),
        ensures
            final(self).reached(*old(self), res, g_expr_inner(old(self).toks(), old(self).pos as int)),
            res is Ok ==> old(self).pos < final(self).pos,
        decreases old(self).tokens@.len() - old(self).pos, 2nat,
    {
        proof {
            reveal_with_fuel(g_expr_inner, 1);
            reveal(g_block);
            reveal(g_fn_expr);
            reveal(g_import_expr);
            reveal(g_postfix);
        }
        match self.nth_nontrivia_kind(0) {
            Some(SyntaxKind::FnKw) => self.parse_fn_expr(),
            Some(SyntaxKind::LBrace) => self.parse_block(),
            Some(SyntaxKind::BuiltinImport) => self.parse_import_expr(),
            Some(SyntaxKind::Ident) | Some(SyntaxKind::SelfKw) | Some(SyntaxKind::TrueKw) | Some(
                SyntaxKind::FalseKw,
            ) | Some(SyntaxKind::Int) | Some(SyntaxKind::String) | Some(SyntaxKind::Char) => {
                self.bump_nontrivia()
            },
            Some(kind) => {
                return Err(self.error_at_next(Self::unexpected_expr_token(kind)));
            },
            None => {
                return Err(self.error_at_eof(String::from_str("expected expression")));
            },
        }?;
        self.parse_postfix()
    }

    fn parse_postfix(&mut self) -> (res: Result<(), ParseError>)
        requires
            old(self).wf(),
        ensures
            final(self).reached(*old(self), res, g_postfix(old(self).toks(), old(self).pos as int)),
            res is Ok ==> old(self).pos <= final(self).pos,
        decreases old(self).tokens@.len() - old(self).pos, 1nat,
    {
        proof {
            reveal_with_fuel(g_postfix, 1);
            reveal(g_arg_list);
        }
        if self.at_nontrivia(SyntaxKind::Dot) {
            self.expect(SyntaxKind::Dot, "expected `.`")?;
            self.expect_ident("expected field or method name")?;
            return self.parse_postfix();
        }
        if self.at_nontrivia(SyntaxKind::LParen) {
            self.parse_arg_list()?;
            return self.parse_postfix();
        }
        Ok(())
    }

    fn parse_import_path(&mut self) -> (res: Result<(), ParseError>)
        requires
            old(self).wf(),
        ensures
            final(self).reached(*old(self), res, g_import_path(old(self).toks(), old(self).pos as int)),
            res is Ok ==> old(self).pos <= final(self).pos,
        decreases old(self).tokens@.len() - old(self).pos,
    {
        proof {
            reveal_with_fuel(g_import_path, 1);
        }
        if self.at_nontrivia(SyntaxKind::Dot) {
            self.expect(SyntaxKind::Dot, "expected `.`")?;
            self.expect_ident("expected path segment")?;
            return self.parse_import_path();
        }
        Ok(())
    }

    fn parse_import_expr(&mut self) -> (res: Result<(), ParseError>)
        requires
            old(self).wf(),
        ensures
            final(self).reached(*old(self), res, g_import_expr(old(self).toks(), old(self).pos as int)),
            res is Ok ==> old(self).pos < final(self).pos,
        decreases old(self).tokens@.len() - old(self).pos, 0nat,
    {
        proof {
            reveal_with_fuel(g_import_expr, 1);
            reveal(g_arg_list);
        }
        self.expect(SyntaxKind::BuiltinImport, "expected `@import`")?;
        self.parse_arg_list()?;
        self.parse_import_path()
    }

    #[verifier::rlimit(80)]
    fn parse_fn_expr(&mut self) -> (res: Result<(), ParseError>)
        requires
            old(self).wf(),
        ensures
            final(self).reached(*old(self), res, g_fn_expr(old(self).toks(), old(self).pos as int)),
            res is Ok ==> old(self).pos < final(self).pos,
        decreases old(self).tokens@.len() - old(self).pos, 0nat,
    {
        proof {
            reveal_with_fuel(g_fn_expr, 1);
            reveal(g_block);
            reveal(g_expr);
        }
        self.start_node(SyntaxKind::FnExpr);
        self.expect(SyntaxKind::FnKw, "expected `fn`")?;
        self.parse_param_list(ParamMode::Inferable)?;
        self.parse_return_and_effect_tail()?;
        if self.eat(SyntaxKind::FatArrow) {
            self.parse_expr()?;
        } else {
            self.parse_block()?;
        }
        self.finish_node();
        Ok(())
    }

    fn parse_arg_list(&mut self) -> (res: Result<(), ParseError>)
        requires
            old(self).wf(),
        ensures
            final(self).reached(*old(self), res, g_arg_list(old(self).toks(), old(self).pos as int)),
            res is Ok ==> old(self).pos < final(self).pos,
        decreases old(self).tokens@.len() - old(self).pos, 0nat,
    {
        proof {
            reveal_with_fuel(g_arg_list, 1);
            reveal(g_arg_seq);
        }
        self.start_node(SyntaxKind::ArgList);
        self.expect(SyntaxKind::LParen, "expected `(`")?;
        if !self.at_nontrivia(SyntaxKind::RParen) {
            self.parse_arg_seq()?;
        }
        self.expect(SyntaxKind::RParen, "expected `)`")?;
        self.finish_node();
        Ok(())
    }

    fn parse_arg_seq(&mut self) -> (res: Result<(), ParseError>)
        requires
            old(self).wf(),
        ensures
            final(self).reached(*old(self), res, g_arg_seq(old(self).toks(), old(self).pos as int)),
            res is Ok ==> old(self).pos < final(self).pos,
        decreases old(self).tokens@.len() - old(self).pos, 4nat,
    {
        proof {
            reveal_with_fuel(g_arg_seq, 1);
            reveal(g_expr);
        }
        self.parse_expr()?;
        if !self.eat(SyntaxKind::Comma) {
            return Ok(());
        }
        self.parse_arg_seq()
    }

    fn parse_block(&mut self) -> (res: Result<(), ParseError>)
        requires
            old(self).wf(),
        ensures
            final(self).reached(*old(self), res, g_block(old(self).toks(), old(self).pos as int)),
            res is Ok ==> old(self).pos < final(self).pos,
        decreases old(self).tokens@.len() - old(self).pos, 0nat,
    {
        proof {
            reveal_with_fuel(g_block, 1);
            reveal(g_block_items);
        }
        self.start_node(SyntaxKind::Block);
        self.expect(SyntaxKind::LBrace, "expected `{`")?;
        self.parse_block_items()?;
        self.expect(SyntaxKind::RBrace, "expected `}`")?;
        self.finish_node();
        Ok(())
    }

    fn parse_block_items(&mut self) -> (res: Result<(), ParseError>)
        requires
            old(self).wf(),
        ensures
            final(self).reached(*old(self), res, g_block_items(old(self).toks(), old(self).pos as int)),
            res is Ok ==> old(self).pos <= final(self).pos,
        decreases old(self).tokens@.len() - old(self).pos, 4nat,
    {
        proof {
            reveal_with_fuel(g_block_items, 1);
            reveal(g_expr);
        }
        if self.at_nontrivia(SyntaxKind::RBrace) {
            return Ok(());
        }
        if self.at_eof() {
            return Err(self.error_at_next(String::from_str("expected `}`")));
        }
        self.parse_expr()?;
        if !self.eat(SyntaxKind::Semi) {
            return Ok(());
        }
        self.parse_block_items()
    }

    fn parse_generic_params(&mut self, mode: GenericParamMode) -> (res: Result<(), ParseError>)
        requires
            old(self).wf(),
        ensures
            final(self).reached(*old(self), res, g_generic_params(old(self).toks(), old(self).pos as int, mode)),
            res is Ok ==> old(self).pos < final(self).pos,
    {
        proof {
            reveal(g_generic_params);
        }
        self.start_node(SyntaxKind::GenericParamList);
        self.expect(SyntaxKind::Lt, "expected `<`")?;
        if !self.at_nontrivia(SyntaxKind::Gt) {
            self.parse_generic_param_seq(mode)?;
        }
        self.expect(SyntaxKind::Gt, "expected `>`")?;
        self.finish_node();
        Ok(())
    }

    fn parse_generic_param_seq(&mut self, mode: GenericParamMode) -> (res: Result<(), ParseError>)
        requires
            old(self).wf(),
        ensures
            final(self).reached(*old(self), res, g_generic_param_seq(old(self).toks(), old(self).pos as int, mode)),
            res is Ok ==> old(self).pos < final(self).pos,
        decreases old(self).tokens@.len() - old(self).pos,
    {
        proof {
            reveal_with_fuel(g_generic_param_seq, 1);
        }
        match mode {
            GenericParamMode::BareNames => {
                self.expect_ident("expected generic parameter")?;
            },
            GenericParamMode::ShapeOrName => {
                self.parse_generic_slot()?;
            },
        }
        if !self.eat(SyntaxKind::Comma) {
            return Ok(());
        }
        self.parse_generic_param_seq(mode)
    }

    fn parse_generic_slot(&mut self) -> (res: Result<(), ParseError>)
        requires
            old(self).wf(),
        ensures
            final(self).reached(*old(self), res, g_generic_slot(old(self).toks(), old(self).pos as int)),
            res is Ok ==> old(self).pos < final(self).pos,
    {
        proof {
            reveal(g_generic_slot);
        }
        match self.nth_nontrivia_kind(0) {
            Some(SyntaxKind::LBracket) => self.parse_type(),
            Some(SyntaxKind::Ident) | Some(SyntaxKind::SelfTypeKw) => {
                let second = self.nth_nontrivia_kind(1);
                if second == Some(SyntaxKind::Lt) {
                    self.parse_type()
                } else {
                    self.expect_name_like("expected generic slot")
                }
            },
            _ => Err(self.error_at_next(String::from_str("expected generic slot"))),
        }
    }

    fn parse_import_names(&mut self) -> (res: Result<(), ParseError>)
        requires
            old(self).wf(),
        ensures
            final(self).reached(*old(self), res, g_import_names(old(self).toks(), old(self).pos as int)),
            res is Ok ==> old(self).pos < final(self).pos,
        decreases old(self).tokens@.len() - old(self).pos,
    {
        proof {
            reveal_with_fuel(g_import_names, 1);
        }
        self.expect_ident("expected imported name")?;
        if !self.eat(SyntaxKind::Comma) {
            return Ok(());
        }
        self.parse_import_names()
    }

    #[verifier::spinoff_prover]
    #[verifier::rlimit(100)]
    fn parse_import_binding(&mut self) -> (res: Result<(), ParseError>)
        requires
            old(self).wf(),
        ensures
            final(self).reached(*old(self), res, g_import_binding(old(self).toks(), old(self).pos as int)),
            res is Ok ==> old(self).pos < final(self).pos,
            res is Ok && old(self).at_token() ==> final(self).since(old(self).events())[1]
                == old(self).current_event(),
            res is Ok ==> single_tree(final(self).since(old(self).events())) && final(self).since(
                old(self).events(),
            )[0] == start_event(SyntaxKind::ImportBinding.raw_of()),
    {
        proof {
            reveal(g_import_binding);
        }
        let ghost start = *self;
        self.start_node(SyntaxKind::ImportBinding);
        let ghost opened = *self;
        proof {
            Self::lemma_fresh_mark(opened);
        }
        self.expect(SyntaxKind::LBrace, "expected `{`")?;
        proof {
            if start.at_token() {
                assert(self.events()[start.events().len() + 1int] == start.current_event());
            }
        }
        self.parse_import_names()?;
        self.expect(SyntaxKind::RBrace, "expected `}`")?;
        self.expect(SyntaxKind::Eq, "expected `=`")?;
        self.parse_expr()?;
        self.expect(SyntaxKind::Semi, "expected `;`")?;
        let ghost closing = *self;
        proof {
            Self::lemma_balanced_since(closing, opened);
        }
        self.finish_node();
        proof {
            Self::lemma_node_since(*old(self), opened, closing, *self, SyntaxKind::ImportBinding);
        }
        Ok(())
    }

    #[verifier::spinoff_prover]
    #[verifier::rlimit(100)]
    fn parse_reexport(&mut self) -> (res: Result<(), ParseError>)
        requires
            old(self).wf(),
        ensures
            final(self).reached(*old(self), res, g_reexport(old(self).toks(), old(self).pos as int)),
            res is Ok ==> old(self).pos < final(self).pos,
            res is Ok && old(self).at_token() ==> final(self).since(old(self).events())[1]
                == old(self).current_event(),
            res is Ok ==> single_tree(final(self).since(old(self).events())) && final(self).since(
                old(self).events(),
            )[0] == start_event(SyntaxKind::ReExport.raw_of()),
    {
        proof {
            reveal(g_reexport);
        }
        let ghost start = *self;
        self.start_node(SyntaxKind::ReExport);
        let ghost opened = *self;
        proof {
            Self::lemma_fresh_mark(opened);
        }
        self.expect(SyntaxKind::PubKw, "expected `pub`")?;
        proof {
            if start.at_token() {
                assert(self.events()[start.events().len() + 1int] == start.current_event());
            }
        }
        self.parse_expr()?;
        self.expect(SyntaxKind::Semi, "expected `;`")?;
        let ghost closing = *self;
        proof {
            Self::lemma_balanced_since(closing, opened);
        }
        self.finish_node();
        proof {
            Self::lemma_node_since(*old(self), opened, closing, *self, SyntaxKind::ReExport);
        }
        Ok(())
    }

    #[verifier::spinoff_prover]
    #[verifier::rlimit(100)]
    fn parse_type_alias(&mut self) -> (res: Result<(), ParseError>)
        requires
            old(self).wf(),
        ensures
            final(self).reached(*old(self), res, g_type_alias(old(self).toks(), old(self).pos as int)),
            res is Ok ==> old(self).pos < final(self).pos,
            res is Ok && old(self).at_token() ==> final(self).since(old(self).events())[1]
                == old(self).current_event(),
            res is Ok ==> single_tree(final(self).since(old(self).events())) && final(self).since(
                old(self).events(),
            )[0] == start_event(SyntaxKind::TypeAlias.raw_of()),
    {
        proof {
            reveal(g_type_alias);
        }
        let ghost start = *self;
        self.start_node(SyntaxKind::TypeAlias);
        let ghost opened = *self;
        proof {
            Self::lemma_fresh_mark(opened);
        }
        self.eat(SyntaxKind::PubKw);
        self.expect(SyntaxKind::TypeKw, "expected `type`")?;
        proof {
            if start.at_token() {
                assert(self.events()[start.events().len() + 1int] == start.current_event());
            }
        }
        self.expect_ident("expected type alias name")?;
        if self.at_nontrivia(SyntaxKind::Lt) {
            self.parse_generic_params(GenericParamMode::BareNames)?;
        }
        self.expect(SyntaxKind::Eq, "expected `=`")?;
        self.parse_type()?;
        self.expect(SyntaxKind::Semi, "expected `;`")?;
        let ghost closing = *self;
        proof {
            Self::lemma_balanced_since(closing, opened);
        }
        self.finish_node();
        proof {
            Self::lemma_node_since(*old(self), opened, closing, *self, SyntaxKind::TypeAlias);
        }
        Ok(())
    }

    /// `pub <keyword> Name<T>`, where `pub` may be left out: the head that struct,
    /// enum and interface declarations share.
    #[verifier::spinoff_prover]
    #[verifier::rlimit(100)]
    fn parse_decl_head(
        &mut self,
        keyword: SyntaxKind,
        keyword_message: &str,
        name_message: &str,
        mode: GenericParamMode,
    ) -> (res: Result<(), ParseError>)
        requires
            old(self).wf(),
        ensures
            final(self).reached(
                *old(self),
                res,
                g_decl_head(
                    old(self).toks(),
                    old(self).pos as int,
                    keyword,
                    keyword_message@,
                    name_message@,
                    mode,
                ),
            ),
            res is Ok ==> old(self).pos < final(self).pos,
            res is Ok && old(self).at_token() ==> old(self).events().len() < final(self).events().len()
                && final(self).events()[old(self).events().len() as int] == old(self).current_event(),
    {
        proof {
            reveal(g_decl_head);
        }
        let ghost start = *self;
        self.eat(SyntaxKind::PubKw);
        self.expect(keyword, keyword_message)?;
        proof {
            if start.at_token() {
                assert(start.events().len() < self.events().len());
                assert(self.events()[start.events().len() as int] == start.current_event());
            }
        }
        self.expect_ident(name_message)?;
        if self.at_nontrivia(SyntaxKind::Lt) {
            self.parse_generic_params(mode)?;
        }
        Ok(())
    }

    fn parse_fields(&mut self) -> (res: Result<(), ParseError>)
        requires
            old(self).wf(),
        ensures
            final(self).reached(*old(self), res, g_fields(old(self).toks(), old(self).pos as int)),
            res is Ok ==> old(self).pos <= final(self).pos,
        decreases old(self).tokens@.len() - old(self).pos,
    {
        proof {
            reveal_with_fuel(g_fields, 1);
        }
        if self.at_nontrivia(SyntaxKind::RBrace) {
            return Ok(());
        }
        if self.at_eof() {
            return Err(self.error_at_next(String::from_str("expected `}`")));
        }
        self.parse_field()?;
        self.parse_fields()
    }

    #[verifier::spinoff_prover]
    #[verifier::rlimit(100)]
    fn parse_struct_decl(&mut self) -> (res: Result<(), ParseError>)
        requires
            old(self).wf(),
        ensures
            final(self).reached(*old(self), res, g_struct_decl(old(self).toks(), old(self).pos as int)),
            res is Ok ==> old(self).pos < final(self).pos,
            res is Ok && old(self).at_token() ==> final(self).since(old(self).events())[1]
                == old(self).current_event(),
            res is Ok ==> single_tree(final(self).since(old(self).events())) && final(self).since(
                old(self).events(),
            )[0] == start_event(SyntaxKind::StructDecl.raw_of()),
    {
        proof {
            reveal(g_struct_decl);
        }
        let ghost start = *self;
        self.start_node(SyntaxKind::StructDecl);
        let ghost opened = *self;
        proof {
            Self::lemma_fresh_mark(opened);
        }
        self.parse_decl_head(
            SyntaxKind::StructKw,
            "expected `struct`",
            "expected struct name",
            GenericParamMode::BareNames,
        )?;
        proof {
            if start.at_token() {
                assert(self.events()[start.events().len() + 1int] == start.current_event());
            }
        }
        self.expect(SyntaxKind::LBrace, "expected `{`")?;
        self.parse_fields()?;
        self.expect(SyntaxKind::RBrace, "expected `}`")?;
        self.eat(SyntaxKind::Semi);
        let ghost closing = *self;
        proof {
            Self::lemma_balanced_since(closing, opened);
        }
        self.finish_node();
        proof {
            Self::lemma_node_since(*old(self), opened, closing, *self, SyntaxKind::StructDecl);
        }
        Ok(())
    }

    fn parse_field(&mut self) -> (res: Result<(), ParseError>)
        requires
            old(self).wf(),
        ensures
            final(self).reached(*old(self), res, g_field(old(self).toks(), old(self).pos as int)),
            res is Ok ==> old(self).pos < final(self).pos,
    {
        proof {
            reveal(g_field);
        }
        self.start_node(SyntaxKind::Field);
        self.expect_ident("expected field name")?;
        self.expect(SyntaxKind::Colon, "expected `:`")?;
        self.parse_type()?;
        self.expect(SyntaxKind::Semi, "expected `;`")?;
        self.finish_node();
        Ok(())
    }

    fn parse_variants(&mut self) -> (res: Result<(), ParseError>)
        requires
            old(self).wf(),
        ensures
            final(self).reached(*old(self), res, g_variants(old(self).toks(), old(self).pos as int)),
            res is Ok ==> old(self).pos <= final(self).pos,
        decreases old(self).tokens@.len() - old(self).pos,
    {
        proof {
            reveal_with_fuel(g_variants, 1);
        }
        if self.at_nontrivia(SyntaxKind::RBrace) {
            return Ok(());
        }
        if self.at_eof() {
            return Err(self.error_at_next(String::from_str("expected `}`")));
        }
        self.parse_variant()?;
        self.parse_variants()
    }

    #[verifier::spinoff_prover]
    #[verifier::rlimit(100)]
    fn parse_enum_decl(&mut self) -> (res: Result<(), ParseError>)
        requires
            old(self).wf(),
        ensures
            final(self).reached(*old(self), res, g_enum_decl(old(self).toks(), old(self).pos as int)),
            res is Ok ==> old(self).pos < final(self).pos,
            res is Ok && old(self).at_token() ==> final(self).since(old(self).events())[1]
                == old(self).current_event(),
            res is Ok ==> single_tree(final(self).since(old(self).events())) && final(self).since(
                old(self).events(),
            )[0] == start_event(SyntaxKind::EnumDecl.raw_of()),
    {
        proof {
            reveal(g_enum_decl);
        }
        let ghost start = *self;
        self.start_node(SyntaxKind::EnumDecl);
        let ghost opened = *self;
        proof {
            Self::lemma_fresh_mark(opened);
        }
        self.parse_decl_head(
            SyntaxKind::EnumKw,
            "expected `enum`",
            "expected enum name",
            GenericParamMode::BareNames,
        )?;
        proof {
            if start.at_token() {
                assert(self.events()[start.events().len() + 1int] == start.current_event());
            }
        }
        self.expect(SyntaxKind::LBrace, "expected `{`")?;
        self.parse_variants()?;
        self.expect(SyntaxKind::RBrace, "expected `}`")?;
        self.eat(SyntaxKind::Semi);
        let ghost closing = *self;
        proof {
            Self::lemma_balanced_since(closing, opened);
        }
        self.finish_node();
        proof {
            Self::lemma_node_since(*old(self), opened, closing, *self, SyntaxKind::EnumDecl);
        }
        Ok(())
    }

    #[verifier::rlimit(60)]
    fn parse_variant(&mut self) -> (res: Result<(), ParseError>)
        requires
            old(self).wf(),
        ensures
            final(self).reached(*old(self), res, g_variant(old(self).toks(), old(self).pos as int)),
            res is Ok ==> old(self).pos < final(self).pos,
    {
        proof {
            reveal(g_variant);
        }
        self.start_node(SyntaxKind::Variant);
        self.expect_ident("expected variant name")?;
        if self.eat(SyntaxKind::LParen) {
            if !self.at_nontrivia(SyntaxKind::RParen) {
                self.parse_type_seq()?;
            }
            self.expect(SyntaxKind::RParen, "expected `)`")?;
        }
        self.expect(SyntaxKind::Semi, "expected `;`")?;
        self.finish_node();
        Ok(())
    }

    fn parse_method_sigs(&mut self) -> (res: Result<(), ParseError>)
        requires
            old(self).wf(),
        ensures
            final(self).reached(*old(self), res, g_method_sigs(old(self).toks(), old(self).pos as int)),
            res is Ok ==> old(self).pos <= final(self).pos,
        decreases old(self).tokens@.len() - old(self).pos,
    {
        proof {
            reveal_with_fuel(g_method_sigs, 1);
        }
        if self.at_nontrivia(SyntaxKind::RBrace) {
            return Ok(());
        }
        if self.at_eof() {
            return Err(self.error_at_next(String::from_str("expected `}`")));
        }
        self.parse_method_sig()?;
        self.parse_method_sigs()
    }

    #[verifier::spinoff_prover]
    #[verifier::rlimit(100)]
    fn parse_interface_decl(&mut self) -> (res: Result<(), ParseError>)
        requires
            old(self).wf(),
        ensures
            final(self).reached(*old(self), res, g_interface_decl(old(self).toks(), old(self).pos as int)),
            res is Ok ==> old(self).pos < final(self).pos,
            res is Ok && old(self).at_token() ==> final(self).since(old(self).events())[1]
                == old(self).current_event(),
            res is Ok ==> single_tree(final(self).since(old(self).events())) && final(self).since(
                old(self).events(),
            )[0] == start_event(SyntaxKind::InterfaceDecl.raw_of()),
    {
        proof {
            reveal(g_interface_decl);
        }
        let ghost start = *self;
        self.start_node(SyntaxKind::InterfaceDecl);
        let ghost opened = *self;
        proof {
            Self::lemma_fresh_mark(opened);
        }
        self.parse_decl_head(
            SyntaxKind::InterfaceKw,
            "expected `interface`",
            "expected interface name",
            GenericParamMode::ShapeOrName,
        )?;
        proof {
            if start.at_token() {
                assert(self.events()[start.events().len() + 1int] == start.current_event());
            }
        }
        if self.at_nontrivia(SyntaxKind::ExtendsKw) {
            self.parse_extends_clause()?;
        }
        self.expect(SyntaxKind::LBrace, "expected `{`")?;
        self.parse_method_sigs()?;
        self.expect(SyntaxKind::RBrace, "expected `}`")?;
        self.eat(SyntaxKind::Semi);
        let ghost closing = *self;
        proof {
            Self::lemma_balanced_since(closing, opened);
        }
        self.finish_node();
        proof {
            Self::lemma_node_since(*old(self), opened, closing, *self, SyntaxKind::InterfaceDecl);
        }
        Ok(())
    }

    fn parse_extends_clause(&mut self) -> (res: Result<(), ParseError>)
        requires
            old(self).wf(),
        ensures
            final(self).reached(*old(self), res, g_extends_clause(old(self).toks(), old(self).pos as int)),
            res is Ok ==> old(self).pos < final(self).pos,
    {
        proof {
            reveal(g_extends_clause);
        }
        self.start_node(SyntaxKind::ExtendsClause);
        self.expect(SyntaxKind::ExtendsKw, "expected `extends`")?;
        self.parse_type_seq()?;
        self.finish_node();
        Ok(())
    }

    fn parse_method_head(&mut self) -> (res: Result<(), ParseError>)
        requires
            old(self).wf(),
        ensures
            final(self).reached(*old(self), res, g_method_head(old(self).toks(), old(self).pos as int)),
            res is Ok ==> old(self).pos < final(self).pos,
    {
        proof {
            reveal(g_method_head);
        }
        self.expect_ident("expected method name")?;
        if self.at_nontrivia(SyntaxKind::Lt) {
            self.parse_generic_params(GenericParamMode::BareNames)?;
        }
        self.parse_param_list(ParamMode::Typed)?;
        self.parse_return_and_effect_tail()
    }

    fn parse_method_end(&mut self) -> (res: Result<(), ParseError>)
        requires
            old(self).wf(),
        ensures
            final(self).reached(*old(self), res, g_method_end(old(self).toks(), old(self).pos as int)),
            res is Ok ==> old(self).pos <= final(self).pos,
    {
        proof {
            reveal(g_method_end);
        }
        if self.eat(SyntaxKind::Semi) {
            return Ok(());
        }
        self.parse_block()?;
        self.eat(SyntaxKind::Semi);
        Ok(())
    }

    fn parse_method_sig(&mut self) -> (res: Result<(), ParseError>)
        requires
            old(self).wf(),
        ensures
            final(self).reached(*old(self), res, g_method_sig(old(self).toks(), old(self).pos as int)),
            res is Ok ==> old(self).pos < final(self).pos,
    {
        proof {
            reveal(g_method_sig);
        }
        self.start_node(SyntaxKind::MethodSig);
        self.parse_method_head()?;
        let result = self.parse_method_end();
        self.finish_node();
        result
    }

    #[verifier::spinoff_prover]
    #[verifier::rlimit(100)]
    fn parse_binding_head(&mut self) -> (res: Result<(), ParseError>)
        requires
            old(self).wf(),
        ensures
            final(self).reached(*old(self), res, g_binding_head(old(self).toks(), old(self).pos as int)),
            res is Ok ==> old(self).pos < final(self).pos,
            res is Ok && old(self).at_token() ==> old(self).events().len() < final(self).events().len()
                && final(self).events()[old(self).events().len() as int] == old(self).current_event(),
    {
        proof {
            reveal(g_binding_head);
        }
        let ghost start = *self;
        self.eat(SyntaxKind::PubKw);
        self.expect_ident("expected binding name")?;
        proof {
            if start.at_token() {
                assert(start.events().len() < self.events().len());
                assert(self.events()[start.events().len() as int] == start.current_event());
            }
        }
        if self.eat(SyntaxKind::Colon) {
            self.parse_type()?;
        }
        Ok(())
    }

    #[verifier::spinoff_prover]
    #[verifier::rlimit(100)]
    fn parse_binding(&mut self) -> (res: Result<(), ParseError>)
        requires
            old(self).wf(),
        ensures
            final(self).reached(*old(self), res, g_binding(old(self).toks(), old(self).pos as int)),
            res is Ok ==> old(self).pos < final(self).pos,
            res is Ok && old(self).at_token() ==> final(self).since(old(self).events())[1]
                == old(self).current_event(),
            res is Ok ==> single_tree(final(self).since(old(self).events())) && final(self).since(
                old(self).events(),
            )[0] == start_event(SyntaxKind::Binding.raw_of()),
    {
        proof {
            reveal(g_binding);
        }
        let ghost start = *self;
        self.start_node(SyntaxKind::Binding);
        let ghost opened = *self;
        proof {
            Self::lemma_fresh_mark(opened);
        }
        self.parse_binding_head()?;
        proof {
            if start.at_token() {
                assert(self.events()[start.events().len() + 1int] == start.current_event());
            }
        }
        self.expect(SyntaxKind::Eq, "expected `=`")?;
        self.parse_expr()?;
        self.eat(SyntaxKind::Semi);
        let ghost closing = *self;
        proof {
            Self::lemma_balanced_since(closing, opened);
        }
        self.finish_node();
        proof {
            Self::lemma_node_since(*old(self), opened, closing, *self, SyntaxKind::Binding);
        }
        Ok(())
    }

    /// The message for an item that cannot start with a token of kind `kind`.
    fn unexpected_item_token(kind: SyntaxKind) -> (m: String)
        ensures
            m@ == unexpected_item_message(kind),
    {
        let mut m = String::from_str("unexpected top-level token `");
        m.append(kind.debug_name());
        m.append("`");
        m
    }

    #[verifier::spinoff_prover]
    #[verifier::rlimit(100)]
    fn parse_item(&mut self) -> (res: Result<(), ParseError>)
        requires
            old(self).wf(),
        ensures
            final(self).reached(*old(self), res, g_item(old(self).toks(), old(self).pos as int)),
            res is Ok && old(self).pos < old(self).tokens@.len() && !old(
                self,
            ).toks()[old(self).pos as int].kind.trivia() ==> old(self).pos < final(self).pos,
            res is Ok && old(self).pos < old(self).tokens@.len() && !old(
                self,
            ).toks()[old(self).pos as int].kind.trivia() ==> item_node(
                final(self).since(old(self).events()),
            ),
            nth_nontrivia(old(self).toks(), old(self).pos as int, 0) matches Some(k) && !(k
                == SyntaxKind::LBrace || k == SyntaxKind::PubKw || k == SyntaxKind::TypeKw || k
                == SyntaxKind::StructKw || k == SyntaxKind::EnumKw || k == SyntaxKind::InterfaceKw
                || k == SyntaxKind::Ident) ==> final(self).pos == old(self).pos,
    {
        proof {
            reveal(g_item);
        }
        self.start_node(SyntaxKind::Item);
        let ghost opened = *self;
        let result = match self.nth_nontrivia_kind(0) {
            Some(SyntaxKind::LBrace) => self.parse_import_binding(),
            Some(SyntaxKind::TypeKw) => self.parse_type_alias(),
            Some(SyntaxKind::StructKw) => self.parse_struct_decl(),
            Some(SyntaxKind::EnumKw) => self.parse_enum_decl(),
            Some(SyntaxKind::InterfaceKw) => self.parse_interface_decl(),
            Some(SyntaxKind::Ident) => self.parse_binding(),
            Some(SyntaxKind::PubKw) => {
                match self.nth_nontrivia_kind(1) {
                    Some(SyntaxKind::BuiltinImport) => self.parse_reexport(),
                    Some(SyntaxKind::TypeKw) => self.parse_type_alias(),
                    Some(SyntaxKind::StructKw) => self.parse_struct_decl(),
                    Some(SyntaxKind::EnumKw) => self.parse_enum_decl(),
                    Some(SyntaxKind::InterfaceKw) => self.parse_interface_decl(),
                    _ => self.parse_binding(),
                }
            },
            Some(kind) => Err(self.error_at_next(Self::unexpected_item_token(kind))),
            None => Ok(()),
        };
        let ghost closing = *self;
        self.finish_node();
        proof {
            if result is Ok && old(self).pos < old(self).tokens@.len() && !old(
                self,
            ).toks()[old(self).pos as int].kind.trivia() {
                assert(opened.pos == old(self).pos);
                assert(opened.at_token() && opened.current_event() == old(self).current_event());
                lemma_kind_raw_roundtrip(old(self).toks()[old(self).pos as int].kind);
                assert(closing.events() =~= opened.events() + closing.since(opened.events()));
                Self::lemma_item_since(*old(self), opened, closing, *self);
            }
        }
        result
    }

    /// Builds the tree for all tokens: a `Root` node around trivia and items.
    fn parse_root(self) -> (res: Result<GreenNode, ParseError>)
        requires
            self.wf(),
            self.pos == 0,
            self.events() == Seq::<Event>::empty(),
        ensures
            match g_root(self.toks()) {
                Ok(evs) => res matches Ok(g) && green_events(g) == evs,
                Err((off, msg)) => res matches Err(e) && e.offset == off && e.message@ == msg,
            },
            res matches Ok(g) ==> single_tree(green_events(g)) && event_tokens(green_events(g))
                == token_pairs(self.toks()),
            res matches Err(e) ==> e.offset <= eof_offset(self.toks()),
            res matches Err(e) ==> error_site(self.toks(), 0, e.offset as int),
            res matches Ok(g) ==> exists|segs: Seq<Seq<Event>>|
                green_events(g) == node(SyntaxKind::Root, concat_runs(segs)) && forall|k: int|
                    0 <= k < segs.len() ==> top_level_child(#[trigger] segs[k]),
    {
        proof {
            reveal(g_root);
            reveal(Parser::tracks);
        }
        let mut parser = self;
        let ghost toks = parser.toks();
        parser.start_node(SyntaxKind::Root);
        let ghost opened = parser;
        let ghost mut acc: Seq<Event> = Seq::empty();
        let ghost mut segs: Seq<Seq<Event>> = Seq::empty();
        proof {
            lemma_join_empty(g_items(toks, 0));
            assert(opened.since(opened.events()) =~= Seq::<Event>::empty());
            assert(toks.subrange(0, 0) =~= Seq::<SpecToken>::empty());
            assert(token_pairs(Seq::<SpecToken>::empty()) =~= Seq::<(u16, Seq<char>)>::empty());
            assert(opened.events().take(opened.events().len() as int) =~= opened.events());
            assert(opened.progress(0, opened.events()));
        }
        #[verifier::loop_isolation(false)]
        while !parser.at_eof()
            invariant
                parser.wf(),
                parser.tokens@ == opened.tokens@,
                parser.toks() == toks,
                parser.events() =~= opened.events() + acc,
                depth(parser.events()) == depth(opened.events()),
                depth(opened.events()) == 1,
                parser.keeps_progress(opened),
                opened.progress(0, opened.events()),
                g_items(toks, 0) == join(acc, g_items(toks, parser.pos as int)),
                acc == concat_runs(segs),
                forall|k: int| 0 <= k < segs.len() ==> top_level_child(#[trigger] segs[k]),
            decreases parser.tokens@.len() - parser.pos,
        {
            proof {
                reveal_with_fuel(g_items, 1);
            }
            let ghost before = parser;
            let is_trivia = match parser.current_kind() {
                Some(k) => k.is_trivia(),
                None => false,
            };
            if is_trivia {
                parser.bump();
                proof {
                    assert(g_items(toks, before.pos as int) == join(
                        bumped(toks, before.pos as int, before.pos + 1),
                        g_items(toks, before.pos + 1),
                    ));
                    lemma_join_join(acc, bumped(toks, before.pos as int, parser.pos as int), g_items(toks, parser.pos as int));
                    let seg = bumped(toks, before.pos as int, parser.pos as int);
                    lemma_kind_raw_roundtrip(toks[before.pos as int].kind);
                    assert(seg[0] == token_event(
                        toks[before.pos as int].kind.raw_of(),
                        toks[before.pos as int].text,
                    ));
                    assert(top_level_child(seg));
                    let old_segs = segs;
                    segs = segs.push(seg);
                    assert(segs.drop_last() =~= old_segs);
                    acc = acc + seg;
                }
                continue;
            }
            let ghost mid = parser;
            proof {
                assert(mid.pos < toks.len());
                assert(!toks[mid.pos as int].kind.trivia());
                assert(g_items(toks, mid.pos as int) == match g_item(toks, mid.pos as int) {
                    Err(x) => Err(x),
                    Ok((p1, e1)) => if fwd(toks, mid.pos as int, p1) {
                        join(e1, g_items(toks, p1))
                    } else {
                        Err(stuck())
                    },
                });
            }
            let r = parser.parse_item();
            if let Err(e) = r {
                proof {
                    reveal(g_root);
                }
                assert(g_items(toks, 0) matches Err(x) && x.0 == e.offset && x.1 == e.message@);
                return Err(e);
            }
            proof {
                let e1 = parser.events().skip(mid.events().len() as int);
                assert(parser.events() =~= mid.events() + e1);
                let r = g_item(toks, mid.pos as int);
                assert(r matches Ok((p1, ev)) && e1 =~= ev && p1 == parser.pos);
                assert(g_items(toks, mid.pos as int) == join(e1, g_items(toks, parser.pos as int)));
                lemma_join_join(acc, e1, g_items(toks, parser.pos as int));
                assert(item_node(parser.since(mid.events())));
                assert(e1 == parser.since(mid.events()));
                let old_segs = segs;
                segs = segs.push(e1);
                assert(segs.drop_last() =~= old_segs);
                acc = acc + e1;
            }
        }
        proof {
            reveal_with_fuel(g_items, 1);
            reveal(Parser::tracks);
            assert(acc + Seq::<Event>::empty() =~= acc);
            assert(parser.progress(0, opened.events()));
            assert(parser.since(opened.events()) =~= acc);
            assert(toks.subrange(0, toks.len() as int) =~= toks);
            lemma_depth_append(opened.events(), acc);
        }
        parser.finish_node();
        proof {
            reveal(g_root);
            lemma_push_event(opened.events().drop_last(), start_event(SyntaxKind::Root.raw_of()), 0);
            assert(opened.events() =~= seq![start_event(SyntaxKind::Root.raw_of())]);
            assert(parser.events() =~= node(SyntaxKind::Root, acc));
            assert(parser.events().subrange(1, parser.events().len() - 1) =~= acc);
            lemma_event_tokens_wrap(SyntaxKind::Root.raw_of(), acc);
        }
        let green = builder_finish(parser.builder);
        proof {
            assert(green_events(green) == node(SyntaxKind::Root, concat_runs(segs)));
        }
        Ok(green)
    }

}

/// What parsing `source` gives: the events of its tree, or the failure (byte
/// offset and message) that the lexer or the parser reports first.
pub open spec fn parse_outcome(source: Seq<char>) -> Result<Seq<Event>, Failure> {
    match lex(source) {
        Err((off, msg)) => Err((off as int, msg)),
        Ok(ts) => g_root(ts),
    }
}

/// Parses Badger source into a lossless concrete syntax tree. Rowan measures
/// a tree's text in `u32` bytes, so the source must fit in one.
pub fn parse(source: &str) -> (res: Result<Parse, ParseError>)
    requires
        byte_len(source@) <= u32::MAX,
    ensures
        match parse_outcome(source@) {
            Ok(evs) => res matches Ok(p) && p.events() == evs,
            Err((off, msg)) => res matches Err(e) && e.offset == off && e.message@ == msg,
        },
        res matches Ok(p) ==> single_tree(p.events()),
        res matches Ok(p) ==> p.events()[0] == start_event(SyntaxKind::Root.raw_of()),
        res matches Ok(p) ==> events_text(p.events()) == source@,
        res matches Ok(p) ==> exists|segs: Seq<Seq<Event>>|
            p.events() == node(SyntaxKind::Root, concat_runs(segs)) && forall|k: int|
                0 <= k < segs.len() ==> top_level_child(#[trigger] segs[k]),
        res matches Ok(p) ==> lex(source@) matches Ok(ts) && event_tokens(p.events())
            == token_pairs(ts),
        res matches Err(e) ==> e.offset <= byte_len(source@),
        res matches Err(e) ==> (lex(source@) matches Ok(ts) ==> (e.offset == byte_len(source@)
            || exists|k: int|
            0 <= k < ts.len() && !ts[k].kind.trivia() && #[trigger] ts[k].offset == e.offset)),
        res matches Err(e) ==> exists|j: int|
            0 <= j <= source@.len() && e.offset == byte_len(#[trigger] source@.take(j)),
{
    let tokens = tokenize(source)?;
    let ghost ts = token_views(tokens@);
    proof {
        let ts = token_views(tokens@);
        if ts.len() > 0 {
            assert(eof_offset(ts) == byte_len(source@));
        }
        assert forall|k: int| 0 <= k < ts.len() implies #[trigger] ts[k].offset <= eof_offset(ts) by {
            lemma_laid_out_within(ts, byte_len(source@), k);
        }
    }
    let parser = Parser::new(tokens);
    let green = match parser.parse_root() {
        Ok(g) => g,
        Err(e) => {
            proof {
                let s = source@;
                lemma_lex_from_covers(s, 0);
                if e.offset == eof_offset(ts) {
                    assert(s.take(s.len() as int) =~= s);
                    if ts.len() == 0 {
                        assert(s.take(0) =~= Seq::<char>::empty());
                    }
                } else {
                    let k = choose|k: int|
                        0 <= k < ts.len() && !ts[k].kind.trivia() && #[trigger] ts[k].offset
                            == e.offset;
                    let rs = lex_from(s, 0)->Ok_0;
                    assert(ts[k] == spec_token(s, rs[k]));
                    assert(0 <= rs[k].1 <= s.len());
                    assert(e.offset == byte_len(s.take(rs[k].1)));
                }
            }
            return Err(e);
        },
    };
    proof {
        reveal(g_root);
    }
    Ok(Parse { green })
}

} // verus!
