//! The green tree that holds a parse, built and read through `rowan`.
//!
//! A tree is described by the events that build it, in order: opening a node,
//! adding a token, closing the innermost open node. An event is a plain triple
//! `(tag, raw kind, text)`; the text is empty except for tokens.

use crate::text::byte_len;
use rowan::{GreenNode, GreenNodeBuilder};
use vstd::prelude::*;

verus! {

/// An event that builds a tree: `(tag, raw kind, token text)`.
pub type Event = (u8, u16, Seq<char>);

/// Tag of the event that opens a node.
pub const START_TAG: u8 = 0;

/// Tag of the event that adds a token.
pub const TOKEN_TAG: u8 = 1;

/// Tag of the event that closes the innermost open node.
pub const FINISH_TAG: u8 = 2;

pub open spec fn start_event(kind: u16) -> Event {
    (START_TAG, kind, Seq::empty())
}

pub open spec fn token_event(kind: u16, text: Seq<char>) -> Event {
    (TOKEN_TAG, kind, text)
}

pub open spec fn finish_event() -> Event {
    (FINISH_TAG, 0u16, Seq::empty())
}

/// How an event changes the number of open nodes.
pub open spec fn delta(e: Event) -> int {
    if e.0 == START_TAG {
        1
    } else if e.0 == FINISH_TAG {
        -1
    } else {
        0
    }
}

/// Number of nodes that `evs` opens and leaves open.
pub open spec fn depth(evs: Seq<Event>) -> int
    decreases evs.len(),
{
    if evs.len() == 0 {
        0
    } else {
        depth(evs.drop_last()) + delta(evs.last())
    }
}

/// Starting with `d` open nodes, no prefix of `evs` closes more nodes than are open.
pub open spec fn never_below(evs: Seq<Event>, d: int) -> bool
    decreases evs.len(),
{
    if evs.len() == 0 {
        d >= 0
    } else {
        never_below(evs.drop_last(), d) && d + depth(evs) >= 0
    }
}

/// A run of events that closes every node it opens and nothing else.
pub open spec fn balanced(evs: Seq<Event>) -> bool {
    never_below(evs, 0) && depth(evs) == 0
}

/// The events of exactly one complete node.
pub open spec fn single_tree(evs: Seq<Event>) -> bool {
    &&& evs.len() >= 2
    &&& evs[0].0 == START_TAG
    &&& evs.last() == finish_event()
    &&& balanced(evs.subrange(1, evs.len() - 1))
}

/// The tokens that `evs` adds, in order, as `(raw kind, text)`.
pub open spec fn event_tokens(evs: Seq<Event>) -> Seq<(u16, Seq<char>)>
    decreases evs.len(),
{
    if evs.len() == 0 {
        Seq::empty()
    } else if evs.last().0 == TOKEN_TAG {
        event_tokens(evs.drop_last()).push((evs.last().1, evs.last().2))
    } else {
        event_tokens(evs.drop_last())
    }
}

/// The texts of `toks`, one after the other.
pub open spec fn texts_concat(toks: Seq<(u16, Seq<char>)>) -> Seq<char>
    decreases toks.len(),
{
    if toks.len() == 0 {
        Seq::empty()
    } else {
        texts_concat(toks.drop_last()) + toks.last().1
    }
}

/// The source text of a tree: its token texts in order.
pub open spec fn events_text(evs: Seq<Event>) -> Seq<char> {
    texts_concat(event_tokens(evs))
}

/// Adding one event adds its text, if it is a token.
pub proof fn lemma_events_text_push(evs: Seq<Event>, e: Event)
    ensures
        events_text(evs.push(e)) == (if e.0 == TOKEN_TAG {
            events_text(evs) + e.2
        } else {
            events_text(evs)
        }),
{
    assert(evs.push(e).drop_last() =~= evs);
    if e.0 == TOKEN_TAG {
        let t = event_tokens(evs).push((e.1, e.2));
        assert(t.drop_last() =~= event_tokens(evs));
    }
}

pub proof fn lemma_depth_append(a: Seq<Event>, b: Seq<Event>)
    ensures
        depth(a + b) == depth(a) + depth(b),
    decreases b.len(),
{
    if b.len() == 0 {
        assert(a + b =~= a);
    } else {
        assert((a + b).drop_last() =~= a + b.drop_last());
        lemma_depth_append(a, b.drop_last());
    }
}

pub proof fn lemma_never_below_monotone(evs: Seq<Event>, d: int, e: int)
    requires
        never_below(evs, d),
        d <= e,
    ensures
        never_below(evs, e),
    decreases evs.len(),
{
    if evs.len() > 0 {
        lemma_never_below_monotone(evs.drop_last(), d, e);
    }
}

pub proof fn lemma_never_below_append(a: Seq<Event>, b: Seq<Event>, d: int)
    requires
        never_below(a, d),
        never_below(b, d + depth(a)),
    ensures
        never_below(a + b, d),
    decreases b.len(),
{
    if b.len() == 0 {
        assert(a + b =~= a);
    } else {
        assert((a + b).drop_last() =~= a + b.drop_last());
        lemma_never_below_append(a, b.drop_last(), d);
        lemma_depth_append(a, b);
    }
}

/// Starting with `d` open nodes and never closing more than are open leaves at
/// least none open.
pub proof fn lemma_never_below_depth(evs: Seq<Event>, d: int)
    requires
        never_below(evs, d),
    ensures
        d + depth(evs) >= 0,
{
}

/// Adding one event: how the count of open nodes and the no-underflow property change.
pub proof fn lemma_push_event(evs: Seq<Event>, x: Event, d: int)
    ensures
        depth(evs.push(x)) == depth(evs) + delta(x),
        never_below(evs.push(x), d) == (never_below(evs, d) && d + depth(evs) + delta(x) >= 0),
{
    assert(evs.push(x).drop_last() =~= evs);
}

/// What a single event does on its own.
pub proof fn lemma_single_event(e: Event, d: int)
    ensures
        depth(seq![e]) == delta(e),
        never_below(seq![e], d) <==> (d >= 0 && d + delta(e) >= 0),
        event_tokens(seq![e]) == (if e.0 == TOKEN_TAG {
            seq![(e.1, e.2)]
        } else {
            Seq::<(u16, Seq<char>)>::empty()
        }),
{
    let s = seq![e];
    let empty = Seq::<Event>::empty();
    assert(s.drop_last() =~= empty);
    assert(depth(empty) == 0);
    assert(never_below(empty, d) == (d >= 0));
    assert(event_tokens(empty) == Seq::<(u16, Seq<char>)>::empty());
    assert(Seq::<(u16, Seq<char>)>::empty().push((e.1, e.2)) =~= seq![(e.1, e.2)]);
}

/// The tokens of two runs in a row are the tokens of each, in order.
pub proof fn lemma_event_tokens_append(a: Seq<Event>, b: Seq<Event>)
    ensures
        event_tokens(a + b) == event_tokens(a) + event_tokens(b),
    decreases b.len(),
{
    if b.len() == 0 {
        assert(a + b =~= a);
        assert(event_tokens(a) + event_tokens(b) =~= event_tokens(a));
    } else {
        assert((a + b).drop_last() =~= a + b.drop_last());
        lemma_event_tokens_append(a, b.drop_last());
        if b.last().0 == TOKEN_TAG {
            assert(event_tokens(a) + event_tokens(b) =~= (event_tokens(a) + event_tokens(
                b.drop_last(),
            )).push((b.last().1, b.last().2)));
        }
    }
}

/// Node boundaries add no tokens.
pub proof fn lemma_event_tokens_wrap(kind: u16, inner: Seq<Event>)
    ensures
        event_tokens(seq![start_event(kind)] + inner + seq![finish_event()]) == event_tokens(
            inner,
        ),
{
    let s = seq![start_event(kind)];
    let f = seq![finish_event()];
    lemma_event_tokens_append(s, inner);
    lemma_event_tokens_append(s + inner, f);
    lemma_single_event(start_event(kind), 0);
    lemma_single_event(finish_event(), 0);
    assert(event_tokens(s) + event_tokens(inner) =~= event_tokens(inner));
    assert(event_tokens(inner) + event_tokens(f) =~= event_tokens(inner));
}

pub proof fn lemma_texts_concat_append(a: Seq<(u16, Seq<char>)>, b: Seq<(u16, Seq<char>)>)
    ensures
        texts_concat(a + b) == texts_concat(a) + texts_concat(b),
    decreases b.len(),
{
    if b.len() == 0 {
        assert(a + b =~= a);
        assert(texts_concat(a) + texts_concat(b) =~= texts_concat(a));
    } else {
        assert((a + b).drop_last() =~= a + b.drop_last());
        lemma_texts_concat_append(a, b.drop_last());
        assert(texts_concat(a) + texts_concat(b) =~= (texts_concat(a) + texts_concat(
            b.drop_last(),
        )) + b.last().1);
    }
}

#[verifier::external_type_specification]
#[verifier::external_body]
pub struct ExGreenNodeBuilder<'cache>(GreenNodeBuilder<'cache>);

#[verifier::external_type_specification]
#[verifier::external_body]
pub struct ExGreenNode(GreenNode);

/// The events that a builder has received so far.
pub uninterp spec fn builder_events(b: GreenNodeBuilder<'static>) -> Seq<Event>;

/// The events that build a finished tree, in preorder.
pub uninterp spec fn green_events(g: GreenNode) -> Seq<Event>;

/// Calls `rowan::GreenNodeBuilder::new`: a builder that has received no events.
#[verifier::external_body]
pub fn new_builder() -> (b: GreenNodeBuilder<'static>)
    ensures
        builder_events(b) == Seq::<Event>::empty(),
{
    GreenNodeBuilder::new()
}

/// Calls `rowan::GreenNodeBuilder::start_node` with the raw kind `kind`: the
/// builder records that a node of that kind opens.
#[verifier::external_body]
pub fn builder_start_node(b: &mut GreenNodeBuilder<'static>, kind: u16)
    ensures
        builder_events(*final(b)) == builder_events(*old(b)).push(start_event(kind)),
{
    b.start_node(rowan::SyntaxKind(kind))
}

/// Calls `rowan::GreenNodeBuilder::token`: the builder records a token of the
/// raw kind `kind` with the text `text`. Rowan measures text in `u32` bytes and
/// panics on a longer token, so the text received so far, this token
/// included, must fit in a `u32`.
#[verifier::external_body]
pub fn builder_token(b: &mut GreenNodeBuilder<'static>, kind: u16, text: &str)
    requires
        byte_len(events_text(builder_events(*old(b))) + text@) <= u32::MAX,
    ensures
        builder_events(*final(b)) == builder_events(*old(b)).push(token_event(kind, text@)),
{
    b.token(rowan::SyntaxKind(kind), text)
}

/// Calls `rowan::GreenNodeBuilder::finish_node`, which panics when no node is
/// open, and whose sum of the children's `u32` text lengths overflows on a
/// node longer than `u32::MAX` bytes (a node's text is part of the text
/// received so far): the builder records that the innermost open node closes.
#[verifier::external_body]
pub fn builder_finish_node(b: &mut GreenNodeBuilder<'static>)
    requires
        never_below(builder_events(*old(b)), 0),
        depth(builder_events(*old(b))) > 0,
        byte_len(events_text(builder_events(*old(b)))) <= u32::MAX,
    ensures
        builder_events(*final(b)) == builder_events(*old(b)).push(finish_event()),
{
    b.finish_node()
}

/// Calls `rowan::GreenNodeBuilder::finish`, which panics unless exactly one
/// complete node was built: the tree it returns is the one those events describe.
#[verifier::external_body]
pub fn builder_finish(b: GreenNodeBuilder<'static>) -> (g: GreenNode)
    requires
        single_tree(builder_events(b)),
    ensures
        green_events(g) == builder_events(b),
{
    b.finish()
}

/// Calls the `Display` impl of `rowan::GreenNode` (through `ToString`), which
/// writes the texts of the tree's tokens in order.
#[verifier::external_body]
pub fn green_text(g: &GreenNode) -> (s: String)
    ensures
        s@ == events_text(green_events(*g)),
{
    g.to_string()
}

} // verus!
