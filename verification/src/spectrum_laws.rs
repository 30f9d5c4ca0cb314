//! Laws of the colour model, proved of every valid spectrum.

use vstd::prelude::*;
use vstd::arithmetic::div_mod::{
    lemma_mod_multiples_vanish, lemma_fundamental_div_mod, lemma_fundamental_div_mod_converse,
};
use crate::units::{MILLION, FULL_TURN, wrap_turn};
use crate::hue_mapper::lemma_rgb_round_trip;
use crate::spectrum::{
    SpectrumNode, ColorSample, valid_nodes, spectrum_color, solid, blend, blend_channel, brackets,
    first_bracket,
    is_lookup_table, table_hue, lemma_first_bracket, lemma_first_bracket_is, lemma_valid_node,
};

verus! {

/// A node without an explicit hue, saturation or value contributes the very
/// colour that its text spells: the way through HSV and back loses nothing.
pub proof fn lemma_plain_node_color(node: SpectrumNode)
    requires
        node.spec_rgb() is Some,
        node.hue is None,
        node.saturation is None,
        node.value is None,
    ensures
        node.spec_color() == (
            node.spec_rgb().unwrap().0 as int,
            node.spec_rgb().unwrap().1 as int,
            node.spec_rgb().unwrap().2 as int,
        ),
{
    let (r, g, b) = node.spec_rgb().unwrap();
    lemma_rgb_round_trip(r as int, g as int, b as int);
}

/// At the exact position of a node a valid spectrum yields that node's
/// colour, provided the node is the first to stand at its position. (Of
/// several nodes at one position the first decides; and a node at position
/// one is never met, since hues are reduced into `[0, 360)` degrees.)
pub proof fn lemma_color_at_node(nodes: Seq<SpectrumNode>, k: int, hue: int)
    requires
        valid_nodes(nodes),
        0 <= k < nodes.len(),
        wrap_turn(hue) == nodes[k].spec_turn(),
        k == 0 || nodes[k - 1].position < nodes[k].position,
    ensures
        spectrum_color(nodes, hue).same_color(solid(nodes[k].spec_color())),
{
    let pos = wrap_turn(hue);
    let c = nodes[k].spec_color();
    if nodes.len() > 1 {
        if k == 0 {
            assert(nodes[0].position <= nodes[1].position);
            assert(brackets(nodes, 0, pos));
            lemma_first_bracket_is(nodes, pos, 0, 0);
            let span = nodes[1].spec_turn() - nodes[0].spec_turn();
            let other = nodes[1].spec_color();
            if span > 0 {
                assert(blend(c, other, 0, span).same_color(solid(c))) by (nonlinear_arith)
                    requires
                        span > 0,
                ;
            }
        } else {
            assert(nodes[k - 1].position <= nodes[k].position);
            assert(brackets(nodes, k - 1, pos));
            assert forall|j: int| 0 <= j < k - 1 implies !brackets(nodes, j, pos) by {
                assert(nodes[j + 1].position <= nodes[k - 1].position);
            }
            lemma_first_bracket_is(nodes, pos, 0, k - 1);
            let span = nodes[k].spec_turn() - nodes[k - 1].spec_turn();
            let other = nodes[k - 1].spec_color();
            assert(span > 0);
            assert(blend(other, c, span, span).same_color(solid(c))) by (nonlinear_arith)
                requires
                    span > 0,
            ;
        }
    }
}

/// Between two nodes the target colour is linear in the hue, and so without
/// a jump: one micro-degree further within the bracket, each channel has
/// moved by the difference of the two nodes' channels, on the same scale of
/// 255 times the width of the bracket. (At a node that is the first of its
/// position the colour is the node's, by `lemma_color_at_node`, from either
/// side. A jump remains where several nodes stand at one position, and
/// where the hue wraps from the end of the turn to its start.)
pub proof fn lemma_linear_within_bracket(nodes: Seq<SpectrumNode>, hue: int)
    requires
        valid_nodes(nodes),
        nodes.len() > 1,
        first_bracket(nodes, wrap_turn(hue), 0) < nodes.len() - 1,
        wrap_turn(hue) < nodes[first_bracket(nodes, wrap_turn(hue), 0) + 1].spec_turn(),
        wrap_turn(hue) + 1 < FULL_TURN,
    ensures
        ({
            let i = first_bracket(nodes, wrap_turn(hue), 0);
            let here = spectrum_color(nodes, hue);
            let next = spectrum_color(nodes, hue + 1);
            let from = nodes[i].spec_color();
            let to = nodes[i + 1].spec_color();
            &&& next.scale == here.scale
            &&& next.r - here.r == to.0 - from.0
            &&& next.g - here.g == to.1 - from.1
            &&& next.b - here.b == to.2 - from.2
        }),
{
    let pos = wrap_turn(hue);
    lemma_first_bracket(nodes, pos, 0);
    let i = first_bracket(nodes, pos, 0);
    assert(wrap_turn(hue + 1) == pos + 1) by {
        let turns = hue / (FULL_TURN as int);
        lemma_fundamental_div_mod(hue, FULL_TURN as int);
        assert(hue + 1 == turns * FULL_TURN + (pos + 1)) by (nonlinear_arith)
            requires
                hue == FULL_TURN * turns + pos,
        ;
        lemma_fundamental_div_mod_converse(hue + 1, FULL_TURN as int, turns, pos + 1);
    }
    let next_pos = pos + 1;
    assert(brackets(nodes, i, next_pos));
    assert forall|j: int| 0 <= j < i implies !brackets(nodes, j, next_pos) by {
        assert(nodes[j].position <= nodes[i].position);
        assert(!brackets(nodes, j, pos));
    }
    lemma_first_bracket_is(nodes, next_pos, 0, i);
    let span = nodes[i + 1].spec_turn() - nodes[i].spec_turn();
    let off = pos - nodes[i].spec_turn();
    let from = nodes[i].spec_color();
    let to = nodes[i + 1].spec_color();
    assert(span > 0);
    assert(blend_channel(from.0, to.0, off + 1, span) - blend_channel(from.0, to.0, off, span)
        == to.0 - from.0) by (nonlinear_arith);
    assert(blend_channel(from.1, to.1, off + 1, span) - blend_channel(from.1, to.1, off, span)
        == to.1 - from.1) by (nonlinear_arith);
    assert(blend_channel(from.2, to.2, off + 1, span) - blend_channel(from.2, to.2, off, span)
        == to.2 - from.2) by (nonlinear_arith);
}

/// The target colour is periodic in the hue: whole turns added to the hue,
/// or taken from it, change nothing.
pub proof fn lemma_periodic(nodes: Seq<SpectrumNode>, hue: int, turns: int)
    ensures
        spectrum_color(nodes, hue + turns * FULL_TURN) == spectrum_color(nodes, hue),
{
    lemma_mod_multiples_vanish(turns, hue, FULL_TURN as int);
    assert(hue + turns * FULL_TURN == FULL_TURN * turns + hue) by (nonlinear_arith);
}

/// A spectrum of a single node yields that node's colour for every hue.
pub proof fn lemma_single_node(nodes: Seq<SpectrumNode>, hue: int)
    requires
        nodes.len() == 1,
    ensures
        spectrum_color(nodes, hue) == solid(nodes[0].spec_color()),
{
}

/// A hue past the last node of a valid spectrum takes the last node's
/// colour, and a hue before the first node the first node's.
pub proof fn lemma_clamped_outside(nodes: Seq<SpectrumNode>, hue: int)
    requires
        valid_nodes(nodes),
    ensures
        wrap_turn(hue) > nodes[nodes.len() - 1].spec_turn() ==> spectrum_color(nodes, hue) == solid(
            nodes[nodes.len() - 1].spec_color(),
        ),
        wrap_turn(hue) < nodes[0].spec_turn() ==> spectrum_color(nodes, hue) == solid(
            nodes[0].spec_color(),
        ),
{
    let pos = wrap_turn(hue);
    let last = nodes.len() - 1;
    lemma_first_bracket(nodes, pos, 0);
    let i = first_bracket(nodes, pos, 0);
    if nodes.len() > 1 && i < last {
        assert(nodes[0].position <= nodes[i].position);
        assert(nodes[i + 1].position <= nodes[last].position);
    }
}

/// In a lookup table of 360 entries, entry `i` is the target colour of the
/// hue of `i` degrees.
pub proof fn lemma_table_of_degrees(nodes: Seq<SpectrumNode>, table: Seq<ColorSample>, i: int)
    requires
        is_lookup_table(nodes, table, 360),
        0 <= i < 360,
    ensures
        table[i]@ == spectrum_color(nodes, i * MILLION),
{
    assert(table_hue(i, 360) == i * MILLION);
}

} // verus!
