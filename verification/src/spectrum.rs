//! The colour model: a spectrum of colour nodes that maps every input hue to
//! a target colour.
//!
//! A node stands at a position along the hue circle (in millionths of a
//! turn) and carries a colour. Between two nodes the target colour is the
//! linear blend of their RGB colours; outside the nodes it is the colour of
//! the nearest one.

use vstd::prelude::*;
use crate::units::{MILLION, FULL_TURN, TURN_PER_MILLIONTH, wrap_turn, wrap_to_turn};
use crate::hex::{color_of_text, read_hex_color};
use crate::hue_mapper::{
    HueMapper, hue_of, saturation_of, value_of, hsv_color, lemma_hsv_color_bounds,
};

verus! {

/// Why a single node is not a valid one.
#[derive(Clone, Copy, Debug, PartialEq, Eq, Structural)]
pub enum NodeError {
    /// The position lies outside the unit interval.
    PositionOutOfRange,
    /// The colour is not six hexadecimal digits.
    InvalidColor,
    /// The explicit hue lies outside `[0, 360)` degrees.
    HueOutOfRange,
    /// The explicit saturation lies outside the unit interval.
    SaturationOutOfRange,
    /// The explicit value lies outside the unit interval.
    ValueOutOfRange,
}

/// Why a spectrum is not a valid one.
#[derive(Clone, Copy, Debug, PartialEq, Eq, Structural)]
pub enum SpectrumError {
    /// The spectrum has no node.
    Empty,
    /// The node at `index` stands before its predecessor.
    Unsorted { index: usize },
    /// The node at `index` is invalid by itself.
    Node { index: usize, error: NodeError },
}

/// Why a spectrum file yields no pair of spectra.
#[derive(Clone, Copy, Debug, PartialEq, Eq, Structural)]
pub enum SpectrumFileError {
    /// The file holds no spectrum.
    NoSpectrum,
    /// The spectrum at `index` is invalid.
    Invalid { index: usize, error: SpectrumError },
}

/// One colour stop of a spectrum.
#[derive(Clone, Debug)]
pub struct SpectrumNode {
    /// Position along the hue circle, in millionths of a turn.
    pub position: i64,
    /// The colour in hexadecimal, such as `#FFFF00`.
    pub color: String,
    /// Target hue in micro-degrees; taken from the colour when absent.
    pub hue: Option<i64>,
    /// Target saturation in millionths; taken from the colour when absent.
    pub saturation: Option<i64>,
    /// Target value in millionths; taken from the colour when absent.
    pub value: Option<i64>,
}

/// Whether an explicit hue is an angle within one turn.
pub open spec fn hue_in_range(hue: Option<i64>) -> bool {
    hue matches Some(h) ==> 0 <= h < FULL_TURN
}

/// Whether an explicit fraction lies in the unit interval.
pub open spec fn fraction_in_range(fraction: Option<i64>) -> bool {
    fraction matches Some(x) ==> 0 <= x <= MILLION
}

impl SpectrumNode {
    /// The colour that the node's text spells, if it spells one.
    pub open spec fn spec_rgb(&self) -> Option<(u8, u8, u8)> {
        color_of_text(self.color@)
    }

    /// Whether all three of hue, saturation and value are given explicitly.
    pub open spec fn fully_explicit(&self) -> bool {
        self.hue is Some && self.saturation is Some && self.value is Some
    }

    /// Whether the node's colour can be read: it gives all of hue,
    /// saturation and value, or its text spells a colour.
    pub open spec fn spec_readable(&self) -> bool {
        self.fully_explicit() || self.spec_rgb() is Some
    }

    /// The node's hue, saturation and value: the explicit ones where given,
    /// else those of its colour.
    pub open spec fn spec_hsv(&self) -> (int, int, int) {
        let (r, g, b) = self.spec_rgb().unwrap();
        (
            match self.hue {
                Some(h) => h as int,
                None => hue_of(r as int, g as int, b as int),
            },
            match self.saturation {
                Some(s) => s as int,
                None => saturation_of(r as int, g as int, b as int),
            },
            match self.value {
                Some(v) => v as int,
                None => value_of(r as int, g as int, b as int),
            },
        )
    }

    /// The 8-bit colour that the node contributes: its HSV triple converted
    /// back to RGB.
    pub open spec fn spec_color(&self) -> (int, int, int) {
        let (h, s, v) = self.spec_hsv();
        hsv_color(h, s, v)
    }

    /// Whether the node is valid by itself: position in the unit interval, a
    /// well-formed colour, and every explicit component in its range.
    pub open spec fn spec_in_range(&self) -> bool {
        &&& 0 <= self.position <= MILLION
        &&& self.spec_rgb() is Some
        &&& hue_in_range(self.hue)
        &&& fraction_in_range(self.saturation)
        &&& fraction_in_range(self.value)
    }

    /// Position of the node in micro-degrees of input hue.
    pub open spec fn spec_turn(&self) -> int {
        self.position * TURN_PER_MILLIONTH
    }

    /// Parses the colour into its three 8-bit channels.
    pub fn to_rgb(&self) -> (rgb: Result<(u8, u8, u8), NodeError>)
        ensures
            match self.spec_rgb() {
                Some(c) => rgb == Ok::<(u8, u8, u8), NodeError>(c),
                None => rgb == Err::<(u8, u8, u8), NodeError>(NodeError::InvalidColor),
            },
    {
        match read_hex_color(self.color.as_str()) {
            Some(c) => Ok(c),
            None => Err(NodeError::InvalidColor),
        }
    }

    /// Hue (micro-degrees), saturation and value (millionths) of the node.
    /// Explicit components are returned as they stand; the others come from
    /// the colour, which must then be well-formed.
    pub fn to_hsv(&self) -> (hsv: Result<(i64, i64, i64), NodeError>)
        ensures
            self.fully_explicit() || self.spec_rgb() is Some <==> hsv is Ok,
            hsv matches Ok(t) ==> (t.0 as int, t.1 as int, t.2 as int) == self.spec_hsv(),
            hsv matches Err(e) ==> e == NodeError::InvalidColor,
    {
        match (self.hue, self.saturation, self.value) {
            (Some(h), Some(s), Some(v)) => Ok((h, s, v)),
            _ => {
                match self.to_rgb() {
                    Err(e) => Err(e),
                    Ok((r, g, b)) => {
                        let derived = HueMapper::rgb_to_hsv(r, g, b);
                        let h: i64 = match self.hue {
                            Some(h) => h,
                            None => derived.0,
                        };
                        let s: i64 = match self.saturation {
                            Some(s) => s,
                            None => derived.1,
                        };
                        let v: i64 = match self.value {
                            Some(v) => v,
                            None => derived.2,
                        };
                        Ok((h, s, v))
                    },
                }
            },
        }
    }

    /// The 8-bit colour that the node contributes to its spectrum.
    pub fn to_color(&self) -> (rgb: Result<(u8, u8, u8), NodeError>)
        ensures
            self.fully_explicit() || self.spec_rgb() is Some <==> rgb is Ok,
            rgb matches Ok(c) ==> (c.0 as int, c.1 as int, c.2 as int) == self.spec_color(),
            rgb matches Err(e) ==> e == NodeError::InvalidColor,
    {
        match self.to_hsv() {
            Ok((h, s, v)) => Ok(HueMapper::hsv_to_rgb(h, s, v)),
            Err(e) => Err(e),
        }
    }
}

/// A spectrum: colour nodes in ascending order of position.
#[derive(Clone, Debug)]
pub struct Spectrum {
    pub nodes: Vec<SpectrumNode>,
}

/// What validation finds at the node `i` of `nodes`: the first failing check,
/// in the order position, order against the predecessor, colour, hue,
/// saturation, value.
pub open spec fn node_fault(nodes: Seq<SpectrumNode>, i: int) -> Option<SpectrumError> {
    let node = nodes[i];
    let index = i as usize;
    if !(0 <= node.position <= MILLION) {
        Some(SpectrumError::Node { index, error: NodeError::PositionOutOfRange })
    } else if i > 0 && node.position < nodes[i - 1].position {
        Some(SpectrumError::Unsorted { index })
    } else if node.spec_rgb() is None {
        Some(SpectrumError::Node { index, error: NodeError::InvalidColor })
    } else if !hue_in_range(node.hue) {
        Some(SpectrumError::Node { index, error: NodeError::HueOutOfRange })
    } else if !fraction_in_range(node.saturation) {
        Some(SpectrumError::Node { index, error: NodeError::SaturationOutOfRange })
    } else if !fraction_in_range(node.value) {
        Some(SpectrumError::Node { index, error: NodeError::ValueOutOfRange })
    } else {
        None
    }
}

/// The index that an error speaks of.
pub open spec fn fault_index(e: SpectrumError) -> int {
    match e {
        SpectrumError::Empty => 0,
        SpectrumError::Unsorted { index } => index as int,
        SpectrumError::Node { index, .. } => index as int,
    }
}

/// Whether `e` is the error that validation reports for `nodes`: the fault of
/// the first faulty node, or `Empty` for no nodes at all.
pub open spec fn is_first_fault(nodes: Seq<SpectrumNode>, e: SpectrumError) -> bool {
    if nodes.len() == 0 {
        e == SpectrumError::Empty
    } else {
        let i = fault_index(e);
        &&& 0 <= i < nodes.len()
        &&& node_fault(nodes, i) == Some(e)
        &&& forall|j: int| 0 <= j < i ==> node_fault(nodes, j) is None
    }
}

/// A valid spectrum: at least one node, every node valid by itself, and the
/// positions in ascending order.
pub open spec fn valid_nodes(nodes: Seq<SpectrumNode>) -> bool {
    &&& nodes.len() > 0
    &&& forall|i: int| 0 <= i < nodes.len() ==> (#[trigger] nodes[i]).spec_in_range()
    &&& forall|i: int, j: int|
        0 <= i <= j < nodes.len() ==> (#[trigger] nodes[i]).position <= (#[trigger] nodes[j]).position
}

/// A spectrum without a faulty node is valid.
pub proof fn lemma_no_fault_is_valid(nodes: Seq<SpectrumNode>)
    requires
        nodes.len() > 0,
        forall|j: int| 0 <= j < nodes.len() ==> node_fault(nodes, j) is None,
    ensures
        valid_nodes(nodes),
{
    assert forall|i: int| 0 <= i < nodes.len() implies (#[trigger] nodes[i]).spec_in_range() by {
        assert(node_fault(nodes, i) is None);
    }
    assert forall|i: int, j: int| 0 <= i <= j < nodes.len() implies (#[trigger] nodes[i]).position
        <= (#[trigger] nodes[j]).position by {
        lemma_ascending(nodes, i, j);
    }
}

/// Nodes that each stand no earlier than their predecessor are in ascending
/// order throughout.
proof fn lemma_ascending(nodes: Seq<SpectrumNode>, i: int, j: int)
    requires
        0 <= i <= j < nodes.len(),
        forall|k: int| 0 <= k < nodes.len() ==> node_fault(nodes, k) is None,
    ensures
        nodes[i].position <= nodes[j].position,
    decreases j - i,
{
    if i < j {
        lemma_ascending(nodes, i, j - 1);
        assert(node_fault(nodes, j) is None);
    }
}

/// A spectrum with a faulty node is not valid.
pub proof fn lemma_fault_is_invalid(nodes: Seq<SpectrumNode>, i: int)
    requires
        0 <= i < nodes.len(),
        node_fault(nodes, i) is Some,
    ensures
        !valid_nodes(nodes),
{
    if valid_nodes(nodes) {
        assert(nodes[i].spec_in_range());
        if i > 0 {
            assert(nodes[i - 1].position <= nodes[i].position);
        }
    }
}

impl Spectrum {
    /// Whether the spectrum is valid.
    pub open spec fn spec_valid(&self) -> bool {
        valid_nodes(self.nodes@)
    }

    /// Checks the node at `i` as `node_fault` states it.
    fn check_node(&self, i: usize) -> (fault: Option<SpectrumError>)
        requires
            i < self.nodes.len(),
        ensures
            fault == node_fault(self.nodes@, i as int),
    {
        let node = &self.nodes[i];
        if node.position < 0 || node.position > MILLION {
            return Some(SpectrumError::Node { index: i, error: NodeError::PositionOutOfRange });
        }
        if i > 0 && node.position < self.nodes[i - 1].position {
            return Some(SpectrumError::Unsorted { index: i });
        }
        if node.to_rgb().is_err() {
            return Some(SpectrumError::Node { index: i, error: NodeError::InvalidColor });
        }
        if let Some(h) = node.hue {
            if h < 0 || h >= FULL_TURN {
                return Some(SpectrumError::Node { index: i, error: NodeError::HueOutOfRange });
            }
        }
        if let Some(s) = node.saturation {
            if s < 0 || s > MILLION {
                return Some(
                    SpectrumError::Node { index: i, error: NodeError::SaturationOutOfRange },
                );
            }
        }
        if let Some(v) = node.value {
            if v < 0 || v > MILLION {
                return Some(SpectrumError::Node { index: i, error: NodeError::ValueOutOfRange });
            }
        }
        None
    }

    /// Validates the spectrum: `Ok` exactly when it is valid, else the fault
    /// of the first faulty node (`Empty` when there is no node).
    pub fn validate(&self) -> (res: Result<(), SpectrumError>)
        ensures
            res is Ok <==> self.spec_valid(),
            res matches Err(e) ==> is_first_fault(self.nodes@, e),
    {
        let n: usize = self.nodes.len();
        if n == 0 {
            return Err(SpectrumError::Empty);
        }
        let mut i: usize = 0;
        while i < n
            invariant
                i <= n,
                n == self.nodes@.len(),
                forall|j: int| 0 <= j < i ==> node_fault(self.nodes@, j) is None,
            decreases n - i,
        {
            match self.check_node(i) {
                Some(e) => {
                    proof {
                        lemma_fault_is_invalid(self.nodes@, i as int);
                    }
                    return Err(e);
                },
                None => {},
            }
            i = i + 1;
        }
        proof {
            lemma_no_fault_is_valid(self.nodes@);
        }
        Ok(())
    }
}

/// A colour as an exact fraction: each channel is its field over `scale`,
/// so that `r == scale` is full red and `r == 0` none.
#[derive(Clone, Copy, Debug, PartialEq, Eq, Structural)]
pub struct ColorSample {
    pub r: u128,
    pub g: u128,
    pub b: u128,
    pub scale: u128,
}

/// The mathematical value of a `ColorSample`.
pub struct SampleView {
    pub r: int,
    pub g: int,
    pub b: int,
    pub scale: int,
}

impl View for ColorSample {
    type V = SampleView;

    open spec fn view(&self) -> SampleView {
        SampleView { r: self.r as int, g: self.g as int, b: self.b as int, scale: self.scale as int }
    }
}

impl SampleView {
    /// Whether the sample is a colour: a positive scale and every channel
    /// between zero and the scale.
    pub open spec fn in_gamut(self) -> bool {
        &&& 0 < self.scale
        &&& 0 <= self.r <= self.scale
        &&& 0 <= self.g <= self.scale
        &&& 0 <= self.b <= self.scale
    }

    /// Whether two samples are the same colour, as fractions.
    pub open spec fn same_color(self, other: SampleView) -> bool {
        &&& self.r * other.scale == other.r * self.scale
        &&& self.g * other.scale == other.g * self.scale
        &&& self.b * other.scale == other.b * self.scale
    }
}

/// The sample of an 8-bit colour.
pub open spec fn solid(c: (int, int, int)) -> SampleView {
    SampleView { r: c.0, g: c.1, b: c.2, scale: 255 }
}

/// One channel of a blend, over `255 * span`: the way from `a` to `b` gone
/// as far as `offset` is of `span`.
pub open spec fn blend_channel(a: int, b: int, offset: int, span: int) -> int {
    a * span + offset * (b - a)
}

/// The linear blend in RGB of the colours `c1` and `c2`, at `offset` of the
/// `span` between them. A span of zero yields `c1`.
pub open spec fn blend(c1: (int, int, int), c2: (int, int, int), offset: int, span: int)
    -> SampleView {
    if span > 0 {
        SampleView {
            r: blend_channel(c1.0, c2.0, offset, span),
            g: blend_channel(c1.1, c2.1, offset, span),
            b: blend_channel(c1.2, c2.2, offset, span),
            scale: 255 * span,
        }
    } else {
        solid(c1)
    }
}

/// Whether the nodes `i` and `i + 1` stand on either side of `pos`, an input
/// hue in micro-degrees.
pub open spec fn brackets(nodes: Seq<SpectrumNode>, i: int, pos: int) -> bool {
    &&& 0 <= i < nodes.len() - 1
    &&& nodes[i].spec_turn() <= pos <= nodes[i + 1].spec_turn()
}

/// The least index from `from` on whose pair of nodes brackets `pos`, or the
/// index of the last node when no pair does.
pub open spec fn first_bracket(nodes: Seq<SpectrumNode>, pos: int, from: int) -> int
    decreases nodes.len() - from,
{
    if from >= nodes.len() - 1 {
        nodes.len() - 1
    } else if brackets(nodes, from, pos) {
        from
    } else {
        first_bracket(nodes, pos, from + 1)
    }
}

/// The target colour of the input hue `hue` (micro-degrees, any integer).
/// The hue is reduced into one turn. A single node gives its colour to every
/// hue. Otherwise the first pair of nodes that brackets the hue is blended;
/// a hue past the last node takes the last colour, one before the first node
/// the first colour.
pub open spec fn spectrum_color(nodes: Seq<SpectrumNode>, hue: int) -> SampleView {
    let pos = wrap_turn(hue);
    let last = nodes.len() - 1;
    if nodes.len() == 1 {
        solid(nodes[0].spec_color())
    } else {
        let i = first_bracket(nodes, pos, 0);
        if i < last {
            blend(
                nodes[i].spec_color(),
                nodes[i + 1].spec_color(),
                pos - nodes[i].spec_turn(),
                nodes[i + 1].spec_turn() - nodes[i].spec_turn(),
            )
        } else if pos >= nodes[last].spec_turn() {
            solid(nodes[last].spec_color())
        } else {
            solid(nodes[0].spec_color())
        }
    }
}

/// The hue at which entry `i` of a lookup table with `resolution` entries is
/// sampled, in micro-degrees: `resolution` equal steps around the turn.
pub open spec fn table_hue(i: int, resolution: int) -> int {
    (i * FULL_TURN) / resolution
}

/// Whether `table` is the lookup table of `nodes` at `resolution` entries:
/// entry `i` is the target colour at `table_hue(i, resolution)`.
pub open spec fn is_lookup_table(
    nodes: Seq<SpectrumNode>,
    table: Seq<ColorSample>,
    resolution: int,
) -> bool {
    &&& table.len() == resolution
    &&& forall|i: int|
        0 <= i < resolution ==> (#[trigger] table[i])@ == spectrum_color(
            nodes,
            table_hue(i, resolution),
        )
}

/// What `first_bracket` returns either brackets the hue, with no earlier
/// pair doing so, or is the last index, with no pair at all doing so.
pub proof fn lemma_first_bracket(nodes: Seq<SpectrumNode>, pos: int, from: int)
    requires
        0 <= from,
        nodes.len() > 0,
    ensures
        from <= first_bracket(nodes, pos, from) || first_bracket(nodes, pos, from) == nodes.len()
            - 1,
        first_bracket(nodes, pos, from) <= nodes.len() - 1,
        first_bracket(nodes, pos, from) < nodes.len() - 1 ==> brackets(
            nodes,
            first_bracket(nodes, pos, from),
            pos,
        ),
        forall|j: int| from <= j < first_bracket(nodes, pos, from) ==> !brackets(nodes, j, pos),
    decreases nodes.len() - from,
{
    if from >= nodes.len() - 1 {
    } else if brackets(nodes, from, pos) {
    } else {
        lemma_first_bracket(nodes, pos, from + 1);
    }
}

/// A pair that brackets the hue, with no earlier pair doing so, is the one
/// that `first_bracket` returns.
pub proof fn lemma_first_bracket_is(nodes: Seq<SpectrumNode>, pos: int, from: int, i: int)
    requires
        0 <= from <= i,
        brackets(nodes, i, pos),
        forall|j: int| from <= j < i ==> !brackets(nodes, j, pos),
    ensures
        first_bracket(nodes, pos, from) == i,
    decreases i - from,
{
    if from < i {
        lemma_first_bracket_is(nodes, pos, from + 1, i);
    }
}

/// A blend lies between its two colours: it is a colour.
pub proof fn lemma_blend_in_gamut(
    c1: (int, int, int),
    c2: (int, int, int),
    offset: int,
    span: int,
)
    requires
        0 <= c1.0 <= 255 && 0 <= c1.1 <= 255 && 0 <= c1.2 <= 255,
        0 <= c2.0 <= 255 && 0 <= c2.1 <= 255 && 0 <= c2.2 <= 255,
        0 <= offset <= span,
    ensures
        blend(c1, c2, offset, span).in_gamut(),
{
    if span > 0 {
        lemma_blend_channel_bounds(c1.0, c2.0, offset, span);
        lemma_blend_channel_bounds(c1.1, c2.1, offset, span);
        lemma_blend_channel_bounds(c1.2, c2.2, offset, span);
    }
}

/// One channel of a blend stays between zero and the scale.
pub proof fn lemma_blend_channel_bounds(a: int, b: int, offset: int, span: int)
    requires
        0 <= a <= 255,
        0 <= b <= 255,
        0 <= offset <= span,
    ensures
        0 <= blend_channel(a, b, offset, span) <= 255 * span,
        0 <= a * span <= 255 * span,
        b >= a ==> blend_channel(a, b, offset, span) == a * span + offset * (b - a) && 0 <= offset
            * (b - a),
        b < a ==> blend_channel(a, b, offset, span) == a * span - offset * (a - b) && 0 <= offset
            * (a - b) <= a * span,
{
    assert(a * span + offset * (b - a) == a * (span - offset) + offset * b) by (nonlinear_arith);
    assert(0 <= a * span <= 255 * span) by (nonlinear_arith)
        requires
            0 <= a <= 255,
            0 <= span,
    ;
    assert(0 <= a * (span - offset) <= 255 * (span - offset)) by (nonlinear_arith)
        requires
            0 <= a <= 255,
            0 <= span - offset,
    ;
    assert(0 <= offset * b <= 255 * offset) by (nonlinear_arith)
        requires
            0 <= b <= 255,
            0 <= offset,
    ;
    if b >= a {
        assert(0 <= offset * (b - a)) by (nonlinear_arith)
            requires
                0 <= offset,
                0 <= b - a,
        ;
    } else {
        assert(offset * (b - a) == -(offset * (a - b))) by (nonlinear_arith);
        assert(0 <= offset * (a - b) <= a * span) by (nonlinear_arith)
            requires
                0 <= offset <= span,
                0 <= a - b <= a,
        ;
    }
}

/// Every node of a valid spectrum contributes an 8-bit colour and stands
/// within one turn.
pub proof fn lemma_valid_node(nodes: Seq<SpectrumNode>, i: int)
    requires
        valid_nodes(nodes),
        0 <= i < nodes.len(),
    ensures
        nodes[i].spec_in_range(),
        0 <= nodes[i].spec_turn() <= FULL_TURN,
        0 <= nodes[i].spec_color().0 <= 255,
        0 <= nodes[i].spec_color().1 <= 255,
        0 <= nodes[i].spec_color().2 <= 255,
{
    let node = nodes[i];
    assert(node.spec_in_range());
    let (h, s, v) = node.spec_hsv();
    lemma_hsv_color_bounds(h, s, v);
}

/// Every node contributes an 8-bit colour, whatever its text and its
/// explicit components are.
pub proof fn lemma_node_color_bounds(node: SpectrumNode)
    ensures
        0 <= node.spec_color().0 <= 255,
        0 <= node.spec_color().1 <= 255,
        0 <= node.spec_color().2 <= 255,
{
    let (h, s, v) = node.spec_hsv();
    lemma_hsv_color_bounds(h, s, v);
}

/// The target colour of a spectrum with at least one node is a colour, for
/// every hue.
pub proof fn lemma_spectrum_color_in_gamut(nodes: Seq<SpectrumNode>, hue: int)
    requires
        nodes.len() > 0,
    ensures
        spectrum_color(nodes, hue).in_gamut(),
{
    let pos = wrap_turn(hue);
    let last = nodes.len() - 1;
    lemma_node_color_bounds(nodes[0]);
    lemma_node_color_bounds(nodes[last]);
    if nodes.len() > 1 {
        lemma_first_bracket(nodes, pos, 0);
        let i = first_bracket(nodes, pos, 0);
        if i < last {
            lemma_node_color_bounds(nodes[i]);
            lemma_node_color_bounds(nodes[i + 1]);
            lemma_blend_in_gamut(
                nodes[i].spec_color(),
                nodes[i + 1].spec_color(),
                pos - nodes[i].spec_turn(),
                nodes[i + 1].spec_turn() - nodes[i].spec_turn(),
            );
        }
    }
}

/// What stands in the way of the colour of the node `i`: nothing where the
/// node gives all of hue, saturation and value or its text spells a colour,
/// and else that its colour is invalid.
pub open spec fn color_fault(nodes: Seq<SpectrumNode>, i: int) -> Option<SpectrumError> {
    if nodes[i].spec_readable() {
        None
    } else {
        Some(SpectrumError::Node { index: i as usize, error: NodeError::InvalidColor })
    }
}

/// The first of two faults.
pub open spec fn first_fault_of(a: Option<SpectrumError>, b: Option<SpectrumError>) -> Option<
    SpectrumError,
> {
    if a is Some {
        a
    } else {
        b
    }
}

/// Why the spectrum has no target colour for `hue`, if it has none: it has
/// no node, or the colour of a node that the hue meets cannot be read. The
/// hue meets the single node of a spectrum of one; else both nodes of the
/// first pair that brackets it, the earlier one first; else the last node
/// where it lies at or past it, and the first node otherwise. Nodes that the
/// hue does not meet are not looked at.
pub open spec fn spectrum_fault(nodes: Seq<SpectrumNode>, hue: int) -> Option<SpectrumError> {
    let pos = wrap_turn(hue);
    let last = nodes.len() - 1;
    if nodes.len() == 0 {
        Some(SpectrumError::Empty)
    } else if nodes.len() == 1 {
        color_fault(nodes, 0)
    } else {
        let i = first_bracket(nodes, pos, 0);
        if i < last {
            first_fault_of(color_fault(nodes, i), color_fault(nodes, i + 1))
        } else if pos >= nodes[last].spec_turn() {
            color_fault(nodes, last)
        } else {
            color_fault(nodes, 0)
        }
    }
}

/// Why the spectrum has no lookup table of `resolution` entries, if it has
/// none: the fault of the first entry from `from` on that has no colour.
pub open spec fn table_fault_from(nodes: Seq<SpectrumNode>, resolution: int, from: int) -> Option<
    SpectrumError,
>
    decreases resolution - from,
{
    if from >= resolution {
        None
    } else {
        first_fault_of(
            spectrum_fault(nodes, table_hue(from, resolution)),
            table_fault_from(nodes, resolution, from + 1),
        )
    }
}

/// Why the spectrum has no lookup table of `resolution` entries, if it has
/// none. A table without entries always exists.
pub open spec fn table_fault(nodes: Seq<SpectrumNode>, resolution: int) -> Option<SpectrumError> {
    table_fault_from(nodes, resolution, 0)
}

/// A valid spectrum has a target colour for every hue.
pub proof fn lemma_valid_has_color(nodes: Seq<SpectrumNode>, hue: int)
    requires
        valid_nodes(nodes),
    ensures
        spectrum_fault(nodes, hue) is None,
{
    let pos = wrap_turn(hue);
    let last = nodes.len() - 1;
    assert(nodes[0].spec_in_range());
    assert(nodes[last].spec_in_range());
    if nodes.len() > 1 {
        lemma_first_bracket(nodes, pos, 0);
        let i = first_bracket(nodes, pos, 0);
        if i < last {
            assert(nodes[i].spec_in_range());
            assert(nodes[i + 1].spec_in_range());
        }
    }
}

/// A table has a fault exactly where one of its entries has one; so a table
/// without entries has none, and neither has any table of a valid spectrum.
pub proof fn lemma_table_fault(nodes: Seq<SpectrumNode>, resolution: int, from: int)
    requires
        0 <= from,
    ensures
        table_fault_from(nodes, resolution, from) is None <==> forall|i: int|
            from <= i < resolution ==> spectrum_fault(nodes, #[trigger] table_hue(i, resolution))
                is None,
        resolution <= from ==> table_fault_from(nodes, resolution, from) is None,
    decreases resolution - from,
{
    if from < resolution {
        lemma_table_fault(nodes, resolution, from + 1);
        if table_fault_from(nodes, resolution, from) is None {
            assert forall|i: int| from <= i < resolution implies spectrum_fault(
                nodes,
                #[trigger] table_hue(i, resolution),
            ) is None by {
                if i > from {
                    assert(from + 1 <= i);
                }
            }
        }
    }
}

/// Every table of a valid spectrum exists.
pub proof fn lemma_valid_has_table(nodes: Seq<SpectrumNode>, resolution: int)
    requires
        valid_nodes(nodes),
    ensures
        table_fault(nodes, resolution) is None,
{
    lemma_table_fault(nodes, resolution, 0);
    assert forall|i: int| 0 <= i < resolution implies spectrum_fault(
        nodes,
        #[trigger] table_hue(i, resolution),
    ) is None by {
        lemma_valid_has_color(nodes, table_hue(i, resolution));
    }
}

impl Spectrum {
    /// The colour of the node at `i`, or why it cannot be read.
    fn node_color(&self, i: usize) -> (res: Result<(u8, u8, u8), SpectrumError>)
        requires
            i < self.nodes.len(),
        ensures
            match color_fault(self.nodes@, i as int) {
                Some(e) => res == Err::<(u8, u8, u8), SpectrumError>(e),
                None => res matches Ok(c) && (c.0 as int, c.1 as int, c.2 as int)
                    == self.nodes@[i as int].spec_color(),
            },
    {
        match self.nodes[i].to_color() {
            Ok(c) => Ok(c),
            Err(error) => Err(SpectrumError::Node { index: i, error }),
        }
    }

    /// Position of the node at `i`, in micro-degrees.
    fn node_turn(&self, i: usize) -> (t: i128)
        requires
            i < self.nodes.len(),
        ensures
            t == self.nodes@[i as int].spec_turn(),
            i64::MIN * 360 <= t <= i64::MAX * 360,
    {
        self.nodes[i].position as i128 * 360
    }

    /// One channel of a blend, as `blend_channel` states it.
    fn blend_one(a: u8, b: u8, offset: u128, span: u128) -> (c: u128)
        requires
            offset <= span <= 0x1_0000_0000_0000_0000 * 360,
        ensures
            c == blend_channel(a as int, b as int, offset as int, span as int),
    {
        proof {
            lemma_blend_channel_bounds(a as int, b as int, offset as int, span as int);
        }
        if b >= a {
            a as u128 * span + offset * ((b - a) as u128)
        } else {
            a as u128 * span - offset * ((a - b) as u128)
        }
    }

    /// The sample of one 8-bit colour.
    fn solid_sample(c: (u8, u8, u8)) -> (sample: ColorSample)
        ensures
            sample@ == solid((c.0 as int, c.1 as int, c.2 as int)),
    {
        ColorSample { r: c.0 as u128, g: c.1 as u128, b: c.2 as u128, scale: 255 }
    }

    /// The sample of the node at `i` alone, or why its colour cannot be
    /// read.
    fn solid_at(&self, i: usize) -> (res: Result<ColorSample, SpectrumError>)
        requires
            i < self.nodes.len(),
        ensures
            match color_fault(self.nodes@, i as int) {
                Some(e) => res == Err::<ColorSample, SpectrumError>(e),
                None => res matches Ok(sample) && sample@ == solid(
                    self.nodes@[i as int].spec_color(),
                ),
            },
    {
        match self.node_color(i) {
            Ok(c) => Ok(Self::solid_sample(c)),
            Err(e) => Err(e),
        }
    }

    /// Maps an input hue (micro-degrees, any integer) to its target colour.
    /// Only the nodes that the hue meets are looked at. The call fails
    /// exactly where the spectrum has no node or the colour of a node that
    /// the hue meets cannot be read; a spectrum that `validate` accepts
    /// never fails.
    pub fn map_hue_to_rgb(&self, input_hue: i64) -> (res: Result<ColorSample, SpectrumError>)
        ensures
            match spectrum_fault(self.nodes@, input_hue as int) {
                Some(e) => res == Err::<ColorSample, SpectrumError>(e),
                None => res matches Ok(sample) && sample@ == spectrum_color(
                    self.nodes@,
                    input_hue as int,
                ) && sample@.in_gamut(),
            },
            self.spec_valid() ==> res is Ok,
    {
        proof {
            if self.spec_valid() {
                lemma_valid_has_color(self.nodes@, input_hue as int);
            }
            if self.nodes@.len() > 0 {
                lemma_spectrum_color_in_gamut(self.nodes@, input_hue as int);
            }
        }
        let pos: i128 = wrap_to_turn(input_hue) as i128;
        let n: usize = self.nodes.len();
        if n == 0 {
            return Err(SpectrumError::Empty);
        }
        if n == 1 {
            return self.solid_at(0);
        }
        let i: usize = self.find_bracket(pos);
        if i < n - 1 {
            self.blend_at(i, pos)
        } else if pos >= self.node_turn(n - 1) {
            self.solid_at(n - 1)
        } else {
            self.solid_at(0)
        }
    }

    /// The first pair of nodes that brackets `pos`, as `first_bracket`
    /// states it.
    fn find_bracket(&self, pos: i128) -> (i: usize)
        requires
            self.nodes.len() > 1,
        ensures
            i == first_bracket(self.nodes@, pos as int, 0),
            i <= self.nodes.len() - 1,
            i < self.nodes.len() - 1 ==> brackets(self.nodes@, i as int, pos as int),
    {
        let n: usize = self.nodes.len();
        let mut i: usize = 0;
        while i < n - 1
            invariant
                n == self.nodes@.len(),
                n > 1,
                i <= n - 1,
                first_bracket(self.nodes@, pos as int, 0) == first_bracket(
                    self.nodes@,
                    pos as int,
                    i as int,
                ),
            decreases n - i,
        {
            let lo: i128 = self.node_turn(i);
            let hi: i128 = self.node_turn(i + 1);
            if lo <= pos && pos <= hi {
                return i;
            }
            i = i + 1;
        }
        i
    }

    /// The blend of the nodes `i` and `i + 1`, which bracket `pos`, or why
    /// the colour of one of them cannot be read.
    fn blend_at(&self, i: usize, pos: i128) -> (res: Result<ColorSample, SpectrumError>)
        requires
            brackets(self.nodes@, i as int, pos as int),
        ensures
            match first_fault_of(
                color_fault(self.nodes@, i as int),
                color_fault(self.nodes@, i + 1),
            ) {
                Some(e) => res == Err::<ColorSample, SpectrumError>(e),
                None => res matches Ok(sample) && sample@ == blend(
                    self.nodes@[i as int].spec_color(),
                    self.nodes@[i + 1].spec_color(),
                    pos - self.nodes@[i as int].spec_turn(),
                    self.nodes@[i + 1].spec_turn() - self.nodes@[i as int].spec_turn(),
                ),
            },
    {
        let n: usize = self.nodes.len();
        assert(i + 1 < n);
        let lo: i128 = self.node_turn(i);
        let hi: i128 = self.node_turn(i + 1);
        let offset: u128 = (pos - lo) as u128;
        let span: u128 = (hi - lo) as u128;
        let c1 = match self.node_color(i) {
            Ok(c) => c,
            Err(e) => {
                return Err(e);
            },
        };
        let c2 = match self.node_color(i + 1) {
            Ok(c) => c,
            Err(e) => {
                return Err(e);
            },
        };
        if span > 0 {
            Ok(
                ColorSample {
                    r: Self::blend_one(c1.0, c2.0, offset, span),
                    g: Self::blend_one(c1.1, c2.1, offset, span),
                    b: Self::blend_one(c1.2, c2.2, offset, span),
                    scale: 255 * span,
                },
            )
        } else {
            Ok(Self::solid_sample(c1))
        }
    }

    /// The lookup table of the spectrum: entry `i` of `resolution` is the
    /// target colour of the hue `i / resolution` of a turn. The call fails
    /// exactly where an entry has no colour, with the fault of the first
    /// such entry; so a table without entries is made of every spectrum, and
    /// every table of a spectrum that `validate` accepts.
    pub fn get_rgb_lookup_table(&self, resolution: usize) -> (res: Result<
        Vec<ColorSample>,
        SpectrumError,
    >)
        ensures
            match table_fault(self.nodes@, resolution as int) {
                Some(e) => res == Err::<Vec<ColorSample>, SpectrumError>(e),
                None => res matches Ok(table) && is_lookup_table(
                    self.nodes@,
                    table@,
                    resolution as int,
                ),
            },
            resolution == 0 ==> res is Ok,
            self.spec_valid() ==> res is Ok,
    {
        proof {
            lemma_table_fault(self.nodes@, resolution as int, 0);
            if self.spec_valid() {
                lemma_valid_has_table(self.nodes@, resolution as int);
            }
        }
        let mut table: Vec<ColorSample> = Vec::new();
        let mut i: usize = 0;
        while i < resolution
            invariant
                i <= resolution,
                table@.len() == i,
                table_fault(self.nodes@, resolution as int) == table_fault_from(
                    self.nodes@,
                    resolution as int,
                    i as int,
                ),
                forall|j: int|
                    0 <= j < i ==> (#[trigger] table@[j])@ == spectrum_color(
                        self.nodes@,
                        table_hue(j, resolution as int),
                    ),
            decreases resolution - i,
        {
            let hue: i64 = Self::sample_hue(i, resolution);
            match self.map_hue_to_rgb(hue) {
                Ok(sample) => {
                    table.push(sample);
                },
                Err(e) => {
                    return Err(e);
                },
            }
            i = i + 1;
        }
        Ok(table)
    }

    /// The hue of entry `i` of a table with `resolution` entries.
    fn sample_hue(i: usize, resolution: usize) -> (hue: i64)
        requires
            i < resolution,
        ensures
            hue == table_hue(i as int, resolution as int),
            0 <= hue < FULL_TURN,
    {
        assert(i * FULL_TURN < resolution * FULL_TURN) by (nonlinear_arith)
            requires
                0 <= i < resolution,
        ;
        assert(resolution * FULL_TURN <= usize::MAX * FULL_TURN) by (nonlinear_arith)
            requires
                resolution <= usize::MAX,
        ;
        let product: u128 = i as u128 * 360_000_000u128;
        let hue: u128 = product / (resolution as u128);
        assert(0 <= (i * FULL_TURN) / (resolution as int) < FULL_TURN) by (nonlinear_arith)
            requires
                0 <= i < resolution,
        ;
        hue as i64
    }
}

/// The content of a spectrum file: one spectrum, or two for the dual mode.
#[derive(Clone, Debug)]
pub struct SpectrumFile {
    pub spectra: Vec<Spectrum>,
}

/// A primary spectrum and, in dual mode, a secondary one.
#[derive(Clone, Debug)]
pub struct SpectrumPair {
    pub spectrum1: Spectrum,
    pub spectrum2: Option<Spectrum>,
}

/// Whether `e` is the error that a spectrum file is refused with: `NoSpectrum`
/// for an empty file, else the first fault of the first invalid spectrum.
pub open spec fn is_first_file_fault(spectra: Seq<Spectrum>, e: SpectrumFileError) -> bool {
    match e {
        SpectrumFileError::NoSpectrum => spectra.len() == 0,
        SpectrumFileError::Invalid { index, error } => {
            &&& index < spectra.len()
            &&& !spectra[index as int].spec_valid()
            &&& is_first_fault(spectra[index as int].nodes@, error)
            &&& forall|j: int| 0 <= j < index ==> (#[trigger] spectra[j]).spec_valid()
        },
    }
}

/// Whether a file holds a usable set of spectra: at least one, all valid.
pub open spec fn valid_file(spectra: Seq<Spectrum>) -> bool {
    &&& spectra.len() > 0
    &&& forall|j: int| 0 <= j < spectra.len() ==> (#[trigger] spectra[j]).spec_valid()
}

impl SpectrumPair {
    /// Whether both spectra of the pair are valid.
    pub open spec fn spec_valid(&self) -> bool {
        &&& self.spectrum1.spec_valid()
        &&& self.spectrum2 matches Some(s) ==> s.spec_valid()
    }

    /// Takes the pair out of a file's content. Every spectrum of the file
    /// must be valid, also those beyond the second, which are not used. The
    /// first becomes the primary spectrum, the second, if there is one, the
    /// secondary.
    pub fn load_from_file(file: SpectrumFile) -> (res: Result<SpectrumPair, SpectrumFileError>)
        ensures
            res is Ok <==> valid_file(file.spectra@),
            res matches Ok(pair) ==> {
                &&& pair.spec_valid()
                &&& pair.spectrum1 == file.spectra@[0]
                &&& pair.spectrum2 == if file.spectra@.len() >= 2 {
                    Some(file.spectra@[1])
                } else {
                    None::<Spectrum>
                }
            },
            res matches Err(e) ==> is_first_file_fault(file.spectra@, e),
    {
        let mut spectra = file.spectra;
        let n: usize = spectra.len();
        if n == 0 {
            return Err(SpectrumFileError::NoSpectrum);
        }
        let mut i: usize = 0;
        while i < n
            invariant
                i <= n,
                n == spectra@.len(),
                spectra@ == file.spectra@,
                forall|j: int| 0 <= j < i ==> (#[trigger] spectra@[j]).spec_valid(),
            decreases n - i,
        {
            match spectra[i].validate() {
                Err(error) => {
                    return Err(SpectrumFileError::Invalid { index: i, error });
                },
                Ok(()) => {},
            }
            i = i + 1;
        }
        if n >= 2 {
            spectra.truncate(2);
            let second = spectra.pop();
            let first = spectra.pop();
            match (first, second) {
                (Some(spectrum1), Some(spectrum2)) => Ok(
                    SpectrumPair { spectrum1, spectrum2: Some(spectrum2) },
                ),
                _ => Err(SpectrumFileError::NoSpectrum),
            }
        } else {
            match spectra.pop() {
                Some(spectrum1) => Ok(SpectrumPair { spectrum1, spectrum2: None }),
                None => Err(SpectrumFileError::NoSpectrum),
            }
        }
    }

    /// Whether the pair has a secondary spectrum.
    pub fn has_dual_spectrum(&self) -> (dual: bool)
        ensures
            dual == self.spectrum2.is_some(),
    {
        self.spectrum2.is_some()
    }
}

} // verus!
