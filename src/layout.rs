//! The totem layout: which windows of a 64x64 skin are painted where on a
//! 16x16 totem, and the pipeline that applies them in order.

use vstd::prelude::*;
use crate::canvas::{
    blank_grid, blit_check, blit_spec, clear_check, clear_rect_spec, in_rect, rect_within, Canvas,
    Grid, Point, RangeError,
};
use crate::color::TRANSPARENT;

verus! {

/// The width and height of a skin.
pub const SKIN_SIZE: usize = 64;

/// The width and height of a totem.
pub const TOTEM_SIZE: usize = 16;

/// One step of a layout.
#[derive(Clone, Copy, Debug, PartialEq, Eq, Structural)]
pub enum LayoutOp {
    /// Paint the skin's window at `src` of the given size at `dest` on the totem.
    Blit { src: Point, size: Point, dest: Point },
    /// Make the totem's rectangle at `pos` of the given size transparent.
    Clear { pos: Point, size: Point },
}

/// Why a totem could not be built.
#[derive(Clone, Copy, Debug, PartialEq, Eq, Structural)]
pub enum LayoutError {
    /// The skin is not 64x64.
    InvalidSkinDimensions,
    /// A step of the layout was refused.
    Range(RangeError),
}

pub open spec fn blit_entry(sx: u8, sy: u8, w: u8, h: u8, dx: u8, dy: u8) -> LayoutOp {
    LayoutOp::Blit {
        src: Point { x: sx, y: sy },
        size: Point { x: w, y: h },
        dest: Point { x: dx, y: dy },
    }
}

pub open spec fn clear_entry(x: u8, y: u8, w: u8, h: u8) -> LayoutOp {
    LayoutOp::Clear { pos: Point { x, y }, size: Point { x: w, y: h } }
}

fn make_blit(sx: u8, sy: u8, w: u8, h: u8, dx: u8, dy: u8) -> (op: LayoutOp)
    ensures
        op == blit_entry(sx, sy, w, h, dx, dy),
{
    LayoutOp::Blit {
        src: Point { x: sx, y: sy },
        size: Point { x: w, y: h },
        dest: Point { x: dx, y: dy },
    }
}

fn make_clear(x: u8, y: u8, w: u8, h: u8) -> (op: LayoutOp)
    ensures
        op == clear_entry(x, y, w, h),
{
    LayoutOp::Clear { pos: Point { x, y }, size: Point { x: w, y: h } }
}

/// The steps always applied: the head, then the body, arms and legs.
pub open spec fn base_layout() -> Seq<LayoutOp> {
    seq![
        blit_entry(8, 8, 8, 8, 4, 1),
        clear_entry(4, 1, 1, 1),
        clear_entry(11, 1, 1, 1),
        blit_entry(20, 21, 8, 1, 4, 9),
        blit_entry(20, 23, 8, 1, 4, 10),
        blit_entry(20, 29, 8, 1, 4, 11),
        blit_entry(20, 31, 8, 1, 4, 12),
        blit_entry(5, 20, 3, 2, 5, 13),
        blit_entry(6, 31, 2, 1, 6, 15),
        blit_entry(20, 52, 3, 2, 8, 13),
        blit_entry(20, 63, 2, 1, 8, 15),
        blit_entry(44, 20, 1, 1, 3, 8),
        blit_entry(45, 20, 1, 1, 3, 9),
        blit_entry(46, 20, 1, 1, 3, 10),
        blit_entry(44, 21, 1, 1, 2, 8),
        blit_entry(45, 21, 1, 1, 2, 9),
        blit_entry(46, 21, 1, 1, 2, 10),
        blit_entry(44, 31, 1, 1, 1, 8),
        blit_entry(45, 31, 1, 1, 1, 9),
        blit_entry(39, 52, 1, 1, 12, 8),
        blit_entry(38, 52, 1, 1, 12, 9),
        blit_entry(37, 52, 1, 1, 12, 10),
        blit_entry(39, 53, 1, 1, 13, 8),
        blit_entry(38, 53, 1, 1, 13, 9),
        blit_entry(37, 53, 1, 1, 13, 10),
        blit_entry(37, 63, 1, 1, 14, 8),
        blit_entry(38, 63, 1, 1, 14, 9),
    ]
}

/// The steps applied after the base ones when the second layer (hat,
/// jacket, sleeves and trousers) is asked for.
pub open spec fn second_layer_layout() -> Seq<LayoutOp> {
    seq![
        blit_entry(40, 8, 8, 8, 4, 1),
        blit_entry(44, 36, 1, 1, 3, 8),
        blit_entry(45, 36, 1, 1, 3, 9),
        blit_entry(46, 36, 1, 1, 3, 10),
        blit_entry(44, 37, 1, 1, 2, 8),
        blit_entry(45, 37, 1, 1, 2, 9),
        blit_entry(46, 37, 1, 1, 2, 10),
        blit_entry(44, 47, 1, 1, 1, 8),
        blit_entry(45, 47, 1, 1, 1, 9),
        blit_entry(55, 52, 1, 1, 12, 8),
        blit_entry(54, 52, 1, 1, 12, 9),
        blit_entry(53, 52, 1, 1, 12, 10),
        blit_entry(55, 53, 1, 1, 13, 8),
        blit_entry(54, 53, 1, 1, 13, 9),
        blit_entry(53, 53, 1, 1, 13, 10),
        blit_entry(53, 63, 1, 1, 14, 8),
        blit_entry(54, 63, 1, 1, 14, 9),
        blit_entry(20, 37, 8, 1, 4, 9),
        blit_entry(20, 39, 8, 1, 4, 10),
        blit_entry(20, 45, 8, 1, 4, 11),
        blit_entry(20, 47, 8, 1, 4, 12),
        blit_entry(5, 36, 3, 2, 5, 13),
        blit_entry(6, 47, 2, 1, 6, 15),
        blit_entry(4, 52, 3, 2, 8, 13),
        blit_entry(4, 63, 2, 1, 8, 15),
    ]
}

/// The steps always applied.
pub fn base_layout_ops() -> (ops: Vec<LayoutOp>)
    ensures
        ops@ == base_layout(),
{
    let ops = vec![
        make_blit(8, 8, 8, 8, 4, 1),
        make_clear(4, 1, 1, 1),
        make_clear(11, 1, 1, 1),
        make_blit(20, 21, 8, 1, 4, 9),
        make_blit(20, 23, 8, 1, 4, 10),
        make_blit(20, 29, 8, 1, 4, 11),
        make_blit(20, 31, 8, 1, 4, 12),
        make_blit(5, 20, 3, 2, 5, 13),
        make_blit(6, 31, 2, 1, 6, 15),
        make_blit(20, 52, 3, 2, 8, 13),
        make_blit(20, 63, 2, 1, 8, 15),
        make_blit(44, 20, 1, 1, 3, 8),
        make_blit(45, 20, 1, 1, 3, 9),
        make_blit(46, 20, 1, 1, 3, 10),
        make_blit(44, 21, 1, 1, 2, 8),
        make_blit(45, 21, 1, 1, 2, 9),
        make_blit(46, 21, 1, 1, 2, 10),
        make_blit(44, 31, 1, 1, 1, 8),
        make_blit(45, 31, 1, 1, 1, 9),
        make_blit(39, 52, 1, 1, 12, 8),
        make_blit(38, 52, 1, 1, 12, 9),
        make_blit(37, 52, 1, 1, 12, 10),
        make_blit(39, 53, 1, 1, 13, 8),
        make_blit(38, 53, 1, 1, 13, 9),
        make_blit(37, 53, 1, 1, 13, 10),
        make_blit(37, 63, 1, 1, 14, 8),
        make_blit(38, 63, 1, 1, 14, 9),
    ];
    assert(ops@ =~= base_layout());
    ops
}

/// The steps of the second layer.
pub fn second_layer_ops() -> (ops: Vec<LayoutOp>)
    ensures
        ops@ == second_layer_layout(),
{
    let ops = vec![
        make_blit(40, 8, 8, 8, 4, 1),
        make_blit(44, 36, 1, 1, 3, 8),
        make_blit(45, 36, 1, 1, 3, 9),
        make_blit(46, 36, 1, 1, 3, 10),
        make_blit(44, 37, 1, 1, 2, 8),
        make_blit(45, 37, 1, 1, 2, 9),
        make_blit(46, 37, 1, 1, 2, 10),
        make_blit(44, 47, 1, 1, 1, 8),
        make_blit(45, 47, 1, 1, 1, 9),
        make_blit(55, 52, 1, 1, 12, 8),
        make_blit(54, 52, 1, 1, 12, 9),
        make_blit(53, 52, 1, 1, 12, 10),
        make_blit(55, 53, 1, 1, 13, 8),
        make_blit(54, 53, 1, 1, 13, 9),
        make_blit(53, 53, 1, 1, 13, 10),
        make_blit(53, 63, 1, 1, 14, 8),
        make_blit(54, 63, 1, 1, 14, 9),
        make_blit(20, 37, 8, 1, 4, 9),
        make_blit(20, 39, 8, 1, 4, 10),
        make_blit(20, 45, 8, 1, 4, 11),
        make_blit(20, 47, 8, 1, 4, 12),
        make_blit(5, 36, 3, 2, 5, 13),
        make_blit(6, 47, 2, 1, 6, 15),
        make_blit(4, 52, 3, 2, 8, 13),
        make_blit(4, 63, 2, 1, 8, 15),
    ];
    assert(ops@ =~= second_layer_layout());
    ops
}

/// What one step makes of the totem `g`, or the error it reports.
pub open spec fn apply_op(g: Grid, skin: Grid, op: LayoutOp) -> Result<Grid, RangeError> {
    match op {
        LayoutOp::Blit { src, size, dest } => blit_spec(g, skin, src, size, dest),
        LayoutOp::Clear { pos, size } => clear_rect_spec(g, pos, size),
    }
}

/// What the steps, in order, make of the totem `g`, or the first error.
pub open spec fn apply_ops(g: Grid, skin: Grid, ops: Seq<LayoutOp>) -> Result<Grid, RangeError>
    decreases ops.len(),
{
    if ops.len() == 0 {
        Ok(g)
    } else {
        match apply_ops(g, skin, ops.drop_last()) {
            Ok(g1) => apply_op(g1, skin, ops.last()),
            Err(e) => Err(e),
        }
    }
}

/// Whether a step passes its checks and stays inside both canvases.
pub open spec fn op_sound(op: LayoutOp, skin_w: nat, skin_h: nat, w: nat, h: nat) -> bool {
    match op {
        LayoutOp::Blit { src, size, dest } => {
            &&& blit_check(src, size, dest) is Ok
            &&& rect_within(src, size, skin_w, skin_h)
            &&& rect_within(dest, size, w, h)
        },
        LayoutOp::Clear { pos, size } => {
            &&& clear_check(pos, size) is Ok
            &&& rect_within(pos, size, w, h)
        },
    }
}

/// Whether a step writes the totem pixel `(x, y)`.
pub open spec fn op_targets(op: LayoutOp, x: int, y: int) -> bool {
    match op {
        LayoutOp::Blit { src, size, dest } => in_rect(x, y, dest, size),
        LayoutOp::Clear { pos, size } => in_rect(x, y, pos, size),
    }
}

/// Whether some step writes the totem pixel `(x, y)`.
pub open spec fn layout_targets(ops: Seq<LayoutOp>, x: int, y: int) -> bool {
    exists|i: int| 0 <= i < ops.len() && op_targets(#[trigger] ops[i], x, y)
}

/// What `build` makes of a skin, or the error it reports.
pub open spec fn build_spec(skin: Grid, second_layer: bool) -> Result<Grid, LayoutError> {
    if skin.width != SKIN_SIZE || skin.height != SKIN_SIZE {
        Err(LayoutError::InvalidSkinDimensions)
    } else {
        match apply_ops(blank_grid(TOTEM_SIZE as nat, TOTEM_SIZE as nat), skin, base_layout()) {
            Err(e) => Err(LayoutError::Range(e)),
            Ok(g) => if !second_layer {
                Ok(g)
            } else {
                match apply_ops(g, skin, second_layer_layout()) {
                    Err(e) => Err(LayoutError::Range(e)),
                    Ok(g2) => Ok(g2),
                }
            },
        }
    }
}

proof fn lemma_apply_err_persists(g: Grid, skin: Grid, ops: Seq<LayoutOp>, i: int)
    requires
        0 <= i <= ops.len(),
        apply_ops(g, skin, ops.take(i)) is Err,
    ensures
        apply_ops(g, skin, ops) == apply_ops(g, skin, ops.take(i)),
    decreases ops.len() - i,
{
    if i < ops.len() {
        assert(ops.take(i + 1).drop_last() =~= ops.take(i));
        lemma_apply_err_persists(g, skin, ops, i + 1);
    } else {
        assert(ops.take(i) =~= ops);
    }
}

/// Steps that all pass their checks never fail, keep the totem's size, and
/// leave every pixel that none of them writes as it was.
pub proof fn lemma_apply_sound(g: Grid, skin: Grid, ops: Seq<LayoutOp>)
    requires
        g.wf(),
        skin.wf(),
        forall|i: int|
            0 <= i < ops.len() ==> op_sound(#[trigger] ops[i], skin.width, skin.height, g.width, g.height),
    ensures
        apply_ops(g, skin, ops) is Ok,
        apply_ops(g, skin, ops)->Ok_0.wf(),
        apply_ops(g, skin, ops)->Ok_0.width == g.width,
        apply_ops(g, skin, ops)->Ok_0.height == g.height,
        forall|x: int, y: int|
            g.contains(x, y) && !layout_targets(ops, x, y) ==> #[trigger] apply_ops(
                g,
                skin,
                ops,
            )->Ok_0.at(x, y) == g.at(x, y),
    decreases ops.len(),
{
    if ops.len() > 0 {
        let prefix = ops.drop_last();
        assert forall|i: int| 0 <= i < prefix.len() implies op_sound(
            #[trigger] prefix[i],
            skin.width,
            skin.height,
            g.width,
            g.height,
        ) by {
            assert(prefix[i] == ops[i]);
        }
        lemma_apply_sound(g, skin, prefix);
        let g1 = apply_ops(g, skin, prefix)->Ok_0;
        let last = ops.last();
        assert(op_sound(ops[ops.len() - 1], skin.width, skin.height, g.width, g.height));
        assert forall|x: int, y: int|
            g.contains(x, y) && !layout_targets(ops, x, y) implies #[trigger] apply_ops(
                g,
                skin,
                ops,
            )->Ok_0.at(x, y) == g.at(x, y) by {
            if layout_targets(prefix, x, y) {
                let i = choose|i: int| 0 <= i < prefix.len() && op_targets(#[trigger] prefix[i], x, y);
                assert(ops[i] == prefix[i]);
            }
            assert(!op_targets(ops[ops.len() - 1], x, y));
            assert(g1.at(x, y) == g.at(x, y));
        }
    }
}

/// Applies the steps in order to the totem, stopping at the first that is
/// refused.
fn apply_layout(totem: &mut Canvas, skin: &Canvas, ops: &Vec<LayoutOp>) -> (r: Result<(), RangeError>)
    requires
        old(totem).wf(),
        skin.wf(),
        forall|i: int|
            0 <= i < ops@.len() ==> op_sound(
                #[trigger] ops@[i],
                skin@.width,
                skin@.height,
                old(totem)@.width,
                old(totem)@.height,
            ),
    ensures
        final(totem).wf(),
        final(totem)@.width == old(totem)@.width,
        final(totem)@.height == old(totem)@.height,
        match apply_ops(old(totem)@, skin@, ops@) {
            Ok(g) => r is Ok && final(totem)@ == g,
            Err(e) => r == Err::<(), RangeError>(e),
        },
{
    let ghost g0 = totem@;
    let mut i: usize = 0;
    while i < ops.len()
        invariant
            totem.wf(),
            skin.wf(),
            i <= ops@.len(),
            totem@.width == g0.width,
            totem@.height == g0.height,
            apply_ops(g0, skin@, ops@.take(i as int)) == Ok::<Grid, RangeError>(totem@),
            forall|j: int|
                0 <= j < ops@.len() ==> op_sound(
                    #[trigger] ops@[j],
                    skin@.width,
                    skin@.height,
                    g0.width,
                    g0.height,
                ),
        decreases ops@.len() - i,
    {
        let op = ops[i];
        assert(ops@.take(i + 1).drop_last() =~= ops@.take(i as int));
        assert(op_sound(ops@[i as int], skin@.width, skin@.height, g0.width, g0.height));
        let step = match op {
            LayoutOp::Blit { src, size, dest } => totem.blit(skin, src, size, dest),
            LayoutOp::Clear { pos, size } => totem.clear_rect(pos, size),
        };
        if let Err(e) = step {
            proof {
                lemma_apply_err_persists(g0, skin@, ops@, i + 1);
            }
            return Err(e);
        }
        i = i + 1;
    }
    assert(ops@.take(i as int) =~= ops@);
    Ok(())
}

proof fn lemma_layouts_sound()
    ensures
        forall|i: int|
            0 <= i < base_layout().len() ==> op_sound(
                #[trigger] base_layout()[i],
                SKIN_SIZE as nat,
                SKIN_SIZE as nat,
                TOTEM_SIZE as nat,
                TOTEM_SIZE as nat,
            ),
        forall|i: int|
            0 <= i < second_layer_layout().len() ==> op_sound(
                #[trigger] second_layer_layout()[i],
                SKIN_SIZE as nat,
                SKIN_SIZE as nat,
                TOTEM_SIZE as nat,
                TOTEM_SIZE as nat,
            ),
{
}

/// Builds the 16x16 totem of a 64x64 skin: a transparent canvas onto which
/// the base layout is applied, then the second layer if it is asked for.
/// A skin of any other size is refused.
pub fn build(skin: &Canvas, second_layer: bool) -> (r: Result<Canvas, LayoutError>)
    requires
        skin.wf(),
    ensures
        skin@.width != SKIN_SIZE || skin@.height != SKIN_SIZE ==> r == Err::<Canvas, LayoutError>(
            LayoutError::InvalidSkinDimensions,
        ),
        r matches Ok(c) ==> c@.width == TOTEM_SIZE && c@.height == TOTEM_SIZE,
        match build_spec(skin@, second_layer) {
            Ok(g) => r matches Ok(c) && c.wf() && c@ == g,
            Err(e) => r == Err::<Canvas, LayoutError>(e),
        },
{
    if skin.width() != SKIN_SIZE || skin.height() != SKIN_SIZE {
        return Err(LayoutError::InvalidSkinDimensions);
    }
    proof {
        lemma_layouts_sound();
        skin.lemma_view_wf();
    }
    let mut totem = Canvas::new(TOTEM_SIZE, TOTEM_SIZE);
    let ghost blank = totem@;
    if let Err(e) = apply_layout(&mut totem, skin, &base_layout_ops()) {
        return Err(LayoutError::Range(e));
    }
    if second_layer {
        proof {
            lemma_apply_sound(blank, skin@, base_layout());
        }
        if let Err(e) = apply_layout(&mut totem, skin, &second_layer_ops()) {
            return Err(LayoutError::Range(e));
        }
    }
    Ok(totem)
}

/// A 64x64 skin always gives a totem, with or without the second layer.
pub proof fn lemma_build_succeeds(skin: Grid, second_layer: bool)
    requires
        skin.wf(),
        skin.width == SKIN_SIZE,
        skin.height == SKIN_SIZE,
    ensures
        build_spec(skin, second_layer) is Ok,
{
    let blank = blank_grid(TOTEM_SIZE as nat, TOTEM_SIZE as nat);
    lemma_layouts_sound();
    lemma_apply_sound(blank, skin, base_layout());
    lemma_apply_sound(apply_ops(blank, skin, base_layout())->Ok_0, skin, second_layer_layout());
}

/// Without the second layer, every totem pixel that no base step writes
/// stays transparent; among them are the pixels that only second-layer
/// steps would write.
pub proof fn lemma_untargeted_stays_transparent(skin: Grid, x: int, y: int)
    requires
        skin.wf(),
        skin.width == SKIN_SIZE,
        skin.height == SKIN_SIZE,
        0 <= x < TOTEM_SIZE,
        0 <= y < TOTEM_SIZE,
        !layout_targets(base_layout(), x, y),
    ensures
        build_spec(skin, false) matches Ok(g) && g.at(x, y) == TRANSPARENT,
{
    let blank = blank_grid(TOTEM_SIZE as nat, TOTEM_SIZE as nat);
    lemma_layouts_sound();
    lemma_apply_sound(blank, skin, base_layout());
    assert(apply_ops(blank, skin, base_layout())->Ok_0.at(x, y) == blank.at(x, y));
}

/// Once no remaining step writes the pixel `(x, y)`, its color is the one
/// left by the steps before.
proof fn lemma_apply_suffix_untouched(g: Grid, skin: Grid, ops: Seq<LayoutOp>, i: int, x: int, y: int)
    requires
        g.wf(),
        skin.wf(),
        g.contains(x, y),
        0 <= i <= ops.len(),
        forall|j: int|
            0 <= j < ops.len() ==> op_sound(#[trigger] ops[j], skin.width, skin.height, g.width, g.height),
        forall|j: int| i <= j < ops.len() ==> !op_targets(#[trigger] ops[j], x, y),
    ensures
        apply_ops(g, skin, ops.take(i)) is Ok,
        apply_ops(g, skin, ops) is Ok,
        apply_ops(g, skin, ops)->Ok_0.at(x, y) == apply_ops(g, skin, ops.take(i))->Ok_0.at(x, y),
    decreases ops.len(),
{
    if i == ops.len() {
        assert(ops.take(i) =~= ops);
        lemma_apply_sound(g, skin, ops);
    } else {
        let prefix = ops.drop_last();
        assert forall|j: int| 0 <= j < prefix.len() implies op_sound(
            #[trigger] prefix[j],
            skin.width,
            skin.height,
            g.width,
            g.height,
        ) by {
            assert(prefix[j] == ops[j]);
        }
        assert forall|j: int| i <= j < prefix.len() implies !op_targets(#[trigger] prefix[j], x, y) by {
            assert(prefix[j] == ops[j]);
        }
        lemma_apply_suffix_untouched(g, skin, prefix, i, x, y);
        assert(prefix.take(i) =~= ops.take(i));
        lemma_apply_sound(g, skin, prefix);
        lemma_apply_sound(g, skin, ops);
        assert(op_sound(ops[ops.len() - 1], skin.width, skin.height, g.width, g.height));
        assert(!op_targets(ops[ops.len() - 1], x, y));
    }
}

/// Whether `(x, y)` lies on the head's front face on the totem, apart from
/// its two cleared top corners.
pub open spec fn in_head_front(x: int, y: int) -> bool {
    &&& 4 <= x < 12
    &&& 1 <= y < 9
    &&& !(y == 1 && (x == 4 || x == 11))
}

/// Without the second layer, every pixel of the head's front face but the
/// two cleared corners is the skin's head-front pixel it comes from, as it
/// was: the totem starts transparent and no later step writes there.
pub proof fn lemma_head_front_copied(skin: Grid, x: int, y: int)
    requires
        skin.wf(),
        skin.width == SKIN_SIZE,
        skin.height == SKIN_SIZE,
        in_head_front(x, y),
    ensures
        build_spec(skin, false) matches Ok(g) && g.at(x, y) == skin.at(x + 4, y + 7),
        build_spec(skin, false) matches Ok(g) && g.wf() && g.width == TOTEM_SIZE && g.height
            == TOTEM_SIZE,
{
    let blank = blank_grid(TOTEM_SIZE as nat, TOTEM_SIZE as nat);
    let ops = base_layout();
    lemma_layouts_sound();
    assert forall|j: int| 1 <= j < ops.len() implies !op_targets(#[trigger] ops[j], x, y) by {}
    lemma_apply_suffix_untouched(blank, skin, ops, 1, x, y);
    lemma_apply_sound(blank, skin, ops);
    let first = ops.take(1);
    assert(first.drop_last() =~= Seq::<LayoutOp>::empty());
    assert(apply_ops(blank, skin, first.drop_last()) == Ok::<Grid, RangeError>(blank));
    assert(first.last() == blit_entry(8, 8, 8, 8, 4, 1));
    assert(apply_ops(blank, skin, first) == blit_spec(
        blank,
        skin,
        Point { x: 8, y: 8 },
        Point { x: 8, y: 8 },
        Point { x: 4, y: 1 },
    ));
    assert(blank.at(x, y) == TRANSPARENT);
}

/// Whether some base step writes the totem pixel `(x, y)`: the head and
/// body block, the legs, and the two arms.
pub open spec fn in_base_footprint(x: int, y: int) -> bool {
    ||| 4 <= x < 12 && 1 <= y < 13
    ||| 5 <= x < 11 && 13 <= y < 15
    ||| 6 <= x < 10 && y == 15
    ||| (x == 1 || x == 14) && 8 <= y < 10
    ||| (x == 2 || x == 3 || x == 12 || x == 13) && 8 <= y < 11
}

/// Every pixel that a base step or a second-layer step writes lies in the
/// base footprint: the second layer writes no pixel of its own.
pub proof fn lemma_layout_footprints(x: int, y: int)
    ensures
        layout_targets(base_layout(), x, y) ==> in_base_footprint(x, y),
        layout_targets(second_layer_layout(), x, y) ==> in_base_footprint(x, y),
{
    if layout_targets(base_layout(), x, y) {
        let i = choose|i: int| 0 <= i < base_layout().len() && op_targets(#[trigger] base_layout()[i], x, y);
        assert(in_base_footprint(x, y));
    }
    if layout_targets(second_layer_layout(), x, y) {
        let i = choose|i: int|
            0 <= i < second_layer_layout().len() && op_targets(#[trigger] second_layer_layout()[i], x, y);
        assert(in_base_footprint(x, y));
    }
}

/// Without the second layer, every totem pixel outside the base footprint
/// stays transparent.
pub proof fn lemma_outside_footprint_transparent(skin: Grid, x: int, y: int)
    requires
        skin.wf(),
        skin.width == SKIN_SIZE,
        skin.height == SKIN_SIZE,
        0 <= x < TOTEM_SIZE,
        0 <= y < TOTEM_SIZE,
        !in_base_footprint(x, y),
    ensures
        build_spec(skin, false) matches Ok(g) && g.at(x, y) == TRANSPARENT,
{
    lemma_layout_footprints(x, y);
    lemma_untargeted_stays_transparent(skin, x, y);
}

} // verus!
