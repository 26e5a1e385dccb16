//! Laws of the layout engine, stated over its mathematical model.
//!
//! Each proof function here is a claim about whole call sequences or about
//! every input, proved once and for all from the transition functions that
//! the engine's contracts are written with.

use vstd::prelude::*;

use crate::ui::{
    LayoutKind, LayoutModel, UiModel, avail_of, key_to_char, printable, ui_begin,
    ui_begin_layout, ui_edit, ui_end, ui_end_layout, ui_label, widened, KEY_BACKSPACE, KEY_DC,
    KEY_LEFT, KEY_RIGHT,
};

verus! {

/// A frame after a whole sequence of children has been folded in, first to
/// last.
pub open spec fn widened_all(l: LayoutModel, ws: Seq<(int, int)>) -> LayoutModel
    decreases ws.len(),
{
    if ws.len() == 0 {
        l
    } else {
        widened(widened_all(l, ws.drop_last()), ws.last())
    }
}

/// The widths of a sequence of child sizes, added up.
pub open spec fn total_width(ws: Seq<(int, int)>) -> int
    decreases ws.len(),
{
    if ws.len() == 0 {
        0
    } else {
        total_width(ws.drop_last()) + ws.last().0
    }
}

/// Vertical flow: a vertical frame that started empty is, after one-row
/// children of widths w1..wn have been added, exactly n rows tall and as
/// wide as its widest child; its origin and direction never change.
pub proof fn lemma_vertical_accumulation(l: LayoutModel, ws: Seq<(int, int)>)
    requires
        l.kind == LayoutKind::Vert,
        l.size == (0int, 0int),
        ws.len() >= 1,
        forall|i: int| 0 <= i < ws.len() ==> (#[trigger] ws[i]).0 >= 0 && ws[i].1 == 1,
    ensures
        widened_all(l, ws).size.1 == ws.len(),
        exists|i: int| 0 <= i < ws.len() && widened_all(l, ws).size.0 == (#[trigger] ws[i]).0,
        forall|i: int| 0 <= i < ws.len() ==> (#[trigger] ws[i]).0 <= widened_all(l, ws).size.0,
        widened_all(l, ws).pos == l.pos,
        widened_all(l, ws).kind == l.kind,
    decreases ws.len(),
{
    assert(forall|i: int| 0 <= i < ws.len() - 1 ==> ws.drop_last()[i] == #[trigger] ws[i]);
    if ws.len() == 1 {
        assert(widened_all(l, ws) == widened(l, ws[0]));
        assert(widened_all(l, ws).size.0 == ws[0].0);
    } else {
        lemma_vertical_accumulation(l, ws.drop_last());
        let prev = widened_all(l, ws.drop_last());
        let last = ws.last();
        if last.0 >= prev.size.0 {
            assert(widened_all(l, ws).size.0 == ws[ws.len() - 1].0);
        } else {
            let j = choose|j: int|
                0 <= j < ws.drop_last().len() && prev.size.0 == (#[trigger] ws.drop_last()[j]).0;
            assert(widened_all(l, ws).size.0 == ws[j].0);
        }
    }
}

/// Horizontal flow: a horizontal frame that started empty is, after one-row
/// children of widths w1..wn have been added, exactly w1+...+wn wide and
/// one row tall; its origin and direction never change.
pub proof fn lemma_horizontal_accumulation(l: LayoutModel, ws: Seq<(int, int)>)
    requires
        l.kind == LayoutKind::Horz,
        l.size == (0int, 0int),
        ws.len() >= 1,
        forall|i: int| 0 <= i < ws.len() ==> (#[trigger] ws[i]).1 == 1,
    ensures
        widened_all(l, ws).size.0 == total_width(ws),
        widened_all(l, ws).size.1 == 1,
        widened_all(l, ws).pos == l.pos,
        widened_all(l, ws).kind == l.kind,
    decreases ws.len(),
{
    assert(forall|i: int| 0 <= i < ws.len() - 1 ==> ws.drop_last()[i] == #[trigger] ws[i]);
    if ws.len() == 1 {
        assert(widened_all(l, ws.drop_last()) == l);
        assert(total_width(ws.drop_last()) == 0);
        assert(widened_all(l, ws) == widened(l, ws[0]));
    } else {
        lemma_horizontal_accumulation(l, ws.drop_last());
        let prev = widened_all(l, ws.drop_last());
        assert(widened_all(l, ws) == widened(prev, ws.last()));
        assert(widened(prev, ws.last()).size.0 == prev.size.0 + ws.last().0);
        assert(total_width(ws) == total_width(ws.drop_last()) + ws.last().0);
    }
}

/// One step of the frame protocol between `begin` and `end`: opening a
/// nested layout, closing one, or emitting a fixed-width label.
pub enum UiOp {
    BeginLayout(LayoutKind),
    EndLayout,
    Label(Seq<char>, int, int),
}

/// What one step does to the engine.
pub open spec fn apply_op(m: UiModel, op: UiOp) -> UiModel {
    match op {
        UiOp::BeginLayout(kind) => ui_begin_layout(m, kind),
        UiOp::EndLayout => ui_end_layout(m),
        UiOp::Label(text, width, pair) => ui_label(m, text, width, pair),
    }
}

/// How one step changes the depth of the layout stack.
pub open spec fn depth_change(op: UiOp) -> int {
    match op {
        UiOp::BeginLayout(_) => 1,
        UiOp::EndLayout => -1,
        UiOp::Label(_, _, _) => 0,
    }
}

/// The steps are legal when started at stack depth `d`: nothing is emitted
/// outside an open frame, no close pops the root, and every label width is
/// non-negative.
pub open spec fn ops_wf(d: int, ops: Seq<UiOp>) -> bool
    decreases ops.len(),
{
    ops.len() == 0 || {
        let ok = match ops[0] {
            UiOp::BeginLayout(_) => d >= 1,
            UiOp::EndLayout => d >= 2,
            UiOp::Label(_, width, _) => d >= 1 && width >= 0,
        };
        ok && ops_wf(d + depth_change(ops[0]), ops.skip(1))
    }
}

/// The stack depth after all the steps, started at depth `d`.
pub open spec fn final_depth(d: int, ops: Seq<UiOp>) -> int
    decreases ops.len(),
{
    if ops.len() == 0 {
        d
    } else {
        final_depth(d + depth_change(ops[0]), ops.skip(1))
    }
}

/// The least stack depth reached while the steps run, started at depth `d`.
pub open spec fn min_depth(d: int, ops: Seq<UiOp>) -> int
    decreases ops.len(),
{
    if ops.len() == 0 {
        d
    } else {
        vstd::math::min(d, min_depth(d + depth_change(ops[0]), ops.skip(1)))
    }
}

/// The engine after all the steps.
pub open spec fn run_ops(m: UiModel, ops: Seq<UiOp>) -> UiModel
    decreases ops.len(),
{
    if ops.len() == 0 {
        m
    } else {
        run_ops(apply_op(m, ops[0]), ops.skip(1))
    }
}

/// Both coordinates are non-negative.
pub open spec fn nonneg2(v: (int, int)) -> bool {
    v.0 >= 0 && v.1 >= 0
}

/// Every open frame sits at a non-negative origin with a non-negative size,
/// and every recorded paint request sits at a non-negative position.
pub open spec fn positions_wf(m: UiModel) -> bool {
    (forall|i: int|
        0 <= i < m.layouts.len() ==> nonneg2((#[trigger] m.layouts[i]).pos) && nonneg2(
            m.layouts[i].size,
        )) && (forall|i: int| 0 <= i < m.cmds.len() ==> nonneg2((#[trigger] m.cmds[i]).pos))
}

/// One legal step keeps every position non-negative, moves the depth by the
/// step's depth change, extends the paint record without rewriting it, and
/// never moves a surviving frame's origin.
proof fn lemma_apply_op(m: UiModel, op: UiOp)
    requires
        positions_wf(m),
        match op {
            UiOp::BeginLayout(_) => m.layouts.len() >= 1,
            UiOp::EndLayout => m.layouts.len() >= 2,
            UiOp::Label(_, width, _) => m.layouts.len() >= 1 && width >= 0,
        },
    ensures
        positions_wf(apply_op(m, op)),
        apply_op(m, op).layouts.len() == m.layouts.len() + depth_change(op),
        apply_op(m, op).key == m.key,
        m.cmds.len() <= apply_op(m, op).cmds.len(),
        forall|i: int| 0 <= i < m.cmds.len() ==> apply_op(m, op).cmds[i] == m.cmds[i],
        forall|j: int|
            0 <= j < apply_op(m, op).layouts.len() && j < m.layouts.len()
                ==> (#[trigger] apply_op(m, op).layouts[j]).pos == m.layouts[j].pos,
{
    let r = apply_op(m, op);
    match op {
        UiOp::BeginLayout(kind) => {
            assert(nonneg2(avail_of(m.layouts.last())));
        }
        UiOp::EndLayout => {
            let parent = m.layouts[m.layouts.len() - 2];
            let child = m.layouts.last();
            assert(nonneg2(widened(parent, child.size).pos));
            assert(nonneg2(widened(parent, child.size).size));
        }
        UiOp::Label(text, width, pair) => {
            let top = m.layouts.last();
            assert(nonneg2(avail_of(top)));
            assert(nonneg2(widened(top, (width, 1)).size));
        }
    }
}

/// A legal run of steps keeps every position non-negative, lands at the
/// depth the steps add up to, keeps the pending key, only appends to the
/// paint record, and never moves the origin of a frame that stays open
/// throughout.
pub proof fn lemma_run_ops(m: UiModel, ops: Seq<UiOp>)
    requires
        positions_wf(m),
        ops_wf(m.layouts.len() as int, ops),
    ensures
        positions_wf(run_ops(m, ops)),
        run_ops(m, ops).layouts.len() == final_depth(m.layouts.len() as int, ops),
        run_ops(m, ops).key == m.key,
        m.cmds.len() <= run_ops(m, ops).cmds.len(),
        forall|i: int| 0 <= i < m.cmds.len() ==> run_ops(m, ops).cmds[i] == m.cmds[i],
        forall|j: int|
            0 <= j < m.layouts.len() && j < min_depth(m.layouts.len() as int, ops)
                ==> (#[trigger] run_ops(m, ops).layouts[j]).pos == m.layouts[j].pos,
    decreases ops.len(),
{
    if ops.len() == 0 {
    } else {
        let m2 = apply_op(m, ops[0]);
        let rest = ops.skip(1);
        lemma_apply_op(m, ops[0]);
        lemma_run_ops(m2, rest);
        assert forall|j: int|
            0 <= j < m.layouts.len() && j < min_depth(m.layouts.len() as int, ops) implies (
        #[trigger] run_ops(m, ops).layouts[j]).pos == m.layouts[j].pos by {
            assert(run_ops(m, ops) == run_ops(m2, rest));
            assert(j < min_depth(m2.layouts.len() as int, rest));
            assert(run_ops(m2, rest).layouts[j].pos == m2.layouts[j].pos);
            assert(m2.layouts[j].pos == m.layouts[j].pos);
        }
    }
}

/// Opening a root frame at a non-negative origin and then performing any
/// properly nested sequence of nested-layout openings and closings and
/// non-negative-width labels, closed back down to the root, leaves the
/// stack empty after `end`, and every paint request recorded on the way
/// sits at a non-negative position.
pub proof fn lemma_frame_protocol(m: UiModel, origin: (int, int), kind: LayoutKind, ops: Seq<UiOp>)
    requires
        nonneg2(origin),
        ops_wf(1, ops),
        final_depth(1, ops) == 1,
    ensures
        ({
            let done = ui_end(run_ops(ui_begin(m, origin, kind), ops));
            done.layouts.len() == 0 && (forall|i: int|
                0 <= i < done.cmds.len() ==> nonneg2((#[trigger] done.cmds[i]).pos))
        }),
{
    let started = ui_begin(m, origin, kind);
    assert(positions_wf(started));
    lemma_run_ops(started, ops);
}

/// A nested layout's origin is its parent's available position at the
/// moment it was opened, and stays there whatever is added afterwards while
/// it is open: later steps that never close it cannot move it.
pub proof fn lemma_nested_origin(m: UiModel, kind: LayoutKind, ops: Seq<UiOp>)
    requires
        positions_wf(m),
        m.layouts.len() >= 1,
        ops_wf(m.layouts.len() + 1int, ops),
        min_depth(m.layouts.len() + 1int, ops) >= m.layouts.len() + 1,
    ensures
        ui_begin_layout(m, kind).layouts.last().pos == avail_of(m.layouts.last()),
        run_ops(ui_begin_layout(m, kind), ops).layouts[m.layouts.len() as int].pos == avail_of(
            m.layouts.last(),
        ),
{
    let opened = ui_begin_layout(m, kind);
    assert(positions_wf(opened)) by {
        lemma_apply_op(m, UiOp::BeginLayout(kind));
    }
    lemma_run_ops(opened, ops);
}

/// Consuming a printable key grows the buffer by exactly one: the key's
/// character sits at the cursor's old offset, everything around it keeps
/// its order, the cursor moves one step right, and the key is consumed.
pub proof fn lemma_edit_insert(m: UiModel, b: Seq<char>, c: nat, width: int, k: i32)
    requires
        m.layouts.len() >= 1,
        c <= b.len(),
        m.key == Some(k),
        printable(k),
    ensures
        ({
            let (m1, b1, c1) = ui_edit(m, b, c, width);
            b1 == b.insert(c as int, key_to_char(k)) && b1.len() == b.len() + 1 && b1[c as int]
                == key_to_char(k) && c1 == c + 1 && m1.key is None
        }),
{
}

/// Deleting before the cursor when the cursor is at the very start leaves
/// buffer and cursor alone; the key is still consumed.
pub proof fn lemma_edit_backspace_at_start(m: UiModel, b: Seq<char>, width: int)
    requires
        m.layouts.len() >= 1,
        m.key == Some(KEY_BACKSPACE),
    ensures
        ({
            let (m1, b1, c1) = ui_edit(m, b, 0nat, width);
            b1 == b && c1 == 0 && m1.key is None
        }),
{
}

/// Deleting at the cursor when the cursor is at end-of-buffer leaves buffer
/// and cursor alone; the key is still consumed.
pub proof fn lemma_edit_delete_at_end(m: UiModel, b: Seq<char>, width: int)
    requires
        m.layouts.len() >= 1,
        m.key == Some(KEY_DC),
    ensures
        ({
            let (m1, b1, c1) = ui_edit(m, b, b.len(), width);
            b1 == b && c1 == b.len() && m1.key is None
        }),
{
}

/// A key that matches no edit-field case is put back in the pending slot
/// unchanged, still observable by the caller after the widget returns, and
/// buffer and cursor are untouched.
pub proof fn lemma_pending_key_returned(m: UiModel, b: Seq<char>, c: nat, width: int, k: i32)
    requires
        m.layouts.len() >= 1,
        c <= b.len(),
        m.key == Some(k),
        !printable(k),
        k != KEY_LEFT,
        k != KEY_RIGHT,
        k != KEY_BACKSPACE,
        k != KEY_DC,
    ensures
        ({
            let (m1, b1, c1) = ui_edit(m, b, c, width);
            m1.key == Some(k) && b1 == b && c1 == c
        }),
{
}

} // verus!

