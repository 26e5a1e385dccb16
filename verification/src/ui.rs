//! Immediate-mode layout engine.
//!
//! Calling code describes nested horizontal/vertical groupings of widgets
//! once per frame.  The engine keeps a stack of open layout frames, computes
//! every widget's grid position from that nesting, records each paint request
//! as plain data in call order, and arbitrates a single pending keystroke
//! between the edit widget and the surrounding application.
//!
//! Every operation is specified against a mathematical image of the engine
//! ([`UiModel`], over unbounded integers) through a transition function
//! (`ui_begin`, `ui_label`, ...), so that laws about whole call sequences can
//! be stated and proved in one place.

use vstd::prelude::*;

verus! {

/// Color pair for ordinary text.
pub const REGULAR_PAIR: i16 = 0;

/// Color pair for highlighted text (selected item, cursor).
pub const HIGHLIGHT_PAIR: i16 = 10;

/// Key code of the left-arrow key as the rendering backend reports it.
pub const KEY_LEFT: i32 = 260;

/// Key code of the right-arrow key as the rendering backend reports it.
pub const KEY_RIGHT: i32 = 261;

/// Key code of the backspace key as the rendering backend reports it.
pub const KEY_BACKSPACE: i32 = 263;

/// Key code of the delete-character key as the rendering backend reports it.
pub const KEY_DC: i32 = 330;

/// Holds exactly when `v` fits in an `i32`.
pub open spec fn in_i32(v: int) -> bool {
    i32::MIN <= v <= i32::MAX
}

/// Two-dimensional integer vector for grid positions and sizes.
#[derive(Default, Copy, Clone)]
pub struct Vec2 {
    pub x: i32,
    pub y: i32,
}

impl View for Vec2 {
    type V = (int, int);

    open spec fn view(&self) -> (int, int) {
        (self.x as int, self.y as int)
    }
}

impl Vec2 {
    pub fn new(x: i32, y: i32) -> (r: Vec2)
        ensures
            r@ == (x as int, y as int),
    {
        Vec2 { x, y }
    }

    /// Component-wise sum.
    pub fn add(self, rhs: Vec2) -> (r: Vec2)
        requires
            in_i32(self@.0 + rhs@.0),
            in_i32(self@.1 + rhs@.1),
        ensures
            r@ == (self@.0 + rhs@.0, self@.1 + rhs@.1),
    {
        Vec2 { x: self.x + rhs.x, y: self.y + rhs.y }
    }

    /// Component-wise product.
    pub fn mul(self, rhs: Vec2) -> (r: Vec2)
        requires
            in_i32(self@.0 * rhs@.0),
            in_i32(self@.1 * rhs@.1),
        ensures
            r@ == (self@.0 * rhs@.0, self@.1 * rhs@.1),
    {
        Vec2 { x: self.x * rhs.x, y: self.y * rhs.y }
    }
}

/// Stacking direction of a layout frame.
#[derive(Copy, Clone, PartialEq, Eq, Structural)]
pub enum LayoutKind {
    Vert,
    Horz,
}

/// One open layout frame: its stacking direction, its origin on the grid,
/// and the size accumulated so far as children are added.
pub struct Layout {
    pub kind: LayoutKind,
    pub pos: Vec2,
    pub size: Vec2,
}

/// Mathematical image of a layout frame, over unbounded integers.
#[verifier::ext_equal]
pub struct LayoutModel {
    pub kind: LayoutKind,
    pub pos: (int, int),
    pub size: (int, int),
}

impl View for Layout {
    type V = LayoutModel;

    open spec fn view(&self) -> LayoutModel {
        LayoutModel { kind: self.kind, pos: self.pos@, size: self.size@ }
    }
}

/// The position the next child of `l` will be drawn at: the origin offset by
/// the accumulated size projected onto the stacking axis.
pub open spec fn avail_of(l: LayoutModel) -> (int, int) {
    match l.kind {
        LayoutKind::Horz => (l.pos.0 + l.size.0, l.pos.1),
        LayoutKind::Vert => (l.pos.0, l.pos.1 + l.size.1),
    }
}

/// `l` after a child of size `w` is folded in: the frame grows along its
/// stacking axis by the child's extent there, and the cross axis becomes the
/// tightest bound containing all children.
pub open spec fn widened(l: LayoutModel, w: (int, int)) -> LayoutModel {
    match l.kind {
        LayoutKind::Horz => LayoutModel {
            size: (l.size.0 + w.0, vstd::math::max(l.size.1, w.1)),
            ..l
        },
        LayoutKind::Vert => LayoutModel {
            size: (vstd::math::max(l.size.0, w.0), l.size.1 + w.1),
            ..l
        },
    }
}

/// Both components of the next available position of `l` fit in an `i32`.
pub open spec fn avail_fits(l: LayoutModel) -> bool {
    in_i32(avail_of(l).0) && in_i32(avail_of(l).1)
}

/// The accumulated size of `l` still fits in `i32` after a child of size `w`
/// is folded in along the stacking axis.
pub open spec fn widen_fits(l: LayoutModel, w: (int, int)) -> bool {
    match l.kind {
        LayoutKind::Horz => in_i32(l.size.0 + w.0),
        LayoutKind::Vert => in_i32(l.size.1 + w.1),
    }
}

impl Layout {
    /// Where the next widget of this frame will be drawn.  Recomputed from
    /// the current accumulated size on every call, never cached.
    pub fn available_pos(&self) -> (r: Vec2)
        requires
            avail_fits(self@),
        ensures
            r@ == avail_of(self@),
    {
        match self.kind {
            LayoutKind::Horz => self.pos.add(self.size.mul(Vec2::new(1, 0))),
            LayoutKind::Vert => self.pos.add(self.size.mul(Vec2::new(0, 1))),
        }
    }

    /// Fold a child of extent `size` into this frame.
    pub fn add_widget(&mut self, size: Vec2)
        requires
            widen_fits(old(self)@, size@),
        ensures
            final(self)@ == widened(old(self)@, size@),
    {
        match self.kind {
            LayoutKind::Horz => {
                self.size.x = self.size.x + size.x;
                self.size.y = if self.size.y >= size.y {
                    self.size.y
                } else {
                    size.y
                };
            }
            LayoutKind::Vert => {
                self.size.x = if self.size.x >= size.x {
                    self.size.x
                } else {
                    size.x
                };
                self.size.y = self.size.y + size.y;
            }
        }
    }
}

/// One recorded paint request: draw `text` at grid position `pos` with
/// color pair `pair`.  The rendering backend replays these after the frame
/// is closed; the engine itself never touches the screen.
pub struct DrawCmd {
    pub pos: Vec2,
    pub text: Vec<char>,
    pub pair: i16,
}

/// Mathematical image of a paint request.
#[verifier::ext_equal]
pub struct DrawCmdModel {
    pub pos: (int, int),
    pub text: Seq<char>,
    pub pair: int,
}

impl View for DrawCmd {
    type V = DrawCmdModel;

    open spec fn view(&self) -> DrawCmdModel {
        DrawCmdModel { pos: self.pos@, text: self.text@, pair: self.pair as int }
    }
}

/// The layout engine: a stack of open layout frames, the single pending
/// keystroke of the current frame, and the paint requests recorded so far.
pub struct Ui {
    pub layouts: Vec<Layout>,
    pub key: Option<i32>,
    pub cmds: Vec<DrawCmd>,
}

/// Mathematical image of the engine state.
#[verifier::ext_equal]
pub struct UiModel {
    pub layouts: Seq<LayoutModel>,
    pub key: Option<i32>,
    pub cmds: Seq<DrawCmdModel>,
}

impl View for Ui {
    type V = UiModel;

    open spec fn view(&self) -> UiModel {
        UiModel {
            layouts: self.layouts@.map_values(|l: Layout| l@),
            key: self.key,
            cmds: self.cmds@.map_values(|c: DrawCmd| c@),
        }
    }
}

/// Opening the root frame: one frame of zero size on the stack, the paint
/// record of the previous frame discarded, the pending key kept.
pub open spec fn ui_begin(m: UiModel, pos: (int, int), kind: LayoutKind) -> UiModel {
    UiModel {
        layouts: seq![LayoutModel { kind, pos, size: (0int, 0int) }],
        key: m.key,
        cmds: Seq::empty(),
    }
}

/// Opening a nested frame: its origin is wherever the parent's flow has
/// currently reached, not an absolute coordinate.
pub open spec fn ui_begin_layout(m: UiModel, kind: LayoutKind) -> UiModel
    recommends
        m.layouts.len() >= 1,
{
    UiModel {
        layouts: m.layouts.push(
            LayoutModel { kind, pos: avail_of(m.layouts.last()), size: (0int, 0int) },
        ),
        ..m
    }
}

/// Closing a nested frame: the child is popped and its final size is folded
/// into its parent, so a parent's size reflects all descendants.
pub open spec fn ui_end_layout(m: UiModel) -> UiModel
    recommends
        m.layouts.len() >= 2,
{
    let child = m.layouts.last();
    let parent = m.layouts[m.layouts.len() - 2];
    UiModel {
        layouts: m.layouts.take(m.layouts.len() - 2).push(widened(parent, child.size)),
        ..m
    }
}

/// Closing the root frame: popped without folding, there is no parent.
pub open spec fn ui_end(m: UiModel) -> UiModel
    recommends
        m.layouts.len() == 1,
{
    UiModel { layouts: m.layouts.drop_last(), ..m }
}

/// Rendering a label: one paint request at the current frame's available
/// position, and the frame advanced by `(width, 1)`.
pub open spec fn ui_label(m: UiModel, text: Seq<char>, width: int, pair: int) -> UiModel
    recommends
        m.layouts.len() >= 1,
{
    let top = m.layouts.last();
    UiModel {
        layouts: m.layouts.drop_last().push(widened(top, (width, 1))),
        key: m.key,
        cmds: m.cmds.push(DrawCmdModel { pos: avail_of(top), text, pair }),
    }
}

/// The cursor offset pulled back into the buffer: the edit widget clamps on
/// entry, so the two are mutually consistent whatever the caller passed.
pub open spec fn clamp_cursor(b: Seq<char>, c: nat) -> nat {
    if c > b.len() {
        b.len()
    } else {
        c
    }
}

/// Key codes of the visible ASCII range, which the edit widget inserts.
pub open spec fn printable(k: i32) -> bool {
    32 <= k <= 126
}

/// The character a printable key code stands for.
pub open spec fn key_to_char(k: i32) -> char {
    (k as u8) as char
}

/// One keystroke applied to an edit session `(buffer, cursor)` with the
/// cursor already clamped.  Yields the new buffer, the new cursor, and what
/// is left in the pending-key slot: a key matching no case is put back
/// unconsumed for the surrounding application to see.
pub open spec fn edit_key(b: Seq<char>, c: nat, k: i32) -> (Seq<char>, nat, Option<i32>)
    recommends
        c <= b.len(),
{
    if printable(k) {
        (b.insert(c as int, key_to_char(k)), (c + 1) as nat, None)
    } else if k == KEY_LEFT {
        (b, if c > 0 { (c - 1) as nat } else { 0nat }, None)
    } else if k == KEY_RIGHT {
        (b, if c < b.len() { (c + 1) as nat } else { c }, None)
    } else if k == KEY_BACKSPACE {
        if c > 0 {
            (b.remove(c - 1), (c - 1) as nat, None)
        } else {
            (b, c, None)
        }
    } else if k == KEY_DC {
        if c < b.len() {
            (b.remove(c as int), c, None)
        } else {
            (b, c, None)
        }
    } else {
        (b, c, Some(k))
    }
}

/// What the one-character cursor indicator shows: the character under the
/// cursor, or a blank at end-of-buffer.
pub open spec fn cursor_glyph(b: Seq<char>, c: nat) -> Seq<char> {
    if c < b.len() {
        seq![b[c as int]]
    } else {
        seq![' ']
    }
}

/// One call of the edit widget: clamp the cursor, consume the pending key if
/// it matches an edit case, paint the resulting buffer and the cursor
/// indicator, and advance the frame by `(width, 1)`.  Yields the new engine
/// state, buffer and cursor.
pub open spec fn ui_edit(m: UiModel, b: Seq<char>, c: nat, width: int) -> (
    UiModel,
    Seq<char>,
    nat,
)
    recommends
        m.layouts.len() >= 1,
{
    let top = m.layouts.last();
    let p = avail_of(top);
    let c0 = clamp_cursor(b, c);
    let (b1, c1, k1) = match m.key {
        Option::None => (b, c0, None),
        Option::Some(k) => edit_key(b, c0, k),
    };
    let m1 = UiModel {
        layouts: m.layouts.drop_last().push(widened(top, (width, 1))),
        key: k1,
        cmds: m.cmds.push(DrawCmdModel { pos: p, text: b1, pair: REGULAR_PAIR as int }).push(
            DrawCmdModel {
                pos: (p.0 + c1, p.1),
                text: cursor_glyph(b1, c1),
                pair: HIGHLIGHT_PAIR as int,
            },
        ),
    };
    (m1, b1, c1)
}

/// Collect the characters of a string slice, in order.
fn chars_of(text: &str) -> (r: Vec<char>)
    ensures
        r@ == text@,
{
    let n = text.unicode_len();
    let mut r: Vec<char> = Vec::new();
    let mut i: usize = 0;
    while i < n
        invariant
            i <= n,
            n == text@.len(),
            r@ == text@.subrange(0, i as int),
        decreases n - i,
    {
        r.push(text.get_char(i));
        proof {
            assert(r@ =~= text@.subrange(0, i + 1));
        }
        i = i + 1;
    }
    proof {
        assert(r@ =~= text@);
    }
    r
}

/// Copy a character buffer, so that a paint request can keep the text as it
/// stood when it was issued.
fn copy_chars(b: &Vec<char>) -> (r: Vec<char>)
    ensures
        r@ == b@,
{
    let n = b.len();
    let mut r: Vec<char> = Vec::new();
    let mut i: usize = 0;
    while i < n
        invariant
            i <= n,
            n == b@.len(),
            r@ == b@.subrange(0, i as int),
        decreases n - i,
    {
        r.push(b[i]);
        proof {
            assert(r@ =~= b@.subrange(0, i + 1));
        }
        i = i + 1;
    }
    proof {
        assert(r@ =~= b@);
    }
    r
}

impl Default for Ui {
    /// An idle engine: no open frame, no pending key, nothing painted.
    fn default() -> (r: Ui)
        ensures
            r@.layouts == Seq::<LayoutModel>::empty(),
            r@.key is None,
            r@.cmds == Seq::<DrawCmdModel>::empty(),
    {
        let r = Ui { layouts: Vec::new(), key: None, cmds: Vec::new() };
        proof {
            assert(r@.layouts =~= Seq::<LayoutModel>::empty());
            assert(r@.cmds =~= Seq::<DrawCmdModel>::empty());
        }
        r
    }
}

impl Ui {
    /// Open the root layout frame for this render frame.  Must only be
    /// called while no frame is open; the recorded paints of the previous
    /// frame are discarded.
    pub fn begin(&mut self, pos: Vec2, kind: LayoutKind)
        requires
            old(self).layouts@.len() == 0,
        ensures
            final(self)@ == ui_begin(old(self)@, pos@, kind),
    {
        self.cmds = Vec::new();
        self.layouts.push(Layout { kind, pos, size: Vec2::new(0, 0) });
        proof {
            assert(self@ =~~= ui_begin(old(self)@, pos@, kind));
        }
    }

    /// Open a nested layout frame at the current frame's available position.
    pub fn begin_layout(&mut self, kind: LayoutKind)
        requires
            old(self)@.layouts.len() >= 1,
            avail_fits(old(self)@.layouts.last()),
        ensures
            final(self)@ == ui_begin_layout(old(self)@, kind),
    {
        let n = self.layouts.len();
        let pos = self.layouts[n - 1].available_pos();
        self.layouts.push(Layout { kind, pos, size: Vec2::new(0, 0) });
        proof {
            assert(self@ =~~= ui_begin_layout(old(self)@, kind));
        }
    }

    /// Close the innermost nested layout frame and report its extent to its
    /// parent.
    pub fn end_layout(&mut self)
        requires
            old(self)@.layouts.len() >= 2,
            widen_fits(
                old(self)@.layouts[old(self)@.layouts.len() - 2],
                old(self)@.layouts.last().size,
            ),
        ensures
            final(self)@ == ui_end_layout(old(self)@),
    {
        let child = self.layouts.pop().unwrap();
        let mut parent = self.layouts.pop().unwrap();
        parent.add_widget(child.size);
        self.layouts.push(parent);
        proof {
            assert(self@ =~~= ui_end_layout(old(self)@));
        }
    }

    /// Render a one-row label whose horizontal footprint is the caller's
    /// declared `width`, independent of the text's actual length.  Text
    /// longer than `width` overdraws into neighbouring space; the engine
    /// does not elide it.
    pub fn label_fixed_width(&mut self, text: &str, width: i32, pair: i16)
        requires
            old(self)@.layouts.len() >= 1,
            avail_fits(old(self)@.layouts.last()),
            widen_fits(old(self)@.layouts.last(), (width as int, 1)),
        ensures
            final(self)@ == ui_label(old(self)@, text@, width as int, pair as int),
    {
        let n = self.layouts.len();
        let pos = self.layouts[n - 1].available_pos();
        let glyphs = chars_of(text);
        self.cmds.push(DrawCmd { pos, text: glyphs, pair });
        let mut top = self.layouts.pop().unwrap();
        top.add_widget(Vec2::new(width, 1));
        self.layouts.push(top);
        proof {
            assert(self@ =~~= ui_label(old(self)@, text@, width as int, pair as int));
        }
    }

    /// Render a label whose footprint is the text's own length.
    pub fn label(&mut self, text: &str, pair: i16)
        requires
            old(self)@.layouts.len() >= 1,
            avail_fits(old(self)@.layouts.last()),
            widen_fits(old(self)@.layouts.last(), (text@.len() as int, 1)),
            text@.len() <= i32::MAX,
        ensures
            final(self)@ == ui_label(old(self)@, text@, text@.len() as int, pair as int),
    {
        let width = text.unicode_len();
        self.label_fixed_width(text, width as i32, pair);
    }

    /// A single-line text box bound to caller-owned buffer and cursor,
    /// mutated in place.  The pending key is consumed if it matches an edit
    /// case (printable insert, cursor moves, the two deletions) and put back
    /// otherwise; the buffer and the cursor indicator are painted; the frame
    /// advances by `(width, 1)`.  Buffer and cursor are left mutually
    /// consistent whichever branch ran.
    pub fn edit_field(&mut self, buffer: &mut Vec<char>, cursor: &mut usize, width: i32)
        requires
            old(self)@.layouts.len() >= 1,
            avail_fits(old(self)@.layouts.last()),
            widen_fits(old(self)@.layouts.last(), (width as int, 1)),
            old(buffer)@.len() + 1 <= i32::MAX,
            avail_of(old(self)@.layouts.last()).0 + old(buffer)@.len() + 1 <= i32::MAX,
        ensures
            ({
                let (m1, b1, c1) = ui_edit(
                    old(self)@,
                    old(buffer)@,
                    *old(cursor) as nat,
                    width as int,
                );
                final(self)@ == m1 && final(buffer)@ == b1 && *final(cursor) == c1
            }),
    {
        let n = self.layouts.len();
        let pos = self.layouts[n - 1].available_pos();

        if *cursor > buffer.len() {
            *cursor = buffer.len();
        }

        if let Some(key) = self.key.take() {
            if 32 <= key && key <= 126 {
                if *cursor >= buffer.len() {
                    buffer.push(key as u8 as char);
                    proof {
                        assert(buffer@ =~= old(buffer)@.insert(
                            clamp_cursor(old(buffer)@, *old(cursor) as nat) as int,
                            key_to_char(key),
                        ));
                    }
                } else {
                    buffer.insert(*cursor, key as u8 as char);
                }
                *cursor = *cursor + 1;
            } else if key == KEY_LEFT {
                if *cursor > 0 {
                    *cursor = *cursor - 1;
                }
            } else if key == KEY_RIGHT {
                if *cursor < buffer.len() {
                    *cursor = *cursor + 1;
                }
            } else if key == KEY_BACKSPACE {
                if *cursor > 0 {
                    *cursor = *cursor - 1;
                    if *cursor < buffer.len() {
                        let _ = buffer.remove(*cursor);
                    }
                }
            } else if key == KEY_DC {
                if *cursor < buffer.len() {
                    let _ = buffer.remove(*cursor);
                }
            } else {
                self.key = Some(key);
            }
        }

        let shown = copy_chars(buffer);
        self.cmds.push(DrawCmd { pos, text: shown, pair: REGULAR_PAIR });
        let mut top = self.layouts.pop().unwrap();
        top.add_widget(Vec2::new(width, 1));
        self.layouts.push(top);

        let glyph = if *cursor < buffer.len() {
            buffer[*cursor]
        } else {
            ' '
        };
        let mut marker: Vec<char> = Vec::new();
        marker.push(glyph);
        self.cmds.push(
            DrawCmd { pos: Vec2::new(pos.x + (*cursor as i32), pos.y), text: marker, pair: HIGHLIGHT_PAIR },
        );
        proof {
            let (m1, b1, c1) = ui_edit(old(self)@, old(buffer)@, *old(cursor) as nat, width as int);
            assert(marker@ =~= cursor_glyph(b1, c1));
            assert(self@ =~~= m1);
        }
    }

    /// Close the root layout frame.  The stack must be exactly one deep:
    /// anything else is an unbalanced begin/end in the calling frame logic.
    pub fn end(&mut self)
        requires
            old(self)@.layouts.len() == 1,
        ensures
            final(self)@ == ui_end(old(self)@),
    {
        let root = self.layouts.pop();
        proof {
            assert(root is Some);
            assert(self@ =~~= ui_end(old(self)@));
        }
    }
}

} // verus!

