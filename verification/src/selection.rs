use vstd::prelude::*;

verus! {

/// The 16-bit word `w` (0 ..= 0xFFFF) read as a signed two's-complement value.
pub open spec fn sign_extend16(w: int) -> int {
    if w >= 0x8000 {
        w - 0x10000
    } else {
        w
    }
}

/// The x coordinate packed in the low word of a mouse message's `lparam`.
pub fn loword(l: isize) -> (r: i32)
    ensures
        r == sign_extend16((l & 0xFFFF) as int),
{
    let w = l & 0xFFFF;
    assert(0 <= w <= 0xFFFF) by (bit_vector)
        requires
            w == l & 0xFFFF,
    ;
    let v = w as i32;
    if v >= 0x8000 {
        v - 0x10000
    } else {
        v
    }
}

/// The y coordinate packed in the high word of a mouse message's `lparam`.
pub fn hiword(l: isize) -> (r: i32)
    ensures
        r == sign_extend16(((l >> 16) & 0xFFFF) as int),
{
    let w = (l >> 16) & 0xFFFF;
    assert(0 <= w <= 0xFFFF) by (bit_vector)
        requires
            w == (l >> 16) & 0xFFFF,
    ;
    let v = w as i32;
    if v >= 0x8000 {
        v - 0x10000
    } else {
        v
    }
}


/// A selected screen region, in pixels, as the overlay hands it back.
pub struct SelectionRect {
    pub x: u32,
    pub y: u32,
    pub w: u32,
    pub h: u32,
}

/// What the overlay knows of the mouse drag: whether a drag is in progress,
/// where it started, where the pointer is now, and whether a release has
/// confirmed the selection.
#[derive(Clone, Copy, Debug, PartialEq, Eq)]
pub struct DragState {
    pub dragging: bool,
    pub start_x: i32,
    pub start_y: i32,
    pub cur_x: i32,
    pub cur_y: i32,
    pub confirmed: bool,
}

/// Window message numbers the overlay reacts to.
pub const WM_PAINT: u32 = 0x000F;
pub const WM_ERASEBKGND: u32 = 0x0014;
pub const WM_KEYDOWN: u32 = 0x0100;
pub const WM_MOUSEMOVE: u32 = 0x0200;
pub const WM_LBUTTONDOWN: u32 = 0x0201;
pub const WM_LBUTTONUP: u32 = 0x0202;
pub const WM_RBUTTONDOWN: u32 = 0x0204;
/// Virtual-key code of the Esc key.
pub const VK_ESCAPE: usize = 0x1B;

/// What the window procedure has to do after the state was updated.
#[derive(Clone, Copy, Debug, PartialEq, Eq)]
pub enum OverlayAction {
    /// Report the background as erased (the procedure returns 1).
    SkipErase,
    /// Repaint the window from the current state (see `highlight_rect`).
    Paint,
    /// Capture the mouse for the drag that just began.
    BeginCapture,
    /// Invalidate the window so that the selection is redrawn.
    Redraw,
    /// Release the mouse and leave the overlay's message loop.
    Finish,
    /// The message is handled and nothing more is to be done.
    Ignore,
    /// Hand the message to the default window procedure.
    DefaultHandling,
}

impl DragState {
    /// The state before any mouse input.
    pub open spec fn spec_idle() -> DragState {
        DragState { dragging: false, start_x: 0, start_y: 0, cur_x: 0, cur_y: 0, confirmed: false }
    }

    pub fn idle() -> (s: DragState)
        ensures
            s == DragState::spec_idle(),
    {
        DragState { dragging: false, start_x: 0, start_y: 0, cur_x: 0, cur_y: 0, confirmed: false }
    }
}

/// The transition of the overlay on one window message: the next drag
/// state and the action that the window procedure performs.
pub open spec fn overlay_transition(s: DragState, msg: u32, wparam: usize, lparam: isize) -> (
    DragState,
    OverlayAction,
) {
    let x = sign_extend16((lparam & 0xFFFF) as int) as i32;
    let y = sign_extend16(((lparam >> 16) & 0xFFFF) as int) as i32;
    if msg == WM_ERASEBKGND {
        (s, OverlayAction::SkipErase)
    } else if msg == WM_PAINT {
        (s, OverlayAction::Paint)
    } else if msg == WM_LBUTTONDOWN {
        (
            DragState { dragging: true, start_x: x, start_y: y, cur_x: x, cur_y: y, ..s },
            OverlayAction::BeginCapture,
        )
    } else if msg == WM_MOUSEMOVE {
        if s.dragging {
            (DragState { cur_x: x, cur_y: y, ..s }, OverlayAction::Redraw)
        } else {
            (s, OverlayAction::Ignore)
        }
    } else if msg == WM_LBUTTONUP {
        if s.dragging {
            (
                DragState { dragging: false, cur_x: x, cur_y: y, confirmed: true, ..s },
                OverlayAction::Finish,
            )
        } else {
            (s, OverlayAction::Ignore)
        }
    } else if msg == WM_RBUTTONDOWN {
        (s, OverlayAction::Finish)
    } else if msg == WM_KEYDOWN {
        if wparam == VK_ESCAPE {
            (s, OverlayAction::Finish)
        } else {
            (s, OverlayAction::Ignore)
        }
    } else {
        (s, OverlayAction::DefaultHandling)
    }
}

/// Decides one window message of the selection overlay: a left press starts
/// a drag at the pointer, moves extend it, a left release confirms it and
/// ends the overlay, a right press or Esc ends the overlay without
/// confirming anything.
pub fn overlay_step(s: DragState, msg: u32, wparam: usize, lparam: isize) -> (r: (
    DragState,
    OverlayAction,
))
    ensures
        r == overlay_transition(s, msg, wparam, lparam),
        (msg == WM_PAINT || msg == WM_ERASEBKGND) ==> r.0 == s,
{
    if msg == WM_ERASEBKGND {
        (s, OverlayAction::SkipErase)
    } else if msg == WM_PAINT {
        (s, OverlayAction::Paint)
    } else if msg == WM_LBUTTONDOWN {
        let x = loword(lparam);
        let y = hiword(lparam);
        (
            DragState { dragging: true, start_x: x, start_y: y, cur_x: x, cur_y: y, ..s },
            OverlayAction::BeginCapture,
        )
    } else if msg == WM_MOUSEMOVE {
        if s.dragging {
            let x = loword(lparam);
            let y = hiword(lparam);
            (DragState { cur_x: x, cur_y: y, ..s }, OverlayAction::Redraw)
        } else {
            (s, OverlayAction::Ignore)
        }
    } else if msg == WM_LBUTTONUP {
        if s.dragging {
            let x = loword(lparam);
            let y = hiword(lparam);
            (
                DragState { dragging: false, cur_x: x, cur_y: y, confirmed: true, ..s },
                OverlayAction::Finish,
            )
        } else {
            (s, OverlayAction::Ignore)
        }
    } else if msg == WM_RBUTTONDOWN {
        (s, OverlayAction::Finish)
    } else if msg == WM_KEYDOWN {
        if wparam == VK_ESCAPE {
            (s, OverlayAction::Finish)
        } else {
            (s, OverlayAction::Ignore)
        }
    } else {
        (s, OverlayAction::DefaultHandling)
    }
}


/// The screen rectangle spanned by the drag, corners ordered, in window
/// coordinates: `left <= right` and `top <= bottom`.
#[derive(Clone, Copy, Debug, PartialEq, Eq)]
pub struct HighlightRect {
    pub left: i32,
    pub top: i32,
    pub right: i32,
    pub bottom: i32,
}

pub open spec fn min_i32(a: i32, b: i32) -> i32 {
    if a <= b {
        a
    } else {
        b
    }
}

pub open spec fn max_i32(a: i32, b: i32) -> i32 {
    if a >= b {
        a
    } else {
        b
    }
}

/// The part of the overlay that is drawn bright with a border: present while
/// a drag is in progress or confirmed and the spanned area is not empty.
pub open spec fn spec_highlight(s: DragState) -> Option<HighlightRect> {
    let l = min_i32(s.start_x, s.cur_x);
    let t = min_i32(s.start_y, s.cur_y);
    let r = max_i32(s.start_x, s.cur_x);
    let b = max_i32(s.start_y, s.cur_y);
    if (s.dragging || s.confirmed) && r > l && b > t {
        Some(HighlightRect { left: l, top: t, right: r, bottom: b })
    } else {
        None
    }
}

fn min_of(a: i32, b: i32) -> (r: i32)
    ensures
        r == min_i32(a, b),
{
    if a <= b {
        a
    } else {
        b
    }
}

fn max_of(a: i32, b: i32) -> (r: i32)
    ensures
        r == max_i32(a, b),
{
    if a >= b {
        a
    } else {
        b
    }
}

/// What a repaint of the overlay draws over the dimmed screenshot.
pub fn highlight_rect(s: &DragState) -> (r: Option<HighlightRect>)
    ensures
        r == spec_highlight(*s),
        r is Some <==> ((s.dragging || s.confirmed) && s.start_x != s.cur_x && s.start_y
            != s.cur_y),
{
    let l = min_of(s.start_x, s.cur_x);
    let t = min_of(s.start_y, s.cur_y);
    let r = max_of(s.start_x, s.cur_x);
    let b = max_of(s.start_y, s.cur_y);
    if (s.dragging || s.confirmed) && r > l && b > t {
        Some(HighlightRect { left: l, top: t, right: r, bottom: b })
    } else {
        None
    }
}

/// `v` read as the unsigned 32-bit word with the same bits.
pub open spec fn bits_as_u32(v: int) -> int {
    if v < 0 {
        v + 0x1_0000_0000
    } else {
        v
    }
}

/// `v` (a 32-bit unsigned value) read as the signed 32-bit word with the same bits.
pub open spec fn bits_as_i32(v: int) -> int {
    if v > 0x7FFF_FFFF {
        v - 0x1_0000_0000
    } else {
        v
    }
}

fn u32_bits_of(v: i32) -> (r: u32)
    ensures
        r == bits_as_u32(v as int),
{
    if v < 0 {
        (v as i64 + 0x1_0000_0000i64) as u32
    } else {
        v as u32
    }
}

fn i32_bits_of(v: u32) -> (r: i32)
    ensures
        r == bits_as_i32(v as int),
{
    if v > 0x7FFF_FFFF {
        (v as i64 - 0x1_0000_0000i64) as i32
    } else {
        v as i32
    }
}

/// The region that the overlay reports once its message loop has ended, on
/// a screen of `width` by `height` pixels. The drag's corners are ordered,
/// the near corner is held at 0 and the far corner at the screen's size, and
/// a region of 2 pixels or less in either direction counts as no selection.
pub open spec fn spec_selection(s: DragState, width: u32, height: u32) -> Option<SelectionRect> {
    let w = bits_as_i32(width as int) as i32;
    let h = bits_as_i32(height as int) as i32;
    let x1 = max_i32(min_i32(s.start_x, s.cur_x), 0);
    let y1 = max_i32(min_i32(s.start_y, s.cur_y), 0);
    let x2 = bits_as_u32(min_i32(max_i32(s.start_x, s.cur_x), w) as int);
    let y2 = bits_as_u32(min_i32(max_i32(s.start_y, s.cur_y), h) as int);
    if s.confirmed && x2 > x1 + 2 && y2 > y1 + 2 {
        Some(SelectionRect { x: x1 as u32, y: y1 as u32, w: (x2 - x1) as u32, h: (y2 - y1) as u32 })
    } else {
        None
    }
}

/// The selection that the overlay hands back from the final drag state.
pub fn selection_rect(s: &DragState, width: u32, height: u32) -> (r: Option<SelectionRect>)
    ensures
        r == spec_selection(*s, width, height),
{
    if !s.confirmed {
        return None;
    }
    let w = i32_bits_of(width);
    let h = i32_bits_of(height);
    let x1 = max_of(min_of(s.start_x, s.cur_x), 0) as u32;
    let y1 = max_of(min_of(s.start_y, s.cur_y), 0) as u32;
    let x2 = u32_bits_of(min_of(max_of(s.start_x, s.cur_x), w));
    let y2 = u32_bits_of(min_of(max_of(s.start_y, s.cur_y), h));
    if x2 > x1 + 2 && y2 > y1 + 2 {
        Some(SelectionRect { x: x1, y: y1, w: x2 - x1, h: y2 - y1 })
    } else {
        None
    }
}


/// The `lparam` of a mouse message for the point (`x`, `y`): the x
/// coordinate's 16 bits in the low word, the y coordinate's in the high word.
pub open spec fn pack_point(x: i16, y: i16) -> isize {
    ((((y as u16) as u32) << 16u32) | ((x as u16) as u32)) as isize
}

/// Law: the words that `loword` and `hiword` read give back the point that
/// was packed into a mouse message, negative coordinates included.
pub proof fn lemma_point_roundtrip(x: i16, y: i16)
    ensures
        sign_extend16((pack_point(x, y) & 0xFFFF) as int) == x as int,
        sign_extend16(((pack_point(x, y) >> 16) & 0xFFFF) as int) == y as int,
{
    let p = pack_point(x, y);
    assert(p & 0xFFFF == ((x as u16) as isize)) by (bit_vector)
        requires
            p == ((((y as u16) as u32) << 16u32) | ((x as u16) as u32)) as isize,
    ;
    assert((p >> 16) & 0xFFFF == ((y as u16) as isize)) by (bit_vector)
        requires
            p == ((((y as u16) as u32) << 16u32) | ((x as u16) as u32)) as isize,
    ;
    assert(x < 0 ==> (x as u16) as int == x + 0x10000) by (bit_vector);
    assert(x >= 0 ==> (x as u16) as int == x) by (bit_vector);
    assert(y < 0 ==> (y as u16) as int == y + 0x10000) by (bit_vector);
    assert(y >= 0 ==> (y as u16) as int == y) by (bit_vector);
}


/// The pointer position that a mouse message's `lparam` carries.
pub open spec fn message_x(lparam: isize) -> i32 {
    sign_extend16((lparam & 0xFFFF) as int) as i32
}

pub open spec fn message_y(lparam: isize) -> i32 {
    sign_extend16(((lparam >> 16) & 0xFFFF) as int) as i32
}

/// The drag state after the overlay has handled `msgs` in order, each a
/// window message with its `wparam` and `lparam`.
pub open spec fn run_messages(s: DragState, msgs: Seq<(u32, usize, isize)>) -> DragState
    decreases msgs.len(),
{
    if msgs.len() == 0 {
        s
    } else {
        run_messages(overlay_transition(s, msgs[0].0, msgs[0].1, msgs[0].2).0, msgs.drop_first())
    }
}

/// Messages that may arrive while the mouse is dragged: pointer moves and
/// the repaints they cause.
pub open spec fn is_drag_message(msg: u32) -> bool {
    msg == WM_MOUSEMOVE || msg == WM_PAINT || msg == WM_ERASEBKGND
}

/// Pointer moves and repaints during a drag keep the drag going and keep its anchor.
proof fn lemma_moves_preserve_drag(s: DragState, moves: Seq<(u32, usize, isize)>)
    requires
        s.dragging,
        forall|i: int| 0 <= i < moves.len() ==> is_drag_message((#[trigger] moves[i]).0),
    ensures
        run_messages(s, moves).dragging,
        run_messages(s, moves).start_x == s.start_x,
        run_messages(s, moves).start_y == s.start_y,
    decreases moves.len(),
{
    if moves.len() > 0 {
        let next = overlay_transition(s, moves[0].0, moves[0].1, moves[0].2).0;
        let rest = moves.drop_first();
        assert forall|i: int| 0 <= i < rest.len() implies is_drag_message((#[trigger] rest[i]).0) by {
            assert(rest[i] == moves[i + 1]);
        }
        lemma_moves_preserve_drag(next, rest);
    }
}

/// Law: a left press at `p1`, any mix of pointer moves and repaints, and a
/// left release at `p2` confirm the drag from `p1` to `p2` and end the overlay.
pub proof fn lemma_press_move_release(
    s: DragState,
    wp: usize,
    p1: isize,
    moves: Seq<(u32, usize, isize)>,
    p2: isize,
)
    requires
        forall|i: int| 0 <= i < moves.len() ==> is_drag_message((#[trigger] moves[i]).0),
    ensures
        overlay_transition(s, WM_LBUTTONDOWN, wp, p1).1 == OverlayAction::BeginCapture,
        ({
            let pressed = overlay_transition(s, WM_LBUTTONDOWN, wp, p1).0;
            let moved = run_messages(pressed, moves);
            overlay_transition(moved, WM_LBUTTONUP, wp, p2) == (
                DragState {
                    dragging: false,
                    start_x: message_x(p1),
                    start_y: message_y(p1),
                    cur_x: message_x(p2),
                    cur_y: message_y(p2),
                    confirmed: true,
                },
                OverlayAction::Finish,
            )
        }),
{
    let pressed = overlay_transition(s, WM_LBUTTONDOWN, wp, p1).0;
    lemma_moves_preserve_drag(pressed, moves);
}

/// Law: painting the overlay, or erasing its background, never changes the
/// drag state, whatever the state and the message's parameters.
pub proof fn lemma_repaint_keeps_state(s: DragState, wp: usize, lp: isize)
    ensures
        overlay_transition(s, WM_PAINT, wp, lp).0 == s,
        overlay_transition(s, WM_PAINT, wp, lp).1 == OverlayAction::Paint,
        overlay_transition(s, WM_ERASEBKGND, wp, lp).0 == s,
        overlay_transition(s, WM_ERASEBKGND, wp, lp).1 == OverlayAction::SkipErase,
{
}

/// Law: a left press starts a drag anchored at the pointer, whatever came
/// before; a left release without a drag, and any key but Esc, change
/// nothing; messages the overlay does not handle go to the default window
/// procedure and change nothing.
pub proof fn lemma_other_messages(s: DragState, msg: u32, wp: usize, lp: isize)
    ensures
        msg == WM_LBUTTONDOWN ==> ({
            let n = overlay_transition(s, msg, wp, lp).0;
            &&& n.dragging
            &&& n.start_x == message_x(lp) && n.cur_x == message_x(lp)
            &&& n.start_y == message_y(lp) && n.cur_y == message_y(lp)
            &&& n.confirmed == s.confirmed
        }),
        msg == WM_LBUTTONUP && !s.dragging ==> overlay_transition(s, msg, wp, lp) == (
            s,
            OverlayAction::Ignore,
        ),
        msg == WM_KEYDOWN && wp != VK_ESCAPE ==> overlay_transition(s, msg, wp, lp) == (
            s,
            OverlayAction::Ignore,
        ),
        (msg != WM_PAINT && msg != WM_ERASEBKGND && msg != WM_KEYDOWN && msg != WM_MOUSEMOVE && msg
            != WM_LBUTTONDOWN && msg != WM_LBUTTONUP && msg != WM_RBUTTONDOWN) ==> overlay_transition(
            s,
            msg,
            wp,
            lp,
        ) == (s, OverlayAction::DefaultHandling),
{
}

/// Law: while a drag is in progress a pointer move only moves the drag's
/// free corner and asks for a redraw; without a drag it changes nothing.
pub proof fn lemma_move_keeps_anchor(s: DragState, wp: usize, p: isize)
    ensures
        s.dragging ==> overlay_transition(s, WM_MOUSEMOVE, wp, p) == (
            DragState { cur_x: message_x(p), cur_y: message_y(p), ..s },
            OverlayAction::Redraw,
        ),
        !s.dragging ==> overlay_transition(s, WM_MOUSEMOVE, wp, p) == (s, OverlayAction::Ignore),
{
}

/// Law: a right press, or the Esc key, ends the overlay and leaves the drag
/// state as it was; from a state that was not confirmed the overlay then
/// reports no selection, whatever the screen size.
pub proof fn lemma_cancel_selects_nothing(
    s: DragState,
    msg: u32,
    wp: usize,
    lp: isize,
    width: u32,
    height: u32,
)
    requires
        msg == WM_RBUTTONDOWN || (msg == WM_KEYDOWN && wp == VK_ESCAPE),
    ensures
        overlay_transition(s, msg, wp, lp) == (s, OverlayAction::Finish),
        !s.confirmed ==> spec_selection(overlay_transition(s, msg, wp, lp).0, width, height)
            is None,
{
}

/// Law: only a confirmed drag yields a selection, and a selection is always
/// more than 2 pixels wide and high. When the drag's far corner lies at or
/// beyond the screen's origin and the screen size fits in an `i32`, the
/// selection lies within the screen.
pub proof fn lemma_selection_bounds(s: DragState, width: u32, height: u32)
    ensures
        spec_selection(s, width, height) is Some ==> s.confirmed,
        spec_selection(s, width, height) matches Some(r) ==> r.w > 2 && r.h > 2,
        spec_selection(s, width, height) matches Some(r) ==> (
        max_i32(s.start_x, s.cur_x) >= 0 && max_i32(s.start_y, s.cur_y) >= 0 && width
            <= 0x7FFF_FFFF && height <= 0x7FFF_FFFF) ==> r.x + r.w <= width && r.y + r.h <= height,
{
}

/// Law: a confirmed drag whose two corners both lie on the screen selects
/// exactly the rectangle they span, if it is more than 2 pixels in each
/// direction, and nothing otherwise.
pub proof fn lemma_selection_on_screen(s: DragState, width: u32, height: u32)
    requires
        s.confirmed,
        width <= 0x7FFF_FFFF,
        height <= 0x7FFF_FFFF,
        0 <= s.start_x <= width,
        0 <= s.cur_x <= width,
        0 <= s.start_y <= height,
        0 <= s.cur_y <= height,
    ensures
        ({
            let l = min_i32(s.start_x, s.cur_x);
            let t = min_i32(s.start_y, s.cur_y);
            let dx = max_i32(s.start_x, s.cur_x) - l;
            let dy = max_i32(s.start_y, s.cur_y) - t;
            spec_selection(s, width, height) == if dx > 2 && dy > 2 {
                Some(SelectionRect { x: l as u32, y: t as u32, w: dx as u32, h: dy as u32 })
            } else {
                None
            }
        }),
{
}

/// Law: the overlay highlights exactly while a drag is in progress or
/// confirmed and its corners differ in both directions, whichever way the
/// drag goes; the highlight is the smallest rectangle holding both corners.
pub proof fn lemma_highlight_spans_drag(s: DragState)
    ensures
        spec_highlight(s) is Some <==> ((s.dragging || s.confirmed) && s.start_x != s.cur_x
            && s.start_y != s.cur_y),
        spec_highlight(s) matches Some(r) ==> {
            &&& r.left <= s.start_x && r.left <= s.cur_x
            &&& (r.left == s.start_x || r.left == s.cur_x)
            &&& r.right >= s.start_x && r.right >= s.cur_x
            &&& (r.right == s.start_x || r.right == s.cur_x)
            &&& r.top <= s.start_y && r.top <= s.cur_y
            &&& (r.top == s.start_y || r.top == s.cur_y)
            &&& r.bottom >= s.start_y && r.bottom >= s.cur_y
            &&& (r.bottom == s.start_y || r.bottom == s.cur_y)
        },
{
}

/// `v` held within `0 ..= hi`.
pub open spec fn clamp_to(v: i32, hi: i32) -> i32 {
    if v < 0 {
        0
    } else if v > hi {
        hi
    } else {
        v
    }
}

/// Law: once the drag's far corner is at or beyond the screen's origin, the
/// reported selection is that of the same drag with its corners moved onto
/// the screen: a drag past a screen edge selects up to that edge.
pub proof fn lemma_selection_clamps_to_screen(s: DragState, width: u32, height: u32)
    requires
        width <= 0x7FFF_FFFF,
        height <= 0x7FFF_FFFF,
        max_i32(s.start_x, s.cur_x) >= 0,
        max_i32(s.start_y, s.cur_y) >= 0,
    ensures
        spec_selection(s, width, height) == spec_selection(
            DragState {
                start_x: clamp_to(s.start_x, width as i32),
                cur_x: clamp_to(s.cur_x, width as i32),
                start_y: clamp_to(s.start_y, height as i32),
                cur_y: clamp_to(s.cur_y, height as i32),
                ..s
            },
            width,
            height,
        ),
{
}

/// Law: the overlay only highlights while a drag is in progress or after it
/// was confirmed, and the highlight is the rectangle the drag spans.
pub proof fn lemma_highlight_follows_drag(s: DragState)
    ensures
        spec_highlight(s) is Some ==> s.dragging || s.confirmed,
        spec_highlight(s) matches Some(r) ==> r.left < r.right && r.top < r.bottom && (r.left
            == s.start_x || r.left == s.cur_x) && (r.right == s.start_x || r.right == s.cur_x) && (
        r.top == s.start_y || r.top == s.cur_y) && (r.bottom == s.start_y || r.bottom == s.cur_y),
{
}

} // verus!
