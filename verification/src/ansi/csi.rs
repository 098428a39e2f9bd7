//! CSI (Control Sequence Introducer) sequence handling.

use vstd::prelude::*;
use super::handler::{Attr, Handler};
use crate::term::cell::{Color, default_color_256, rgb};

verus! {

/// One handler call requested by a CSI sequence.
#[derive(Debug, Clone, Copy, PartialEq, Eq, Structural)]
pub enum CsiCall {
    MoveUp(u16),
    MoveDown(u16),
    MoveForward(u16),
    MoveBackward(u16),
    MoveDownAndCr(u16),
    MoveUpAndCr(u16),
    GotoCol(u16),
    GotoLine(u16),
    Goto(u16, u16),
    EraseInDisplay(u16),
    EraseInLine(u16),
    EraseChars(u16),
    InsertBlank(u16),
    DeleteChars(u16),
    InsertLines(u16),
    DeleteLines(u16),
    ScrollUp(u16),
    ScrollDown(u16),
    SetScrollRegion(u16, u16),
    ClearTab(u16),
    SetAttr(Attr),
    SetMode(u16, bool),
    SaveCursor,
    RestoreCursor,
}

/// Parameter `i`, or `default` when absent.
pub open spec fn param_or(params: Seq<u16>, i: int, default: u16) -> u16 {
    if 0 <= i < params.len() { params[i] } else { default }
}

/// A count parameter: the first parameter, 1 when absent or 0.
pub open spec fn count_param(params: Seq<u16>) -> u16 {
    let p = param_or(params, 0, 1);
    if p < 1 { 1 } else { p }
}

/// A 1-based position parameter turned 0-based (saturating).
pub open spec fn position_param(params: Seq<u16>, i: int) -> u16 {
    let p = param_or(params, i, 1);
    if p > 0 { (p - 1) as u16 } else { 0 }
}

/// The mode-setting calls for each parameter, in order.
pub open spec fn mode_calls(params: Seq<u16>, enable: bool) -> Seq<CsiCall> {
    params.map_values(|p: u16| CsiCall::SetMode(p, enable))
}

/// The handler calls that a CSI sequence makes.
pub open spec fn csi_calls_spec(params: Seq<u16>, intermediates: Seq<u8>, action: char) -> Seq<CsiCall> {
    let private_mode = intermediates.len() > 0 && intermediates[0] == 0x3f;
    if action == 'A' { seq![CsiCall::MoveUp(count_param(params))] }
    else if action == 'B' { seq![CsiCall::MoveDown(count_param(params))] }
    else if action == 'C' { seq![CsiCall::MoveForward(count_param(params))] }
    else if action == 'D' { seq![CsiCall::MoveBackward(count_param(params))] }
    else if action == 'E' { seq![CsiCall::MoveDownAndCr(count_param(params))] }
    else if action == 'F' { seq![CsiCall::MoveUpAndCr(count_param(params))] }
    else if action == 'G' || action == '`' { seq![CsiCall::GotoCol(position_param(params, 0))] }
    else if action == 'd' { seq![CsiCall::GotoLine(position_param(params, 0))] }
    else if action == 'H' || action == 'f' { seq![CsiCall::Goto(position_param(params, 0), position_param(params, 1))] }
    else if action == 'J' { seq![CsiCall::EraseInDisplay(param_or(params, 0, 0))] }
    else if action == 'K' { seq![CsiCall::EraseInLine(param_or(params, 0, 0))] }
    else if action == 'X' { seq![CsiCall::EraseChars(count_param(params))] }
    else if action == '@' { seq![CsiCall::InsertBlank(count_param(params))] }
    else if action == 'P' { seq![CsiCall::DeleteChars(count_param(params))] }
    else if action == 'L' { seq![CsiCall::InsertLines(count_param(params))] }
    else if action == 'M' { seq![CsiCall::DeleteLines(count_param(params))] }
    else if action == 'S' { seq![CsiCall::ScrollUp(count_param(params))] }
    else if action == 'T' { seq![CsiCall::ScrollDown(count_param(params))] }
    else if action == 'r' { seq![CsiCall::SetScrollRegion(param_or(params, 0, 1), param_or(params, 1, 0))] }
    else if action == 'g' { seq![CsiCall::ClearTab(param_or(params, 0, 0))] }
    else if action == 'm' { sgr_calls(params) }
    else if action == 'h' && private_mode { mode_calls(params, true) }
    else if action == 'l' && private_mode { mode_calls(params, false) }
    else if action == 's' { seq![CsiCall::SaveCursor] }
    else if action == 'u' { seq![CsiCall::RestoreCursor] }
    else { seq![] }
}

/// An extended color at `i` (`38`/`48` already seen): the color, if any, and
/// how many extra parameters it used.
pub open spec fn extended_color_spec(params: Seq<u16>, i: int) -> (Option<Color>, int) {
    if i + 1 >= params.len() {
        (None, 0)
    } else if params[i + 1] == 5 {
        if i + 2 < params.len() { (Some(default_color_256(params[i + 2] as u8)), 2) } else { (None, 0) }
    } else if params[i + 1] == 2 {
        if i + 4 < params.len() {
            (Some(rgb(params[i + 2] as u8, params[i + 3] as u8, params[i + 4] as u8)), 4)
        } else {
            (None, 0)
        }
    } else {
        (None, 0)
    }
}

/// Calls for one SGR parameter at `i` and the index of the next parameter.
pub open spec fn sgr_step(params: Seq<u16>, i: int) -> (Seq<CsiCall>, int) {
    let p = params[i];
    if p == 0 { (seq![CsiCall::SetAttr(Attr::Reset)], i + 1) }
    else if p == 1 { (seq![CsiCall::SetAttr(Attr::Bold)], i + 1) }
    else if p == 2 { (seq![CsiCall::SetAttr(Attr::Dim)], i + 1) }
    else if p == 3 { (seq![CsiCall::SetAttr(Attr::Italic)], i + 1) }
    else if p == 4 { (seq![CsiCall::SetAttr(Attr::Underline)], i + 1) }
    else if p == 5 || p == 6 { (seq![CsiCall::SetAttr(Attr::Blink)], i + 1) }
    else if p == 7 { (seq![CsiCall::SetAttr(Attr::Inverse)], i + 1) }
    else if p == 8 { (seq![CsiCall::SetAttr(Attr::Hidden)], i + 1) }
    else if p == 9 { (seq![CsiCall::SetAttr(Attr::Strike)], i + 1) }
    else if p == 21 { (seq![CsiCall::SetAttr(Attr::CancelBold)], i + 1) }
    else if p == 22 { (seq![CsiCall::SetAttr(Attr::CancelBold), CsiCall::SetAttr(Attr::CancelDim)], i + 1) }
    else if p == 23 { (seq![CsiCall::SetAttr(Attr::CancelItalic)], i + 1) }
    else if p == 24 { (seq![CsiCall::SetAttr(Attr::CancelUnderline)], i + 1) }
    else if p == 25 { (seq![CsiCall::SetAttr(Attr::CancelBlink)], i + 1) }
    else if p == 27 { (seq![CsiCall::SetAttr(Attr::CancelInverse)], i + 1) }
    else if p == 28 { (seq![CsiCall::SetAttr(Attr::CancelHidden)], i + 1) }
    else if p == 29 { (seq![CsiCall::SetAttr(Attr::CancelStrike)], i + 1) }
    else if 30 <= p <= 37 { (seq![CsiCall::SetAttr(Attr::ForegroundIndex((p - 30) as u8))], i + 1) }
    else if p == 38 {
        let (c, used) = extended_color_spec(params, i);
        (match c { Some(c) => seq![CsiCall::SetAttr(Attr::Foreground(c))], None => seq![] }, i + used + 1)
    }
    else if p == 39 { (seq![CsiCall::SetAttr(Attr::DefaultForeground)], i + 1) }
    else if 40 <= p <= 47 { (seq![CsiCall::SetAttr(Attr::BackgroundIndex((p - 40) as u8))], i + 1) }
    else if p == 48 {
        let (c, used) = extended_color_spec(params, i);
        (match c { Some(c) => seq![CsiCall::SetAttr(Attr::Background(c))], None => seq![] }, i + used + 1)
    }
    else if p == 49 { (seq![CsiCall::SetAttr(Attr::DefaultBackground)], i + 1) }
    else if 90 <= p <= 97 { (seq![CsiCall::SetAttr(Attr::ForegroundIndex((p - 90 + 8) as u8))], i + 1) }
    else if 100 <= p <= 107 { (seq![CsiCall::SetAttr(Attr::BackgroundIndex((p - 100 + 8) as u8))], i + 1) }
    else { (seq![], i + 1) }
}

/// SGR calls for the parameters from index `i` on.
pub open spec fn sgr_from(params: Seq<u16>, i: int) -> Seq<CsiCall>
    decreases params.len() - i,
{
    if i < 0 || i >= params.len() {
        seq![]
    } else {
        let (calls, next) = sgr_step(params, i);
        if next <= i { seq![] } else { calls + sgr_from(params, next) }
    }
}

/// SGR calls: a reset for no parameters, else one step per parameter.
pub open spec fn sgr_calls(params: Seq<u16>) -> Seq<CsiCall> {
    if params.len() == 0 { seq![CsiCall::SetAttr(Attr::Reset)] } else { sgr_from(params, 0) }
}

fn param_or_exec(params: &[u16], i: usize, default: u16) -> (p: u16)
    ensures p == param_or(params@, i as int, default),
{
    if i < params.len() { params[i] } else { default }
}

fn count_param_exec(params: &[u16]) -> (p: u16)
    ensures p == count_param(params@),
{
    let p = param_or_exec(params, 0, 1);
    if p < 1 { 1 } else { p }
}

fn position_param_exec(params: &[u16], i: usize) -> (p: u16)
    ensures p == position_param(params@, i as int),
{
    param_or_exec(params, i, 1).saturating_sub(1)
}

/// The handler calls a CSI sequence makes.
pub fn csi_calls(params: &[u16], intermediates: &[u8], action: char) -> (calls: Vec<CsiCall>)
    ensures calls@ == csi_calls_spec(params@, intermediates@, action),
{
    let private_mode = intermediates.len() > 0 && intermediates[0] == 0x3f;
    let mut v: Vec<CsiCall> = Vec::new();
    if action == 'A' { v.push(CsiCall::MoveUp(count_param_exec(params))); }
    else if action == 'B' { v.push(CsiCall::MoveDown(count_param_exec(params))); }
    else if action == 'C' { v.push(CsiCall::MoveForward(count_param_exec(params))); }
    else if action == 'D' { v.push(CsiCall::MoveBackward(count_param_exec(params))); }
    else if action == 'E' { v.push(CsiCall::MoveDownAndCr(count_param_exec(params))); }
    else if action == 'F' { v.push(CsiCall::MoveUpAndCr(count_param_exec(params))); }
    else if action == 'G' || action == '`' { v.push(CsiCall::GotoCol(position_param_exec(params, 0))); }
    else if action == 'd' { v.push(CsiCall::GotoLine(position_param_exec(params, 0))); }
    else if action == 'H' || action == 'f' {
        v.push(CsiCall::Goto(position_param_exec(params, 0), position_param_exec(params, 1)));
    }
    else if action == 'J' { v.push(CsiCall::EraseInDisplay(param_or_exec(params, 0, 0))); }
    else if action == 'K' { v.push(CsiCall::EraseInLine(param_or_exec(params, 0, 0))); }
    else if action == 'X' { v.push(CsiCall::EraseChars(count_param_exec(params))); }
    else if action == '@' { v.push(CsiCall::InsertBlank(count_param_exec(params))); }
    else if action == 'P' { v.push(CsiCall::DeleteChars(count_param_exec(params))); }
    else if action == 'L' { v.push(CsiCall::InsertLines(count_param_exec(params))); }
    else if action == 'M' { v.push(CsiCall::DeleteLines(count_param_exec(params))); }
    else if action == 'S' { v.push(CsiCall::ScrollUp(count_param_exec(params))); }
    else if action == 'T' { v.push(CsiCall::ScrollDown(count_param_exec(params))); }
    else if action == 'r' {
        v.push(CsiCall::SetScrollRegion(param_or_exec(params, 0, 1), param_or_exec(params, 1, 0)));
    }
    else if action == 'g' { v.push(CsiCall::ClearTab(param_or_exec(params, 0, 0))); }
    else if action == 'm' { return sgr_calls_exec(params); }
    else if (action == 'h' || action == 'l') && private_mode {
        let enable = action == 'h';
        let mut i: usize = 0;
        while i < params.len()
            invariant
                0 <= i <= params.len(),
                v@ =~= mode_calls(params@.take(i as int), enable),
            decreases params.len() - i,
        {
            v.push(CsiCall::SetMode(params[i], enable));
            i = i + 1;
            assert(v@ =~= mode_calls(params@.take(i as int), enable));
        }
        assert(params@.take(params.len() as int) =~= params@);
    }
    else if action == 's' { v.push(CsiCall::SaveCursor); }
    else if action == 'u' { v.push(CsiCall::RestoreCursor); }
    assert(v@ =~= csi_calls_spec(params@, intermediates@, action));
    v
}

/// Parse an extended color (256-color or true color) at `i`.
fn extended_color(params: &[u16], i: usize) -> (r: (Option<Color>, usize))
    requires i < params.len(),
    ensures
        r.0 == extended_color_spec(params@, i as int).0,
        r.1 as int == extended_color_spec(params@, i as int).1,
{
    if i + 1 >= params.len() {
        return (None, 0);
    }
    if params[i + 1] == 5 {
        if i + 2 < params.len() {
            (Some(Color::from_256(params[i + 2] as u8)), 2)
        } else {
            (None, 0)
        }
    } else if params[i + 1] == 2 {
        if params.len() - i > 4 {
            (Some(Color::rgb(params[i + 2] as u8, params[i + 3] as u8, params[i + 4] as u8)), 4)
        } else {
            (None, 0)
        }
    } else {
        (None, 0)
    }
}

/// Calls for the SGR parameter at `i`, and the next index.
fn sgr_step_exec(params: &[u16], i: usize) -> (r: (Vec<CsiCall>, usize))
    requires i < params.len(),
    ensures
        r.0@ == sgr_step(params@, i as int).0,
        r.1 as int == sgr_step(params@, i as int).1,
{
    let p = params[i];
    let mut v: Vec<CsiCall> = Vec::new();
    let mut next: usize = i + 1;
    if p == 0 { v.push(CsiCall::SetAttr(Attr::Reset)); }
    else if p == 1 { v.push(CsiCall::SetAttr(Attr::Bold)); }
    else if p == 2 { v.push(CsiCall::SetAttr(Attr::Dim)); }
    else if p == 3 { v.push(CsiCall::SetAttr(Attr::Italic)); }
    else if p == 4 { v.push(CsiCall::SetAttr(Attr::Underline)); }
    else if p == 5 || p == 6 { v.push(CsiCall::SetAttr(Attr::Blink)); }
    else if p == 7 { v.push(CsiCall::SetAttr(Attr::Inverse)); }
    else if p == 8 { v.push(CsiCall::SetAttr(Attr::Hidden)); }
    else if p == 9 { v.push(CsiCall::SetAttr(Attr::Strike)); }
    else if p == 21 { v.push(CsiCall::SetAttr(Attr::CancelBold)); }
    else if p == 22 {
        v.push(CsiCall::SetAttr(Attr::CancelBold));
        v.push(CsiCall::SetAttr(Attr::CancelDim));
    }
    else if p == 23 { v.push(CsiCall::SetAttr(Attr::CancelItalic)); }
    else if p == 24 { v.push(CsiCall::SetAttr(Attr::CancelUnderline)); }
    else if p == 25 { v.push(CsiCall::SetAttr(Attr::CancelBlink)); }
    else if p == 27 { v.push(CsiCall::SetAttr(Attr::CancelInverse)); }
    else if p == 28 { v.push(CsiCall::SetAttr(Attr::CancelHidden)); }
    else if p == 29 { v.push(CsiCall::SetAttr(Attr::CancelStrike)); }
    else if 30 <= p && p <= 37 { v.push(CsiCall::SetAttr(Attr::ForegroundIndex((p - 30) as u8))); }
    else if p == 38 {
        let (c, used) = extended_color(params, i);
        if let Some(c) = c {
            v.push(CsiCall::SetAttr(Attr::Foreground(c)));
        }
        next = i + used + 1;
    }
    else if p == 39 { v.push(CsiCall::SetAttr(Attr::DefaultForeground)); }
    else if 40 <= p && p <= 47 { v.push(CsiCall::SetAttr(Attr::BackgroundIndex((p - 40) as u8))); }
    else if p == 48 {
        let (c, used) = extended_color(params, i);
        if let Some(c) = c {
            v.push(CsiCall::SetAttr(Attr::Background(c)));
        }
        next = i + used + 1;
    }
    else if p == 49 { v.push(CsiCall::SetAttr(Attr::DefaultBackground)); }
    else if 90 <= p && p <= 97 { v.push(CsiCall::SetAttr(Attr::ForegroundIndex((p - 90 + 8) as u8))); }
    else if 100 <= p && p <= 107 { v.push(CsiCall::SetAttr(Attr::BackgroundIndex((p - 100 + 8) as u8))); }
    assert(v@ =~= sgr_step(params@, i as int).0);
    (v, next)
}

/// SGR (Select Graphic Rendition) calls.
fn sgr_calls_exec(params: &[u16]) -> (calls: Vec<CsiCall>)
    ensures calls@ == sgr_calls(params@),
{
    let mut out: Vec<CsiCall> = Vec::new();
    if params.len() == 0 {
        out.push(CsiCall::SetAttr(Attr::Reset));
        assert(out@ =~= sgr_calls(params@));
        return out;
    }
    let mut i: usize = 0;
    while i < params.len()
        invariant
            0 <= i,
            params@.len() > 0,
            out@ + sgr_from(params@, i as int) == sgr_from(params@, 0),
        decreases params.len() - i,
    {
        let (mut calls, next) = sgr_step_exec(params, i);
        let ghost c = calls@;
        out.append(&mut calls);
        assert(sgr_from(params@, i as int) == c + sgr_from(params@, next as int));
        assert(out@ + sgr_from(params@, next as int) =~= (out@.subrange(0, out@.len() - c.len()) + c) + sgr_from(params@, next as int));
        i = next;
    }
    assert(sgr_from(params@, i as int) =~= Seq::<CsiCall>::empty());
    assert(out@ =~= out@ + Seq::<CsiCall>::empty());
    out
}

/// Make one call on a handler.
pub fn apply_call<H: Handler>(handler: &mut H, call: CsiCall)
    requires
        old(handler).inv(),
    ensures
        final(handler).inv(),
        old(handler).csi_effect(call, *final(handler)),
{
    match call {
        CsiCall::MoveUp(n) => handler.move_up(n),
        CsiCall::MoveDown(n) => handler.move_down(n),
        CsiCall::MoveForward(n) => handler.move_forward(n),
        CsiCall::MoveBackward(n) => handler.move_backward(n),
        CsiCall::MoveDownAndCr(n) => handler.move_down_and_cr(n),
        CsiCall::MoveUpAndCr(n) => handler.move_up_and_cr(n),
        CsiCall::GotoCol(c) => handler.goto_col(c),
        CsiCall::GotoLine(l) => handler.goto_line(l),
        CsiCall::Goto(l, c) => handler.goto(l, c),
        CsiCall::EraseInDisplay(m) => handler.erase_in_display(m),
        CsiCall::EraseInLine(m) => handler.erase_in_line(m),
        CsiCall::EraseChars(n) => handler.erase_chars(n),
        CsiCall::InsertBlank(n) => handler.insert_blank(n),
        CsiCall::DeleteChars(n) => handler.delete_chars(n),
        CsiCall::InsertLines(n) => handler.insert_lines(n),
        CsiCall::DeleteLines(n) => handler.delete_lines(n),
        CsiCall::ScrollUp(n) => handler.scroll_up(n),
        CsiCall::ScrollDown(n) => handler.scroll_down(n),
        CsiCall::SetScrollRegion(t, b) => handler.set_scroll_region(t, b),
        CsiCall::ClearTab(m) => handler.clear_tab(m),
        CsiCall::SetAttr(a) => handler.set_attr(a),
        CsiCall::SetMode(m, e) => handler.set_mode(m, e),
        CsiCall::SaveCursor => handler.save_cursor(),
        CsiCall::RestoreCursor => handler.restore_cursor(),
    }
}

/// Dispatch a CSI sequence to the handler: make, in order, the calls that
/// `csi_calls` lists for it.
pub fn dispatch<H: Handler>(handler: &mut H, params: &[u16], intermediates: &[u8], action: char)
    requires
        old(handler).inv(),
    ensures
        final(handler).inv(),
        calls_run(*old(handler), csi_calls_spec(params@, intermediates@, action), *final(handler)),
{
    let calls = csi_calls(params, intermediates, action);
    let ghost mut tr: Seq<H> = seq![*handler];
    let mut i: usize = 0;
    while i < calls.len()
        invariant
            0 <= i <= calls.len(),
            handler.inv(),
            tr.len() == i + 1,
            tr[0] == *old(handler),
            tr.last() == *handler,
            calls_made(tr, calls@.take(i as int)),
        decreases calls.len() - i,
    {
        let ghost prev = *handler;
        apply_call(handler, calls[i]);
        proof {
            let t2 = tr.push(*handler);
            let c2 = calls@.take(i + 1);
            assert forall|j: int| 0 <= j < c2.len() implies #[trigger] t2[j].csi_effect(c2[j], t2[j + 1]) by {
                if j < i {
                    assert(tr[j].csi_effect(calls@.take(i as int)[j], tr[j + 1]));
                } else {
                    assert(t2[j] == prev);
                }
            }
            tr = t2;
        }
        i = i + 1;
    }
    assert(calls@.take(i as int) =~= calls@);
    assert(calls_made(tr, calls@));
}

/// The calls, made one after the other, lead the handler from `a` to `b`.
pub open spec fn calls_run<H: Handler>(a: H, calls: Seq<CsiCall>, b: H) -> bool {
    exists|tr: Seq<H>| {
        &&& tr[0] == a
        &&& tr.last() == b
        &&& #[trigger] calls_made(tr, calls)
    }
}

/// `tr` runs through the handler states from before the first of `calls`
/// to after the last: each call leads from one state to the next.
pub open spec fn calls_made<H: Handler>(tr: Seq<H>, calls: Seq<CsiCall>) -> bool {
    &&& tr.len() == calls.len() + 1
    &&& forall|j: int| 0 <= j < calls.len() ==> #[trigger] tr[j].csi_effect(calls[j], tr[j + 1])
}


/// The basic SGR colors name palette entries: 30-37 and 40-47 select
/// foreground and background entries 0-7, 90-97 and 100-107 the bright
/// entries 8-15; each code makes exactly that one call.
pub proof fn law_sgr_basic_colors(p: u16)
    ensures
        30 <= p <= 37 ==> sgr_calls(seq![p]) == seq![CsiCall::SetAttr(Attr::ForegroundIndex((p - 30) as u8))],
        40 <= p <= 47 ==> sgr_calls(seq![p]) == seq![CsiCall::SetAttr(Attr::BackgroundIndex((p - 40) as u8))],
        90 <= p <= 97 ==> sgr_calls(seq![p]) == seq![CsiCall::SetAttr(Attr::ForegroundIndex((p - 90 + 8) as u8))],
        100 <= p <= 107 ==> sgr_calls(seq![p]) == seq![CsiCall::SetAttr(Attr::BackgroundIndex((p - 100 + 8) as u8))],
{
    let s = seq![p];
    assert(sgr_from(s, 1) == Seq::<CsiCall>::empty());
    if (30 <= p <= 37) || (40 <= p <= 47) || (90 <= p <= 97) || (100 <= p <= 107) {
        assert(sgr_step(s, 0).1 == 1);
        assert(sgr_from(s, 0) == sgr_step(s, 0).0 + sgr_from(s, 1));
        assert(sgr_from(s, 0) =~= sgr_step(s, 0).0);
    }
}

} // verus!
