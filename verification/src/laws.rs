//! The library's laws: properties of the editing state machine stated and
//! proved over the transition functions of [`crate::editor`].

use vstd::prelude::*;

verus! {

use crate::editor::{
    full_step, sat_sub, spec_line_length, spec_vwidth, step, wf_state, EditorView,
};
use crate::input::{Action, Mode};

/// The session after a whole sequence of input events.
pub open spec fn run_events(v: EditorView, evs: Seq<crate::input::Event>) -> EditorView
    decreases evs.len(),
{
    if evs.len() == 0 {
        v
    } else {
        run_events(full_step(v, evs[0]), evs.drop_first())
    }
}

/// Whatever events come in, the session invariant holds afterwards; in
/// particular the buffer never drops below one line, through any sequence
/// of operations.
pub proof fn lemma_invariant_under_all_inputs(v: EditorView, evs: Seq<crate::input::Event>)
    requires
        wf_state(v),
    ensures
        wf_state(run_events(v, evs)),
        run_events(v, evs).buffer.lines.len() >= 1,
    decreases evs.len(),
{
    if evs.len() > 0 {
        crate::editor::lemma_classify_wf(v, evs[0]);
        crate::editor::lemma_classify_permitted(v, evs[0]);
        if let Some(a) = crate::editor::classify_action(v, evs[0]) {
            crate::editor::lemma_step_wf(crate::editor::classify_state(v, evs[0]), a);
        }
        lemma_invariant_under_all_inputs(full_step(v, evs[0]), evs.drop_first());
    }
}

/// Entering insert mode and leaving it again with no input in between
/// changes nothing but the documented column retreat.
pub proof fn lemma_insert_roundtrip(v: EditorView)
    requires
        wf_state(v),
        v.mode == Mode::Normal,
    ensures
        step(step(v, Action::EnterMode(Mode::Insert)), Action::EnterMode(Mode::Normal))
            == (EditorView { cur_pos: (sat_sub(v.cur_pos.0, 1), v.cur_pos.1), ..v }),
{
    assert(step(step(v, Action::EnterMode(Mode::Insert)), Action::EnterMode(Mode::Normal))
        =~~= (EditorView { cur_pos: (sat_sub(v.cur_pos.0, 1), v.cur_pos.1), ..v }));
}

/// Entering visual mode and leaving it again with no input in between
/// changes nothing at all.
pub proof fn lemma_visual_roundtrip(v: EditorView)
    requires
        wf_state(v),
        v.mode == Mode::Normal,
    ensures
        step(step(v, Action::EnterMode(Mode::Visual)), Action::EnterMode(Mode::Normal)) == v,
{
    assert(step(step(v, Action::EnterMode(Mode::Visual)), Action::EnterMode(Mode::Normal)) =~~= v);
}

/// Entering command mode and leaving it again with no input in between
/// restores the session exactly: the cursor comes back from the saved
/// anchor, and the anchor and command line clear again.
pub proof fn lemma_command_roundtrip(v: EditorView)
    requires
        wf_state(v),
        v.mode == Mode::Normal,
    ensures
        step(step(v, Action::EnterMode(Mode::Command)), Action::EnterMode(Mode::Normal)) == v,
{
    assert(step(step(v, Action::EnterMode(Mode::Command)), Action::EnterMode(Mode::Normal))
        =~~= v);
}

/// Moving left at column 0 changes nothing.
pub proof fn lemma_left_at_origin(v: EditorView)
    requires
        wf_state(v),
        v.cur_pos.0 == 0,
    ensures
        step(v, Action::MoveLeft) == v,
{
    assert(step(v, Action::MoveLeft) =~~= v);
}

/// Moving up at row 0 stays at row 0 and leaves the buffer alone; with the
/// column within the line it changes nothing at all.
pub proof fn lemma_up_at_top(v: EditorView)
    requires
        wf_state(v),
        v.cur_pos.1 == 0,
    ensures
        step(v, Action::MoveUp).cur_pos.1 == 0,
        step(v, Action::MoveUp).buffer == v.buffer,
        v.cur_pos.0 <= spec_line_length(v) ==> step(v, Action::MoveUp) == v,
{
    if v.cur_pos.0 <= spec_line_length(v) {
        assert(step(v, Action::MoveUp) =~~= v);
    }
}

/// Moving right at the end of the line stays at the end of the line, as
/// long as that column is on screen.
pub proof fn lemma_right_at_line_end(v: EditorView)
    requires
        wf_state(v),
        v.cur_pos.0 == spec_line_length(v),
        v.cur_pos.0 < spec_vwidth(v),
    ensures
        step(v, Action::MoveRight) == v,
{
    assert(step(v, Action::MoveRight) =~~= v);
}

/// Backspace at the very start of the buffer changes nothing: no underflow,
/// no panic.
pub proof fn lemma_delete_at_origin(v: EditorView)
    requires
        wf_state(v),
        v.cur_pos.0 == 0,
        v.cur_pos.1 == 0,
    ensures
        step(v, Action::DeleteChar) == v,
{
    assert(v.buffer.lines.update(0, v.buffer.lines[0]) =~~= v.buffer.lines);
    assert(step(v, Action::DeleteChar) =~~= v);
}

} // verus!
