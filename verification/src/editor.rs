//! The editing session: mode state machine, cursor and viewport model, and
//! the interpreter that applies actions to the buffer.

use vstd::prelude::*;

verus! {

use crate::buffer::{Buffer, BufferView, line_len_at};
use crate::input::{Action, Event, Key, Mode, Outcome};
use crate::text::dec_digits;
use crate::text::lemma_dec_digits_len_usize;

/// `a - b`, saturating at zero.
pub open spec fn sat_sub(a: nat, b: nat) -> nat {
    if a >= b {
        (a - b) as nat
    } else {
        0
    }
}

/// The smaller of two naturals.
pub open spec fn nat_min(a: nat, b: nat) -> nat {
    if a <= b {
        a
    } else {
        b
    }
}

/// The line at `row`, taken as empty when `row` is out of range.
pub open spec fn line_at(lines: Seq<Seq<char>>, row: int) -> Seq<char> {
    if 0 <= row < lines.len() {
        lines[row]
    } else {
        Seq::empty()
    }
}

/// The abstract state of an editing session.
#[verifier::ext_equal]
pub ghost struct EditorView {
    pub buffer: BufferView,
    /// Cursor as (column, row), 0-based, row counted within the viewport
    /// (which never scrolls in this edition, so it is also the buffer row).
    pub cur_pos: (nat, nat),
    /// The position saved on entering command mode, restored on leaving it.
    pub scur_pos: Option<(nat, nat)>,
    pub mode: Mode,
    /// Terminal size as (width, height).
    pub size: (nat, nat),
    /// Scroll offsets. The session never changes them from zero.
    pub vtop: nat,
    pub vleft: nat,
    /// A pending two-key leader, consumed by the next key event.
    pub waiting_cmd: Option<char>,
    /// The command-line accumulator, active only in command mode.
    pub command_buffer: Seq<char>,
}

/// The session invariant: the buffer is never empty; the viewport never
/// scrolls; outside command mode the cursor row is a valid buffer row and
/// no saved position or command text lingers; in command mode the saved
/// position points into the buffer.
pub open spec fn wf_state(v: EditorView) -> bool {
    &&& v.buffer.lines.len() >= 1
    &&& v.vtop == 0
    &&& v.vleft == 0
    &&& (v.mode != Mode::Command ==> {
        &&& v.cur_pos.1 < v.buffer.lines.len()
        &&& v.scur_pos is None
        &&& v.command_buffer.len() == 0
    })
    &&& (v.mode == Mode::Command ==> (v.scur_pos matches Some(p) && p.1 < v.buffer.lines.len()))
}

/// Width of the gutter: room for the highest line number, at least three
/// digits, plus a space either side.
pub open spec fn spec_line_number_width(v: EditorView) -> nat {
    let d = dec_digits(sat_sub(v.buffer.lines.len(), 1)).len();
    (if d > 3 {
        d
    } else {
        3
    }) + 2
}

/// Height of the text viewport: the terminal minus the status and command
/// rows.
pub open spec fn spec_vheight(v: EditorView) -> nat {
    sat_sub(v.size.1, 2)
}

/// Width of the text viewport: the terminal minus the gutter and a border
/// column.
pub open spec fn spec_vwidth(v: EditorView) -> nat {
    sat_sub(v.size.0, spec_line_number_width(v) + 1)
}

/// The buffer row under the cursor.
pub open spec fn spec_buffer_line(v: EditorView) -> nat {
    v.vtop + v.cur_pos.1
}

/// Length of the line under the cursor, 0 when the cursor row is outside
/// the buffer.
pub open spec fn spec_line_length(v: EditorView) -> nat {
    line_len_at(v.buffer.lines, spec_buffer_line(v) as int)
}

/// Cursor up one row, the column clamped to the new line's length.
pub open spec fn step_move_up(v: EditorView) -> EditorView {
    let cy = sat_sub(v.cur_pos.1, 1);
    let cx = nat_min(v.cur_pos.0, line_len_at(v.buffer.lines, cy as int));
    EditorView { cur_pos: (cx, cy), ..v }
}

/// Cursor down one row if a next line exists, the column clamped to the new
/// line's length; the row then clamped to the viewport height (the viewport
/// does not scroll in this edition).
pub open spec fn step_move_down(v: EditorView) -> EditorView {
    let advanced = v.cur_pos.1 + 1 < v.buffer.lines.len();
    let cy1 = if advanced {
        v.cur_pos.1 + 1
    } else {
        v.cur_pos.1
    };
    let cx = if advanced {
        nat_min(v.cur_pos.0, line_len_at(v.buffer.lines, cy1 as int))
    } else {
        v.cur_pos.0
    };
    let vh = spec_vheight(v);
    let cy = if cy1 >= vh {
        sat_sub(vh, 1)
    } else {
        cy1
    };
    EditorView { cur_pos: (cx, cy), ..v }
}

/// Cursor left one column, stopping at the left scroll offset.
pub open spec fn step_move_left(v: EditorView) -> EditorView {
    let cx1 = sat_sub(v.cur_pos.0, 1);
    let cx = if cx1 < v.vleft {
        v.vleft
    } else {
        cx1
    };
    EditorView { cur_pos: (cx, v.cur_pos.1), ..v }
}

/// Cursor right one column, clamped to the current line's length and to the
/// viewport width.
pub open spec fn step_move_right(v: EditorView) -> EditorView {
    let cx1 = nat_min(v.cur_pos.0 + 1, spec_line_length(v));
    let vw = spec_vwidth(v);
    let cx = if cx1 >= vw {
        sat_sub(vw, 1)
    } else {
        cx1
    };
    EditorView { cur_pos: (cx, v.cur_pos.1), ..v }
}

/// The approximate word-forward motion: just past the next whitespace on
/// the current line, or to the end of the line when there is none.
pub open spec fn step_word_forward(v: EditorView) -> EditorView {
    let l = line_at(v.buffer.lines, v.cur_pos.1 as int);
    let start = nat_min(v.cur_pos.0, l.len());
    let cx = match crate::text::first_ws(l, start) {
        Some(k) => k + 1,
        None => l.len(),
    };
    EditorView { cur_pos: (cx, v.cur_pos.1), ..v }
}

/// The approximate word-backward motion: to the previous whitespace on the
/// current line, or to the end of the line when there is none.
pub open spec fn step_word_backward(v: EditorView) -> EditorView {
    let l = line_at(v.buffer.lines, v.cur_pos.1 as int);
    let end = nat_min(v.cur_pos.0, l.len());
    let cx = match crate::text::last_ws_before(l, end) {
        Some(k) => k,
        None => l.len(),
    };
    EditorView { cur_pos: (cx, v.cur_pos.1), ..v }
}

/// Cursor to the last character slot of the current line.
pub open spec fn step_word_end(v: EditorView) -> EditorView {
    let cx = sat_sub(line_len_at(v.buffer.lines, v.cur_pos.1 as int), 1);
    EditorView { cur_pos: (cx, v.cur_pos.1), ..v }
}

/// Cursor to the top of the buffer.
pub open spec fn step_to_top(v: EditorView) -> EditorView {
    EditorView { cur_pos: (0nat, 0nat), ..v }
}

/// Cursor to the start of the last line.
pub open spec fn step_to_bottom(v: EditorView) -> EditorView {
    EditorView { cur_pos: (0nat, sat_sub(v.buffer.lines.len(), 1)), ..v }
}

/// A blank line opens above the cursor row; insert mode begins at its
/// start.
pub open spec fn step_open_above(v: EditorView) -> EditorView {
    let lines = if v.cur_pos.1 <= v.buffer.lines.len() {
        v.buffer.lines.insert(v.cur_pos.1 as int, Seq::<char>::empty())
    } else {
        v.buffer.lines
    };
    EditorView {
        buffer: BufferView { lines, ..v.buffer },
        cur_pos: (0nat, v.cur_pos.1),
        mode: Mode::Insert,
        ..v
    }
}

/// A blank line opens below the cursor row; insert mode begins at its
/// start.
pub open spec fn step_open_below(v: EditorView) -> EditorView {
    if v.cur_pos.1 + 1 <= v.buffer.lines.len() {
        EditorView {
            buffer: BufferView {
                lines: v.buffer.lines.insert(v.cur_pos.1 as int + 1, Seq::<char>::empty()),
                ..v.buffer
            },
            cur_pos: (0nat, v.cur_pos.1 + 1),
            mode: Mode::Insert,
            ..v
        }
    } else {
        EditorView { cur_pos: (0nat, v.cur_pos.1), mode: Mode::Insert, ..v }
    }
}

/// `c` enters the buffer at the cursor (clamped into the line); the column
/// advances by one.
pub open spec fn step_insert_char(v: EditorView, c: char) -> EditorView {
    let row = spec_buffer_line(v);
    let lines = if row < v.buffer.lines.len() {
        v.buffer.lines.update(
            row as int,
            v.buffer.lines[row as int].insert(
                nat_min(v.cur_pos.0, v.buffer.lines[row as int].len()) as int,
                c,
            ),
        )
    } else {
        v.buffer.lines
    };
    EditorView {
        buffer: BufferView { lines, ..v.buffer },
        cur_pos: (nat_min(v.cur_pos.0 + 1, usize::MAX as nat), v.cur_pos.1),
        ..v
    }
}

/// Backspace: at column 0 the current line joins the one above and the
/// cursor lands at the join; otherwise the character before the cursor
/// leaves (from the line's end when the column is past it) and the column
/// retreats. At the buffer's start nothing happens.
pub open spec fn step_delete_char(v: EditorView) -> EditorView {
    let cx = v.cur_pos.0;
    let cy = v.cur_pos.1;
    let lines = v.buffer.lines;
    if cx == 0 && cy > 0 && cy < lines.len() {
        EditorView {
            buffer: BufferView {
                lines: lines.update(cy as int - 1, lines[cy as int - 1] + lines[cy as int]).remove(
                    cy as int,
                ),
                ..v.buffer
            },
            cur_pos: (lines[cy as int - 1].len(), sat_sub(cy, 1)),
            ..v
        }
    } else if cy < lines.len() {
        let l = lines[cy as int];
        let l2 = if cx == 0 {
            l
        } else if cx < l.len() {
            l.remove(cx as int - 1)
        } else if l.len() > 0 {
            l.drop_last()
        } else {
            l
        };
        EditorView {
            buffer: BufferView { lines: lines.update(cy as int, l2), ..v.buffer },
            cur_pos: (sat_sub(cx, 1), cy),
            ..v
        }
    } else {
        v
    }
}

/// `x`: the character under the cursor leaves; the cursor stays.
pub open spec fn step_delete_at_cursor(v: EditorView) -> EditorView {
    let row = spec_buffer_line(v);
    let lines = if row < v.buffer.lines.len() && v.cur_pos.0 < v.buffer.lines[row as int].len() {
        v.buffer.lines.update(row as int, v.buffer.lines[row as int].remove(v.cur_pos.0 as int))
    } else {
        v.buffer.lines
    };
    EditorView { buffer: BufferView { lines, ..v.buffer }, ..v }
}

/// `dd`: the cursor row leaves the buffer (the last line is replaced by an
/// empty one instead) and the cursor moves up one row.
pub open spec fn step_delete_line(v: EditorView) -> EditorView {
    let row = spec_buffer_line(v);
    let lines = if row >= v.buffer.lines.len() {
        v.buffer.lines
    } else if v.buffer.lines.len() == 1 {
        seq![Seq::<char>::empty()]
    } else {
        v.buffer.lines.remove(row as int)
    };
    EditorView {
        buffer: BufferView { lines, ..v.buffer },
        cur_pos: (v.cur_pos.0, sat_sub(v.cur_pos.1, 1)),
        ..v
    }
}

/// Enter in insert mode: the current line splits at the cursor column and
/// the cursor moves to the start of the new next row. On the row just past
/// the last line a blank line is opened first.
pub open spec fn step_new_line(v: EditorView) -> EditorView {
    let cy = v.cur_pos.1;
    let len = v.buffer.lines.len();
    if cy < len {
        let l = v.buffer.lines[cy as int];
        let at = nat_min(v.cur_pos.0, l.len()) as int;
        EditorView {
            buffer: BufferView {
                lines: v.buffer.lines.update(cy as int, l.take(at)).insert(
                    cy as int + 1,
                    l.skip(at),
                ),
                ..v.buffer
            },
            cur_pos: (0nat, cy + 1),
            ..v
        }
    } else if cy == len {
        EditorView {
            buffer: BufferView {
                lines: v.buffer.lines.push(Seq::empty()).push(Seq::empty()),
                ..v.buffer
            },
            cur_pos: (0nat, cy + 1),
            ..v
        }
    } else {
        v
    }
}

/// A mode switch. Leaving insert mode retreats the column by one; entering
/// command mode saves the cursor and parks it on the command row; leaving
/// command mode restores the saved cursor and clears the command line.
pub open spec fn step_enter_mode(v: EditorView, m: Mode) -> EditorView {
    if m == Mode::Normal {
        if v.mode == Mode::Command {
            let cur = match v.scur_pos {
                Some(p) => p,
                None => v.cur_pos,
            };
            EditorView {
                cur_pos: cur,
                scur_pos: None,
                command_buffer: Seq::empty(),
                mode: Mode::Normal,
                ..v
            }
        } else if v.mode == Mode::Insert {
            EditorView {
                cur_pos: (sat_sub(v.cur_pos.0, 1), v.cur_pos.1),
                mode: Mode::Normal,
                ..v
            }
        } else {
            EditorView { mode: Mode::Normal, ..v }
        }
    } else if m == Mode::Command {
        EditorView {
            scur_pos: Some(v.cur_pos),
            cur_pos: (0nat, sat_sub(v.size.1, 1)),
            mode: Mode::Command,
            ..v
        }
    } else {
        EditorView { mode: m, ..v }
    }
}

/// A leader key becomes the pending two-key command.
pub open spec fn step_set_waiting(v: EditorView, c: char) -> EditorView {
    EditorView { waiting_cmd: Some(c), ..v }
}

/// The whole action interpreter as one transition function.
pub open spec fn step(v: EditorView, a: Action) -> EditorView {
    match a {
        Action::Quit => v,
        Action::SaveAndQuit => v,
        Action::MoveUp => step_move_up(v),
        Action::MoveDown => step_move_down(v),
        Action::MoveLeft => step_move_left(v),
        Action::MoveRight => step_move_right(v),
        Action::MoveWordForward => step_word_forward(v),
        Action::MoveWordBackward => step_word_backward(v),
        Action::MoveWordEnd => step_word_end(v),
        Action::MoveToTop => step_to_top(v),
        Action::MoveToBottom => step_to_bottom(v),
        Action::OpenLineAbove => step_open_above(v),
        Action::OpenLineBelow => step_open_below(v),
        Action::InsertCharAtCursorPos(c) => step_insert_char(v, c),
        Action::DeleteChar => step_delete_char(v),
        Action::DeleteCharAtCursorPos => step_delete_at_cursor(v),
        Action::DeleteCurrentLine => step_delete_line(v),
        Action::NewLine => step_new_line(v),
        Action::EnterMode(m) => step_enter_mode(v, m),
        Action::SetWaitingCmd(c) => step_set_waiting(v, c),
    }
}

/// The actions the classifier can hand the interpreter in a given mode:
/// command mode only produces exits, and entering command mode happens from
/// another mode.
pub open spec fn permitted(mode: Mode, a: Action) -> bool {
    &&& (a == Action::EnterMode(Mode::Command) ==> mode != Mode::Command)
    &&& (mode == Mode::Command ==> a == Action::EnterMode(Mode::Normal) || a == Action::Quit || a
        == Action::SaveAndQuit)
}

/// The terminal size recorded from a resize event; any other event leaves
/// it alone.
pub open spec fn resized(v: EditorView, ev: Event) -> EditorView {
    match ev {
        Event::Resize(w, h) => EditorView { size: (w as nat, h as nat), ..v },
        _ => v,
    }
}

/// True when `ev` is the given character key, whatever the modifiers.
pub open spec fn is_char_key(ev: Event, c: char) -> bool {
    ev matches Event::Key(k) && k.key == Key::Char(c)
}

/// Classification's side effect on the state in normal mode: a pending
/// leader is consumed, and `a` advances the column before insert mode
/// begins.
pub open spec fn normal_state_after(v: EditorView, ev: Event) -> EditorView {
    if v.waiting_cmd is Some {
        EditorView { waiting_cmd: None, ..v }
    } else if is_char_key(ev, 'a') {
        EditorView { cur_pos: (nat_min(v.cur_pos.0 + 1, usize::MAX as nat), v.cur_pos.1), ..v }
    } else {
        v
    }
}

/// The action normal mode produces: the pending leader's resolution if one
/// is pending, the normal table otherwise.
pub open spec fn normal_result(v: EditorView, ev: Event) -> Option<Action> {
    match v.waiting_cmd {
        Some(w) => crate::input::waiting_action(w, ev),
        None => crate::input::normal_action(ev),
    }
}

/// Classification's side effect on the whole session state: the size is
/// recorded from a resize, then the mode's own side effects apply.
pub open spec fn classify_state(v: EditorView, ev: Event) -> EditorView {
    let v1 = resized(v, ev);
    match v1.mode {
        Mode::Normal => normal_state_after(v1, ev),
        Mode::Command => (EditorView {
            command_buffer: crate::input::command_buffer_after(v1.command_buffer, ev),
            ..v1
        }),
        _ => v1,
    }
}

/// The action classification produces for the event under the current mode.
pub open spec fn classify_action(v: EditorView, ev: Event) -> Option<Action> {
    match v.mode {
        Mode::Normal => normal_result(v, ev),
        Mode::Insert => crate::input::insert_action(ev),
        Mode::Visual => crate::input::visual_action(ev),
        Mode::Command => crate::input::command_action(v.command_buffer, ev),
    }
}

/// One full cycle of the state machine: classify the event, then apply the
/// action it resolved to, if any.
pub open spec fn full_step(v: EditorView, ev: Event) -> EditorView {
    let v1 = classify_state(v, ev);
    match classify_action(v, ev) {
        Some(a) => step(v1, a),
        None => v1,
    }
}

/// The loop signal a full cycle produces.
pub open spec fn full_outcome(v: EditorView, ev: Event) -> Outcome {
    match classify_action(v, ev) {
        Some(a) => crate::input::outcome_of(a),
        None => Outcome::Continue,
    }
}

/// Whatever the classifier produces is permitted in the mode it ran in.
pub proof fn lemma_classify_permitted(v: EditorView, ev: Event)
    ensures
        classify_action(v, ev) matches Some(a) ==> permitted(v.mode, a),
{
}

/// Classification's side effects preserve the session invariant.
pub proof fn lemma_classify_wf(v: EditorView, ev: Event)
    requires
        wf_state(v),
    ensures
        wf_state(classify_state(v, ev)),
{
}

/// Any permitted action preserves the session invariant; in particular the
/// buffer keeps at least one line through every sequence of actions.
pub proof fn lemma_step_wf(v: EditorView, a: Action)
    requires
        wf_state(v),
        permitted(v.mode, a),
    ensures
        wf_state(step(v, a)),
{
    match a {
        Action::MoveDown => {
            let vh = spec_vheight(v);
            if v.cur_pos.1 + 1 < v.buffer.lines.len() {
                assert(step_move_down(v).cur_pos.1 < v.buffer.lines.len());
            }
        },
        Action::EnterMode(m) => {
            if m == Mode::Normal && v.mode == Mode::Command {
                assert(v.scur_pos matches Some(p) && p.1 < v.buffer.lines.len());
            }
        },
        _ => {},
    }
}

/// An editing session. Terminal I/O is not part of it: events come in
/// through [`Editor::handle_input`], and the renderer reads the projection
/// functions.
pub struct Editor {
    pub buffer: Buffer,
    pub cur_pos: (usize, usize),
    pub scur_pos: Option<(usize, usize)>,
    pub mode: Mode,
    pub size: (u16, u16),
    pub vtop: u16,
    pub vleft: u16,
    pub waiting_cmd: Option<char>,
    pub command_buffer: Vec<char>,
}

impl View for Editor {
    type V = EditorView;

    open spec fn view(&self) -> EditorView {
        EditorView {
            buffer: self.buffer@,
            cur_pos: (self.cur_pos.0 as nat, self.cur_pos.1 as nat),
            scur_pos: match self.scur_pos {
                Some(p) => Some((p.0 as nat, p.1 as nat)),
                None => None,
            },
            mode: self.mode,
            size: (self.size.0 as nat, self.size.1 as nat),
            vtop: self.vtop as nat,
            vleft: self.vleft as nat,
            waiting_cmd: self.waiting_cmd,
            command_buffer: self.command_buffer@,
        }
    }
}

impl Editor {
    /// The session invariant over the concrete state.
    pub open spec fn wf(&self) -> bool {
        wf_state(self@)
    }

    /// A fresh session over `buffer` on a terminal of the given size:
    /// normal mode, cursor at the origin, nothing pending.
    pub fn new(buffer: Buffer, size: (u16, u16)) -> (r: Editor)
        requires
            buffer.wf(),
        ensures
            r@ == (EditorView {
                buffer: buffer@,
                cur_pos: (0nat, 0nat),
                scur_pos: None,
                mode: Mode::Normal,
                size: (size.0 as nat, size.1 as nat),
                vtop: 0,
                vleft: 0,
                waiting_cmd: None,
                command_buffer: Seq::empty(),
            }),
            r.wf(),
    {
        let r = Editor {
            buffer,
            cur_pos: (0, 0),
            scur_pos: None,
            mode: Mode::Normal,
            size,
            vtop: 0,
            vleft: 0,
            waiting_cmd: None,
            command_buffer: Vec::new(),
        };
        assert(r@ =~~= (EditorView {
            buffer: r.buffer@,
            cur_pos: (0nat, 0nat),
            scur_pos: None,
            mode: Mode::Normal,
            size: (size.0 as nat, size.1 as nat),
            vtop: 0,
            vleft: 0,
            waiting_cmd: None,
            command_buffer: Seq::empty(),
        }));
        r
    }

    /// The gutter width, between 5 and 22 columns.
    pub fn line_number_width(&self) -> (r: u16)
        ensures
            r == spec_line_number_width(self@),
            5 <= r <= 22,
    {
        let n = self.buffer.len();
        let total = if n > 0 {
            n - 1
        } else {
            0
        };
        proof {
            lemma_dec_digits_len_usize(total);
        }
        let d = crate::text::count_digits(total);
        let m = if d > 3 {
            d
        } else {
            3
        };
        m + 2
    }

    /// The viewport width.
    pub fn vwidth(&self) -> (r: u16)
        ensures
            r == spec_vwidth(self@),
    {
        let need = self.line_number_width() + 1;
        if self.size.0 >= need {
            self.size.0 - need
        } else {
            0
        }
    }

    /// The viewport height.
    pub fn vheight(&self) -> (r: u16)
        ensures
            r == spec_vheight(self@),
    {
        if self.size.1 >= 2 {
            self.size.1 - 2
        } else {
            0
        }
    }

    /// The buffer row under the cursor.
    pub fn buffer_line(&self) -> (r: usize)
        requires
            self@.vtop + self@.cur_pos.1 <= usize::MAX,
        ensures
            r == spec_buffer_line(self@),
    {
        self.vtop as usize + self.cur_pos.1
    }

    /// A copy of the buffer line shown on viewport row `n`, if there is
    /// one.
    pub fn viewport_line(&self, n: u16) -> (r: Option<Vec<char>>)
        ensures
            self@.vtop + n < self@.buffer.lines.len() ==> (r matches Some(l) && l.deep_view()
                == self@.buffer.lines[(self@.vtop + n) as int]),
            self@.vtop + n >= self@.buffer.lines.len() ==> r is None,
    {
        let row = self.vtop as usize + n as usize;
        self.buffer.get(row)
    }

    fn move_up(&mut self)
        ensures
            final(self)@ == step_move_up(old(self)@),
    {
        let ghost pre = self@;
        let cy = if self.cur_pos.1 > 0 {
            self.cur_pos.1 - 1
        } else {
            0
        };
        let ll = if cy < self.buffer.lines.len() {
            self.buffer.lines[cy].len()
        } else {
            0
        };
        let cx = if self.cur_pos.0 <= ll {
            self.cur_pos.0
        } else {
            ll
        };
        self.cur_pos = (cx, cy);
        assert(self@ =~~= step_move_up(pre));
    }

    fn move_down(&mut self)
        ensures
            final(self)@ == step_move_down(old(self)@),
    {
        let ghost pre = self@;
        let len = self.buffer.lines.len();
        if len > 0 && self.cur_pos.1 < len - 1 {
            let cy1 = self.cur_pos.1 + 1;
            let ll = self.buffer.lines[cy1].len();
            let cx = if self.cur_pos.0 <= ll {
                self.cur_pos.0
            } else {
                ll
            };
            self.cur_pos = (cx, cy1);
        }
        let vh = self.vheight() as usize;
        if self.cur_pos.1 >= vh {
            let cy = if vh > 0 {
                vh - 1
            } else {
                0
            };
            self.cur_pos = (self.cur_pos.0, cy);
        }
        assert(self@ =~~= step_move_down(pre));
    }

    fn move_left(&mut self)
        ensures
            final(self)@ == step_move_left(old(self)@),
    {
        let ghost pre = self@;
        let cx1 = if self.cur_pos.0 > 0 {
            self.cur_pos.0 - 1
        } else {
            0
        };
        let cx = if cx1 < self.vleft as usize {
            self.vleft as usize
        } else {
            cx1
        };
        self.cur_pos = (cx, self.cur_pos.1);
        assert(self@ =~~= step_move_left(pre));
    }

    /// Length of the line under the cursor, computed without any bound on
    /// the scroll offset.
    fn line_length_total(&self) -> (r: usize)
        ensures
            r == spec_line_length(self@),
    {
        match self.cur_pos.1.checked_add(self.vtop as usize) {
            Some(row) => {
                if row < self.buffer.lines.len() {
                    self.buffer.lines[row].len()
                } else {
                    0
                }
            },
            None => {
                let n = self.buffer.lines.len();
                assert(self@.vtop + self@.cur_pos.1 > usize::MAX >= n);
                0
            },
        }
    }

    fn move_right(&mut self)
        ensures
            final(self)@ == step_move_right(old(self)@),
    {
        let ghost pre = self@;
        let ll = self.line_length_total();
        let cx1 = if self.cur_pos.0 < ll {
            self.cur_pos.0 + 1
        } else {
            ll
        };
        let vw = self.vwidth() as usize;
        let cx = if cx1 >= vw {
            if vw > 0 {
                vw - 1
            } else {
                0
            }
        } else {
            cx1
        };
        self.cur_pos = (cx, self.cur_pos.1);
        assert(self@ =~~= step_move_right(pre));
    }

    fn move_word_forward(&mut self)
        ensures
            final(self)@ == step_word_forward(old(self)@),
    {
        let ghost pre = self@;
        let cy = self.cur_pos.1;
        if cy < self.buffer.lines.len() {
            let l = &self.buffer.lines[cy];
            let start = if self.cur_pos.0 <= l.len() {
                self.cur_pos.0
            } else {
                l.len()
            };
            assert(l@ == line_at(pre.buffer.lines, cy as int));
            let cx = match crate::text::find_ws(l, start) {
                Some(k) => k + 1,
                None => l.len(),
            };
            self.cur_pos = (cx, cy);
        } else {
            self.cur_pos = (0, cy);
        }
        assert(self@ =~~= step_word_forward(pre));
    }

    fn move_word_backward(&mut self)
        ensures
            final(self)@ == step_word_backward(old(self)@),
    {
        let ghost pre = self@;
        let cy = self.cur_pos.1;
        if cy < self.buffer.lines.len() {
            let l = &self.buffer.lines[cy];
            let end = if self.cur_pos.0 <= l.len() {
                self.cur_pos.0
            } else {
                l.len()
            };
            assert(l@ == line_at(pre.buffer.lines, cy as int));
            let cx = match crate::text::rfind_ws(l, end) {
                Some(k) => k,
                None => l.len(),
            };
            self.cur_pos = (cx, cy);
        } else {
            self.cur_pos = (0, cy);
        }
        assert(self@ =~~= step_word_backward(pre));
    }

    fn move_word_end(&mut self)
        ensures
            final(self)@ == step_word_end(old(self)@),
    {
        let ghost pre = self@;
        let cy = self.cur_pos.1;
        let ll = if cy < self.buffer.lines.len() {
            self.buffer.lines[cy].len()
        } else {
            0
        };
        let cx = if ll > 0 {
            ll - 1
        } else {
            0
        };
        self.cur_pos = (cx, cy);
        assert(self@ =~~= step_word_end(pre));
    }

    fn move_to_top(&mut self)
        ensures
            final(self)@ == step_to_top(old(self)@),
    {
        let ghost pre = self@;
        self.cur_pos = (0, 0);
        assert(self@ =~~= step_to_top(pre));
    }

    fn move_to_bottom(&mut self)
        ensures
            final(self)@ == step_to_bottom(old(self)@),
    {
        let ghost pre = self@;
        let len = self.buffer.lines.len();
        let cy = if len > 0 {
            len - 1
        } else {
            0
        };
        self.cur_pos = (0, cy);
        assert(self@ =~~= step_to_bottom(pre));
    }

    fn open_line_above(&mut self)
        ensures
            final(self)@ == step_open_above(old(self)@),
    {
        let ghost pre = self@;
        if self.cur_pos.1 <= self.buffer.lines.len() {
            self.buffer.lines.insert(self.cur_pos.1, Vec::new());
            assert(self@.buffer.lines =~~= pre.buffer.lines.insert(
                pre.cur_pos.1 as int,
                Seq::<char>::empty(),
            ));
        }
        self.mode = Mode::Insert;
        self.cur_pos = (0, self.cur_pos.1);
        assert(self@ =~~= step_open_above(pre));
    }

    fn open_line_below(&mut self)
        ensures
            final(self)@ == step_open_below(old(self)@),
    {
        let ghost pre = self@;
        if self.cur_pos.1 < self.buffer.lines.len() {
            self.buffer.lines.insert(self.cur_pos.1 + 1, Vec::new());
            assert(self@.buffer.lines =~~= pre.buffer.lines.insert(
                pre.cur_pos.1 as int + 1,
                Seq::<char>::empty(),
            ));
            self.mode = Mode::Insert;
            self.cur_pos = (0, self.cur_pos.1 + 1);
        } else {
            self.mode = Mode::Insert;
            self.cur_pos = (0, self.cur_pos.1);
        }
        assert(self@ =~~= step_open_below(pre));
    }

    fn insert_char_at_cursor(&mut self, c: char)
        ensures
            final(self)@ == step_insert_char(old(self)@, c),
    {
        let ghost pre = self@;
        match self.cur_pos.1.checked_add(self.vtop as usize) {
            Some(row) => {
                self.buffer.insert(self.cur_pos.0, row, c);
            },
            None => {
                let n = self.buffer.lines.len();
                assert(spec_buffer_line(pre) > usize::MAX >= n);
            },
        }
        let cx = if self.cur_pos.0 < usize::MAX {
            self.cur_pos.0 + 1
        } else {
            self.cur_pos.0
        };
        self.cur_pos = (cx, self.cur_pos.1);
        assert(self@ =~~= step_insert_char(pre, c));
    }

    fn delete_char(&mut self)
        ensures
            final(self)@ == step_delete_char(old(self)@),
    {
        let ghost pre = self@;
        let cx = self.cur_pos.0;
        let cy = self.cur_pos.1;
        if cx == 0 && cy > 0 && cy < self.buffer.lines.len() {
            let newcx = self.buffer.lines[cy - 1].len();
            self.buffer.join_with_next(cy - 1);
            self.cur_pos = (newcx, cy - 1);
        } else if cy < self.buffer.lines.len() {
            let ll = self.buffer.lines[cy].len();
            if cx == 0 {
                assert(self@.buffer.lines =~~= pre.buffer.lines.update(
                    cy as int,
                    pre.buffer.lines[cy as int],
                ));
            } else if cx < ll {
                self.buffer.delete(cx - 1, cy);
            } else if ll > 0 {
                self.buffer.delete(ll - 1, cy);
                assert(pre.buffer.lines[cy as int].remove(ll as int - 1)
                    =~= pre.buffer.lines[cy as int].drop_last());
            } else {
                assert(self@.buffer.lines =~~= pre.buffer.lines.update(
                    cy as int,
                    pre.buffer.lines[cy as int],
                ));
            }
            self.cur_pos = (
                if cx > 0 {
                    cx - 1
                } else {
                    0
                },
                cy,
            );
        }
        assert(self@ =~~= step_delete_char(pre));
    }

    fn delete_char_at_cursor(&mut self)
        ensures
            final(self)@ == step_delete_at_cursor(old(self)@),
    {
        let ghost pre = self@;
        match self.cur_pos.1.checked_add(self.vtop as usize) {
            Some(row) => {
                self.buffer.delete(self.cur_pos.0, row);
            },
            None => {
                let n = self.buffer.lines.len();
                assert(spec_buffer_line(pre) > usize::MAX >= n);
            },
        }
        assert(self@ =~~= step_delete_at_cursor(pre));
    }

    fn delete_current_line(&mut self)
        ensures
            final(self)@ == step_delete_line(old(self)@),
    {
        let ghost pre = self@;
        match self.cur_pos.1.checked_add(self.vtop as usize) {
            Some(row) => {
                self.buffer.remove_line(row);
            },
            None => {
                let n = self.buffer.lines.len();
                assert(spec_buffer_line(pre) > usize::MAX >= n);
            },
        }
        let cy = if self.cur_pos.1 > 0 {
            self.cur_pos.1 - 1
        } else {
            0
        };
        self.cur_pos = (self.cur_pos.0, cy);
        assert(self@ =~~= step_delete_line(pre));
    }

    fn new_line(&mut self)
        ensures
            final(self)@ == step_new_line(old(self)@),
    {
        let ghost pre = self@;
        let cy = self.cur_pos.1;
        let len = self.buffer.lines.len();
        if cy < len {
            self.buffer.split_line(cy, self.cur_pos.0);
            self.cur_pos = (0, cy + 1);
        } else if cy == len {
            self.buffer.lines.push(Vec::new());
            assert(self@.buffer.lines =~~= pre.buffer.lines.push(Seq::<char>::empty()));
            self.buffer.split_line(cy, self.cur_pos.0);
            let newlen = self.buffer.lines.len();
            assert(self@.buffer.lines =~~= pre.buffer.lines.push(Seq::<char>::empty()).push(
                Seq::<char>::empty(),
            ));
            self.cur_pos = (0, newlen - 1);
        }
        assert(self@ =~~= step_new_line(pre));
    }

    fn enter_mode(&mut self, m: Mode)
        ensures
            final(self)@ == step_enter_mode(old(self)@, m),
    {
        let ghost pre = self@;
        match m {
            Mode::Normal => {
                match self.mode {
                    Mode::Command => {
                        match self.scur_pos {
                            Some(p) => {
                                self.cur_pos = p;
                            },
                            None => {},
                        }
                        self.scur_pos = None;
                        self.command_buffer.clear();
                    },
                    Mode::Insert => {
                        let cx = if self.cur_pos.0 > 0 {
                            self.cur_pos.0 - 1
                        } else {
                            0
                        };
                        self.cur_pos = (cx, self.cur_pos.1);
                    },
                    _ => {},
                }
                self.mode = Mode::Normal;
            },
            Mode::Command => {
                self.scur_pos = Some(self.cur_pos);
                let cy = if self.size.1 >= 1 {
                    (self.size.1 - 1) as usize
                } else {
                    0
                };
                self.cur_pos = (0, cy);
                self.mode = Mode::Command;
            },
            _ => {
                self.mode = m;
            },
        }
        assert(self@ =~~= step_enter_mode(pre, m));
    }

    fn set_waiting_cmd(&mut self, c: char)
        ensures
            final(self)@ == step_set_waiting(old(self)@, c),
    {
        let ghost pre = self@;
        self.waiting_cmd = Some(c);
        assert(self@ =~~= step_set_waiting(pre, c));
    }

    /// Applies `a` to the session and returns the loop signal. The whole
    /// transition is pinned down by [`step`]; an action the classifier can
    /// produce in the current mode preserves the session invariant.
    pub fn apply_action(&mut self, a: Action) -> (o: Outcome)
        ensures
            final(self)@ == step(old(self)@, a),
            o == crate::input::outcome_of(a),
            wf_state(old(self)@) && permitted(old(self)@.mode, a) ==> wf_state(final(self)@),
    {
        let ghost pre = self@;
        let o = match a {
            Action::Quit => Outcome::Quit,
            Action::SaveAndQuit => Outcome::SaveAndQuit,
            Action::MoveUp => {
                self.move_up();
                Outcome::Continue
            },
            Action::MoveDown => {
                self.move_down();
                Outcome::Continue
            },
            Action::MoveLeft => {
                self.move_left();
                Outcome::Continue
            },
            Action::MoveRight => {
                self.move_right();
                Outcome::Continue
            },
            Action::MoveWordForward => {
                self.move_word_forward();
                Outcome::Continue
            },
            Action::MoveWordBackward => {
                self.move_word_backward();
                Outcome::Continue
            },
            Action::MoveWordEnd => {
                self.move_word_end();
                Outcome::Continue
            },
            Action::MoveToTop => {
                self.move_to_top();
                Outcome::Continue
            },
            Action::MoveToBottom => {
                self.move_to_bottom();
                Outcome::Continue
            },
            Action::OpenLineAbove => {
                self.open_line_above();
                Outcome::Continue
            },
            Action::OpenLineBelow => {
                self.open_line_below();
                Outcome::Continue
            },
            Action::InsertCharAtCursorPos(c) => {
                self.insert_char_at_cursor(c);
                Outcome::Continue
            },
            Action::DeleteChar => {
                self.delete_char();
                Outcome::Continue
            },
            Action::DeleteCharAtCursorPos => {
                self.delete_char_at_cursor();
                Outcome::Continue
            },
            Action::DeleteCurrentLine => {
                self.delete_current_line();
                Outcome::Continue
            },
            Action::NewLine => {
                self.new_line();
                Outcome::Continue
            },
            Action::EnterMode(m) => {
                self.enter_mode(m);
                Outcome::Continue
            },
            Action::SetWaitingCmd(c) => {
                self.set_waiting_cmd(c);
                Outcome::Continue
            },
        };
        proof {
            if wf_state(pre) && permitted(pre.mode, a) {
                lemma_step_wf(pre, a);
            }
        }
        o
    }

    /// Normal mode's classifier: consumes a pending leader if one is set,
    /// otherwise reads the normal key table (advancing the column on `a`).
    pub fn handle_normal_mode(&mut self, ev: Event) -> (r: Option<Action>)
        ensures
            final(self)@ == normal_state_after(old(self)@, ev),
            r == normal_result(old(self)@, ev),
    {
        let ghost pre = self@;
        if let Some(cmd) = self.waiting_cmd {
            self.waiting_cmd = None;
            let r = self.handle_waiting_cmd(cmd, ev);
            assert(self@ =~~= normal_state_after(pre, ev));
            return r;
        }
        let r = match ev {
            Event::Key(k) => match k.key {
                Key::Char(c) => {
                    if c == 'q' {
                        Some(Action::Quit)
                    } else if c == 'k' {
                        Some(Action::MoveUp)
                    } else if c == 'j' {
                        Some(Action::MoveDown)
                    } else if c == 'l' {
                        Some(Action::MoveRight)
                    } else if c == 'h' {
                        Some(Action::MoveLeft)
                    } else if c == 'w' {
                        Some(Action::MoveWordForward)
                    } else if c == 'b' {
                        Some(Action::MoveWordBackward)
                    } else if c == '$' {
                        Some(Action::MoveWordEnd)
                    } else if c == 'G' {
                        Some(Action::MoveToBottom)
                    } else if c == 'O' {
                        Some(Action::OpenLineAbove)
                    } else if c == 'o' {
                        Some(Action::OpenLineBelow)
                    } else if c == 'x' {
                        Some(Action::DeleteCharAtCursorPos)
                    } else if c == 'i' {
                        Some(Action::EnterMode(Mode::Insert))
                    } else if c == 'a' {
                        let cx = if self.cur_pos.0 < usize::MAX {
                            self.cur_pos.0 + 1
                        } else {
                            self.cur_pos.0
                        };
                        self.cur_pos = (cx, self.cur_pos.1);
                        Some(Action::EnterMode(Mode::Insert))
                    } else if c == 'v' {
                        Some(Action::EnterMode(Mode::Visual))
                    } else if c == ':' {
                        Some(Action::EnterMode(Mode::Command))
                    } else if c == 'd' {
                        Some(Action::SetWaitingCmd('d'))
                    } else if c == 'g' {
                        Some(Action::SetWaitingCmd('g'))
                    } else {
                        None
                    }
                },
                Key::Up => Some(Action::MoveUp),
                Key::Down => Some(Action::MoveDown),
                Key::Right => Some(Action::MoveRight),
                Key::Left => Some(Action::MoveLeft),
                _ => None,
            },
            _ => None,
        };
        assert(self@ =~~= normal_state_after(pre, ev));
        r
    }

    /// Resolution of a pending two-key command.
    pub fn handle_waiting_cmd(&self, cmd: char, ev: Event) -> (r: Option<Action>)
        ensures
            r == crate::input::waiting_action(cmd, ev),
    {
        match ev {
            Event::Key(k) => match k.key {
                Key::Char(c) => {
                    if cmd == 'd' && c == 'd' {
                        Some(Action::DeleteCurrentLine)
                    } else if cmd == 'g' && c == 'g' {
                        Some(Action::MoveToTop)
                    } else {
                        None
                    }
                },
                _ => None,
            },
            _ => None,
        }
    }

    /// Insert mode's classifier.
    pub fn handle_insert_mode(&self, ev: Event) -> (r: Option<Action>)
        ensures
            r == crate::input::insert_action(ev),
    {
        match ev {
            Event::Key(k) => match k.key {
                Key::Esc => Some(Action::EnterMode(Mode::Normal)),
                Key::Char(c) => {
                    if c == 'c' && k.ctrl {
                        Some(Action::EnterMode(Mode::Normal))
                    } else {
                        Some(Action::InsertCharAtCursorPos(c))
                    }
                },
                Key::Enter => Some(Action::NewLine),
                Key::Backspace => Some(Action::DeleteChar),
                _ => None,
            },
            _ => None,
        }
    }

    /// Visual mode's classifier.
    pub fn handle_visual_mode(&self, ev: Event) -> (r: Option<Action>)
        ensures
            r == crate::input::visual_action(ev),
    {
        match ev {
            Event::Key(k) => match k.key {
                Key::Esc => Some(Action::EnterMode(Mode::Normal)),
                Key::Char(c) => {
                    if c == 'c' && k.ctrl {
                        Some(Action::EnterMode(Mode::Normal))
                    } else if c == 'h' {
                        Some(Action::MoveLeft)
                    } else if c == 'j' {
                        Some(Action::MoveDown)
                    } else if c == 'k' {
                        Some(Action::MoveUp)
                    } else if c == 'l' {
                        Some(Action::MoveRight)
                    } else {
                        None
                    }
                },
                _ => None,
            },
            _ => None,
        }
    }

    /// Command mode's classifier: maintains the command-line accumulator
    /// and submits it to the resolver on Enter.
    pub fn handle_command_mode(&mut self, ev: Event) -> (r: Option<Action>)
        ensures
            final(self)@ == (EditorView {
                command_buffer: crate::input::command_buffer_after(old(self)@.command_buffer, ev),
                ..old(self)@
            }),
            r == crate::input::command_action(old(self)@.command_buffer, ev),
    {
        let ghost pre = self@;
        let r = match ev {
            Event::Key(k) => match k.key {
                Key::Esc => {
                    self.command_buffer.clear();
                    Some(Action::EnterMode(Mode::Normal))
                },
                Key::Char(c) => {
                    if c == 'c' && k.ctrl {
                        self.command_buffer.clear();
                        Some(Action::EnterMode(Mode::Normal))
                    } else {
                        self.command_buffer.push(c);
                        None
                    }
                },
                Key::Backspace => {
                    if self.command_buffer.len() == 0 {
                        Some(Action::EnterMode(Mode::Normal))
                    } else {
                        self.command_buffer.pop();
                        assert(self.command_buffer@ =~= pre.command_buffer.drop_last());
                        None
                    }
                },
                Key::Enter => {
                    let cmd = crate::text::trim(&self.command_buffer);
                    self.command_buffer.clear();
                    self.process_command(&cmd)
                },
                _ => None,
            },
            _ => None,
        };
        assert(self@ =~~= (EditorView {
            command_buffer: crate::input::command_buffer_after(pre.command_buffer, ev),
            ..pre
        }));
        r
    }

    /// The command resolver: `q` quits, `wq` saves and then quits, anything
    /// else returns to normal mode without an error.
    pub fn process_command(&self, command: &Vec<char>) -> (r: Option<Action>)
        ensures
            r == Some(crate::input::resolve_command(command@)),
    {
        if command.len() == 1 && command[0] == 'q' {
            assert(command@ =~= seq!['q']);
            Some(Action::Quit)
        } else if command.len() == 2 && command[0] == 'w' && command[1] == 'q' {
            assert(command@ =~= seq!['w', 'q']);
            Some(Action::SaveAndQuit)
        } else {
            proof {
                if command@ == seq!['q'] {
                    assert(command@.len() == 1 && command@[0] == 'q');
                }
                if command@ == seq!['w', 'q'] {
                    assert(command@.len() == 2 && command@[0] == 'w' && command@[1] == 'q');
                }
            }
            Some(Action::EnterMode(Mode::Normal))
        }
    }

    /// Classifies one input event under the current mode. A resize records
    /// the new terminal size before mode dispatch.
    pub fn handle_event(&mut self, ev: Event) -> (r: Option<Action>)
        ensures
            final(self)@ == classify_state(old(self)@, ev),
            r == classify_action(old(self)@, ev),
    {
        let ghost pre = self@;
        if let Event::Resize(w, h) = ev {
            self.size = (w, h);
        }
        assert(self@ =~~= resized(pre, ev));
        match self.mode {
            Mode::Normal => self.handle_normal_mode(ev),
            Mode::Insert => self.handle_insert_mode(ev),
            Mode::Visual => self.handle_visual_mode(ev),
            Mode::Command => self.handle_command_mode(ev),
        }
    }

    /// One full cycle of the editing state machine: classifies the event
    /// and applies the action it resolves to, if any. Returns the loop
    /// signal; a well-formed session stays well-formed.
    pub fn handle_input(&mut self, ev: Event) -> (o: Outcome)
        ensures
            final(self)@ == full_step(old(self)@, ev),
            o == full_outcome(old(self)@, ev),
            wf_state(old(self)@) ==> wf_state(final(self)@),
    {
        let ghost pre = self@;
        proof {
            if wf_state(pre) {
                lemma_classify_wf(pre, ev);
                lemma_classify_permitted(pre, ev);
            }
        }
        match self.handle_event(ev) {
            Some(a) => self.apply_action(a),
            None => Outcome::Continue,
        }
    }

    /// Length of the line under the cursor, 0 when the cursor row is
    /// outside the buffer.
    pub fn line_length(&self) -> (r: usize)
        requires
            self@.vtop + self@.cur_pos.1 <= usize::MAX,
        ensures
            r == spec_line_length(self@),
    {
        let row = self.buffer_line();
        if row < self.buffer.lines.len() {
            self.buffer.lines[row].len()
        } else {
            0
        }
    }
}

} // verus!
