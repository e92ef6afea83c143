//! Pure computations behind the renderer: the visible text padded to the
//! viewport, the gutter, the status-line fragments, and the on-screen
//! cursor position. Painting them is the render driver's business, outside
//! this library.

use vstd::prelude::*;

verus! {

use crate::editor::{
    line_at, nat_min, spec_line_number_width, spec_vheight, spec_vwidth, Editor,
    EditorView,
};
use crate::input::Mode;
use crate::text::{blanks, dec_digits, decimal_digits, make_blanks};

/// `s` padded on the right with spaces up to width `w`; a longer `s` stays
/// as it is.
pub open spec fn pad_right(s: Seq<char>, w: nat) -> Seq<char> {
    if s.len() >= w {
        s
    } else {
        s + blanks((w - s.len()) as nat)
    }
}

/// `s` padded on the left with spaces up to width `w`; a longer `s` stays
/// as it is.
pub open spec fn pad_left(s: Seq<char>, w: nat) -> Seq<char> {
    if s.len() >= w {
        s
    } else {
        blanks((w - s.len()) as nat) + s
    }
}

/// The gutter cell for viewport row `i`: the 1-based line number
/// right-aligned between two spaces, or a tilde marker past the end of the
/// buffer.
pub open spec fn spec_gutter_text(v: EditorView, i: nat) -> Seq<char> {
    let w = spec_line_number_width(v);
    let border = nat_min(spec_vheight(v), v.buffer.lines.len());
    if i >= border {
        seq!['~'] + blanks(w) + seq![' ']
    } else {
        seq![' '] + pad_left(dec_digits(i + 1), w) + seq![' ']
    }
}

/// The text shown on viewport row `i`: the buffer line there (or nothing),
/// right-padded to the viewport width so stale characters are overwritten.
pub open spec fn spec_padded_viewport_line(v: EditorView, i: nat) -> Seq<char> {
    pad_right(line_at(v.buffer.lines, (v.vtop + i) as int), spec_vwidth(v))
}

/// The status-line label of a mode.
pub open spec fn mode_label(m: Mode) -> Seq<char> {
    match m {
        Mode::Normal => seq![' ', 'N', 'O', 'R', 'M', 'A', 'L', ' '],
        Mode::Insert => seq![' ', 'I', 'N', 'S', 'E', 'R', 'T', ' '],
        Mode::Visual => seq![' ', 'V', 'I', 'S', 'U', 'A', 'L', ' '],
        Mode::Command => seq![' ', 'C', 'O', 'M', 'M', 'A', 'N', 'D', ' '],
    }
}

/// The status-line position fragment: 1-based column and row, separated by
/// a colon, between two spaces.
pub open spec fn spec_position_text(v: EditorView) -> Seq<char> {
    seq![' '] + dec_digits(nat_min(v.cur_pos.0 + 1, usize::MAX as nat)) + seq![':'] + dec_digits(
        nat_min(v.cur_pos.1 + 1, usize::MAX as nat),
    ) + seq![' ']
}

/// The command line as shown: a colon, the accumulated text, padded to the
/// viewport width.
pub open spec fn spec_command_line_text(v: EditorView) -> Seq<char> {
    pad_right(seq![':'] + v.command_buffer, spec_vwidth(v))
}

/// Where the terminal cursor goes: the buffer column shifted past the
/// gutter, and the viewport row, each saturating at the terminal's range.
pub open spec fn spec_screen_cursor(v: EditorView) -> (nat, nat) {
    (
        nat_min(v.cur_pos.0 + spec_line_number_width(v) + 2, u16::MAX as nat),
        nat_min(v.cur_pos.1, u16::MAX as nat),
    )
}

/// Appends spaces to `r` until it is `w` long.
fn pad_right_to(r: &mut Vec<char>, w: usize)
    ensures
        final(r)@ == pad_right(old(r)@, w as nat),
{
    let ghost base = r@;
    assert(base + blanks(0) =~= base);
    while r.len() < w
        invariant
            base.len() <= r@.len(),
            r@.len() <= w || r@.len() == base.len(),
            r@ == base + blanks((r@.len() - base.len()) as nat),
        decreases w - r@.len(),
    {
        r.push(' ');
        assert(r@ =~= base + blanks((r@.len() - base.len()) as nat));
    }
    assert(r@ =~= pad_right(base, w as nat));
}

impl Editor {
    /// The gutter cell for viewport row `i`.
    pub fn gutter_text(&self, i: u16) -> (r: Vec<char>)
        ensures
            r@ == spec_gutter_text(self@, i as nat),
    {
        let w = self.line_number_width() as usize;
        let vh = self.vheight() as usize;
        let len = self.buffer.len();
        let border = if vh <= len {
            vh
        } else {
            len
        };
        let mut r: Vec<char> = Vec::new();
        if i as usize >= border {
            r.push('~');
            let mut b = make_blanks(w);
            r.append(&mut b);
            r.push(' ');
            assert(r@ =~= seq!['~'] + blanks(w as nat) + seq![' ']);
        } else {
            let digits = decimal_digits(i as usize + 1);
            r.push(' ');
            if digits.len() < w {
                let mut b = make_blanks(w - digits.len());
                r.append(&mut b);
            }
            let mut d = digits;
            r.append(&mut d);
            r.push(' ');
            assert(r@ =~= seq![' '] + pad_left(dec_digits(i as nat + 1), w as nat) + seq![' ']);
        }
        r
    }

    /// The text shown on viewport row `i`, padded to the viewport width.
    pub fn padded_viewport_line(&self, i: u16) -> (r: Vec<char>)
        ensures
            r@ == spec_padded_viewport_line(self@, i as nat),
    {
        let mut r = match self.viewport_line(i) {
            Some(l) => l,
            None => Vec::new(),
        };
        assert(r.deep_view() == line_at(self@.buffer.lines, (self@.vtop + i) as int));
        assert(r@ =~= r.deep_view());
        let w = self.vwidth() as usize;
        pad_right_to(&mut r, w);
        r
    }

    /// The status-line label of the current mode.
    pub fn mode_text(&self) -> (r: Vec<char>)
        ensures
            r@ == mode_label(self@.mode),
    {
        let mut r: Vec<char> = Vec::new();
        r.push(' ');
        match self.mode {
            Mode::Normal => {
                r.push('N');
                r.push('O');
                r.push('R');
                r.push('M');
                r.push('A');
                r.push('L');
            },
            Mode::Insert => {
                r.push('I');
                r.push('N');
                r.push('S');
                r.push('E');
                r.push('R');
                r.push('T');
            },
            Mode::Visual => {
                r.push('V');
                r.push('I');
                r.push('S');
                r.push('U');
                r.push('A');
                r.push('L');
            },
            Mode::Command => {
                r.push('C');
                r.push('O');
                r.push('M');
                r.push('M');
                r.push('A');
                r.push('N');
                r.push('D');
            },
        }
        r.push(' ');
        assert(r@ =~= mode_label(self@.mode));
        r
    }

    /// The status-line position fragment.
    pub fn position_text(&self) -> (r: Vec<char>)
        ensures
            r@ == spec_position_text(self@),
    {
        let a = if self.cur_pos.0 < usize::MAX {
            self.cur_pos.0 + 1
        } else {
            self.cur_pos.0
        };
        let b = if self.cur_pos.1 < usize::MAX {
            self.cur_pos.1 + 1
        } else {
            self.cur_pos.1
        };
        let mut r: Vec<char> = Vec::new();
        r.push(' ');
        let mut da = decimal_digits(a);
        r.append(&mut da);
        r.push(':');
        let mut db = decimal_digits(b);
        r.append(&mut db);
        r.push(' ');
        assert(r@ =~= spec_position_text(self@));
        r
    }

    /// The command line as shown, padded to the viewport width.
    pub fn command_line_text(&self) -> (r: Vec<char>)
        ensures
            r@ == spec_command_line_text(self@),
    {
        let mut r: Vec<char> = Vec::new();
        r.push(':');
        let mut cmd = self.command_buffer.clone();
        assert(cmd@ =~= self@.command_buffer);
        r.append(&mut cmd);
        assert(r@ =~= seq![':'] + self@.command_buffer);
        let w = self.vwidth() as usize;
        pad_right_to(&mut r, w);
        r
    }

    /// Where the terminal cursor goes on the next redraw.
    pub fn screen_cursor(&self) -> (r: (u16, u16))
        ensures
            (r.0 as nat, r.1 as nat) == spec_screen_cursor(self@),
    {
        let off = self.line_number_width() + 2;
        let cx = self.cur_pos.0;
        let sx: u16 = if cx >= u16::MAX as usize {
            u16::MAX
        } else {
            let s = cx + off as usize;
            if s > u16::MAX as usize {
                u16::MAX
            } else {
                s as u16
            }
        };
        let cy = self.cur_pos.1;
        let sy: u16 = if cy > u16::MAX as usize {
            u16::MAX
        } else {
            cy as u16
        };
        (sx, sy)
    }
}

} // verus!
