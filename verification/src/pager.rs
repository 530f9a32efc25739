//! The paginated full-screen selection view, as a state machine. The
//! terminal and the keyboard live outside: keys come in as plain events,
//! and every transition — paging, jumping, accumulating an index string —
//! is decided here. The caller redraws when told to.
use crate::strutil::dec_digits;
use crate::strutil::push_char;
use vstd::prelude::*;

verus! {

/// Relies on `termsize::get`: the terminal's (rows, columns), or nothing
/// when output is not a terminal. The result depends on the environment,
/// so nothing more is promised of it.
#[verifier::external_body]
pub fn terminal_size() -> (r: Option<(u16, u16)>) {
    termsize::get().map(|s| (s.rows, s.cols))
}

/// How many columns of entries fit a terminal `term_cols` wide: each entry
/// takes the index digits, a dot and space, and the longest name with a
/// separator; never fewer than one column.
pub fn column_count(term_cols: u16, longest_name: usize, result_count: usize) -> (r: u16)
    requires
        longest_name + 22 <= usize::MAX,
    ensures
        r >= 1,
        r as int == ({
            let div = longest_name + dec_digits(result_count as int).len() + 2;
            if (term_cols as int) < div {
                1int
            } else {
                term_cols as int / div
            }
        }),
{
    let nd = crate::strutil::num_digits(result_count);
    proof {
        crate::strutil::lemma_dec_digits_len_usize(result_count);
    }
    let div: usize = longest_name + nd + 2;
    if (term_cols as usize) < div {
        1
    } else {
        proof {
            vstd::arithmetic::div_mod::lemma_div_non_zero(term_cols as int, div as int);
        }
        ((term_cols as usize) / div) as u16
    }
}

/// A key event the pager understands; decoding terminal input into these
/// is the caller's business.
pub enum PagerKey {
    Down,
    Up,
    Top,
    Bottom,
    JumpBack,
    JumpForward,
    Quit,
    Cancel,
    Confirm,
    Backspace,
    Digit(char),
    Other,
}

/// What the caller should do after a key: redraw the page, do nothing,
/// finish and parse the accumulated indices, or abort the selection.
pub enum PagerAction {
    Redraw,
    Ignore,
    Finish,
    Abort,
}

/// The paginated view: the first visible row, the page height, the last
/// reachable first-row, and the index input accumulated so far.
pub struct Pager {
    pub start_row: usize,
    pub page_length: usize,
    pub final_row: usize,
    pub indices: Vec<char>,
}

impl Pager {
    /// The first visible row never passes the last reachable one.
    pub open spec fn wf(&self) -> bool {
        self.start_row <= self.final_row
    }

    /// A fresh view at the top, with nothing typed.
    pub fn new(page_length: usize, final_row: usize) -> (r: Pager)
        ensures
            r.start_row == 0,
            r.page_length == page_length,
            r.final_row == final_row,
            r.indices@.len() == 0,
            r.wf(),
    {
        Pager { start_row: 0, page_length, final_row, indices: Vec::new() }
    }

    /// What one key does to the view. Paging stays within `0 ..=
    /// final_row`; digits and spaces build up the index input and
    /// backspace edits it; confirm and quit hand the input over; cancel
    /// abandons the selection; anything else changes nothing.
    pub open spec fn step_ok(pre: Pager, post: Pager, key: PagerKey, r: PagerAction) -> bool {
        &&& post.page_length == pre.page_length
        &&& post.final_row == pre.final_row
        &&& match key {
            PagerKey::Down => post.indices@ == pre.indices@ && (if pre.start_row
                == pre.final_row {
                post.start_row == pre.start_row && r matches PagerAction::Ignore
            } else {
                post.start_row == pre.start_row + 1 && r matches PagerAction::Redraw
            }),
            PagerKey::Up => post.indices@ == pre.indices@ && (if pre.start_row == 0 {
                post.start_row == pre.start_row && r matches PagerAction::Ignore
            } else {
                post.start_row == pre.start_row - 1 && r matches PagerAction::Redraw
            }),
            PagerKey::Top => post.indices@ == pre.indices@ && post.start_row == 0 && r
                matches PagerAction::Redraw,
            PagerKey::Bottom => post.indices@ == pre.indices@ && post.start_row
                == pre.final_row && r matches PagerAction::Redraw,
            PagerKey::JumpBack => post.indices@ == pre.indices@ && post.start_row == (
            if pre.start_row >= 10 {
                pre.start_row - 10
            } else {
                0int
            }) && r matches PagerAction::Redraw,
            PagerKey::JumpForward => post.indices@ == pre.indices@ && post.start_row == (
            if pre.start_row + 10 <= pre.final_row {
                pre.start_row + 10
            } else {
                pre.final_row as int
            }) && r matches PagerAction::Redraw,
            PagerKey::Quit => post == pre && r matches PagerAction::Finish,
            PagerKey::Confirm => post == pre && r matches PagerAction::Finish,
            PagerKey::Cancel => post == pre && r matches PagerAction::Abort,
            PagerKey::Backspace => post.start_row == pre.start_row && post.indices@ == (
            if pre.indices@.len() > 0 {
                pre.indices@.drop_last()
            } else {
                pre.indices@
            }) && r matches PagerAction::Redraw,
            PagerKey::Digit(c) => post.start_row == pre.start_row && (if ('1' <= c && c <= '9')
                || c == ' ' {
                post.indices@ == pre.indices@.push(c) && r matches PagerAction::Redraw
            } else {
                post.indices@ == pre.indices@ && r matches PagerAction::Ignore
            }),
            PagerKey::Other => post == pre && r matches PagerAction::Ignore,
        }
    }

    /// One key: paging moves the first visible row within bounds, digits
    /// and spaces build up the index input, backspace edits it, confirm
    /// or quit finish, and cancel aborts.
    pub fn step(&mut self, key: PagerKey) -> (r: PagerAction)
        requires
            old(self).wf(),
        ensures
            final(self).wf(),
            Pager::step_ok(*old(self), *final(self), key, r),
    {
        match key {
            PagerKey::Down => {
                if self.start_row == self.final_row {
                    PagerAction::Ignore
                } else {
                    self.start_row = self.start_row + 1;
                    PagerAction::Redraw
                }
            },
            PagerKey::Up => {
                if self.start_row == 0 {
                    PagerAction::Ignore
                } else {
                    self.start_row = self.start_row - 1;
                    PagerAction::Redraw
                }
            },
            PagerKey::Top => {
                self.start_row = 0;
                PagerAction::Redraw
            },
            PagerKey::Bottom => {
                self.start_row = self.final_row;
                PagerAction::Redraw
            },
            PagerKey::JumpBack => {
                self.start_row = if self.start_row >= 10 {
                    self.start_row - 10
                } else {
                    0
                };
                PagerAction::Redraw
            },
            PagerKey::JumpForward => {
                self.start_row = if self.start_row <= usize::MAX - 10 && self.start_row + 10
                    <= self.final_row {
                    self.start_row + 10
                } else {
                    self.final_row
                };
                PagerAction::Redraw
            },
            PagerKey::Quit => PagerAction::Finish,
            PagerKey::Confirm => PagerAction::Finish,
            PagerKey::Cancel => PagerAction::Abort,
            PagerKey::Backspace => {
                if self.indices.len() > 0 {
                    let _ = self.indices.pop();
                }
                PagerAction::Redraw
            },
            PagerKey::Digit(c) => {
                if (c >= '1' && c <= '9') || c == ' ' {
                    self.indices.push(c);
                    PagerAction::Redraw
                } else {
                    PagerAction::Ignore
                }
            },
            PagerKey::Other => PagerAction::Ignore,
        }
    }

    /// The accumulated index input as one line.
    pub fn input_line(&self) -> (r: String)
        ensures
            r@ == self.indices@,
    {
        let mut r = String::new();
        let mut i: usize = 0;
        while i < self.indices.len()
            invariant
                0 <= i <= self.indices@.len(),
                r@ == self.indices@.take(i as int),
            decreases self.indices@.len() - i,
        {
            push_char(&mut r, self.indices[i]);
            i = i + 1;
            proof {
                assert(self.indices@.take(i as int) =~= self.indices@.take(i - 1).push(
                    self.indices@[i - 1],
                ));
            }
        }
        proof {
            assert(self.indices@.take(self.indices@.len() as int) =~= self.indices@);
        }
        r
    }
}

} // verus!
