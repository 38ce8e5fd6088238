//! One screen region with its pattern trigger and its Finding/Printing
//! state machine.
//!
//! A space starts out `Finding`. When an input line matches its trigger
//! while it is eligible, it activates: its region is optionally blanked,
//! its header is written at the top row, the shared history is replayed
//! below the header (capped at the region's rows), and the space prints
//! following lines until the region fills, when it falls back to `Finding`.

use vstd::prelude::*;
use crate::action::ActView;
use crate::action::TermAction;
use crate::action::acts_view;
use crate::action::lemma_acts_view_push;
use crate::history::HistoryBuffer;
use crate::trigger::Trigger;
use crate::trigger::regex_match;

verus! {

broadcast use lemma_acts_view_push;

/// The two states of a space: looking for a trigger match, or printing
/// lines into its region.
#[derive(Clone, Copy, PartialEq, Eq, Structural, Debug)]
pub enum SpaceState {
    Finding,
    Printing,
}

/// The mathematical shape of a space.
pub ghost struct SpaceView {
    pub start_row: int,
    pub row_count: int,
    pub pattern: Seq<char>,
    pub header: Seq<char>,
    pub state: SpaceState,
    pub cursor: int,
}

impl SpaceView {
    /// Row budget: the cursor never leaves the region, and a printing
    /// space always has a row left to print on.
    pub open spec fn wf(&self) -> bool {
        &&& self.row_count >= 1
        &&& 0 <= self.cursor <= self.row_count
        &&& (self.state is Printing ==> self.cursor < self.row_count)
        &&& 0 <= self.start_row
        &&& self.start_row + self.row_count <= usize::MAX
    }
}

/// Actions that blank every row of a region of `count` rows starting at
/// `start`.
pub open spec fn clear_region_acts(start: int, count: int) -> Seq<ActView>
    decreases count,
{
    if count <= 0 {
        Seq::empty()
    } else {
        clear_region_acts(start, count - 1)
            + seq![ActView::MoveTo(start + count - 1), ActView::ClearLine]
    }
}

/// Actions that replay the first `k` history lines onto the rows below the
/// header of the region at `start`.
pub open spec fn replay_acts(start: int, k: int, hist: Seq<Seq<char>>) -> Seq<ActView>
    decreases k,
{
    if k <= 0 {
        Seq::empty()
    } else {
        replay_acts(start, k - 1, hist)
            + seq![ActView::MoveTo(start + k), ActView::ClearLine, ActView::Write(hist[k - 1])]
    }
}

/// How many history lines an activation replays: all of them, capped at
/// the rows remaining below the header.
pub open spec fn replay_count(hist_len: int, row_count: int) -> int {
    if hist_len < row_count - 1 {
        hist_len
    } else {
        row_count - 1
    }
}

/// What activating a space does: the region is blanked when
/// `clear_on_restart` is set, the header goes to the top row, the history
/// is replayed below it, the cursor counts the written rows, and the space
/// is printing unless the replay already filled the region.
pub open spec fn spec_activate(s: SpaceView, hist: Seq<Seq<char>>, clear_on_restart: bool) -> (
    SpaceView,
    Seq<ActView>,
) {
    let k = replay_count(hist.len() as int, s.row_count);
    let acts = (if clear_on_restart {
        clear_region_acts(s.start_row, s.row_count)
    } else {
        Seq::<ActView>::empty()
    }) + seq![ActView::MoveTo(s.start_row), ActView::Write(s.header)]
        + replay_acts(s.start_row, k, hist);
    let sp = SpaceView {
        state: if 1 + k < s.row_count {
            SpaceState::Printing
        } else {
            SpaceState::Finding
        },
        cursor: 1 + k,
        ..s
    };
    (sp, acts)
}

/// The ordinary printing step: a printing space with room left writes the
/// rendered line on its next row; reaching the last row sends it back to
/// `Finding`. Any other space leaves the line alone.
pub open spec fn spec_print(s: SpaceView, rend: Seq<char>) -> (SpaceView, Seq<ActView>) {
    if s.state is Printing && s.cursor < s.row_count {
        let sp = SpaceView {
            state: if s.cursor + 1 == s.row_count {
                SpaceState::Finding
            } else {
                SpaceState::Printing
            },
            cursor: s.cursor + 1,
            ..s
        };
        (
            sp,
            seq![
                ActView::MoveTo(s.start_row + s.cursor),
                ActView::ClearLine,
                ActView::Write(rend),
            ],
        )
    } else {
        (s, Seq::<ActView>::empty())
    }
}

/// One visit of the per-line dispatch pass at one space: if an earlier
/// space activated this line (`flag`), this space is first forced back to
/// `Finding`; then the space activates if the line matches its trigger
/// while it is eligible (eligible: currently `Finding`, or
/// `restart_on_find`); finally a printing space performs the ordinary
/// printing step. Returns the space after the visit, the flag for the next
/// space, and the emitted actions. Opaque: callers reason through the
/// contracts of `Space::visit` and the dispatch lemmas.
#[verifier::opaque]
pub open spec fn spec_visit(
    s: SpaceView,
    flag: bool,
    line: Seq<char>,
    rend: Seq<char>,
    hist: Seq<Seq<char>>,
    restart_on_find: bool,
    clear_on_restart: bool,
) -> (SpaceView, bool, Seq<ActView>) {
    let s0 = if flag {
        SpaceView { state: SpaceState::Finding, ..s }
    } else {
        s
    };
    if regex_match(s.pattern, line) && (s0.state is Finding || restart_on_find) {
        let (s1, a1) = spec_activate(s0, hist, clear_on_restart);
        let (s2, a2) = spec_print(s1, rend);
        (s2, true, a1 + a2)
    } else {
        let (s2, a2) = spec_print(s0, rend);
        (s2, flag, a2)
    }
}

/// A visit changes only the state and the cursor of a space, and keeps it
/// within its row budget.
pub proof fn lemma_visit_wf(
    s: SpaceView,
    flag: bool,
    line: Seq<char>,
    rend: Seq<char>,
    hist: Seq<Seq<char>>,
    restart_on_find: bool,
    clear_on_restart: bool,
)
    requires
        s.wf(),
    ensures
        ({
            let (s2, f2, a2) = spec_visit(s, flag, line, rend, hist, restart_on_find,
                clear_on_restart);
            &&& s2.wf()
            &&& s2.start_row == s.start_row
            &&& s2.row_count == s.row_count
            &&& s2.pattern == s.pattern
            &&& s2.header == s.header
        }),
{
    reveal(spec_visit);
}

/// One screen region, its trigger, and its live state.
pub struct Space {
    start_row: usize,
    row_count: usize,
    trigger: Trigger,
    header: String,
    state: SpaceState,
    cursor_offset: usize,
}

impl View for Space {
    type V = SpaceView;

    closed spec fn view(&self) -> SpaceView {
        SpaceView {
            start_row: self.start_row as int,
            row_count: self.row_count as int,
            pattern: self.trigger@,
            header: self.header@,
            state: self.state,
            cursor: self.cursor_offset as int,
        }
    }
}

impl Space {
    /// A fresh space over the region `[start_row, start_row + row_count)`,
    /// armed with `trigger`, in the `Finding` state.
    pub fn create(start_row: usize, row_count: usize, trigger: Trigger, header: String) -> (s:
        Space)
        requires
            row_count >= 1,
            start_row + row_count <= usize::MAX,
        ensures
            s@ == (SpaceView {
                start_row: start_row as int,
                row_count: row_count as int,
                pattern: trigger@,
                header: header@,
                state: SpaceState::Finding,
                cursor: 0,
            }),
            s@.wf(),
    {
        Space { start_row, row_count, trigger, header, state: SpaceState::Finding, cursor_offset: 0 }
    }

    /// The top row of this space's region.
    pub fn start_row(&self) -> (r: usize)
        ensures
            r == self@.start_row,
    {
        self.start_row
    }

    /// How many rows this space's region spans.
    pub fn row_count(&self) -> (r: usize)
        ensures
            r == self@.row_count,
    {
        self.row_count
    }

    /// The state this space is in.
    pub fn state(&self) -> (r: SpaceState)
        ensures
            r == self@.state,
    {
        self.state
    }

    /// Rows written into the region since the space last activated.
    pub fn cursor_offset(&self) -> (r: usize)
        ensures
            r == self@.cursor,
    {
        self.cursor_offset
    }

    /// The header line of this space.
    pub fn header(&self) -> (r: &String)
        ensures
            r@ == self@.header,
    {
        &self.header
    }

    /// Emit a move of the cursor to the top row of this space's region,
    /// and return that row.
    pub fn move_to(&self, out: &mut Vec<TermAction>) -> (r: usize)
        ensures
            acts_view(final(out)@) == acts_view(old(out)@).push(ActView::MoveTo(self@.start_row)),
            r == self@.start_row,
    {
        out.push(TermAction::MoveTo(self.start_row));
        self.start_row
    }

    /// Activate this space: blank the region if asked, write the header,
    /// replay the shared history below it, and reset the cursor to the
    /// rows written.
    fn activate(&mut self, hist: &HistoryBuffer, clear_on_restart: bool, out: &mut Vec<TermAction>)
        requires
            old(self)@.wf(),
        ensures
            ({
                let (s1, a1) = spec_activate(old(self)@, hist@, clear_on_restart);
                &&& final(self)@ == s1
                &&& acts_view(final(out)@) == acts_view(old(out)@) + a1
            }),
    {
        let ghost s = self@;
        let ghost out0 = acts_view(out@);
        if clear_on_restart {
            let mut i: usize = 0;
            while i < self.row_count
                invariant
                    i <= self@.row_count,
                    self == old(self),
                    self@.wf(),
                    acts_view(out@) == out0 + clear_region_acts(self@.start_row, i as int),
                decreases self@.row_count - i,
            {
                out.push(TermAction::MoveTo(self.start_row + i));
                out.push(TermAction::ClearLine);
                proof {
                    assert(acts_view(out@) =~= out0 + clear_region_acts(
                        self@.start_row,
                        i + 1 as int,
                    ));
                }
                i = i + 1;
            }
        }
        out.push(TermAction::MoveTo(self.start_row));
        out.push(TermAction::Write(self.header.clone()));
        let ghost mid = acts_view(out@);
        proof {
            assert(mid =~= out0 + (if clear_on_restart {
                clear_region_acts(s.start_row, s.row_count)
            } else {
                Seq::<ActView>::empty()
            }) + seq![ActView::MoveTo(s.start_row), ActView::Write(s.header)]);
        }
        let snap = hist.snapshot();
        let avail = self.row_count - 1;
        let k = if snap.len() < avail {
            snap.len()
        } else {
            avail
        };
        proof {
            assert(k == replay_count(hist@.len() as int, s.row_count));
        }
        let mut j: usize = 0;
        while j < k
            invariant
                j <= k,
                k <= snap@.len(),
                crate::history::lines_view(snap@) == hist@,
                self == old(self),
                self@.wf(),
                k + 1 <= self@.row_count,
                acts_view(out@) == mid + replay_acts(self@.start_row, j as int, hist@),
            decreases k - j,
        {
            out.push(TermAction::MoveTo(self.start_row + 1 + j));
            out.push(TermAction::ClearLine);
            out.push(TermAction::Write(snap[j].clone()));
            proof {
                assert(crate::history::lines_view(snap@)[j as int] == snap@[j as int]@);
                assert(acts_view(out@) =~= mid + replay_acts(self@.start_row, j + 1 as int, hist@));
            }
            j = j + 1;
        }
        self.cursor_offset = k + 1;
        self.state = if self.cursor_offset < self.row_count {
            SpaceState::Printing
        } else {
            SpaceState::Finding
        };
        proof {
            let (s1, a1) = spec_activate(s, hist@, clear_on_restart);
            assert(acts_view(out@) =~= acts_view(old(out)@) + a1);
        }
    }

    /// Visit this space for one input line of the dispatch pass: force it
    /// back to `Finding` if an earlier space activated this line, activate
    /// it on an eligible trigger match, and let it print the rendered line
    /// if it is printing. Returns the activation flag for the next space.
    pub fn visit(
        &mut self,
        flag: bool,
        line: &str,
        rend: &String,
        hist: &HistoryBuffer,
        restart_on_find: bool,
        clear_on_restart: bool,
        out: &mut Vec<TermAction>,
    ) -> (nf: bool)
        requires
            old(self)@.wf(),
        ensures
            ({
                let (s2, f2, a2) = spec_visit(old(self)@, flag, line@, rend@, hist@,
                    restart_on_find, clear_on_restart);
                &&& final(self)@ == s2
                &&& nf == f2
                &&& acts_view(final(out)@) == acts_view(old(out)@) + a2
                &&& final(self)@.wf()
            }),
    {
        let ghost s = old(self)@;
        proof {
            reveal(spec_visit);
            lemma_visit_wf(s, flag, line@, rend@, hist@, restart_on_find, clear_on_restart);
        }
        if flag {
            self.state = SpaceState::Finding;
        }
        let matched = self.trigger.is_match(line);
        let nf;
        if matched && (self.state == SpaceState::Finding || restart_on_find) {
            self.activate(hist, clear_on_restart, out);
            nf = true;
        } else {
            nf = flag;
            proof {
                assert(acts_view(out@) =~= acts_view(old(out)@) + Seq::<ActView>::empty());
            }
        }
        if self.state == SpaceState::Printing && self.cursor_offset < self.row_count {
            let ghost pre = self@;
            let ghost base = acts_view(out@);
            out.push(TermAction::MoveTo(self.start_row + self.cursor_offset));
            out.push(TermAction::ClearLine);
            out.push(TermAction::Write(rend.clone()));
            self.cursor_offset = self.cursor_offset + 1;
            if self.cursor_offset == self.row_count {
                self.state = SpaceState::Finding;
            }
            proof {
                let (sp, ap) = spec_print(pre, rend@);
                assert(acts_view(out@) =~= base + ap);
                let (s2, f2, a2) = spec_visit(s, flag, line@, rend@, hist@, restart_on_find,
                    clear_on_restart);
                assert(acts_view(out@) =~= acts_view(old(out)@) + a2);
            }
        } else {
            proof {
                let (s2, f2, a2) = spec_visit(s, flag, line@, rend@, hist@, restart_on_find,
                    clear_on_restart);
                assert(acts_view(out@) =~= acts_view(old(out)@) + a2);
            }
        }
        nf
    }
}

} // verus!
