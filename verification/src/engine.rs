//! The display engine: partitioning of the usable terminal rows into
//! spaces, the per-line dispatch pass over them, and the shared history.
//!
//! The engine owns the ordered spaces and the history buffer. Each input
//! line is rendered once, dispatched across the spaces in trigger order
//! with a single "an activation occurred" flag, and then appended to the
//! history. The engine performs no I/O: construction and each line step
//! return the terminal actions to perform.

use vstd::arithmetic::div_mod::lemma_fundamental_div_mod;
use vstd::arithmetic::div_mod::lemma_div_non_zero;
use vstd::arithmetic::mul::lemma_mul_inequality;
use vstd::prelude::*;
use crate::action::ActView;
use crate::action::TermAction;
use crate::action::acts_view;
use crate::action::lemma_acts_view_push;
use crate::history::HistoryBuffer;
use crate::history::hist_push;
use crate::render::header_text;
use crate::render::make_header;
use crate::render::render_line;
use crate::render::rendered;
use crate::space::Space;
use crate::space::SpaceState;
use crate::space::SpaceView;
use crate::space::spec_visit;
use crate::trigger::Trigger;
use crate::trigger::regex_match;

verus! {

broadcast use lemma_acts_view_push;

/// Configuration the engine is built from: the ordered pattern triggers
/// (one per space, order is both render order and dispatch order) and the
/// behaviour flags.
pub struct Options {
    pub triggers: Vec<Trigger>,
    pub restart_on_find: bool,
    pub clear_on_restart: bool,
    pub history_lines: usize,
}

/// The views of a sequence of spaces.
pub open spec fn spaces_view(v: Seq<Space>) -> Seq<SpaceView> {
    v.map_values(|s: Space| s@)
}

/// The views of a sequence of triggers.
pub open spec fn trig_views(v: Seq<Trigger>) -> Seq<Seq<char>> {
    v.map_values(|t: Trigger| t@)
}

/// The mathematical shape of the engine.
pub ghost struct EngineView {
    pub spaces: Seq<SpaceView>,
    pub history: Seq<Seq<char>>,
    pub history_capacity: nat,
    pub restart_on_find: bool,
    pub clear_on_restart: bool,
    pub usable_rows: int,
    pub cols: int,
}

impl EngineView {
    /// Well-formedness: at least one space; every space within its row
    /// budget; the regions contiguous in order, starting at row zero and
    /// ending exactly at the last usable row; the history within its
    /// capacity.
    pub open spec fn wf(&self) -> bool {
        &&& self.cols >= 1
        &&& 1 <= self.spaces.len()
        &&& (forall|i: int| 0 <= i < self.spaces.len() ==> (#[trigger] self.spaces[i]).wf())
        &&& self.spaces[0].start_row == 0
        &&& (forall|i: int|
            #![trigger self.spaces[i], self.spaces[i + 1]]
            0 <= i < self.spaces.len() - 1 ==> self.spaces[i].start_row + self.spaces[i].row_count
                == self.spaces[i + 1].start_row)
        &&& self.spaces[self.spaces.len() - 1].start_row + self.spaces[self.spaces.len()
            - 1].row_count == self.usable_rows
        &&& self.history.len() <= self.history_capacity
    }
}

/// The actions that write the headers of the first `n` spaces, each at the
/// top row of its region.
pub open spec fn headers_acts(ss: Seq<SpaceView>, n: int) -> Seq<ActView>
    decreases n,
{
    if n <= 0 {
        Seq::empty()
    } else {
        headers_acts(ss, n - 1)
            + seq![ActView::MoveTo(ss[n - 1].start_row), ActView::Write(ss[n - 1].header)]
    }
}

/// The actions of engine startup: clear the screen, then draw every
/// space's header.
pub open spec fn startup_acts(ss: Seq<SpaceView>) -> Seq<ActView> {
    seq![ActView::ClearScreen] + headers_acts(ss, ss.len() as int)
}

/// The whole per-line dispatch pass: visit every space in order, threading
/// the activation flag, and collect the emitted actions. Opaque so that
/// callers unfold it only through `lemma_dispatch_step` and
/// `lemma_dispatch_empty`.
#[verifier::opaque]
pub open spec fn spec_dispatch(
    ss: Seq<SpaceView>,
    flag: bool,
    line: Seq<char>,
    rend: Seq<char>,
    hist: Seq<Seq<char>>,
    restart_on_find: bool,
    clear_on_restart: bool,
) -> (Seq<SpaceView>, bool, Seq<ActView>)
    decreases ss.len(),
{
    if ss.len() == 0 {
        (Seq::empty(), flag, Seq::empty())
    } else {
        let (s2, f2, a2) = spec_visit(ss[0], flag, line, rend, hist, restart_on_find,
            clear_on_restart);
        let (rs, rf, ra) = spec_dispatch(ss.drop_first(), f2, line, rend, hist, restart_on_find,
            clear_on_restart);
        (seq![s2] + rs, rf, a2 + ra)
    }
}

/// Unfolding of the dispatch pass one space at a time: dispatching the
/// suffix from position `i` visits the space at `i` and then dispatches
/// the suffix from `i + 1` with the flag the visit returned.
pub proof fn lemma_dispatch_step(
    ss: Seq<SpaceView>,
    i: int,
    flag: bool,
    line: Seq<char>,
    rend: Seq<char>,
    hist: Seq<Seq<char>>,
    restart_on_find: bool,
    clear_on_restart: bool,
)
    requires
        0 <= i < ss.len(),
    ensures
        ({
            let (s2, f2, a2) = spec_visit(ss[i], flag, line, rend, hist, restart_on_find,
                clear_on_restart);
            let rest = spec_dispatch(ss.skip(i), flag, line, rend, hist, restart_on_find,
                clear_on_restart);
            let rest1 = spec_dispatch(ss.skip(i + 1), f2, line, rend, hist, restart_on_find,
                clear_on_restart);
            &&& rest.0 == seq![s2] + rest1.0
            &&& rest.1 == rest1.1
            &&& rest.2 == a2 + rest1.2
        }),
{
    reveal(spec_dispatch);
    assert(ss.skip(i)[0] == ss[i]);
    assert(ss.skip(i).len() > 0);
    assert(ss.skip(i).drop_first() =~= ss.skip(i + 1));
}

/// Dispatching no spaces changes nothing and emits nothing.
pub proof fn lemma_dispatch_empty(
    ss: Seq<SpaceView>,
    flag: bool,
    line: Seq<char>,
    rend: Seq<char>,
    hist: Seq<Seq<char>>,
    restart_on_find: bool,
    clear_on_restart: bool,
)
    requires
        ss.len() == 0,
    ensures
        spec_dispatch(ss, flag, line, rend, hist, restart_on_find, clear_on_restart) == (
        Seq::<SpaceView>::empty(),
        flag,
        Seq::<ActView>::empty(),
        ),
{
    reveal(spec_dispatch);
}

/// One step of the dispatch loop: if the dispatch of the whole space list
/// decomposes at position `i` into the done prefix `cur0.take(i)` and the
/// pending suffix, and one visit of the space at `i` turns `cur0` into
/// `cur1` and extends the emitted actions by that visit's, then the
/// dispatch decomposes at `i + 1` as well.
pub proof fn lemma_inv_step(
    pre: EngineView,
    cur0: Seq<SpaceView>,
    cur1: Seq<SpaceView>,
    out0: Seq<ActView>,
    out1: Seq<ActView>,
    flag0: bool,
    flag1: bool,
    i: int,
    line: Seq<char>,
    rend: Seq<char>,
)
    requires
        0 <= i < pre.spaces.len(),
        cur0.len() == pre.spaces.len(),
        cur1.len() == pre.spaces.len(),
        forall|j: int| 0 <= j < pre.spaces.len() && j != i ==> cur1[j] == cur0[j],
        ({
            let (s2, f2, a2) = spec_visit(pre.spaces[i], flag0, line, rend, pre.history,
                pre.restart_on_find, pre.clear_on_restart);
            &&& cur1[i] == s2
            &&& flag1 == f2
            &&& out1 == out0 + a2
        }),
        ({
            let total = spec_dispatch(pre.spaces, false, line, rend, pre.history,
                pre.restart_on_find, pre.clear_on_restart);
            let rest = spec_dispatch(pre.spaces.skip(i), flag0, line, rend, pre.history,
                pre.restart_on_find, pre.clear_on_restart);
            &&& total.0 == cur0.take(i) + rest.0
            &&& total.1 == rest.1
            &&& total.2 == out0 + rest.2
        }),
    ensures
        ({
            let total = spec_dispatch(pre.spaces, false, line, rend, pre.history,
                pre.restart_on_find, pre.clear_on_restart);
            let rest1 = spec_dispatch(pre.spaces.skip(i + 1), flag1, line, rend, pre.history,
                pre.restart_on_find, pre.clear_on_restart);
            &&& total.0 == cur1.take(i + 1) + rest1.0
            &&& total.1 == rest1.1
            &&& total.2 == out1 + rest1.2
        }),
{
    lemma_dispatch_step(pre.spaces, i, flag0, line, rend, pre.history, pre.restart_on_find,
        pre.clear_on_restart);
    let (s2, f2, a2) = spec_visit(pre.spaces[i], flag0, line, rend, pre.history,
        pre.restart_on_find, pre.clear_on_restart);
    let total = spec_dispatch(pre.spaces, false, line, rend, pre.history, pre.restart_on_find,
        pre.clear_on_restart);
    let rest1 = spec_dispatch(pre.spaces.skip(i + 1), flag1, line, rend, pre.history,
        pre.restart_on_find, pre.clear_on_restart);
    assert(cur1.take(i + 1) =~= cur0.take(i) + seq![s2]);
    assert(total.0 =~= cur1.take(i + 1) + rest1.0);
    assert(total.2 =~= out1 + rest1.2);
}

/// The row each planned region starts at: equal shares of `per` rows.
pub open spec fn planned_start(i: int, per: int) -> int {
    i * per
}

/// The rows each planned region spans: `per` each, the remainder absorbed
/// by the last region.
pub open spec fn planned_count(i: int, n: int, per: int, rows: int) -> int {
    if i < n - 1 {
        per
    } else {
        rows - (n - 1) * per
    }
}

/// The rows all the spaces' regions span together.
pub open spec fn total_rows(ss: Seq<SpaceView>) -> int
    decreases ss.len(),
{
    if ss.len() == 0 {
        0
    } else {
        total_rows(ss.drop_last()) + ss.last().row_count
    }
}

/// In a contiguous run of regions the spanned rows are exactly the gap
/// between the first region's start and the last region's end.
proof fn lemma_total_rows_contiguous(ss: Seq<SpaceView>)
    requires
        ss.len() >= 1,
        forall|i: int|
            #![trigger ss[i], ss[i + 1]]
            0 <= i < ss.len() - 1 ==> ss[i].start_row + ss[i].row_count == ss[i + 1].start_row,
    ensures
        total_rows(ss) == ss.last().start_row + ss.last().row_count - ss[0].start_row,
    decreases ss.len(),
{
    if ss.len() == 1 {
        assert(ss.drop_last().len() == 0);
        assert(total_rows(ss.drop_last()) == 0);
        assert(ss.last() == ss[0]);
    } else {
        let p = ss.drop_last();
        assert forall|i: int|
            #![trigger p[i], p[i + 1]]
            0 <= i < p.len() - 1 implies p[i].start_row + p[i].row_count == p[i
            + 1].start_row by {
            assert(p[i] == ss[i]);
            assert(p[i + 1] == ss[i + 1]);
        }
        lemma_total_rows_contiguous(p);
        assert(p.last() == ss[ss.len() - 2]);
        assert(p[0] == ss[0]);
        assert(ss[ss.len() - 2 + 1] == ss[ss.len() - 1]);
        assert(ss[ss.len() - 2].start_row + ss[ss.len() - 2].row_count == ss[ss.len()
            - 1].start_row);
    }
}

/// One region ends at or before a later one begins.
proof fn lemma_region_chain(v: EngineView, i: int, j: int)
    requires
        v.wf(),
        0 <= i < j < v.spaces.len(),
    ensures
        v.spaces[i].start_row + v.spaces[i].row_count <= v.spaces[j].start_row,
    decreases j - i,
{
    if j == i + 1 {
        assert(v.spaces[i + 1] == v.spaces[j]);
    } else {
        lemma_region_chain(v, i, j - 1);
        assert(v.spaces[j - 1 + 1] == v.spaces[j]);
    }
}

/// Partition law: in a well-formed engine the spaces' regions are
/// pairwise disjoint (in configuration order, each ends at or before the
/// next begins), contiguous from row zero, and together cover the usable
/// rows exactly.
pub proof fn lemma_partition(v: EngineView)
    requires
        v.wf(),
    ensures
        forall|i: int, j: int|
            0 <= i < j < v.spaces.len() ==> (#[trigger] v.spaces[i]).start_row
                + v.spaces[i].row_count <= (#[trigger] v.spaces[j]).start_row,
        total_rows(v.spaces) == v.usable_rows,
{
    assert forall|i: int, j: int|
        0 <= i < j < v.spaces.len() implies (#[trigger] v.spaces[i]).start_row
        + v.spaces[i].row_count <= (#[trigger] v.spaces[j]).start_row by {
        lemma_region_chain(v, i, j);
    }
    lemma_total_rows_contiguous(v.spaces);
}

/// Row-budget law: in a well-formed engine every space's cursor lies
/// within its region, and a printing space always has a row left — a
/// space whose cursor has reached its last row has fallen back to
/// `Finding`.
pub proof fn lemma_row_budget(v: EngineView)
    requires
        v.wf(),
    ensures
        forall|i: int|
            0 <= i < v.spaces.len() ==> 0 <= (#[trigger] v.spaces[i]).cursor
                <= v.spaces[i].row_count,
        forall|i: int|
            0 <= i < v.spaces.len() ==> ((#[trigger] v.spaces[i]).state is Printing
                ==> v.spaces[i].cursor < v.spaces[i].row_count),
{
}

/// Whether the line matches the trigger of the space at `i`.
pub open spec fn matches_at(ss: Seq<SpaceView>, line: Seq<char>, i: int) -> bool {
    regex_match(ss[i].pattern, line)
}

/// How many of the spaces are printing.
pub open spec fn count_printing(ss: Seq<SpaceView>) -> int
    decreases ss.len(),
{
    if ss.len() == 0 {
        0
    } else {
        (if ss[0].state is Printing {
            1int
        } else {
            0int
        }) + count_printing(ss.drop_first())
    }
}

/// Prepending one space adds its own contribution to the printing count.
proof fn lemma_count_cons(x: SpaceView, r: Seq<SpaceView>)
    ensures
        count_printing(seq![x] + r) == (if x.state is Printing {
            1int
        } else {
            0int
        }) + count_printing(r),
{
    assert((seq![x] + r).drop_first() =~= r);
    assert((seq![x] + r)[0] == x);
}

/// Induction behind the at-most-one-active law, generalised over the
/// incoming flag: with the flag raised and no match left, every remaining
/// space is forced back to `Finding`; with the flag down, the side
/// conditions keep the printing count at one or below.
proof fn lemma_dispatch_printing(
    ss: Seq<SpaceView>,
    flag: bool,
    line: Seq<char>,
    rend: Seq<char>,
    hist: Seq<Seq<char>>,
    restart_on_find: bool,
    clear_on_restart: bool,
)
    requires
        flag ==> (forall|i: int| 0 <= i < ss.len() ==> !matches_at(ss, line, i)),
        !flag ==> (forall|i: int, j: int|
            0 <= i < ss.len() && 0 <= j < ss.len() && matches_at(ss, line, i) && matches_at(ss,
            line, j) ==> i == j),
        !flag ==> (forall|i: int, j: int|
            0 <= i < ss.len() && 0 <= j < ss.len() && (#[trigger] ss[i]).state is Printing && (
            #[trigger] ss[j]).state is Printing ==> i == j),
        !flag ==> (forall|i: int, j: int|
            #![trigger matches_at(ss, line, i), ss[j]]
            0 <= i < ss.len() && 0 <= j < ss.len() && matches_at(ss, line, i)
                && ss[j].state is Printing ==> i <= j),
    ensures
        flag ==> count_printing(
            spec_dispatch(ss, flag, line, rend, hist, restart_on_find, clear_on_restart).0,
        ) == 0,
        !flag ==> count_printing(
            spec_dispatch(ss, flag, line, rend, hist, restart_on_find, clear_on_restart).0,
        ) <= 1,
        (!flag && (forall|i: int| 0 <= i < ss.len() ==> !matches_at(ss, line, i)) && (forall|i: int|
            0 <= i < ss.len() ==> !((#[trigger] ss[i]).state is Printing))) ==> count_printing(
            spec_dispatch(ss, flag, line, rend, hist, restart_on_find, clear_on_restart).0,
        ) == 0,
    decreases ss.len(),
{
    reveal(spec_dispatch);
    reveal(spec_visit);
    if ss.len() == 0 {
    } else {
        let (s2, f2, a2) = spec_visit(ss[0], flag, line, rend, hist, restart_on_find,
            clear_on_restart);
        let tail = ss.drop_first();
        assert(forall|k: int| 0 <= k < tail.len() ==> tail[k] == ss[k + 1]);
        let rest = spec_dispatch(tail, f2, line, rend, hist, restart_on_find, clear_on_restart);
        lemma_count_cons(s2, rest.0);
        if flag {
            assert(!matches_at(ss, line, 0));
            assert(!(s2.state is Printing));
            assert(f2);
            assert forall|k: int| 0 <= k < tail.len() implies !matches_at(tail, line, k) by {
                assert(!matches_at(ss, line, k + 1));
            }
            lemma_dispatch_printing(tail, f2, line, rend, hist, restart_on_find, clear_on_restart);
        } else if regex_match(ss[0].pattern, line) {
            assert(matches_at(ss, line, 0));
            assert forall|k: int| 0 <= k < tail.len() implies !matches_at(tail, line, k) by {
                if matches_at(tail, line, k) {
                    assert(matches_at(ss, line, k + 1));
                }
            }
            if ss[0].state is Finding || restart_on_find {
                assert(f2);
                lemma_dispatch_printing(tail, f2, line, rend, hist, restart_on_find,
                    clear_on_restart);
            } else {
                assert(!f2);
                assert(ss[0].state is Printing);
                assert forall|k: int| 0 <= k < tail.len() implies !(
                (#[trigger] tail[k]).state is Printing) by {
                    if tail[k].state is Printing {
                        assert(ss[k + 1].state is Printing);
                    }
                }
                lemma_dispatch_printing(tail, f2, line, rend, hist, restart_on_find,
                    clear_on_restart);
            }
        } else {
            assert(!f2);
            if ss[0].state is Printing {
                assert forall|k: int| 0 <= k < tail.len() implies !(
                (#[trigger] tail[k]).state is Printing) by {
                    if tail[k].state is Printing {
                        assert(ss[k + 1].state is Printing);
                    }
                }
                assert forall|k: int| 0 <= k < tail.len() implies !matches_at(tail, line, k) by {
                    if matches_at(tail, line, k) {
                        assert(matches_at(ss, line, k + 1));
                        assert(ss[0].state is Printing);
                        assert(k + 1 <= 0);
                    }
                }
                lemma_dispatch_printing(tail, f2, line, rend, hist, restart_on_find,
                    clear_on_restart);
            } else {
                assert(!(s2.state is Printing));
                if (forall|i: int| 0 <= i < ss.len() ==> !matches_at(ss, line, i)) && (forall|
                i: int,
                |
                    0 <= i < ss.len() ==> !((#[trigger] ss[i]).state is Printing)) {
                    assert forall|k: int| 0 <= k < tail.len() implies !matches_at(
                        tail,
                        line,
                        k,
                    ) by {
                        assert(!matches_at(ss, line, k + 1));
                    }
                    assert forall|k: int| 0 <= k < tail.len() implies !(
                    (#[trigger] tail[k]).state is Printing) by {
                        assert(!(ss[k + 1].state is Printing));
                    }
                }
                assert forall|k1: int, k2: int|
                    0 <= k1 < tail.len() && 0 <= k2 < tail.len() && matches_at(tail, line, k1)
                        && matches_at(tail, line, k2) implies k1 == k2 by {
                    if matches_at(tail, line, k1) && matches_at(tail, line, k2) {
                        assert(matches_at(ss, line, k1 + 1));
                        assert(matches_at(ss, line, k2 + 1));
                    }
                }
                assert forall|k1: int, k2: int|
                    #![trigger matches_at(tail, line, k1), tail[k2]]
                    0 <= k1 < tail.len() && 0 <= k2 < tail.len() && matches_at(tail, line, k1)
                        && tail[k2].state is Printing implies k1 <= k2 by {
                    if matches_at(tail, line, k1) && tail[k2].state is Printing {
                        assert(matches_at(ss, line, k1 + 1));
                        assert(ss[k2 + 1].state is Printing);
                    }
                }
                lemma_dispatch_printing(tail, f2, line, rend, hist, restart_on_find,
                    clear_on_restart);
            }
        }
    }
}

/// At-most-one-active law: when at most one space's trigger matches the
/// line, at most one space is printing as the line arrives, and no
/// matching space stands after a printing one in dispatch order, then
/// after the dispatch pass at most one space is printing. (A line matched
/// by several triggers activates each of them; and a space that activates
/// cannot reach back to deactivate a printing space visited before it —
/// both inherent to the single sequential pass.)
pub proof fn lemma_at_most_one_printing(
    ss: Seq<SpaceView>,
    line: Seq<char>,
    rend: Seq<char>,
    hist: Seq<Seq<char>>,
    restart_on_find: bool,
    clear_on_restart: bool,
)
    requires
        forall|i: int, j: int|
            0 <= i < ss.len() && 0 <= j < ss.len() && matches_at(ss, line, i) && matches_at(ss,
            line, j) ==> i == j,
        forall|i: int, j: int|
            0 <= i < ss.len() && 0 <= j < ss.len() && (#[trigger] ss[i]).state is Printing && (
            #[trigger] ss[j]).state is Printing ==> i == j,
        forall|i: int, j: int|
            #![trigger matches_at(ss, line, i), ss[j]]
            0 <= i < ss.len() && 0 <= j < ss.len() && matches_at(ss, line, i)
                && ss[j].state is Printing ==> i <= j,
    ensures
        count_printing(
            spec_dispatch(ss, false, line, rend, hist, restart_on_find, clear_on_restart).0,
        ) <= 1,
{
    lemma_dispatch_printing(ss, false, line, rend, hist, restart_on_find, clear_on_restart);
}

/// Partition the usable rows over the triggers, in order: each space gets
/// an equal share of the rows, the remainder going to the last one; every
/// space starts out `Finding` with its header precomputed.
fn build_spaces(triggers: Vec<Trigger>, usable_rows: usize, cols: usize) -> (spaces: Vec<Space>)
    requires
        1 <= triggers@.len() <= usable_rows,
        cols >= 1,
    ensures
        spaces@.len() == triggers@.len(),
        forall|j: int|
            0 <= j < triggers@.len() ==> (#[trigger] spaces@[j])@ == (SpaceView {
                start_row: planned_start(j, usable_rows as int / triggers@.len() as int),
                row_count: planned_count(j, triggers@.len() as int, usable_rows as int
                    / triggers@.len() as int, usable_rows as int),
                pattern: trig_views(triggers@)[j],
                header: header_text(trig_views(triggers@)[j], cols as int),
                state: SpaceState::Finding,
                cursor: 0,
            }),
{
    let mut triggers = triggers;
    let ghost all_trigs = triggers@;
    let n = triggers.len();
    let per = usable_rows / n;
    proof {
        lemma_div_non_zero(usable_rows as int, n as int);
        lemma_fundamental_div_mod(usable_rows as int, n as int);
        assert(n as int * per as int <= usable_rows as int);
    }
    let mut spaces: Vec<Space> = Vec::new();
    let mut next: usize = 0;
    let mut i: usize = 0;
    while i < n
        invariant
            i <= n,
            1 <= n <= usable_rows,
            cols >= 1,
            per == usable_rows as int / n as int,
            per >= 1,
            n as int * per as int <= usable_rows as int,
            all_trigs.len() == n,
            triggers@ == all_trigs.skip(i as int),
            spaces@.len() == i,
            next as int == if i < n {
                i as int * per as int
            } else {
                usable_rows as int
            },
            forall|j: int|
                0 <= j < i ==> (#[trigger] spaces@[j])@ == (SpaceView {
                    start_row: planned_start(j, per as int),
                    row_count: planned_count(j, n as int, per as int, usable_rows as int),
                    pattern: trig_views(all_trigs)[j],
                    header: header_text(trig_views(all_trigs)[j], cols as int),
                    state: SpaceState::Finding,
                    cursor: 0,
                }),
        decreases n - i,
    {
        proof {
            lemma_mul_inequality(i as int, n as int, per as int);
            lemma_mul_inequality(i as int + 1, n as int, per as int);
            assert((i as int + 1) * per as int == i as int * per as int + per as int)
                by (nonlinear_arith);
            assert(all_trigs.skip(i as int)[0] == all_trigs[i as int]);
            assert(all_trigs.skip(i as int).remove(0) =~= all_trigs.skip(i as int + 1));
            assert(trig_views(all_trigs)[i as int] == all_trigs[i as int]@);
        }
        let t = triggers.remove(0);
        let header = make_header(t.pattern_str(), cols);
        let count = if i + 1 == n {
            proof {
                assert((n as int - 1) * per as int + per as int == n as int * per as int)
                    by (nonlinear_arith);
            }
            usable_rows - next
        } else {
            per
        };
        let sp = Space::create(next, count, t, header);
        spaces.push(sp);
        next = next + count;
        i = i + 1;
    }
    spaces
}

/// Spaces laid out by the planned partition are well formed and contiguous
/// from row zero to the last usable row.
proof fn lemma_planned_partition_wf(ss: Seq<SpaceView>, n: int, rows: int)
    requires
        1 <= n <= rows <= usize::MAX,
        ss.len() == n,
        forall|j: int|
            0 <= j < n ==> {
                &&& (#[trigger] ss[j]).start_row == planned_start(j, rows / n)
                &&& ss[j].row_count == planned_count(j, n, rows / n, rows)
                &&& ss[j].cursor == 0
                &&& !(ss[j].state is Printing)
            },
    ensures
        forall|j: int| 0 <= j < n ==> (#[trigger] ss[j]).wf(),
        ss[0].start_row == 0,
        forall|j: int|
            #![trigger ss[j], ss[j + 1]]
            0 <= j < n - 1 ==> ss[j].start_row + ss[j].row_count == ss[j + 1].start_row,
        ss[n - 1].start_row + ss[n - 1].row_count == rows,
{
    let per = rows / n;
    lemma_div_non_zero(rows, n);
    lemma_fundamental_div_mod(rows, n);
    assert(n * per <= rows);
    assert(0 * per == 0) by (nonlinear_arith);
    assert((n - 1) * per + per == n * per) by (nonlinear_arith);
    assert forall|j: int|
        #![trigger ss[j], ss[j + 1]]
        0 <= j < n - 1 implies ss[j].start_row + ss[j].row_count == ss[j + 1].start_row by {
        assert((j + 1) * per == j * per + per) by (nonlinear_arith);
    }
    assert forall|j: int| 0 <= j < n implies (#[trigger] ss[j]).wf() by {
        lemma_mul_inequality(j + 1, n, per);
        assert((j + 1) * per == j * per + per) by (nonlinear_arith);
    }
}

/// The display engine. Its view carries the spaces, the history and the
/// configuration; `wf` is established at construction and preserved by
/// every line step.
pub struct DisplayEngine {
    spaces: Vec<Space>,
    history: HistoryBuffer,
    restart_on_find: bool,
    clear_on_restart: bool,
    usable_rows: usize,
    cols: usize,
}

impl View for DisplayEngine {
    type V = EngineView;

    closed spec fn view(&self) -> EngineView {
        EngineView {
            spaces: spaces_view(self.spaces@),
            history: self.history@,
            history_capacity: self.history.cap(),
            restart_on_find: self.restart_on_find,
            clear_on_restart: self.clear_on_restart,
            usable_rows: self.usable_rows as int,
            cols: self.cols as int,
        }
    }
}

impl DisplayEngine {
    /// Build the engine: partition the usable rows over the triggers in
    /// order — equal shares, the remainder going to the last space — and
    /// return it together with the startup actions (clear the screen, draw
    /// every header once). Every space starts out `Finding` with an empty
    /// shared history.
    pub fn new(opts: Options, usable_rows: usize, cols: usize) -> (r: (DisplayEngine, Vec<
        TermAction,
    >))
        requires
            1 <= opts.triggers@.len() <= usable_rows,
            cols >= 1,
        ensures
            ({
                let n = opts.triggers@.len() as int;
                let per = usable_rows as int / n;
                let v = r.0@;
                &&& v.wf()
                &&& v.spaces.len() == n
                &&& (forall|i: int|
                    0 <= i < n ==> (#[trigger] v.spaces[i]) == (SpaceView {
                        start_row: planned_start(i, per),
                        row_count: planned_count(i, n, per, usable_rows as int),
                        pattern: trig_views(opts.triggers@)[i],
                        header: header_text(trig_views(opts.triggers@)[i], cols as int),
                        state: SpaceState::Finding,
                        cursor: 0,
                    }))
                &&& v.history == Seq::<Seq<char>>::empty()
                &&& v.history_capacity == opts.history_lines
                &&& v.restart_on_find == opts.restart_on_find
                &&& v.clear_on_restart == opts.clear_on_restart
                &&& v.usable_rows == usable_rows
                &&& v.cols == cols
                &&& acts_view(r.1@) == startup_acts(v.spaces)
            }),
    {
        let Options { triggers, restart_on_find, clear_on_restart, history_lines } = opts;
        let ghost all_trigs = triggers@;
        let n = triggers.len();
        let spaces = build_spaces(triggers, usable_rows, cols);
        let history = HistoryBuffer::new(history_lines);
        let engine = DisplayEngine {
            spaces,
            history,
            restart_on_find,
            clear_on_restart,
            usable_rows,
            cols,
        };
        proof {
            lemma_planned_partition_wf(engine@.spaces, n as int, usable_rows as int);
            assert(engine@.wf());
        }
        let mut out: Vec<TermAction> = Vec::new();
        out.push(TermAction::ClearScreen);
        proof {
            assert(acts_view(out@) =~= seq![ActView::ClearScreen] + headers_acts(
                engine@.spaces,
                0,
            ));
        }
        let mut i: usize = 0;
        while i < n
            invariant
                i <= n,
                n == engine@.spaces.len(),
                acts_view(out@) == seq![ActView::ClearScreen] + headers_acts(
                    engine@.spaces,
                    i as int,
                ),
            decreases n - i,
        {
            let _row = engine.spaces[i].move_to(&mut out);
            out.push(TermAction::Write(engine.spaces[i].header().clone()));
            proof {
                assert(acts_view(out@) =~= seq![ActView::ClearScreen] + headers_acts(
                    engine@.spaces,
                    i + 1 as int,
                ));
            }
            i = i + 1;
        }
        proof {
            assert(acts_view(out@) == startup_acts(engine@.spaces));
        }
        (engine, out)
    }

    /// Dispatch one input line: render it once, visit every space in order
    /// (forcing spaces after a fresh activation back to `Finding`,
    /// activating on eligible trigger matches, printing into printing
    /// spaces), then append the rendered line to the shared history.
    /// Returns the terminal actions this line caused.
    #[verifier::rlimit(100)]
    pub fn process_line(&mut self, line: &str) -> (out: Vec<TermAction>)
        requires
            old(self)@.wf(),
        ensures
            final(self)@.wf(),
            ({
                let r = rendered(line@, old(self)@.cols);
                let (ss, f, acts) = spec_dispatch(old(self)@.spaces, false, line@, r,
                    old(self)@.history, old(self)@.restart_on_find, old(self)@.clear_on_restart);
                &&& final(self)@.spaces == ss
                &&& acts_view(out@) == acts
                &&& final(self)@.history == hist_push(old(self)@.history, r,
                    old(self)@.history_capacity)
                &&& final(self)@.history_capacity == old(self)@.history_capacity
                &&& final(self)@.restart_on_find == old(self)@.restart_on_find
                &&& final(self)@.clear_on_restart == old(self)@.clear_on_restart
                &&& final(self)@.usable_rows == old(self)@.usable_rows
                &&& final(self)@.cols == old(self)@.cols
            }),
    {
        let ghost pre = self@;
        let ghost line_v = line@;
        let ghost rend_v = rendered(line@, pre.cols);
        let rend = render_line(line, self.cols);
        let mut out: Vec<TermAction> = Vec::new();
        let n = self.spaces.len();
        let mut flag = false;
        proof {
            let total = spec_dispatch(pre.spaces, false, line_v, rend_v, pre.history,
                pre.restart_on_find, pre.clear_on_restart);
            assert(pre.spaces.skip(0) =~= pre.spaces);
            assert(spaces_view(self.spaces@).take(0) =~= Seq::<SpaceView>::empty());
            assert(acts_view(out@) =~= Seq::<ActView>::empty());
            assert(Seq::<SpaceView>::empty() + total.0 =~= total.0);
            assert(Seq::<ActView>::empty() + total.2 =~= total.2);
        }
        let mut i: usize = 0;
        while i < n
            invariant
                i <= n,
                n == self.spaces@.len(),
                line@ == line_v,
                rend@ == rend_v,
                self.history == old(self).history,
                self.restart_on_find == old(self).restart_on_find,
                self.clear_on_restart == old(self).clear_on_restart,
                self.usable_rows == old(self).usable_rows,
                self.cols == old(self).cols,
                pre == old(self)@,
                pre.wf(),
                rend_v == rendered(line_v, pre.cols),
                pre.spaces.len() == n,
                forall|j: int| i <= j < n ==> self.spaces@[j] == old(self).spaces@[j],
                forall|j: int| 0 <= j < i ==> (#[trigger] self.spaces@[j])@.wf(),
                forall|j: int|
                    0 <= j < i ==> {
                        &&& (#[trigger] self.spaces@[j])@.start_row == pre.spaces[j].start_row
                        &&& self.spaces@[j]@.row_count == pre.spaces[j].row_count
                        &&& self.spaces@[j]@.pattern == pre.spaces[j].pattern
                        &&& self.spaces@[j]@.header == pre.spaces[j].header
                    },
                ({
                    let total = spec_dispatch(pre.spaces, false, line_v, rend_v, pre.history,
                        pre.restart_on_find, pre.clear_on_restart);
                    let rest = spec_dispatch(pre.spaces.skip(i as int), flag, line_v, rend_v,
                        pre.history, pre.restart_on_find, pre.clear_on_restart);
                    &&& total.0 == spaces_view(self.spaces@).take(i as int) + rest.0
                    &&& total.1 == rest.1
                    &&& total.2 == acts_view(out@) + rest.2
                }),
            decreases n - i,
        {
            proof {
                assert(spaces_view(self.spaces@)[i as int] == self.spaces@[i as int]@);
                assert(self.spaces@[i as int]@ == pre.spaces[i as int]);
                assert(self.spaces@[i as int]@.wf());
            }
            let ghost spaces_before = spaces_view(self.spaces@);
            let ghost out_before = acts_view(out@);
            let ghost flag_before = flag;
            flag = self.spaces[i].visit(
                flag,
                line,
                &rend,
                &self.history,
                self.restart_on_find,
                self.clear_on_restart,
                &mut out,
            );
            proof {
                crate::space::lemma_visit_wf(pre.spaces[i as int], flag_before, line_v, rend_v,
                    pre.history, pre.restart_on_find, pre.clear_on_restart);
                assert(forall|j: int|
                    0 <= j < n && j != i ==> spaces_view(self.spaces@)[j] == spaces_before[j]);
                lemma_inv_step(pre, spaces_before, spaces_view(self.spaces@), out_before,
                    acts_view(out@), flag_before, flag, i as int, line_v, rend_v);
            }
            i = i + 1;
        }
        proof {
            assert(pre.spaces.skip(n as int) =~= Seq::<SpaceView>::empty());
            lemma_dispatch_empty(pre.spaces.skip(n as int), flag, line_v, rend_v, pre.history,
                pre.restart_on_find, pre.clear_on_restart);
            let total = spec_dispatch(pre.spaces, false, line_v, rend_v, pre.history,
                pre.restart_on_find, pre.clear_on_restart);
            assert(total.0 =~= spaces_view(self.spaces@).take(n as int));
            assert(spaces_view(self.spaces@).take(n as int) =~= spaces_view(self.spaces@));
            assert(total.2 =~= acts_view(out@));
        }
        self.history.push(rend);
        proof {
            assert(self@.wf());
        }
        out
    }

    /// How many spaces the engine drives.
    pub fn space_count(&self) -> (r: usize)
        ensures
            r == self@.spaces.len(),
    {
        self.spaces.len()
    }

    /// The top row of space `i`'s region.
    pub fn space_start(&self, i: usize) -> (r: usize)
        requires
            i < self@.spaces.len(),
        ensures
            r == self@.spaces[i as int].start_row,
    {
        self.spaces[i].start_row()
    }

    /// The rows space `i`'s region spans.
    pub fn space_rows(&self, i: usize) -> (r: usize)
        requires
            i < self@.spaces.len(),
        ensures
            r == self@.spaces[i as int].row_count,
    {
        self.spaces[i].row_count()
    }

    /// The state space `i` is in.
    pub fn space_state(&self, i: usize) -> (r: SpaceState)
        requires
            i < self@.spaces.len(),
        ensures
            r == self@.spaces[i as int].state,
    {
        self.spaces[i].state()
    }

    /// Rows written into space `i`'s region since it last activated.
    pub fn space_cursor(&self, i: usize) -> (r: usize)
        requires
            i < self@.spaces.len(),
        ensures
            r == self@.spaces[i as int].cursor,
    {
        self.spaces[i].cursor_offset()
    }

    /// How many lines the shared history holds.
    pub fn history_len(&self) -> (r: usize)
        ensures
            r == self@.history.len(),
    {
        self.history.len()
    }
}

} // verus!
