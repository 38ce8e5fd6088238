//! Bounded FIFO of the most recently seen rendered lines, shared across all
//! spaces and replayed into a space when it activates.

use vstd::prelude::*;

verus! {

/// The contents of a sequence of lines as plain character sequences.
pub open spec fn lines_view(v: Seq<String>) -> Seq<Seq<char>> {
    v.map_values(|s: String| s@)
}

/// What pushing a line onto a history of capacity `cap` leaves: the line is
/// appended, and if the buffer would exceed its capacity the oldest line is
/// evicted. A capacity of zero stores nothing.
pub open spec fn hist_push(h: Seq<Seq<char>>, l: Seq<char>, cap: nat) -> Seq<Seq<char>> {
    if cap == 0 {
        h
    } else if h.len() < cap {
        h.push(l)
    } else {
        h.push(l).drop_first()
    }
}

/// The most recent `cap` entries of `all`, oldest first.
pub open spec fn recent_of(all: Seq<Seq<char>>, cap: nat) -> Seq<Seq<char>> {
    if all.len() <= cap {
        all
    } else {
        all.skip(all.len() - cap)
    }
}

/// History law: a buffer that held the most recent `cap` of the lines `all`
/// holds, after one more push, the most recent `cap` of `all` extended by
/// the pushed line — so at every point the buffer holds exactly the most
/// recently pushed lines, in arrival order, never more than `cap` of them.
pub proof fn lemma_history_tracks_recent(all: Seq<Seq<char>>, l: Seq<char>, cap: nat)
    ensures
        hist_push(recent_of(all, cap), l, cap) == recent_of(all.push(l), cap),
        recent_of(all, cap).len() <= cap,
{
    let h = recent_of(all, cap);
    if cap == 0 {
        assert(hist_push(h, l, cap) =~= recent_of(all.push(l), cap));
    } else if all.len() < cap {
        assert(hist_push(h, l, cap) =~= recent_of(all.push(l), cap));
    } else {
        assert(h.len() == cap);
        assert(hist_push(h, l, cap) =~= recent_of(all.push(l), cap));
    }
}

/// Bounded FIFO buffer of rendered lines. Its view is the sequence of held
/// lines, oldest first; it never holds more than its capacity.
pub struct HistoryBuffer {
    lines: Vec<String>,
    capacity: usize,
}

impl View for HistoryBuffer {
    type V = Seq<Seq<char>>;

    closed spec fn view(&self) -> Seq<Seq<char>> {
        lines_view(self.lines@)
    }
}

impl HistoryBuffer {
    /// The fixed capacity this buffer was built with.
    pub closed spec fn cap(&self) -> nat {
        self.capacity as nat
    }

    /// The buffer never outgrows its capacity.
    pub open spec fn wf(&self) -> bool {
        self@.len() <= self.cap()
    }

    /// An empty buffer of the given capacity.
    pub fn new(capacity: usize) -> (r: HistoryBuffer)
        ensures
            r@ == Seq::<Seq<char>>::empty(),
            r.cap() == capacity,
            r.wf(),
    {
        let r = HistoryBuffer { lines: Vec::new(), capacity };
        proof {
            assert(r@ =~= Seq::<Seq<char>>::empty());
        }
        r
    }

    /// The capacity this buffer was built with.
    pub fn capacity(&self) -> (r: usize)
        ensures
            r == self.cap(),
    {
        self.capacity
    }

    /// How many lines the buffer currently holds.
    pub fn len(&self) -> (r: usize)
        ensures
            r == self@.len(),
    {
        self.lines.len()
    }

    /// Append a rendered line, evicting the oldest line if the buffer is
    /// full. With capacity zero the buffer stays empty.
    pub fn push(&mut self, line: String)
        requires
            old(self).wf(),
        ensures
            final(self).wf(),
            final(self).cap() == old(self).cap(),
            final(self)@ == hist_push(old(self)@, line@, old(self).cap()),
    {
        if self.capacity == 0 {
            return ;
        }
        let ghost before = self.lines@;
        self.lines.push(line);
        proof {
            assert(lines_view(self.lines@) =~= lines_view(before).push(line@));
        }
        if self.lines.len() > self.capacity {
            let ghost full = self.lines@;
            self.lines.remove(0);
            proof {
                assert(lines_view(self.lines@) =~= lines_view(full).drop_first());
            }
        }
    }

    /// The current contents, oldest first, without mutating the buffer.
    pub fn snapshot(&self) -> (r: &Vec<String>)
        ensures
            lines_view(r@) == self@,
    {
        &self.lines
    }
}

} // verus!
