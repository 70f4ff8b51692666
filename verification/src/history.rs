//! Per-stream capture history: an append-only log of the lines one stream
//! emitted, in emission order. One instance exists per standard stream; the
//! capturer appends while the child runs, and the supervisor reads the log
//! only after the capturer is done.

use vstd::prelude::*;

verus! {

pub struct StreamHistory {
    lines: Vec<String>,
}

impl View for StreamHistory {
    type V = Seq<Seq<char>>;

    closed spec fn view(&self) -> Seq<Seq<char>> {
        self.lines.deep_view()
    }
}

impl StreamHistory {
    /// An empty history, created when the child is spawned.
    pub fn new() -> (r: Self)
        ensures
            r@ == Seq::<Seq<char>>::empty(),
    {
        let r = StreamHistory { lines: Vec::new() };
        proof {
            assert(r.lines.deep_view() =~= Seq::<Seq<char>>::empty());
        }
        r
    }

    /// Appends one captured line at the end; nothing already recorded moves.
    pub fn record(&mut self, line: String)
        ensures
            final(self)@ == old(self)@.push(line@),
    {
        let ghost pre = self@;
        let ghost lv = line@;
        self.lines.push(line);
        proof {
            assert(self.lines.deep_view() =~= pre.push(lv));
        }
    }

    /// A capturer that records every received line, in order, ends with
    /// exactly those lines appended after what it already held: the stream's
    /// history is the stream's output, entry for entry.
    pub fn record_all(&mut self, lines: Vec<String>)
        ensures
            final(self)@ == old(self)@ + lines.deep_view(),
    {
        let ghost all = lines.deep_view();
        let n = lines.len();
        let mut i: usize = 0;
        proof {
            assert(self@ + all.take(0) =~= self@);
        }
        while i < n
            invariant
                i <= n,
                n == all.len(),
                all == lines.deep_view(),
                self@ == old(self)@ + all.take(i as int),
            decreases n - i,
        {
            let line = lines[i].clone();
            proof {
                assert(lines.deep_view()[i as int] == lines@[i as int]@);
                assert((old(self)@ + all.take(i as int)).push(all[i as int]) =~= old(self)@
                    + all.take(i as int + 1));
            }
            self.record(line);
            i = i + 1;
        }
        proof {
            assert(all.take(n as int) =~= all);
        }
    }

    /// How many lines the stream has emitted so far.
    pub fn len(&self) -> (n: usize)
        ensures
            n == self@.len(),
    {
        self.lines.len()
    }

    pub fn is_empty(&self) -> (r: bool)
        ensures
            r == (self@.len() == 0),
    {
        self.lines.len() == 0
    }

    /// The `i`-th captured line, in emission order.
    pub fn line_at(&self, i: usize) -> (r: &String)
        requires
            i < self@.len(),
        ensures
            r@ == self@[i as int],
    {
        &self.lines[i]
    }
}

} // verus!
