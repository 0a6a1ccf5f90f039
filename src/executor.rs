//! Admission of commands into a bounded set of running units.
//!
//! Every admitted command gets a fresh ticket; its unit returns the ticket
//! when it has delivered its result. At most `limit` units run at once, and
//! closing the inbound source stops admission without touching running units.
use vstd::prelude::*;

verus! {

/// The state of the admission: the bound, the next ticket, the tickets of
/// running units in order of admission, and whether the source is closed.
pub struct ExecutorView {
    pub limit: nat,
    pub next: nat,
    pub running: Seq<u64>,
    pub closed: bool,
}

/// Tickets are distinct and already handed out, and no more run than the bound.
pub open spec fn inv(v: ExecutorView) -> bool {
    &&& v.running.no_duplicates()
    &&& forall|i: int| 0 <= i < v.running.len() ==> #[trigger] v.running[i] < v.next
    &&& v.running.len() <= v.limit
    &&& v.next <= u64::MAX
}

/// A new command may start now.
pub open spec fn can_admit(v: ExecutorView) -> bool {
    !v.closed && v.running.len() < v.limit && v.next < u64::MAX
}

/// The state once a command has started under the ticket `v.next`.
pub open spec fn after_admit(v: ExecutorView) -> ExecutorView {
    ExecutorView { next: v.next + 1, running: v.running.push(v.next as u64), ..v }
}

/// Where `t` stands among the running tickets.
pub open spec fn position(s: Seq<u64>, t: u64) -> int {
    choose|i: int| 0 <= i < s.len() && s[i] == t
}

/// The state once the unit with ticket `t` has delivered its result.
pub open spec fn after_finish(v: ExecutorView, t: u64) -> ExecutorView {
    if v.running.contains(t) {
        ExecutorView { running: v.running.remove(position(v.running, t)), ..v }
    } else {
        v
    }
}

/// The state once the inbound source is closed.
pub open spec fn after_close(v: ExecutorView) -> ExecutorView {
    ExecutorView { closed: true, ..v }
}

/// The source is closed and every unit has delivered.
pub open spec fn drained(v: ExecutorView) -> bool {
    v.closed && v.running.len() == 0
}

/// The state once the units with tickets `ts` have finished, in that order.
pub open spec fn finish_all(v: ExecutorView, ts: Seq<u64>) -> ExecutorView
    decreases ts.len(),
{
    if ts.len() == 0 {
        v
    } else {
        finish_all(after_finish(v, ts[0]), ts.skip(1))
    }
}

/// Each finish in the order `ts` is of a unit still running.
pub open spec fn all_found(v: ExecutorView, ts: Seq<u64>) -> bool
    decreases ts.len(),
{
    if ts.len() == 0 {
        true
    } else {
        v.running.contains(ts[0]) && all_found(after_finish(v, ts[0]), ts.skip(1))
    }
}

proof fn lemma_admit(v: ExecutorView)
    requires
        inv(v),
        can_admit(v),
    ensures
        inv(after_admit(v)),
{
    let w = after_admit(v);
    let last = v.running.len() as int;
    assert forall|i: int| 0 <= i < w.running.len() implies #[trigger] w.running[i] < w.next by {
        if i < last {
            assert(w.running[i] == v.running[i]);
        }
    }
    assert forall|i: int, j: int|
        0 <= i < w.running.len() && 0 <= j < w.running.len() && i != j implies w.running[i]
        != w.running[j] by {
        if i < last {
            assert(w.running[i] == v.running[i] && v.running[i] < v.next);
        }
        if j < last {
            assert(w.running[j] == v.running[j] && v.running[j] < v.next);
        }
    }
}

/// A started command is resolved exactly once: its ticket is new, it runs
/// until its unit finishes, the first finish of it is recognised and leaves
/// the other units as they were, and no later finish of it is.
pub proof fn lemma_resolved_once(v: ExecutorView)
    requires
        inv(v),
        can_admit(v),
    ensures
        !v.running.contains(v.next as u64),
        after_admit(v).running.contains(v.next as u64),
        after_finish(after_admit(v), v.next as u64).running == v.running,
        !after_finish(after_admit(v), v.next as u64).running.contains(v.next as u64),
        after_finish(after_finish(after_admit(v), v.next as u64), v.next as u64) == after_finish(
            after_admit(v),
            v.next as u64,
        ),
{
    let t = v.next as u64;
    let w = after_admit(v);
    let last = v.running.len() as int;
    assert(w.running[last] == t);
    if v.running.contains(t) {
        let j = choose|j: int| 0 <= j < v.running.len() && v.running[j] == t;
        assert(v.running[j] < v.next);
    }
    lemma_admit(v);
    let p = position(w.running, t);
    assert(0 <= p < w.running.len() && w.running[p] == t);
    assert(p == last);
    assert(w.running.remove(p) =~= v.running);
    lemma_finish(w, t);
}

/// Whatever order running units finish in, each finish is recognised; those
/// that finished are no longer running, the others still are, and once every
/// one has finished none is left.
pub proof fn lemma_any_order(v: ExecutorView, ts: Seq<u64>)
    requires
        inv(v),
        ts.no_duplicates(),
        forall|i: int| 0 <= i < ts.len() ==> v.running.contains(#[trigger] ts[i]),
    ensures
        all_found(v, ts),
        inv(finish_all(v, ts)),
        finish_all(v, ts).closed == v.closed,
        forall|x: u64| #[trigger]
            finish_all(v, ts).running.contains(x) <==> v.running.contains(x) && !ts.contains(x),
        (forall|x: u64| v.running.contains(x) ==> ts.contains(x)) ==> finish_all(v, ts).running.len()
            == 0,
    decreases ts.len(),
{
    let f = finish_all(v, ts);
    if ts.len() > 0 {
        let t = ts[0];
        let rest = ts.skip(1);
        let v1 = after_finish(v, t);
        lemma_finish(v, t);
        assert forall|i: int| 0 <= i < rest.len() implies v1.running.contains(#[trigger] rest[i]) by {
            assert(rest[i] == ts[i + 1]);
            assert(v.running.contains(ts[i + 1]));
        }
        assert(rest.no_duplicates()) by {
            assert forall|i: int, j: int| 0 <= i < rest.len() && 0 <= j < rest.len() && i != j implies rest[i]
                != rest[j] by {
                assert(rest[i] == ts[i + 1] && rest[j] == ts[j + 1]);
            }
        }
        lemma_any_order(v1, rest);
        assert forall|x: u64| ts.contains(x) <==> x == t || rest.contains(x) by {
            if ts.contains(x) {
                let i = choose|i: int| 0 <= i < ts.len() && ts[i] == x;
                if i > 0 {
                    assert(rest[i - 1] == x);
                }
            }
            if rest.contains(x) {
                let i = choose|i: int| 0 <= i < rest.len() && rest[i] == x;
                assert(ts[i + 1] == x);
            }
            if x == t {
                assert(ts[0] == x);
            }
        }
    } else {
        assert forall|x: u64| !ts.contains(x) by {}
    }
    assert((forall|x: u64| v.running.contains(x) ==> ts.contains(x)) ==> f.running.len() == 0) by {
        if (forall|x: u64| v.running.contains(x) ==> ts.contains(x)) && f.running.len() > 0 {
            let x0 = f.running[0];
            assert(f.running.contains(x0));
            assert(v.running.contains(x0) && !ts.contains(x0));
        }
    }
}

/// Closing the source starts nothing more and abandons nothing: the units
/// that were running still are, each of their finishes is recognised in any
/// order, and once they are all in the admission is drained.
pub proof fn lemma_close_keeps_running(v: ExecutorView, ts: Seq<u64>)
    requires
        inv(v),
        ts.no_duplicates(),
        forall|i: int| 0 <= i < ts.len() ==> v.running.contains(#[trigger] ts[i]),
        forall|x: u64| v.running.contains(x) ==> ts.contains(x),
    ensures
        after_close(v).running == v.running,
        !can_admit(after_close(v)),
        all_found(after_close(v), ts),
        drained(finish_all(after_close(v), ts)),
{
    let c = after_close(v);
    lemma_any_order(c, ts);
}

pub struct Executor {
    limit: usize,
    next_ticket: u64,
    running: Vec<u64>,
    closed: bool,
}

impl View for Executor {
    type V = ExecutorView;

    closed spec fn view(&self) -> ExecutorView {
        ExecutorView {
            limit: self.limit as nat,
            next: self.next_ticket as nat,
            running: self.running@,
            closed: self.closed,
        }
    }
}

proof fn lemma_finish(v: ExecutorView, t: u64)
    requires
        inv(v),
    ensures
        inv(after_finish(v, t)),
        after_finish(v, t).limit == v.limit,
        after_finish(v, t).next == v.next,
        after_finish(v, t).closed == v.closed,
        forall|x: u64| #[trigger]
            after_finish(v, t).running.contains(x) <==> v.running.contains(x) && x != t,
        v.running.contains(t) ==> after_finish(v, t).running.len() + 1 == v.running.len(),
{
    if v.running.contains(t) {
        let s = v.running;
        let p = position(s, t);
        let r = s.remove(p);
        assert forall|x: u64| #[trigger] r.contains(x) <==> s.contains(x) && x != t by {
            if r.contains(x) {
                let j = choose|j: int| 0 <= j < r.len() && r[j] == x;
                if j < p {
                    assert(s[j] == x);
                } else {
                    assert(s[j + 1] == x);
                }
            }
            if s.contains(x) && x != t {
                let j = choose|j: int| 0 <= j < s.len() && s[j] == x;
                if j < p {
                    assert(r[j] == x);
                } else {
                    assert(j != p);
                    assert(r[j - 1] == x);
                }
            }
        }
        assert forall|i: int, j: int| 0 <= i < r.len() && 0 <= j < r.len() && i != j implies r[i]
            != r[j] by {
            let a = if i < p { i } else { i + 1 };
            let b = if j < p { j } else { j + 1 };
            assert(r[i] == s[a] && r[j] == s[b]);
        }
        assert forall|i: int| 0 <= i < r.len() implies #[trigger] r[i] < v.next by {
            if i >= p {
                assert(r[i] == s[i + 1]);
            }
        }
    }
}

impl Executor {
    pub open spec fn wf(&self) -> bool {
        inv(self@)
    }

    /// A source open to commands, with no unit running, and at most `limit`
    /// units running at once.
    pub fn new(limit: usize) -> (r: Executor)
        ensures
            r.wf(),
            r@ == (ExecutorView { limit: limit as nat, next: 0, running: seq![], closed: false }),
    {
        let r = Executor { limit, next_ticket: 0, running: Vec::new(), closed: false };
        assert(r@.running =~= Seq::<u64>::empty());
        r
    }

    /// Whether a new command may start now.
    pub fn accepts(&self) -> (r: bool)
        ensures
            r == can_admit(self@),
    {
        !self.closed && self.running.len() < self.limit && self.next_ticket < u64::MAX
    }

    /// How many units are running.
    pub fn in_flight(&self) -> (r: usize)
        ensures
            r == self@.running.len(),
    {
        self.running.len()
    }

    /// Whether the source is closed and every unit has delivered.
    pub fn is_drained(&self) -> (r: bool)
        ensures
            r == drained(self@),
    {
        self.closed && self.running.len() == 0
    }

    /// Starts a command where one may start now, and gives its ticket.
    pub fn start_unit(&mut self) -> (r: Option<u64>)
        requires
            old(self).wf(),
        ensures
            final(self).wf(),
            can_admit(old(self)@) ==> r == Some(old(self)@.next as u64) && final(self)@ == after_admit(
                old(self)@,
            ),
            !can_admit(old(self)@) ==> r is None && final(self)@ == old(self)@,
    {
        if self.accepts() {
            let t = self.next_ticket;
            self.running.push(t);
            self.next_ticket = t + 1;
            proof {
                lemma_admit(old(self)@);
                assert(self@ == after_admit(old(self)@));
            }
            Some(t)
        } else {
            None
        }
    }

    /// Records that the unit with ticket `t` has delivered its result; says
    /// whether such a unit was running.
    pub fn finish(&mut self, t: u64) -> (r: bool)
        requires
            old(self).wf(),
        ensures
            final(self).wf(),
            r == old(self)@.running.contains(t),
            final(self)@ == after_finish(old(self)@, t),
    {
        proof {
            lemma_finish(self@, t);
        }
        let n = self.running.len();
        let mut i: usize = 0;
        while i < n
            invariant
                n == self.running.len(),
                0 <= i <= n,
                forall|j: int| 0 <= j < i ==> self.running@[j] != t,
                self@ == old(self)@,
                inv(old(self)@),
            decreases n - i,
        {
            if self.running[i] == t {
                let ghost s = self.running@;
                assert(s.contains(t));
                assert(position(s, t) == i as int) by {
                    let p = position(s, t);
                    assert(0 <= p < s.len() && s[p] == t);
                    assert(s[i as int] == t);
                };
                self.running.remove(i);
                return true;
            }
            i = i + 1;
        }
        assert(!self.running@.contains(t));
        false
    }

    /// Closes the source: no command starts after this, and running units
    /// go on.
    pub fn close(&mut self)
        requires
            old(self).wf(),
        ensures
            final(self).wf(),
            final(self)@ == after_close(old(self)@),
    {
        self.closed = true;
    }
}

} // verus!
