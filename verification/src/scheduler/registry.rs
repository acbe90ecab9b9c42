use vstd::prelude::*;

use crate::text::same_text;

verus! {

/// The handle of a scheduler turn running on a thread: the thread, the turn,
/// and the signal its runtime task was handed, told apart from every other
/// signal the registry gave out by its serial.
#[derive(Debug, Clone, PartialEq, Eq)]
pub struct ActiveTurn {
    pub thread_id: String,
    pub turn_id: String,
    pub signal: u64,
}

/// A registration as the contracts see it: `(thread, turn, signal)`.
pub open spec fn registration(a: ActiveTurn) -> (Seq<char>, Seq<char>, u64) {
    (a.thread_id@, a.turn_id@, a.signal)
}

/// The first registration from `i` on for `turn` on `thread`.
pub open spec fn find_turn(s: Seq<(Seq<char>, Seq<char>, u64)>, thread: Seq<char>, turn: Seq<char>, i: int) -> Option<int>
    decreases s.len() - i,
{
    if i < 0 || i >= s.len() {
        None
    } else if s[i].0 == thread && s[i].1 == turn {
        Some(i)
    } else {
        find_turn(s, thread, turn, i + 1)
    }
}

/// The signals registered for `thread`, in registration order.
pub open spec fn thread_signals(s: Seq<(Seq<char>, Seq<char>, u64)>, thread: Seq<char>) -> Seq<u64>
    decreases s.len(),
{
    if s.len() == 0 {
        Seq::empty()
    } else if s.last().0 == thread {
        thread_signals(s.drop_last(), thread).push(s.last().2)
    } else {
        thread_signals(s.drop_last(), thread)
    }
}

pub proof fn lemma_find_turn(s: Seq<(Seq<char>, Seq<char>, u64)>, thread: Seq<char>, turn: Seq<char>, i: int)
    requires
        0 <= i,
    ensures
        find_turn(s, thread, turn, i) matches Some(k) ==> i <= k < s.len() && s[k].0 == thread && s[k].1 == turn,
        find_turn(s, thread, turn, i) is None ==> forall|j: int| i <= j < s.len() ==> !(s[j].0 == thread && s[j].1 == turn),
    decreases s.len() - i,
{
    if i < s.len() {
        lemma_find_turn(s, thread, turn, i + 1);
    }
}

/// The scheduler turns currently running, each by thread and turn, with the
/// signal of its runtime task. A thread may hold several turns for a moment
/// while one replaces another, but never the same turn twice.
#[derive(Debug)]
pub struct ActiveTurnRegistry {
    turns: Vec<ActiveTurn>,
    next_signal: u64,
}

impl View for ActiveTurnRegistry {
    type V = Seq<(Seq<char>, Seq<char>, u64)>;

    closed spec fn view(&self) -> Seq<(Seq<char>, Seq<char>, u64)> {
        self.turns@.map_values(|a: ActiveTurn| registration(a))
    }
}

impl ActiveTurnRegistry {
    /// The serial the next registration's signal gets.
    pub closed spec fn next_signal(&self) -> u64 {
        self.next_signal
    }

    /// No turn is registered twice, and every signal given out is below the
    /// next one.
    pub open spec fn wf(&self) -> bool {
        &&& forall|i: int, j: int|
            0 <= i < j < self@.len() ==> !(self@[i].0 == self@[j].0 && self@[i].1 == self@[j].1)
        &&& forall|i: int| 0 <= i < self@.len() ==> self@[i].2 < self.next_signal()
    }

    /// An empty registry.
    pub fn new() -> (r: Self)
        ensures
            r.wf(),
            r@ == Seq::<(Seq<char>, Seq<char>, u64)>::empty(),
            r.next_signal() == 0,
    {
        let r = ActiveTurnRegistry { turns: Vec::new(), next_signal: 0 };
        assert(r@ =~= Seq::<(Seq<char>, Seq<char>, u64)>::empty());
        r
    }

    fn position(&self, thread_id: &str, turn_id: &str) -> (r: Option<usize>)
        ensures
            match r {
                Some(i) => find_turn(self@, thread_id@, turn_id@, 0) == Some(i as int),
                None => find_turn(self@, thread_id@, turn_id@, 0) is None,
            },
    {
        let ghost s = self@;
        let mut i: usize = 0;
        while i < self.turns.len()
            invariant
                i <= self.turns@.len(),
                s == self@,
                s.len() == self.turns@.len(),
                find_turn(s, thread_id@, turn_id@, 0) == find_turn(s, thread_id@, turn_id@, i as int),
            decreases self.turns@.len() - i,
        {
            assert(s[i as int] == registration(self.turns@[i as int]));
            if same_text(self.turns[i].thread_id.as_str(), thread_id) && same_text(self.turns[i].turn_id.as_str(), turn_id) {
                return Some(i);
            }
            i = i + 1;
        }
        None
    }

    /// Register `turn_id` on `thread_id` with a fresh signal and return the
    /// handle its runtime task keeps. A registration of the same turn is
    /// replaced, so a late registration never stands beside a newer one.
    pub fn register(&mut self, thread_id: &str, turn_id: &str) -> (r: ActiveTurn)
        requires
            old(self).wf(),
            old(self).next_signal() < u64::MAX,
        ensures
            final(self).wf(),
            registration(r) == (thread_id@, turn_id@, old(self).next_signal()),
            final(self).next_signal() == old(self).next_signal() + 1,
            final(self)@ == match find_turn(old(self)@, thread_id@, turn_id@, 0) {
                Some(k) => old(self)@.update(k, registration(r)),
                None => old(self)@.push(registration(r)),
            },
    {
        let ghost before = self@;
        proof {
            lemma_find_turn(before, thread_id@, turn_id@, 0);
        }
        let handle = ActiveTurn { thread_id: thread_id.to_owned(), turn_id: turn_id.to_owned(), signal: self.next_signal };
        let stored = ActiveTurn { thread_id: thread_id.to_owned(), turn_id: turn_id.to_owned(), signal: self.next_signal };
        assert(self@.len() == self.turns@.len());
        match self.position(thread_id, turn_id) {
            Some(k) => {
                self.turns.set(k, stored);
                assert(self@ =~= before.update(k as int, registration(handle)));
                assert forall|i: int, j: int| 0 <= i < j < self@.len() implies !(self@[i].0 == self@[j].0
                    && self@[i].1 == self@[j].1) by {
                    assert(self@[i].0 == before[i].0 && self@[i].1 == before[i].1);
                    assert(self@[j].0 == before[j].0 && self@[j].1 == before[j].1);
                }
            },
            None => {
                self.turns.push(stored);
                assert(self@ =~= before.push(registration(handle)));
                assert forall|i: int, j: int| 0 <= i < j < self@.len() implies !(self@[i].0 == self@[j].0
                    && self@[i].1 == self@[j].1) by {
                    assert(self@[i] == before[i]);
                    if j < before.len() {
                        assert(self@[j] == before[j]);
                    }
                }
            },
        }
        self.next_signal = self.next_signal + 1;
        assert forall|i: int| 0 <= i < self@.len() implies self@[i].2 < self.next_signal() by {
            if i < before.len() && self@[i] == before[i] {
                assert(before[i].2 < old(self).next_signal());
            }
        }
        handle
    }

    /// The signal to fire to cancel `turn_id` on `thread_id`: `None` when the
    /// thread is not running that turn.
    pub fn cancel(&self, thread_id: &str, turn_id: &str) -> (r: Option<u64>)
        ensures
            r == match find_turn(self@, thread_id@, turn_id@, 0) {
                Some(k) => Some(self@[k].2),
                None => None,
            },
    {
        proof {
            lemma_find_turn(self@, thread_id@, turn_id@, 0);
        }
        assert(self@.len() == self.turns@.len());
        match self.position(thread_id, turn_id) {
            Some(k) => {
                assert(self@[k as int] == registration(self.turns@[k as int]));
                Some(self.turns[k].signal)
            },
            None => None,
        }
    }

    /// The signals to fire to cancel every turn running on `thread_id`.
    pub fn cancel_thread(&self, thread_id: &str) -> (r: Vec<u64>)
        ensures
            r@ == thread_signals(self@, thread_id@),
    {
        let ghost s = self@;
        let mut out: Vec<u64> = Vec::new();
        let mut i: usize = 0;
        while i < self.turns.len()
            invariant
                i <= self.turns@.len(),
                s == self@,
                s.len() == self.turns@.len(),
                out@ == thread_signals(s.take(i as int), thread_id@),
            decreases self.turns@.len() - i,
        {
            assert(s.take(i as int + 1).drop_last() =~= s.take(i as int));
            assert(s[i as int] == registration(self.turns@[i as int]));
            if same_text(self.turns[i].thread_id.as_str(), thread_id) {
                out.push(self.turns[i].signal);
            }
            i = i + 1;
        }
        assert(s.take(i as int) =~= s);
        out
    }

    /// Remove the registration `active` holds, only when it is still the
    /// registration of its turn: a handle whose turn was registered again
    /// since removes nothing.
    pub fn remove(&mut self, active: &ActiveTurn) -> (r: bool)
        requires
            old(self).wf(),
        ensures
            final(self).wf(),
            final(self).next_signal() == old(self).next_signal(),
            match find_turn(old(self)@, active.thread_id@, active.turn_id@, 0) {
                Some(k) => if old(self)@[k].2 == active.signal {
                    r && final(self)@ == old(self)@.remove(k)
                } else {
                    !r && final(self)@ == old(self)@
                },
                None => !r && final(self)@ == old(self)@,
            },
    {
        let ghost before = self@;
        proof {
            lemma_find_turn(before, active.thread_id@, active.turn_id@, 0);
        }
        assert(before.len() == self.turns@.len());
        match self.position(active.thread_id.as_str(), active.turn_id.as_str()) {
            Some(k) => {
                assert(before[k as int] == registration(self.turns@[k as int]));
                if self.turns[k].signal == active.signal {
                    let ghost turns_before = self.turns@;
                    self.turns.remove(k);
                    assert(self@ =~= before.remove(k as int)) by {
                        assert(self.turns@ =~= turns_before.remove(k as int));
                    }
                    assert forall|i: int, j: int| 0 <= i < j < self@.len() implies !(self@[i].0 == self@[j].0
                        && self@[i].1 == self@[j].1) by {
                        let oi = if i < k { i } else { i + 1 };
                        let oj = if j < k { j } else { j + 1 };
                        assert(self@[i] == before[oi]);
                        assert(self@[j] == before[oj]);
                    }
                    assert forall|i: int| 0 <= i < self@.len() implies self@[i].2 < self.next_signal() by {
                        let oi = if i < k { i } else { i + 1 };
                        assert(self@[i] == before[oi]);
                    }
                    true
                } else {
                    false
                }
            },
            None => false,
        }
    }
}

/// A handle kept across a second registration of its turn is stale: the
/// registry then holds the newer signal for that turn, which differs from
/// the handle's, so removing with the stale handle removes nothing.
pub proof fn lemma_a_stale_handle_is_not_the_registration(
    first: ActiveTurnRegistry,
    second: ActiveTurnRegistry,
    old_handle: ActiveTurn,
    new_handle: ActiveTurn,
)
    requires
        first.wf(),
        registration(old_handle).2 < first.next_signal(),
        registration(new_handle) == (old_handle.thread_id@, old_handle.turn_id@, first.next_signal()),
        second@ == match find_turn(first@, old_handle.thread_id@, old_handle.turn_id@, 0) {
            Some(k) => first@.update(k, registration(new_handle)),
            None => first@.push(registration(new_handle)),
        },
    ensures
        find_turn(second@, old_handle.thread_id@, old_handle.turn_id@, 0) matches Some(k) && second@[k].2
            == new_handle.signal && second@[k].2 != old_handle.signal,
{
    let t = old_handle.thread_id@;
    let u = old_handle.turn_id@;
    lemma_find_turn(first@, t, u, 0);
    lemma_find_turn(second@, t, u, 0);
    match find_turn(first@, t, u, 0) {
        Some(k) => {
            assert(second@[k].0 == t && second@[k].1 == u);
            if let Some(k2) = find_turn(second@, t, u, 0) {
                assert(k2 <= k);
                if k2 < k {
                    assert(second@[k2] == first@[k2]);
                }
            }
        },
        None => {
            let n = first@.len() as int;
            assert(second@[n].0 == t && second@[n].1 == u);
            if let Some(k2) = find_turn(second@, t, u, 0) {
                if k2 < n {
                    assert(second@[k2] == first@[k2]);
                }
            }
        },
    }
}

} // verus!
