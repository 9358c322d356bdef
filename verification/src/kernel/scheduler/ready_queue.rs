use vstd::prelude::*;
use crate::config::MAX_TASKS;

verus! {

/// The slot `x` of the ring, for `x < 2 * MAX_TASKS`.
pub open spec fn wrap(x: int) -> int {
    if x < MAX_TASKS as int { x } else { x - MAX_TASKS as int }
}

/// The value of the ring `tasks` at position `i` counted from `head`.
pub open spec fn ring(tasks: Seq<usize>, head: int, i: int) -> usize {
    tasks[wrap(head + i)]
}

/// `(x + 1) % MAX_TASKS` for a slot index `x`.
fn next_slot(x: usize) -> (r: usize)
    requires
        x < MAX_TASKS,
    ensures
        r == wrap(x + 1),
        r < MAX_TASKS,
{
    (x + 1) % MAX_TASKS
}

/// `q` without the first occurrence of `x`; `q` itself when `x` is absent.
pub open spec fn remove_first(q: Seq<usize>, x: usize) -> Seq<usize>
    decreases q.len(),
{
    if q.len() == 0 {
        q
    } else if q[0] == x {
        q.drop_first()
    } else {
        seq![q[0]] + remove_first(q.drop_first(), x)
    }
}

/// Removing the first occurrence at `p` is `remove_first`.
pub proof fn lemma_remove_first(q: Seq<usize>, x: usize, p: int)
    requires
        0 <= p < q.len(),
        q[p] == x,
        forall|j: int| 0 <= j < p ==> q[j] != x,
    ensures
        remove_first(q, x) == q.remove(p),
    decreases q.len(),
{
    if p > 0 {
        let t = q.drop_first();
        assert forall|j: int| 0 <= j < p - 1 implies t[j] != x by {
            assert(t[j] == q[j + 1]);
        }
        lemma_remove_first(t, x, p - 1);
        assert(seq![q[0]] + t.remove(p - 1) =~= q.remove(p));
    } else {
        assert(q.drop_first() =~= q.remove(0));
    }
}

/// Without `x`, `remove_first` changes nothing.
pub proof fn lemma_remove_first_absent(q: Seq<usize>, x: usize)
    requires
        !q.contains(x),
    ensures
        remove_first(q, x) == q,
    decreases q.len(),
{
    if q.len() > 0 {
        let t = q.drop_first();
        assert(!t.contains(x)) by {
            if t.contains(x) {
                let j = choose|j: int| 0 <= j < t.len() && t[j] == x;
                assert(q[j + 1] == x);
            }
        }
        lemma_remove_first_absent(t, x);
        assert(seq![q[0]] + t =~= q);
    }
}

/// Removing an id from a queue without repeats leaves a queue without
/// repeats, which no longer holds that id.
pub proof fn lemma_remove_first_no_duplicates(q: Seq<usize>, x: usize)
    requires
        q.no_duplicates(),
    ensures
        remove_first(q, x).no_duplicates(),
        !remove_first(q, x).contains(x),
        forall|y: usize| y != x ==> (remove_first(q, x).contains(y) <==> q.contains(y)),
{
    if q.contains(x) {
        let p = choose|p: int| 0 <= p < q.len() && q[p] == x;
        assert forall|j: int| 0 <= j < p implies q[j] != x by {}
        lemma_remove_first(q, x, p);
        let r = q.remove(p);
        assert forall|i: int, j: int| 0 <= i < r.len() && 0 <= j < r.len() && i != j implies r[i] != r[j] by {
            let a = if i < p { i } else { i + 1 };
            let b = if j < p { j } else { j + 1 };
            assert(r[i] == q[a] && r[j] == q[b]);
        }
        assert forall|y: usize| y != x implies (r.contains(y) <==> q.contains(y)) by {
            if q.contains(y) {
                let j = choose|j: int| 0 <= j < q.len() && q[j] == y;
                if j < p {
                    assert(r[j] == y);
                } else {
                    assert(r[j - 1] == y);
                }
            }
            if r.contains(y) {
                let j = choose|j: int| 0 <= j < r.len() && r[j] == y;
                let a = if j < p { j } else { j + 1 };
                assert(q[a] == y);
            }
        }
        if r.contains(x) {
            let j = choose|j: int| 0 <= j < r.len() && r[j] == x;
            let a = if j < p { j } else { j + 1 };
            assert(q[a] == x);
        }
    } else {
        lemma_remove_first_absent(q, x);
    }
}

/// Appending an id a queue without repeats does not hold keeps it without
/// repeats.
pub proof fn lemma_push_no_duplicates(q: Seq<usize>, x: usize)
    requires
        q.no_duplicates(),
        !q.contains(x),
    ensures
        q.push(x).no_duplicates(),
{
    let r = q.push(x);
    assert forall|i: int, j: int| 0 <= i < r.len() && 0 <= j < r.len() && i != j implies r[i] != r[j] by {
        if i == q.len() {
            assert(q[j] == r[j]);
        } else if j == q.len() {
            assert(q[i] == r[i]);
        }
    }
}

/// A FIFO of task ids, stored in a ring of `MAX_TASKS` slots.
pub struct ReadyQueue {
    tasks: Vec<usize>,
    head: usize,
    tail: usize,
    count: usize,
}

impl ReadyQueue {
    /// The ring is well formed: its slots, head, tail and count agree.
    pub closed spec fn wf(&self) -> bool {
        &&& self.tasks@.len() == MAX_TASKS
        &&& self.head < MAX_TASKS
        &&& self.tail < MAX_TASKS
        &&& self.count <= MAX_TASKS
        &&& self.tail as int == wrap(self.head + self.count) || (self.count == MAX_TASKS
            && self.tail == self.head)
    }

    /// The queued task ids, front first.
    pub closed spec fn view(&self) -> Seq<usize> {
        Seq::new(self.count as nat, |i: int| ring(self.tasks@, self.head as int, i))
    }

    /// The queue holds at most `MAX_TASKS` ids.
    pub proof fn lemma_len(&self)
        requires
            self.wf(),
        ensures
            self@.len() <= MAX_TASKS,
    {
    }

    /// An empty queue.
    pub fn new() -> (r: ReadyQueue)
        ensures
            r.wf(),
            r@ == Seq::<usize>::empty(),
    {
        let mut tasks: Vec<usize> = Vec::new();
        let mut i: usize = 0;
        while i < MAX_TASKS
            invariant
                i <= MAX_TASKS,
                tasks@.len() == i,
            decreases MAX_TASKS - i,
        {
            tasks.push(0);
            i = i + 1;
        }
        let r = ReadyQueue { tasks, head: 0, tail: 0, count: 0 };
        assert(r@ =~= Seq::<usize>::empty());
        r
    }

    /// Appends `task_id` at the back; `false` when the queue is full.
    pub fn push(&mut self, task_id: usize) -> (r: bool)
        requires
            old(self).wf(),
        ensures
            final(self).wf(),
            r <==> old(self)@.len() < MAX_TASKS,
            r ==> final(self)@ == old(self)@.push(task_id),
            !r ==> final(self)@ == old(self)@,
    {
        if self.count >= MAX_TASKS {
            return false;
        }
        let ghost old_view = self@;
        let ghost old_tasks = self.tasks@;
        self.tasks.set(self.tail, task_id);
        self.tail = next_slot(self.tail);
        self.count = self.count + 1;
        assert(self@ =~= old_view.push(task_id));
        true
    }

    /// Removes and returns the front task id; `None` when empty.
    pub fn pop(&mut self) -> (r: Option<usize>)
        requires
            old(self).wf(),
        ensures
            final(self).wf(),
            old(self)@.len() == 0 ==> r is None && final(self)@ == old(self)@,
            old(self)@.len() > 0 ==> r == Some(old(self)@[0]) && final(self)@ == old(self)@.drop_first(),
    {
        if self.count == 0 {
            return None;
        }
        let ghost old_view = self@;
        let task_id = self.tasks[self.head];
        self.head = next_slot(self.head);
        self.count = self.count - 1;
        assert(self@ =~= old_view.drop_first());
        Some(task_id)
    }

    /// The front task id, if any.
    pub fn peek(&self) -> (r: Option<usize>)
        requires
            self.wf(),
        ensures
            r == (if self@.len() == 0 { None } else { Some(self@[0]) }),
    {
        if self.count == 0 {
            None
        } else {
            Some(self.tasks[self.head])
        }
    }

    /// Whether the queue holds no task.
    pub fn is_empty(&self) -> (r: bool)
        requires
            self.wf(),
        ensures
            r <==> self@.len() == 0,
    {
        self.count == 0
    }

    /// The number of queued tasks.
    pub fn len(&self) -> (r: usize)
        requires
            self.wf(),
        ensures
            r == self@.len(),
            r <= MAX_TASKS,
    {
        self.count
    }

    /// The task id at position `i` from the front.
    pub fn get(&self, i: usize) -> (r: usize)
        requires
            self.wf(),
            i < self@.len(),
        ensures
            r == self@[i as int],
    {
        let slot = if self.head + i < MAX_TASKS { self.head + i } else { self.head + i - MAX_TASKS };
        self.tasks[slot]
    }

    /// Whether `task_id` is queued.
    pub fn contains(&self, task_id: usize) -> (r: bool)
        requires
            self.wf(),
        ensures
            r <==> self@.contains(task_id),
    {
        let mut idx = self.head;
        let mut k: usize = 0;
        while k < self.count
            invariant
                self.wf(),
                k <= self.count,
                idx as int == wrap(self.head + k) || k == MAX_TASKS,
                idx < MAX_TASKS,
                forall|j: int| 0 <= j < k ==> self@[j] != task_id,
            decreases self.count - k,
        {
            if self.tasks[idx] == task_id {
                assert(self@[k as int] == task_id);
                return true;
            }
            idx = next_slot(idx);
            k = k + 1;
        }
        assert(!self@.contains(task_id));
        false
    }

    /// Removes the first occurrence of `task_id`, keeping the order of the
    /// rest; `false` when it is not queued.
    pub fn remove(&mut self, task_id: usize) -> (r: bool)
        requires
            old(self).wf(),
        ensures
            final(self).wf(),
            r <==> old(self)@.contains(task_id),
            !r ==> final(self)@ == old(self)@,
            final(self)@ == remove_first(old(self)@, task_id),
    {
        if self.count == 0 {
            return false;
        }
        let ghost old_view = self@;
        // find the first occurrence
        let mut found: Option<usize> = None;
        let mut idx = self.head;
        let mut k: usize = 0;
        while k < self.count
            invariant_except_break
                self.wf(),
                self@ == old_view,
                k <= self.count,
                idx as int == wrap(self.head + k) || k == MAX_TASKS,
                idx < MAX_TASKS,
                found is None,
                forall|j: int| 0 <= j < k ==> old_view[j] != task_id,
            ensures
                self.wf(),
                self@ == old_view,
                found is None ==> forall|j: int| 0 <= j < old_view.len() ==> old_view[j] != task_id,
                found is Some ==> found.unwrap() < old_view.len() && old_view[found.unwrap() as int]
                    == task_id && forall|j: int|
                    0 <= j < found.unwrap() ==> old_view[j] != task_id,
            decreases self.count - k,
        {
            if self.tasks[idx] == task_id {
                found = Some(k);
                break;
            }
            idx = next_slot(idx);
            k = k + 1;
        }
        match found {
            None => {
                assert(!old_view.contains(task_id));
                proof {
                    lemma_remove_first_absent(old_view, task_id);
                }
                false
            },
            Some(pos) => {
                let ghost old_tasks = self.tasks@;
                let ghost head = self.head;
                let ghost cnt = self.count;
                let ghost tail = self.tail;
                let mut dst = if self.head + pos < MAX_TASKS {
                    self.head + pos
                } else {
                    self.head + pos - MAX_TASKS
                };
                let mut src = next_slot(dst);
                let mut k = pos;
                while k < self.count - 1
                    invariant
                        self.tasks@.len() == MAX_TASKS,
                        self.head == head,
                        self.count == cnt,
                        self.tail == tail,
                        tail as int == wrap(head + cnt) || (cnt == MAX_TASKS && tail == head),
                        tail < MAX_TASKS,
                        head < MAX_TASKS,
                        0 < cnt <= MAX_TASKS,
                        pos <= k < cnt,
                        dst as int == wrap(head + k),
                        src as int == wrap(wrap(head + k) + 1),
                        dst < MAX_TASKS,
                        src < MAX_TASKS,
                        old_view.len() == cnt,
                        forall|j: int| 0 <= j < cnt ==> old_view[j] == #[trigger] ring(old_tasks, head as int, j),
                        forall|j: int| 0 <= j < pos ==> #[trigger] ring(self.tasks@, head as int, j) == old_view[j],
                        forall|j: int| pos <= j < k ==> #[trigger] ring(self.tasks@, head as int, j) == old_view[j + 1],
                        forall|j: int| k <= j < cnt ==> #[trigger] ring(self.tasks@, head as int, j) == old_view[j],
                    decreases cnt - k,
                {
                    assert(src as int == wrap(head + (k + 1)));
                    assert(ring(self.tasks@, head as int, k + 1) == old_view[k + 1]);
                    let v = self.tasks[src];
                    let ghost before = self.tasks@;
                    self.tasks.set(dst, v);
                    assert forall|j: int| 0 <= j < cnt && j != k implies #[trigger] ring(
                        self.tasks@,
                        head as int,
                        j,
                    ) == ring(before, head as int, j) by {
                        assert(wrap(head + j) != wrap(head + k));
                    }
                    dst = src;
                    src = next_slot(src);
                    k = k + 1;
                }
                self.tail = if self.tail == 0 { MAX_TASKS - 1 } else { self.tail - 1 };
                self.count = self.count - 1;
                assert(self@ =~= old_view.remove(pos as int));
                proof {
                    lemma_remove_first(old_view, task_id, pos as int);
                }
                true
            },
        }
    }
}

} // verus!
