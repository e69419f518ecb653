//! A bounded in-memory log of numbered debug lines that the interface polls.

use std::collections::VecDeque;
use vstd::prelude::*;

verus! {

/// How many lines the log keeps; older lines are dropped first.
pub const MAX_LOG_LINES: usize = 2000;

/// One line of the debug log with its sequence number.
pub struct DebugLogEntry {
    pub id: u64,
    pub message: String,
}

impl View for DebugLogEntry {
    type V = (u64, Seq<char>);

    open spec fn view(&self) -> (u64, Seq<char>) {
        (self.id, self.message@)
    }
}

impl Clone for DebugLogEntry {
    fn clone(&self) -> (r: Self)
        ensures
            r@ == self@,
    {
        DebugLogEntry { id: self.id, message: self.message.clone() }
    }
}

/// The views of a sequence of entries.
pub open spec fn entry_views(s: Seq<DebugLogEntry>) -> Seq<(u64, Seq<char>)> {
    s.map_values(|e: DebugLogEntry| e@)
}

/// The last `n` elements of `s` (all of `s` when it is shorter).
pub open spec fn keep_last<A>(s: Seq<A>, n: nat) -> Seq<A> {
    if s.len() > n {
        s.subrange(s.len() - n, s.len() as int)
    } else {
        s
    }
}

/// The lines of `s` whose number is greater than `last_id`, in order.
pub open spec fn lines_after(s: Seq<(u64, Seq<char>)>, last_id: u64) -> Seq<(u64, Seq<char>)>
    decreases s.len(),
{
    if s.len() == 0 {
        s
    } else {
        let rest = lines_after(s.drop_last(), last_id);
        if s.last().0 > last_id {
            rest.push(s.last())
        } else {
            rest
        }
    }
}

/// The numbers of `s` are consecutive and end at `last_id`, the number of the last line
/// ever written; numbering starts at 1.
pub open spec fn consecutive(s: Seq<(u64, Seq<char>)>, last_id: u64) -> bool {
    &&& s.len() <= last_id
    &&& forall|k: int| 0 <= k < s.len() ==> #[trigger] s[k].0 == last_id - s.len() + 1 + k
}

/// The debug log: the last lines written and the number of the last line written.
pub struct DebugLog {
    seq: u64,
    entries: VecDeque<DebugLogEntry>,
}

impl DebugLog {
    /// The lines the log holds, oldest first.
    pub closed spec fn lines(&self) -> Seq<(u64, Seq<char>)> {
        entry_views(self.entries@)
    }

    /// The number given to the last line written (0 before the first write).
    pub closed spec fn last_id(&self) -> u64 {
        self.seq
    }

    #[verifier::type_invariant]
    closed spec fn well_formed(&self) -> bool {
        &&& self.entries@.len() <= MAX_LOG_LINES
        &&& consecutive(self.lines(), self.seq)
    }

    /// An empty log; the first line written gets number 1.
    pub fn new() -> (r: Self)
        ensures
            r.lines() == Seq::<(u64, Seq<char>)>::empty(),
            r.last_id() == 0,
    {
        let r = DebugLog { seq: 0, entries: VecDeque::with_capacity(MAX_LOG_LINES) };
        assert(r.lines() =~= Seq::<(u64, Seq<char>)>::empty());
        r
    }

    /// The number given to the last line written (0 before the first write).
    pub fn last_number(&self) -> (r: u64)
        ensures
            r == self.last_id(),
    {
        self.seq
    }

    /// The log always holds at most `MAX_LOG_LINES` lines, numbered consecutively up to
    /// `last_id`.
    pub fn is_consistent(&self) -> (r: bool)
        ensures
            r,
            self.lines().len() <= MAX_LOG_LINES,
            consecutive(self.lines(), self.last_id()),
    {
        proof {
            use_type_invariant(self);
        }
        true
    }
}

/// Appends `message` under the next number, dropping the oldest line when the log is full.
pub fn write(log: &mut DebugLog, message: &str)
    requires
        old(log).last_id() < u64::MAX,
    ensures
        final(log).last_id() == old(log).last_id() + 1,
        final(log).lines() == keep_last(
            old(log).lines().push((final(log).last_id(), message@)),
            MAX_LOG_LINES as nat,
        ),
        logged(*old(log), *final(log), seq![message@]),
{
    proof {
        use_type_invariant(&*log);
    }
    let id = log.seq + 1;
    let entry = DebugLogEntry { id, message: String::from_str(message) };
    let ghost old_lines = log.lines();
    let ghost target = keep_last(old_lines.push((id, message@)), MAX_LOG_LINES as nat);
    let mut entries: VecDeque<DebugLogEntry> = VecDeque::new();
    std::mem::swap(&mut entries, &mut log.entries);
    assert(entry_views(entries@) == old_lines);
    entries.push_back(entry);
    assert(entry_views(entries@) =~= old_lines.push((id, message@)));
    while entries.len() > MAX_LOG_LINES
        invariant
            target == keep_last(old_lines.push((id, message@)), MAX_LOG_LINES as nat),
            old_lines.len() <= MAX_LOG_LINES,
            entries@.len() <= MAX_LOG_LINES + 1,
            entries@.len() > MAX_LOG_LINES ==> entry_views(entries@)
                == old_lines.push((id, message@)),
            entries@.len() <= MAX_LOG_LINES ==> entry_views(entries@)
                == target,
        decreases entries@.len(),
    {
        let ghost before = entries@;
        let _ = entries.pop_front();
        proof {
            let pushed = old_lines.push((id, message@));
            assert(before.map_values(|e: DebugLogEntry| e@) == pushed);
            assert(pushed.len() == MAX_LOG_LINES + 1);
            assert(entries@ == before.subrange(1, before.len() as int));
            assert(target == pushed.subrange(1, pushed.len() as int));
            assert(target.len() == entries@.len());
            assert forall|k: int| 0 <= k < entries@.len() implies
                entry_views(entries@)[k] == #[trigger] target[k] by {
                assert(entries@[k] == before[k + 1]);
                assert(before.map_values(|e: DebugLogEntry| e@)[k + 1] == pushed[k + 1]);
            }
            assert(entry_views(entries@) =~= target);
        }
    }
    log.seq = id;
    proof {
        assert(consecutive(target, id));
    }
    log.entries = entries;
    assert(seq![message@].drop_last() =~= Seq::<Seq<char>>::empty());
    assert(written(old_lines, (id - 1) as u64, Seq::empty()) == old_lines);
    assert(seq![message@].last() == message@);
}

/// The lines of the log numbered after `last_id`, oldest first.
pub fn read_since(log: &DebugLog, last_id: u64) -> (r: Vec<DebugLogEntry>)
    ensures
        entry_views(r@) == lines_after(log.lines(), last_id),
{
    proof {
        use_type_invariant(log);
    }
    let mut r: Vec<DebugLogEntry> = Vec::new();
    let n = log.entries.len();
    let ghost all = log.lines();
    for i in 0..n
        invariant
            n == log.entries@.len(),
            all == log.lines(),
            all.len() == n,
            entry_views(r@) == lines_after(all.take(i as int), last_id),
    {
        let e = &log.entries[i];
        assert(all.take(i + 1).drop_last() =~= all.take(i as int));
        assert(all.take(i + 1).last() == e@);
        if e.id > last_id {
            let c = e.clone();
            r.push(c);
            assert(entry_views(r@) =~= lines_after(all.take(i as int), last_id).push(e@));
        }
    }
    assert(all.take(n as int) =~= all);
    r
}


/// Where a poller that has seen line `since` starts in a log numbered consecutively up to
/// `last_id`.
pub open spec fn unseen_start(len: nat, last_id: u64, since: u64) -> int {
    let first = last_id - len + 1;
    if since < first {
        0
    } else if since >= last_id {
        len as int
    } else {
        since - first + 1
    }
}

/// Numbering law: in a consecutively numbered log, the lines after any number form a
/// suffix of the log, so a poller never skips a line that is still kept.
pub proof fn lemma_unseen_lines_are_a_suffix(s: Seq<(u64, Seq<char>)>, last_id: u64, since: u64)
    requires
        consecutive(s, last_id),
    ensures
        lines_after(s, since) == s.subrange(unseen_start(s.len(), last_id, since), s.len() as int),
    decreases s.len(),
{
    if s.len() == 0 {
        assert(s.subrange(0, 0) =~= s);
    } else {
        let t = s.drop_last();
        assert(consecutive(t, (last_id - 1) as u64)) by {
            assert forall|k: int| 0 <= k < t.len() implies #[trigger] t[k].0 == (last_id - 1) - t.len() + 1 + k by {
                assert(t[k] == s[k]);
            }
        }
        lemma_unseen_lines_are_a_suffix(t, (last_id - 1) as u64, since);
        assert(s.last() == s[s.len() - 1]);
        let k = unseen_start(s.len(), last_id, since);
        if since >= last_id {
            assert(s.subrange(k, s.len() as int) =~= Seq::<(u64, Seq<char>)>::empty());
        } else {
            assert(t.subrange(k, t.len() as int).push(s.last()) =~= s.subrange(k, s.len() as int));
        }
    }
}

/// Writing keeps the log numbered consecutively and within `MAX_LOG_LINES` lines.
pub proof fn lemma_write_keeps_numbering(s: Seq<(u64, Seq<char>)>, last_id: u64, message: Seq<char>)
    requires
        consecutive(s, last_id),
        s.len() <= MAX_LOG_LINES,
        last_id < u64::MAX,
    ensures
        ({
            let next = keep_last(s.push(((last_id + 1) as u64, message)), MAX_LOG_LINES as nat);
            &&& consecutive(next, (last_id + 1) as u64)
            &&& next.len() <= MAX_LOG_LINES
            &&& next.last() == ((last_id + 1) as u64, message)
        }),
{
    let p = s.push(((last_id + 1) as u64, message));
    let next = keep_last(p, MAX_LOG_LINES as nat);
    assert forall|k: int| 0 <= k < next.len() implies #[trigger] next[k].0 == (last_id + 1) - next.len() + 1 + k by {
        if p.len() > MAX_LOG_LINES {
            assert(next[k] == p[k + 1]);
        }
    }
}

/// Read-after-write law: a poller that has seen every line up to the last one gets exactly
/// the line just written, under the next number.
pub proof fn lemma_poll_after_write(s: Seq<(u64, Seq<char>)>, last_id: u64, message: Seq<char>)
    requires
        consecutive(s, last_id),
        s.len() <= MAX_LOG_LINES,
        last_id < u64::MAX,
    ensures
        lines_after(keep_last(s.push(((last_id + 1) as u64, message)), MAX_LOG_LINES as nat), last_id)
            == seq![((last_id + 1) as u64, message)],
{
    let next = keep_last(s.push(((last_id + 1) as u64, message)), MAX_LOG_LINES as nat);
    lemma_write_keeps_numbering(s, last_id, message);
    lemma_unseen_lines_are_a_suffix(next, (last_id + 1) as u64, last_id);
    assert(next.subrange(next.len() - 1, next.len() as int) =~= seq![((last_id + 1) as u64, message)]);
}

/// A poller that has seen the last line written gets nothing.
pub proof fn lemma_poll_when_up_to_date(s: Seq<(u64, Seq<char>)>, last_id: u64, since: u64)
    requires
        consecutive(s, last_id),
        since >= last_id,
    ensures
        lines_after(s, since) == Seq::<(u64, Seq<char>)>::empty(),
{
    lemma_unseen_lines_are_a_suffix(s, last_id, since);
    assert(s.subrange(s.len() as int, s.len() as int) =~= Seq::<(u64, Seq<char>)>::empty());
}


/// The lines of a log numbered up to `last_id` after `msgs` are written to it, in order.
pub open spec fn written(lines: Seq<(u64, Seq<char>)>, last_id: u64, msgs: Seq<Seq<char>>) -> Seq<
    (u64, Seq<char>),
>
    decreases msgs.len(),
{
    if msgs.len() == 0 {
        lines
    } else {
        keep_last(
            written(lines, last_id, msgs.drop_last()).push(
                ((last_id + msgs.len()) as u64, msgs.last()),
            ),
            MAX_LOG_LINES as nat,
        )
    }
}

/// Whether `after` is `before` with `msgs` written to it, in order.
pub open spec fn logged(before: DebugLog, after: DebugLog, msgs: Seq<Seq<char>>) -> bool {
    &&& after.last_id() == before.last_id() + msgs.len()
    &&& after.lines() == written(before.lines(), before.last_id(), msgs)
}

/// `msgs` numbered from `last_id + 1` on.
pub open spec fn numbered(last_id: u64, msgs: Seq<Seq<char>>) -> Seq<(u64, Seq<char>)> {
    Seq::new(msgs.len(), |k: int| ((last_id + k + 1) as u64, msgs[k]))
}

proof fn lemma_keep_last_push<A>(s: Seq<A>, x: A, n: nat)
    requires
        n >= 1,
    ensures
        keep_last(keep_last(s, n).push(x), n) == keep_last(s.push(x), n),
{
    if s.len() > n {
        assert(keep_last(keep_last(s, n).push(x), n) =~= keep_last(s.push(x), n));
    }
}

/// Writing law: writing `msgs` to a log appends them under the next numbers and keeps the
/// last `MAX_LOG_LINES` lines.
pub proof fn lemma_written_keeps_last(lines: Seq<(u64, Seq<char>)>, last_id: u64, msgs: Seq<Seq<char>>)
    requires
        lines.len() <= MAX_LOG_LINES,
        last_id + msgs.len() <= u64::MAX,
    ensures
        written(lines, last_id, msgs) == keep_last(lines + numbered(last_id, msgs), MAX_LOG_LINES as nat),
    decreases msgs.len(),
{
    if msgs.len() == 0 {
        assert(lines + numbered(last_id, msgs) =~= lines);
    } else {
        let init = msgs.drop_last();
        let item = ((last_id + msgs.len()) as u64, msgs.last());
        lemma_written_keeps_last(lines, last_id, init);
        assert(numbered(last_id, init).push(item) =~= numbered(last_id, msgs));
        assert((lines + numbered(last_id, init)).push(item) =~= lines + numbered(last_id, msgs));
        if init.len() == 0 {
            assert(numbered(last_id, init) =~= Seq::<(u64, Seq<char>)>::empty());
            assert(lines + numbered(last_id, init) =~= lines);
        } else {
            lemma_keep_last_push(lines + numbered(last_id, init), item, MAX_LOG_LINES as nat);
        }
    }
}

/// Count law: after `msgs` are written to a new log, it holds exactly the last
/// min(n, `MAX_LOG_LINES`) of them, in the order written, numbered by their position from 1.
pub proof fn lemma_log_holds_last_messages(msgs: Seq<Seq<char>>)
    requires
        msgs.len() <= u64::MAX,
    ensures
        written(Seq::empty(), 0, msgs).len() == if msgs.len() < MAX_LOG_LINES {
            msgs.len()
        } else {
            MAX_LOG_LINES as nat
        },
        forall|k: int|
            0 <= k < written(Seq::empty(), 0, msgs).len() ==> #[trigger] written(
                Seq::empty(),
                0,
                msgs,
            )[k] == {
                let j = msgs.len() - written(Seq::empty(), 0, msgs).len() + k;
                ((j + 1) as u64, msgs[j])
            },
{
    lemma_written_keeps_last(Seq::empty(), 0, msgs);
    let all = Seq::<(u64, Seq<char>)>::empty() + numbered(0, msgs);
    assert(all =~= numbered(0, msgs));
}


/// Writing in steps: a log written with `msgs` and then with `m` is the log written with
/// `msgs` followed by `m`.
pub proof fn lemma_logged_push(before: DebugLog, mid: DebugLog, after: DebugLog, msgs: Seq<Seq<char>>, m: Seq<char>)
    requires
        logged(before, mid, msgs),
        logged(mid, after, seq![m]),
    ensures
        logged(before, after, msgs.push(m)),
{
    assert(msgs.push(m).drop_last() =~= msgs);
    assert(seq![m].drop_last() =~= Seq::<Seq<char>>::empty());
    assert(written(mid.lines(), mid.last_id(), Seq::empty()) == mid.lines());
    assert(seq![m].last() == m);
    assert(msgs.push(m).last() == m);
}

} // verus!
