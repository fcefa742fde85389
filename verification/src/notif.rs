//! Which prayer notifications are due, and the per-day bookkeeping that
//! keeps each prayer from being announced twice.
use vstd::prelude::*;
use crate::prayer::PrayerTimes;

verus! {

/// Notification titles, in prayer order.
pub const NOTIF_PRAYERS: [&'static str; 6] = ["Fajr", "Sunrise", "Dhuhr", "Asr", "Maghrib", "Isha"];

/// Whether prayer `i` is due: not announced yet, and its target minute
/// has been reached.
pub open spec fn is_due(now: int, targets: Seq<i64>, fired: Seq<bool>, i: int) -> bool {
    !fired[i] && now >= targets[i]
}

/// The due prayers among the first `n`, in increasing order.
pub open spec fn due_list(now: int, targets: Seq<i64>, fired: Seq<bool>, n: int) -> Seq<usize>
    decreases n,
{
    if n <= 0 {
        Seq::empty()
    } else if is_due(now, targets, fired, n - 1) {
        due_list(now, targets, fired, n - 1).push((n - 1) as usize)
    } else {
        due_list(now, targets, fired, n - 1)
    }
}

/// `due_list` holds exactly the due prayers, each once, in increasing order.
pub proof fn lemma_due_list(now: int, targets: Seq<i64>, fired: Seq<bool>, n: int)
    requires
        0 <= n <= 6,
    ensures
        forall|k: int|
            0 <= k < due_list(now, targets, fired, n).len() ==> {
                let i = #[trigger] due_list(now, targets, fired, n)[k] as int;
                0 <= i < n && is_due(now, targets, fired, i)
            },
        forall|i: int|
            0 <= i < n && is_due(now, targets, fired, i) ==> due_list(
                now,
                targets,
                fired,
                n,
            ).contains(i as usize),
        forall|a: int, b: int|
            0 <= a < b < due_list(now, targets, fired, n).len() ==> due_list(
                now,
                targets,
                fired,
                n,
            )[a] < due_list(now, targets, fired, n)[b],
    decreases n,
{
    if n > 0 {
        lemma_due_list(now, targets, fired, n - 1);
        let prev = due_list(now, targets, fired, n - 1);
        if is_due(now, targets, fired, n - 1) {
            let cur = prev.push((n - 1) as usize);
            assert(due_list(now, targets, fired, n) == cur);
            assert forall|k: int| 0 <= k < cur.len() implies {
                let i = #[trigger] cur[k] as int;
                0 <= i < n && is_due(now, targets, fired, i)
            } by {
                if k < prev.len() {
                    assert(cur[k] == prev[k]);
                }
            }
            assert forall|i: int|
                0 <= i < n && is_due(now, targets, fired, i) implies cur.contains(i as usize) by {
                if i < n - 1 {
                    let k = choose|k: int| 0 <= k < prev.len() && prev[k] == i as usize;
                    assert(cur[k] == i as usize);
                } else {
                    assert(cur[cur.len() - 1] == i as usize);
                }
            }
            assert forall|a: int, b: int| 0 <= a < b < cur.len() implies cur[a] < cur[b] by {
                assert(cur[a] == prev[a]);
                if b < prev.len() {
                    assert(cur[b] == prev[b]);
                } else {
                    assert(0 <= prev[a] < n - 1);
                }
            }
        } else {
            assert forall|i: int|
                0 <= i < n && is_due(now, targets, fired, i) implies prev.contains(i as usize) by {
                if i == n - 1 {
                } else {
                }
            }
        }
    }
}

/// Prayers whose target minute has been reached and that have not been
/// announced yet, in prayer order.
pub fn due_notifications(now_min: i64, targets: [i64; 6], fired: [bool; 6]) -> (v: Vec<usize>)
    ensures
        v@ == due_list(now_min as int, targets@, fired@, 6),
{
    let mut v: Vec<usize> = Vec::new();
    for i in 0..6
        invariant
            v@ == due_list(now_min as int, targets@, fired@, i as int),
    {
        if !fired[i] && now_min >= targets[i] {
            v.push(i);
        }
    }
    v
}

/// Per-day record of which prayers were announced.
#[derive(Debug, Clone, Copy, PartialEq, Eq)]
pub struct NotifState {
    /// the day the flags belong to, as days since the common era
    pub day: Option<i32>,
    pub fired: [bool; 6],
}

impl Default for NotifState {
    fn default() -> (s: Self)
        ensures
            s.day is None,
            forall|i: int| 0 <= i < 6 ==> !s.fired@[i],
    {
        NotifState { day: None, fired: [false;6] }
    }
}

/// The notification target of each prayer: its time plus the offset.
pub open spec fn targets_of(p: PrayerTimes, offset: int) -> Seq<i64> {
    Seq::new(6, |i: int| (p.times()[i] + offset) as i64)
}

/// One bookkeeping step at minute `now` of day `today`, from `s` to `t`
/// announcing `sent`.
///
/// On a day not seen before the flags restart, and every prayer whose target
/// has already passed is marked as announced without being announced (so a
/// late start does not replay the day). On the same day the due prayers are
/// announced and marked.
pub open spec fn notif_step(
    s: NotifState,
    t: NotifState,
    sent: Seq<usize>,
    today: i32,
    now: int,
    targets: Seq<i64>,
) -> bool {
    let new_day = s.day != Some(today);
    &&& t.day == Some(today)
    &&& forall|i: int|
        0 <= i < 6 ==> #[trigger] t.fired@[i] == if new_day {
            now >= targets[i]
        } else {
            s.fired@[i] || now >= targets[i]
        }
    &&& sent == if new_day {
        Seq::<usize>::empty()
    } else {
        due_list(now, targets, s.fired@, 6)
    }
}

impl NotifState {
    /// Records minute `now_min` of day `today` for the given prayer times
    /// and notification offset; returns the prayers to announce now.
    pub fn step(&mut self, today: i32, now_min: i64, times: &PrayerTimes, offset: i32) -> (sent: Vec<
        usize,
    >)
        ensures
            notif_step(
                *old(self),
                *final(self),
                sent@,
                today,
                now_min as int,
                targets_of(*times, offset as int),
            ),
    {
        let minutes = times.to_vec();
        let mut targets = [0i64;6];
        for i in 0..6
            invariant
                minutes@ == times.times(),
                forall|j: int| 0 <= j < i ==> targets@[j] == targets_of(*times, offset as int)[j],
        {
            targets[i] = minutes[i] as i64 + offset as i64;
        }
        assert(targets@ =~= targets_of(*times, offset as int));
        let targets = targets;
        if self.day != Some(today) {
            self.day = Some(today);
            self.fired = [false;6];
            for i in 0..6
                invariant
                    self.day == Some(today),
                    forall|j: int| 0 <= j < i ==> self.fired@[j] == (now_min >= targets@[j]),
                    forall|j: int| i <= j < 6 ==> !self.fired@[j],
            {
                if now_min >= targets[i] {
                    self.fired[i] = true;
                }
            }
            let sent = Vec::new();
            assert(sent@ =~= Seq::<usize>::empty());
            return sent;
        }
        let due = due_notifications(now_min, targets, self.fired);
        proof {
            lemma_due_list(now_min as int, targets@, old(self).fired@, 6);
        }
        for i in 0..6
            invariant
                self.day == old(self).day,
                forall|j: int|
                    0 <= j < 6 ==> #[trigger] self.fired@[j] == if j < i {
                        old(self).fired@[j] || now_min >= targets@[j]
                    } else {
                        old(self).fired@[j]
                    },
        {
            if now_min >= targets[i] {
                self.fired[i] = true;
            }
        }
        due
    }
}

/// Within one day each prayer is announced at most once: after a step that
/// announced `sent1`, a later step on the same day announces none of them
/// again.
pub proof fn lemma_announced_once(
    s0: NotifState,
    s1: NotifState,
    s2: NotifState,
    sent1: Seq<usize>,
    sent2: Seq<usize>,
    today: i32,
    now1: int,
    now2: int,
    targets: Seq<i64>,
)
    requires
        notif_step(s0, s1, sent1, today, now1, targets),
        notif_step(s1, s2, sent2, today, now2, targets),
    ensures
        forall|a: int, b: int| 0 <= a < sent1.len() && 0 <= b < sent2.len() ==> sent1[a] != sent2[b],
{
    lemma_due_list(now1, targets, s0.fired@, 6);
    lemma_due_list(now2, targets, s1.fired@, 6);
    assert forall|a: int, b: int| 0 <= a < sent1.len() && 0 <= b < sent2.len() implies sent1[a]
        != sent2[b] by {
        let i = sent1[a] as int;
        assert(is_due(now1, targets, s0.fired@, i));
        assert(s1.fired@[i]);
        assert(!s1.fired@[sent2[b] as int]);
    }
}

/// A prayer is announced only once its target minute has been reached, and
/// after any step every prayer whose target has been reached is marked as
/// announced.
pub proof fn lemma_announce_only_when_due(
    s0: NotifState,
    s1: NotifState,
    sent: Seq<usize>,
    today: i32,
    now: int,
    targets: Seq<i64>,
)
    requires
        notif_step(s0, s1, sent, today, now, targets),
    ensures
        forall|k: int| 0 <= k < sent.len() ==> now >= targets[sent[k] as int],
        forall|i: int| 0 <= i < 6 && now >= targets[i] ==> s1.fired@[i],
{
    lemma_due_list(now, targets, s0.fired@, 6);
    assert forall|k: int| 0 <= k < sent.len() implies now >= targets[sent[k] as int] by {
        assert(is_due(now, targets, s0.fired@, sent[k] as int));
    }
}

} // verus!
