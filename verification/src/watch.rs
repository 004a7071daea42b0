//! Debouncing the file-change reports of a watched repository: a burst of
//! changes becomes one notification, sent once the burst has settled.
use vstd::prelude::*;

verus! {

/// How long a burst of file changes is given to settle, in milliseconds.
pub const SETTLE_MS: u64 = 300;

/// What the watcher loop observed.
#[derive(Debug, Clone, Copy, PartialEq, Eq, Structural)]
pub enum WatchEvent {
    /// A file change was reported.
    Changed,
    /// The settle time has passed and no report is waiting any more.
    Settled,
    /// The channel of change reports has closed.
    Closed,
}

/// What the watcher loop is to do next.
#[derive(Debug, Clone, Copy, PartialEq, Eq, Structural)]
pub enum WatchAction {
    /// Wait for the next report.
    Wait,
    /// Sleep for `ms` milliseconds, then take every report that is waiting
    /// (each one a `Changed`), then report `Settled`.
    Settle { ms: u64 },
    /// Tell the session that files changed, then wait for the next report.
    Notify,
    /// Stop watching.
    Stop,
}

/// Whether a burst of changes is settling.
#[derive(Debug, Clone, Copy, PartialEq, Eq, Structural)]
pub struct Debouncer {
    pub settling: bool,
}

/// The next state (whether a burst is settling) and action after an event.
pub open spec fn watch_step(settling: bool, e: WatchEvent) -> (bool, WatchAction) {
    if settling {
        match e {
            WatchEvent::Changed => (true, WatchAction::Wait),
            WatchEvent::Settled => (false, WatchAction::Notify),
            WatchEvent::Closed => (false, WatchAction::Notify),
        }
    } else {
        match e {
            WatchEvent::Changed => (true, WatchAction::Settle { ms: SETTLE_MS }),
            WatchEvent::Settled => (false, WatchAction::Wait),
            WatchEvent::Closed => (false, WatchAction::Stop),
        }
    }
}

/// The state and the actions after a sequence of events.
pub open spec fn watch_run(settling: bool, es: Seq<WatchEvent>) -> (bool, Seq<WatchAction>)
    decreases es.len(),
{
    if es.len() == 0 {
        (settling, seq![])
    } else {
        let (s1, acts) = watch_run(settling, es.drop_last());
        let (s2, a) = watch_step(s1, es.last());
        (s2, acts.push(a))
    }
}

impl Debouncer {
    /// A watcher with no burst settling.
    pub fn new() -> (d: Self)
        ensures
            !d.settling,
    {
        Debouncer { settling: false }
    }

    /// Takes one event and says what to do next.
    pub fn step(&mut self, e: WatchEvent) -> (a: WatchAction)
        ensures
            (final(self).settling, a) == watch_step(old(self).settling, e),
    {
        if self.settling {
            match e {
                WatchEvent::Changed => WatchAction::Wait,
                WatchEvent::Settled | WatchEvent::Closed => {
                    self.settling = false;
                    WatchAction::Notify
                },
            }
        } else {
            match e {
                WatchEvent::Changed => {
                    self.settling = true;
                    WatchAction::Settle { ms: SETTLE_MS }
                },
                WatchEvent::Settled => WatchAction::Wait,
                WatchEvent::Closed => WatchAction::Stop,
            }
        }
    }
}

/// `n` changes reported while a burst settles.
pub open spec fn changes(n: nat) -> Seq<WatchEvent> {
    Seq::new(n, |i: int| WatchEvent::Changed)
}

proof fn lemma_run_append(settling: bool, es: Seq<WatchEvent>, e: WatchEvent)
    ensures
        watch_run(settling, es.push(e)) == ({
            let (s1, acts) = watch_run(settling, es);
            let (s2, a) = watch_step(s1, e);
            (s2, acts.push(a))
        }),
{
    assert(es.push(e).drop_last() =~= es);
}

/// A change, any number of further changes before the burst settles, and
/// the settling give exactly one notification: the watcher sleeps once for
/// `SETTLE_MS`, takes the further changes without acting, notifies once and
/// is idle again.
pub proof fn law_one_notify_per_burst(n: nat)
    ensures
        watch_run(false, seq![WatchEvent::Changed] + changes(n) + seq![WatchEvent::Settled]) == (
            false,
            seq![WatchAction::Settle { ms: SETTLE_MS }] + Seq::new(n, |i: int| WatchAction::Wait)
                + seq![WatchAction::Notify],
        ),
{
    let first = seq![WatchEvent::Changed];
    let waits = Seq::new(n, |i: int| WatchAction::Wait);
    lemma_burst_prefix(n);
    let es = first + changes(n);
    lemma_run_append(false, es, WatchEvent::Settled);
    assert(es + seq![WatchEvent::Settled] =~= es.push(WatchEvent::Settled));
    assert((seq![WatchAction::Settle { ms: SETTLE_MS }] + waits).push(WatchAction::Notify)
        =~= seq![WatchAction::Settle { ms: SETTLE_MS }] + waits + seq![WatchAction::Notify]);
}

proof fn lemma_burst_prefix(k: nat)
    ensures
        watch_run(false, seq![WatchEvent::Changed] + changes(k)) == (
            true,
            seq![WatchAction::Settle { ms: SETTLE_MS }] + Seq::new(k, |i: int| WatchAction::Wait),
        ),
    decreases k,
{
    let first = seq![WatchEvent::Changed];
    if k == 0 {
        assert(first + changes(0) =~= first);
        assert(first.drop_last() =~= Seq::<WatchEvent>::empty());
        assert(watch_run(false, first.drop_last()) == (false, Seq::<WatchAction>::empty()));
        assert(first.last() == WatchEvent::Changed);
        assert(watch_run(false, first) == (true, seq![WatchAction::Settle { ms: SETTLE_MS }]));
        assert(seq![WatchAction::Settle { ms: SETTLE_MS }] + Seq::new(0, |i: int| WatchAction::Wait)
            =~= seq![WatchAction::Settle { ms: SETTLE_MS }]);
    } else {
        let j = (k - 1) as nat;
        lemma_burst_prefix(j);
        assert(first + changes(k) =~= (first + changes(j)).push(WatchEvent::Changed));
        lemma_run_append(false, first + changes(j), WatchEvent::Changed);
        assert((seq![WatchAction::Settle { ms: SETTLE_MS }] + Seq::new(j, |i: int| WatchAction::Wait)).push(
            WatchAction::Wait,
        ) =~= seq![WatchAction::Settle { ms: SETTLE_MS }] + Seq::new(k, |i: int| WatchAction::Wait));
    }
}

} // verus!
