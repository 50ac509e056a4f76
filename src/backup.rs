use vstd::prelude::*;

verus! {

/// Lifecycle state of an instance.
#[derive(Clone, Copy, Debug, PartialEq, Eq, Structural)]
pub enum State {
    Starting,
    Running,
    Stopping,
    Stopped,
}

/// A control message for the backup scheduler, consumed in the order sent.
#[derive(Clone, Copy, Debug, PartialEq, Eq, Structural)]
pub enum BackupInstruction {
    /// Replaces the period in seconds; `None` turns periodic backups off.
    SetPeriod(Option<u32>),
    BackupNow,
    Pause,
    Resume,
}

/// What the scheduler's loop hands to the scheduler: the next queued
/// instruction, or a one-second tick with the instance state seen then.
#[derive(Clone, Copy, Debug, PartialEq, Eq, Structural)]
pub enum SchedulerEvent {
    Instruction(BackupInstruction),
    Tick(State),
}

/// The decisions of the backup task of one instance.
///
/// While paused, the task waits for `Resume` alone: ticks do not reach it
/// and every other instruction is dropped, not deferred.
#[derive(Clone, Copy, Debug, PartialEq, Eq, Structural)]
pub struct BackupScheduler {
    pub period: Option<u32>,
    pub counter: u32,
    pub paused: bool,
}

/// The scheduler after `e`, and whether `e` calls for a backup.
pub open spec fn next_step(s: BackupScheduler, e: SchedulerEvent) -> (BackupScheduler, bool) {
    if s.paused {
        match e {
            SchedulerEvent::Instruction(BackupInstruction::Resume) => (
                BackupScheduler { paused: false, ..s },
                false,
            ),
            _ => (s, false),
        }
    } else {
        match e {
            SchedulerEvent::Instruction(i) => match i {
                BackupInstruction::SetPeriod(p) => (BackupScheduler { period: p, ..s }, false),
                BackupInstruction::BackupNow => (s, true),
                BackupInstruction::Pause => (BackupScheduler { paused: true, ..s }, false),
                BackupInstruction::Resume => (s, false),
            },
            SchedulerEvent::Tick(state) => match s.period {
                Some(p) => if state == State::Running {
                    if s.counter + 1 >= p {
                        (BackupScheduler { counter: 0, ..s }, true)
                    } else {
                        (BackupScheduler { counter: (s.counter + 1) as u32, ..s }, false)
                    }
                } else {
                    (s, false)
                },
                None => (s, false),
            },
        }
    }
}

/// The scheduler after the events `es` in order, and how many backups they
/// call for.
pub open spec fn run(s: BackupScheduler, es: Seq<SchedulerEvent>) -> (BackupScheduler, nat)
    decreases es.len(),
{
    if es.len() == 0 {
        (s, 0)
    } else {
        let (before, n) = run(s, es.drop_last());
        let (after, b) = next_step(before, es.last());
        (after, if b {
            n + 1
        } else {
            n
        })
    }
}

/// `k` ticks, each seeing the instance in `state`.
pub open spec fn ticks(k: nat, state: State) -> Seq<SchedulerEvent> {
    Seq::new(k, |i: int| SchedulerEvent::Tick(state))
}

impl BackupScheduler {
    /// The counter stays below the largest `u32`.
    pub open spec fn wf(&self) -> bool {
        self.counter < u32::MAX
    }

    /// A running (not paused) scheduler with the given period and a zero
    /// counter.
    pub fn new(period: Option<u32>) -> (r: Self)
        ensures
            r == (BackupScheduler { period, counter: 0, paused: false }),
            r.wf(),
    {
        BackupScheduler { period, counter: 0, paused: false }
    }

    /// Takes one event; the result says whether a backup must run now.
    pub fn handle(&mut self, event: SchedulerEvent) -> (backup: bool)
        requires
            old(self).wf(),
        ensures
            (*final(self), backup) == next_step(*old(self), event),
            final(self).wf(),
    {
        if self.paused {
            if let SchedulerEvent::Instruction(BackupInstruction::Resume) = event {
                self.paused = false;
            }
            return false;
        }
        match event {
            SchedulerEvent::Instruction(i) => match i {
                BackupInstruction::SetPeriod(p) => {
                    self.period = p;
                    false
                },
                BackupInstruction::BackupNow => true,
                BackupInstruction::Pause => {
                    self.paused = true;
                    false
                },
                BackupInstruction::Resume => false,
            },
            SchedulerEvent::Tick(state) => match self.period {
                Some(p) => {
                    if state == State::Running {
                        let c = self.counter + 1;
                        if c >= p {
                            self.counter = 0;
                            true
                        } else {
                            self.counter = c;
                            false
                        }
                    } else {
                        false
                    }
                },
                None => false,
            },
        }
    }
}

/// Whether a count of seconds since the Unix epoch names a date that chrono
/// can represent.
pub uninterp spec fn utc_representable(secs: int) -> bool;

/// The UTC date and time `secs` seconds after the Unix epoch, written as
/// `%Y-%m-%d_%H-%M-%S`.
pub uninterp spec fn utc_stamp(secs: int) -> Seq<char>;

/// Relies on chrono::DateTime::from_timestamp, `None` for seconds outside
/// the dates it can represent, and on DateTime::format, whose text depends on
/// the date and the pattern alone.
#[verifier::external_body]
fn format_utc_stamp(secs: i64) -> (r: Option<String>)
    ensures
        r is Some <==> utc_representable(secs as int),
        r matches Some(t) ==> t@ == utc_stamp(secs as int),
{
    match chrono::DateTime::from_timestamp(secs, 0) {
        Some(t) => Some(t.format("%Y-%m-%d_%H-%M-%S").to_string()),
        None => None,
    }
}

/// The name of the backup directory for a time stamp.
pub fn backup_name_for(stamp: &str) -> (r: String)
    ensures
        r@ == "backup-"@ + stamp@,
{
    let mut name = String::from_str("backup-");
    name.append(stamp);
    name
}

/// The name of the backup directory made `secs` seconds after the Unix
/// epoch; `None` for a time chrono cannot represent.
pub fn backup_dir_name(secs: i64) -> (r: Option<String>)
    ensures
        r is Some <==> utc_representable(secs as int),
        r matches Some(n) ==> n@ == "backup-"@ + utc_stamp(secs as int),
{
    match format_utc_stamp(secs) {
        Some(stamp) => Some(backup_name_for(stamp.as_str())),
        None => None,
    }
}

proof fn lemma_ticks_before_period(s: BackupScheduler, p: u32, k: nat)
    requires
        !s.paused,
        s.period == Some(p),
        s.counter == 0,
        k < p,
    ensures
        run(s, ticks(k, State::Running)) == (BackupScheduler { counter: k as u32, ..s }, 0nat),
    decreases k,
{
    if k > 0 {
        lemma_ticks_before_period(s, p, (k - 1) as nat);
        assert(ticks(k, State::Running).drop_last() =~= ticks((k - 1) as nat, State::Running));
    } else {
        assert(ticks(0, State::Running) =~= Seq::<SchedulerEvent>::empty());
        assert(BackupScheduler { counter: 0, ..s } == s);
    }
}

/// With a period of `p` seconds and the instance running, `p` ticks from a
/// zero counter perform exactly one backup and bring the counter back to 0.
pub proof fn lemma_one_backup_per_period(s: BackupScheduler, p: u32)
    requires
        !s.paused,
        s.period == Some(p),
        s.counter == 0,
        p >= 1,
    ensures
        run(s, ticks(p as nat, State::Running)) == (s, 1nat),
{
    lemma_ticks_before_period(s, p, (p - 1) as nat);
    assert(ticks(p as nat, State::Running).drop_last() =~= ticks((p - 1) as nat, State::Running));
    assert(BackupScheduler { counter: 0, ..s } == s);
}

/// While the instance is not running, ticks change nothing and perform no
/// backup, however many there are.
pub proof fn lemma_no_backup_unless_running(s: BackupScheduler, state: State, k: nat)
    requires
        state != State::Running,
    ensures
        run(s, ticks(k, state)) == (s, 0nat),
    decreases k,
{
    if k > 0 {
        lemma_no_backup_unless_running(s, state, (k - 1) as nat);
        assert(ticks(k, state).drop_last() =~= ticks((k - 1) as nat, state));
    } else {
        assert(ticks(0, state) =~= Seq::<SchedulerEvent>::empty());
    }
}

/// Running `a` then `b` is running `a + b`; the backups add up.
pub proof fn lemma_run_concat(s: BackupScheduler, a: Seq<SchedulerEvent>, b: Seq<SchedulerEvent>)
    ensures
        run(s, a + b) == (run(run(s, a).0, b).0, run(s, a).1 + run(run(s, a).0, b).1),
    decreases b.len(),
{
    if b.len() == 0 {
        assert(a + b =~= a);
    } else {
        assert((a + b).drop_last() =~= a + b.drop_last());
        assert((a + b).last() == b.last());
        lemma_run_concat(s, a, b.drop_last());
    }
}

/// While paused, events other than `Resume` (ticks and instructions alike)
/// change nothing and perform no backup.
pub proof fn lemma_paused_run(s: BackupScheduler, es: Seq<SchedulerEvent>)
    requires
        s.paused,
        forall|i: int|
            0 <= i < es.len() ==> es[i] != SchedulerEvent::Instruction(BackupInstruction::Resume),
    ensures
        run(s, es) == (s, 0nat),
    decreases es.len(),
{
    if es.len() > 0 {
        lemma_paused_run(s, es.drop_last());
    }
}

/// Whatever arrives between `Pause` and the next `Resume` (instructions of
/// any kind, ticks in any state) is dropped: no backup is performed, and
/// afterwards period and counter are as they were before `Pause`.
pub proof fn lemma_pause_window(s: BackupScheduler, es: Seq<SchedulerEvent>)
    requires
        !s.paused,
        forall|i: int|
            0 <= i < es.len() ==> es[i] != SchedulerEvent::Instruction(BackupInstruction::Resume),
    ensures
        run(
            s,
            seq![SchedulerEvent::Instruction(BackupInstruction::Pause)] + es + seq![
                SchedulerEvent::Instruction(BackupInstruction::Resume),
            ],
        ) == (s, 0nat),
{
    let pause = seq![SchedulerEvent::Instruction(BackupInstruction::Pause)];
    let resume = seq![SchedulerEvent::Instruction(BackupInstruction::Resume)];
    let paused = BackupScheduler { paused: true, ..s };
    reveal_with_fuel(run, 2);
    assert(pause.drop_last() =~= Seq::<SchedulerEvent>::empty());
    assert(resume.drop_last() =~= Seq::<SchedulerEvent>::empty());
    assert(run(s, pause) == (paused, 0nat));
    lemma_paused_run(paused, es);
    lemma_run_concat(s, pause, es);
    assert(run(paused, resume) == (s, 0nat));
    lemma_run_concat(s, pause + es, resume);
}

/// With a period of `p` seconds and the instance running, `n * p` ticks
/// from a zero counter perform exactly `n` backups and leave the counter at 0.
pub proof fn lemma_backups_per_periods(s: BackupScheduler, p: u32, n: nat)
    requires
        !s.paused,
        s.period == Some(p),
        s.counter == 0,
        p >= 1,
    ensures
        run(s, ticks(n * p as nat, State::Running)) == (s, n),
    decreases n,
{
    if n == 0 {
        assert(n * p as nat == 0) by (nonlinear_arith)
            requires
                n == 0,
        ;
        assert(ticks(0, State::Running) =~= Seq::<SchedulerEvent>::empty());
    } else {
        let m = (n - 1) as nat;
        lemma_backups_per_periods(s, p, m);
        assert(n * p as nat == m * p as nat + p as nat) by (nonlinear_arith)
            requires
                m == n - 1,
        ;
        assert(ticks(n * p as nat, State::Running) =~= ticks(m * p as nat, State::Running) + ticks(
            p as nat,
            State::Running,
        ));
        lemma_run_concat(s, ticks(m * p as nat, State::Running), ticks(p as nat, State::Running));
        lemma_one_backup_per_period(s, p);
    }
}

/// With a period of `p` seconds and the instance running, `n * p + r` ticks
/// (`r < p`) from a zero counter perform exactly `n` backups and leave the
/// counter at `r`: the counter stays below the period.
pub proof fn lemma_backups_after_ticks(s: BackupScheduler, p: u32, n: nat, r: nat)
    requires
        !s.paused,
        s.period == Some(p),
        s.counter == 0,
        p >= 1,
        r < p,
    ensures
        run(s, ticks(n * p as nat + r, State::Running)) == (BackupScheduler { counter: r as u32, ..s }, n),
{
    lemma_backups_per_periods(s, p, n);
    assert(ticks(n * p as nat + r, State::Running) =~= ticks(n * p as nat, State::Running) + ticks(
        r,
        State::Running,
    ));
    lemma_run_concat(s, ticks(n * p as nat, State::Running), ticks(r, State::Running));
    lemma_ticks_before_period(s, p, r);
}

} // verus!
