//! Replacing the installed app bundle with an update, with rollback.
//!
//! The renames themselves are the caller's: each machine says which rename it needs
//! next, and is told how that rename went.

use vstd::prelude::*;
use vstd::string::*;

verus! {

broadcast use vstd::string::group_string_axioms;

/// The stage of a replacement: moving the current bundle aside, moving the new one in,
/// or moving the old one back after the new one failed to move in.
#[derive(Clone, Debug, PartialEq, Eq)]
pub enum ReplaceStage {
    MoveAside,
    Install,
    Restore(String),
}

/// Replacing the bundle at `current` by the one at `next`, keeping the old one at `backup`.
#[derive(Clone, Debug, PartialEq, Eq)]
pub struct Replacement {
    pub current: String,
    pub next: String,
    pub backup: String,
    pub stage: ReplaceStage,
}

/// What a machine does after a rename: ask for another rename, or finish.
#[derive(Debug)]
pub enum Progress<M> {
    Continue(M),
    Finished(Result<(), String>),
}

/// A stage, with text as characters.
pub enum StageView {
    MoveAside,
    Install,
    Restore(Seq<char>),
}

/// A replacement, with text as characters.
pub struct ReplacementView {
    pub current: Seq<char>,
    pub next: Seq<char>,
    pub backup: Seq<char>,
    pub stage: StageView,
}

/// What a machine does after a rename, with text as characters.
pub enum ProgressView<M> {
    Continue(M),
    Finished(Result<(), Seq<char>>),
}

/// The view of a result whose error is text.
pub open spec fn result_view(r: Result<(), String>) -> Result<(), Seq<char>> {
    match r {
        Ok(()) => Ok(()),
        Err(e) => Err(e@),
    }
}

impl View for Replacement {
    type V = ReplacementView;

    open spec fn view(&self) -> ReplacementView {
        ReplacementView {
            current: self.current@,
            next: self.next@,
            backup: self.backup@,
            stage: match self.stage {
                ReplaceStage::MoveAside => StageView::MoveAside,
                ReplaceStage::Install => StageView::Install,
                ReplaceStage::Restore(e) => StageView::Restore(e@),
            },
        }
    }
}

/// The message when the new bundle could not move in and the old one was moved back.
pub open spec fn restored_message(error: Seq<char>) -> Seq<char> {
    "Could not install update; the previous app was restored: "@ + error
}

/// The message when neither the new bundle could move in nor the old one move back.
pub open spec fn stranded_message(
    error: Seq<char>,
    rollback: Seq<char>,
    backup: Seq<char>,
) -> Seq<char> {
    "Could not install update ("@ + error + ") or restore the previous app ("@ + rollback
        + "). The previous app is at "@ + backup
}

impl ReplacementView {
    /// The rename this stage needs: (from, to).
    pub open spec fn requested(self) -> (Seq<char>, Seq<char>) {
        match self.stage {
            StageView::MoveAside => (self.current, self.backup),
            StageView::Install => (self.next, self.current),
            StageView::Restore(_) => (self.backup, self.current),
        }
    }

    /// The machine after the requested rename had the given outcome.
    pub open spec fn advanced(self, outcome: Result<(), Seq<char>>) -> ProgressView<ReplacementView> {
        match self.stage {
            StageView::MoveAside => match outcome {
                Ok(()) => ProgressView::Continue(ReplacementView { stage: StageView::Install, ..self }),
                Err(e) => ProgressView::Finished(Err(e)),
            },
            StageView::Install => match outcome {
                Ok(()) => ProgressView::Finished(Ok(())),
                Err(e) => ProgressView::Continue(ReplacementView { stage: StageView::Restore(e), ..self }),
            },
            StageView::Restore(error) => match outcome {
                Ok(()) => ProgressView::Finished(Err(restored_message(error))),
                Err(rollback) => ProgressView::Finished(
                    Err(stranded_message(error, rollback, self.backup)),
                ),
            },
        }
    }
}

/// The view of a replacement's progress.
pub open spec fn progress_view(p: Progress<Replacement>) -> ProgressView<ReplacementView> {
    match p {
        Progress::Continue(m) => ProgressView::Continue(m@),
        Progress::Finished(r) => ProgressView::Finished(result_view(r)),
    }
}

fn text(s: &str) -> (r: String)
    ensures
        r@ == s@,
{
    s.to_owned()
}

/// The start of a replacement of `current` by `next`, keeping the old bundle at `backup`.
pub open spec fn replacement_start(
    current: Seq<char>,
    next: Seq<char>,
    backup: Seq<char>,
) -> ReplacementView {
    ReplacementView { current, next, backup, stage: StageView::MoveAside }
}

/// Begins replacing the bundle at `current` by the one at `next`, keeping the old
/// one at `backup`. The first rename it needs moves `current` to `backup`.
pub fn replace_with(current: String, next: String, backup: String) -> (r: Replacement)
    ensures
        r@ == replacement_start(current@, next@, backup@),
{
    Replacement { current, next, backup, stage: ReplaceStage::MoveAside }
}

impl Replacement {
    /// The rename this replacement needs now: (from, to).
    pub fn request(&self) -> (r: (String, String))
        ensures
            (r.0@, r.1@) == self@.requested(),
    {
        match &self.stage {
            ReplaceStage::MoveAside => (self.current.clone(), self.backup.clone()),
            ReplaceStage::Install => (self.next.clone(), self.current.clone()),
            ReplaceStage::Restore(_) => (self.backup.clone(), self.current.clone()),
        }
    }

    /// The replacement after its requested rename had the given outcome.
    pub fn advance(self, outcome: Result<(), String>) -> (r: Progress<Replacement>)
        ensures
            progress_view(r) == self@.advanced(result_view(outcome)),
    {
        let Replacement { current, next, backup, stage } = self;
        match stage {
            ReplaceStage::MoveAside => match outcome {
                Ok(()) => Progress::Continue(
                    Replacement { current, next, backup, stage: ReplaceStage::Install },
                ),
                Err(e) => Progress::Finished(Err(e)),
            },
            ReplaceStage::Install => match outcome {
                Ok(()) => Progress::Finished(Ok(())),
                Err(e) => Progress::Continue(
                    Replacement { current, next, backup, stage: ReplaceStage::Restore(e) },
                ),
            },
            ReplaceStage::Restore(error) => match outcome {
                Ok(()) => {
                    let mut message = text("Could not install update; the previous app was restored: ");
                    message.append(error.as_str());
                    Progress::Finished(Err(message))
                },
                Err(rollback) => {
                    let mut message = text("Could not install update (");
                    message.append(error.as_str());
                    message.append(") or restore the previous app (");
                    message.append(rollback.as_str());
                    message.append("). The previous app is at ");
                    message.append(backup.as_str());
                    Progress::Finished(Err(message))
                },
            },
        }
    }
}

/// Replacing the bundle and restarting the app: the replacement, the restart, and,
/// when the restart fails, moving the new bundle back out and the old one in.
#[derive(Clone, Debug, PartialEq, Eq)]
pub enum RestartPhase {
    Replacing(Replacement),
    Restarting,
    Reverting(Replacement, String),
}

/// Replacing the bundle at `current` by the one at `next` and restarting.
#[derive(Clone, Debug, PartialEq, Eq)]
pub struct Restart {
    pub current: String,
    pub next: String,
    pub backup: String,
    pub phase: RestartPhase,
}

/// What a restart machine needs done next.
#[derive(Clone, Debug, PartialEq, Eq)]
pub enum Request {
    Rename(String, String),
    Restart,
}

/// A restart phase, with text as characters.
pub enum RestartPhaseView {
    Replacing(ReplacementView),
    Restarting,
    Reverting(ReplacementView, Seq<char>),
}

/// A restart machine, with text as characters.
pub struct RestartView {
    pub current: Seq<char>,
    pub next: Seq<char>,
    pub backup: Seq<char>,
    pub phase: RestartPhaseView,
}

/// A request, with text as characters.
pub enum RequestView {
    Rename(Seq<char>, Seq<char>),
    Restart,
}

impl View for Restart {
    type V = RestartView;

    open spec fn view(&self) -> RestartView {
        RestartView {
            current: self.current@,
            next: self.next@,
            backup: self.backup@,
            phase: match self.phase {
                RestartPhase::Replacing(r) => RestartPhaseView::Replacing(r@),
                RestartPhase::Restarting => RestartPhaseView::Restarting,
                RestartPhase::Reverting(r, e) => RestartPhaseView::Reverting(r@, e@),
            },
        }
    }
}

/// The message when the restart failed and the old bundle was moved back.
pub open spec fn restart_message(error: Seq<char>) -> Seq<char> {
    "Could not restart Muxy Beta; the previous app was restored: "@ + error
}

impl RestartView {
    /// What the machine needs now.
    pub open spec fn requested(self) -> RequestView {
        match self.phase {
            RestartPhaseView::Replacing(r) => RequestView::Rename(r.requested().0, r.requested().1),
            RestartPhaseView::Restarting => RequestView::Restart,
            RestartPhaseView::Reverting(r, _) => RequestView::Rename(r.requested().0, r.requested().1),
        }
    }

    /// The machine after what it needed had the given outcome.
    pub open spec fn advanced(self, outcome: Result<(), Seq<char>>) -> ProgressView<RestartView> {
        match self.phase {
            RestartPhaseView::Replacing(r) => match r.advanced(outcome) {
                ProgressView::Continue(r2) => ProgressView::Continue(
                    RestartView { phase: RestartPhaseView::Replacing(r2), ..self },
                ),
                ProgressView::Finished(Ok(())) => ProgressView::Continue(
                    RestartView { phase: RestartPhaseView::Restarting, ..self },
                ),
                ProgressView::Finished(Err(e)) => ProgressView::Finished(Err(e)),
            },
            RestartPhaseView::Restarting => match outcome {
                Ok(()) => ProgressView::Finished(Ok(())),
                Err(e) => ProgressView::Continue(
                    RestartView {
                        phase: RestartPhaseView::Reverting(
                            replacement_start(self.current, self.backup, self.next),
                            e,
                        ),
                        ..self
                    },
                ),
            },
            RestartPhaseView::Reverting(r, error) => match r.advanced(outcome) {
                ProgressView::Continue(r2) => ProgressView::Continue(
                    RestartView { phase: RestartPhaseView::Reverting(r2, error), ..self },
                ),
                ProgressView::Finished(Ok(())) => ProgressView::Finished(
                    Err(restart_message(error)),
                ),
                ProgressView::Finished(Err(e)) => ProgressView::Finished(Err(e)),
            },
        }
    }
}

/// The view of a restart machine's progress.
pub open spec fn restart_progress_view(p: Progress<Restart>) -> ProgressView<RestartView> {
    match p {
        Progress::Continue(m) => ProgressView::Continue(m@),
        Progress::Finished(r) => ProgressView::Finished(result_view(r)),
    }
}

/// Begins replacing the bundle at `current` by the one at `next`, keeping the old one at
/// `backup`, then restarting; if the restart fails, the old bundle is moved back.
pub fn replace_and_restart(current: String, next: String, backup: String) -> (r: Restart)
    ensures
        r@ == (RestartView {
            current: current@,
            next: next@,
            backup: backup@,
            phase: RestartPhaseView::Replacing(replacement_start(current@, next@, backup@)),
        }),
{
    let replacement = replace_with(current.clone(), next.clone(), backup.clone());
    Restart { current, next, backup, phase: RestartPhase::Replacing(replacement) }
}

impl Restart {
    /// What this machine needs done now.
    pub fn request(&self) -> (r: Request)
        ensures
            match r {
                Request::Rename(from, to) => self@.requested() == RequestView::Rename(from@, to@),
                Request::Restart => self@.requested() == RequestView::Restart,
            },
    {
        match &self.phase {
            RestartPhase::Replacing(r) => {
                let (from, to) = r.request();
                Request::Rename(from, to)
            },
            RestartPhase::Restarting => Request::Restart,
            RestartPhase::Reverting(r, _) => {
                let (from, to) = r.request();
                Request::Rename(from, to)
            },
        }
    }

    /// The machine after what it needed had the given outcome.
    pub fn advance(self, outcome: Result<(), String>) -> (r: Progress<Restart>)
        ensures
            restart_progress_view(r) == self@.advanced(result_view(outcome)),
    {
        let Restart { current, next, backup, phase } = self;
        match phase {
            RestartPhase::Replacing(r) => match r.advance(outcome) {
                Progress::Continue(r2) => Progress::Continue(
                    Restart { current, next, backup, phase: RestartPhase::Replacing(r2) },
                ),
                Progress::Finished(Ok(())) => Progress::Continue(
                    Restart { current, next, backup, phase: RestartPhase::Restarting },
                ),
                Progress::Finished(Err(e)) => Progress::Finished(Err(e)),
            },
            RestartPhase::Restarting => match outcome {
                Ok(()) => Progress::Finished(Ok(())),
                Err(e) => {
                    let revert = replace_with(current.clone(), backup.clone(), next.clone());
                    Progress::Continue(
                        Restart { current, next, backup, phase: RestartPhase::Reverting(revert, e) },
                    )
                },
            },
            RestartPhase::Reverting(r, error) => match r.advance(outcome) {
                Progress::Continue(r2) => Progress::Continue(
                    Restart { current, next, backup, phase: RestartPhase::Reverting(r2, error) },
                ),
                Progress::Finished(Ok(())) => {
                    let mut message = text("Could not restart Muxy Beta; the previous app was restored: ");
                    message.append(error.as_str());
                    Progress::Finished(Err(message))
                },
                Progress::Finished(Err(e)) => Progress::Finished(Err(e)),
            },
        }
    }
}

/// Bundles on disk: each path to the bundle it holds.
pub type Disk = Map<Seq<char>, int>;

/// The disk after a successful rename of `from` to `to`.
pub open spec fn renamed(disk: Disk, from: Seq<char>, to: Seq<char>) -> Disk {
    disk.remove(from).insert(to, disk[from])
}

/// A replacement run against a disk: each outcome is that of the rename asked next.
/// Gives the disk, the result once finished, and how many outcomes were used.
pub open spec fn run_replacement(
    r: ReplacementView,
    disk: Disk,
    outcomes: Seq<Result<(), Seq<char>>>,
) -> (Disk, Option<Result<(), Seq<char>>>, nat)
    decreases outcomes.len(),
{
    if outcomes.len() == 0 {
        (disk, None, 0)
    } else {
        let (from, to) = r.requested();
        let after = if outcomes[0] is Ok {
            renamed(disk, from, to)
        } else {
            disk
        };
        match r.advanced(outcomes[0]) {
            ProgressView::Continue(r2) => {
                let (d, res, n) = run_replacement(r2, after, outcomes.drop_first());
                (d, res, n + 1)
            },
            ProgressView::Finished(res) => (after, Some(res), 1),
        }
    }
}

/// A restart machine run against a disk: each outcome is that of what it asked next.
pub open spec fn run_restart(
    m: RestartView,
    disk: Disk,
    outcomes: Seq<Result<(), Seq<char>>>,
) -> (Disk, Option<Result<(), Seq<char>>>, nat)
    decreases outcomes.len(),
{
    if outcomes.len() == 0 {
        (disk, None, 0)
    } else {
        let after = match m.requested() {
            RequestView::Rename(from, to) => if outcomes[0] is Ok {
                renamed(disk, from, to)
            } else {
                disk
            },
            RequestView::Restart => disk,
        };
        match m.advanced(outcomes[0]) {
            ProgressView::Continue(m2) => {
                let (d, res, n) = run_restart(m2, after, outcomes.drop_first());
                (d, res, n + 1)
            },
            ProgressView::Finished(res) => (after, Some(res), 1),
        }
    }
}

/// Whatever the renames do, a replacement never loses the installed bundle: when it
/// succeeds, `current` holds the new bundle and `backup` the old one; when it fails,
/// the old bundle is at `current` or at `backup`, and if the last rename succeeded,
/// both bundles are back where they were.
pub proof fn lemma_replacement_keeps_the_previous_app(
    current: Seq<char>,
    next: Seq<char>,
    backup: Seq<char>,
    disk: Disk,
    outcomes: Seq<Result<(), Seq<char>>>,
)
    requires
        current != next,
        current != backup,
        next != backup,
        disk.contains_key(current),
        disk.contains_key(next),
    ensures
        ({
            let (d, res, n) = run_replacement(replacement_start(current, next, backup), disk, outcomes);
            &&& res == Some(Ok::<(), Seq<char>>(())) ==> d.contains_key(current) && d[current] == disk[next]
                && d.contains_key(backup) && d[backup] == disk[current] && !d.contains_key(next)
            &&& res is Some && res != Some(Ok::<(), Seq<char>>(())) ==> (d.contains_key(current)
                && d[current] == disk[current]) || (d.contains_key(backup) && d[backup]
                == disk[current])
            &&& res is Some && res != Some(Ok::<(), Seq<char>>(())) && outcomes[n - 1] is Ok
                ==> d.contains_key(current) && d[current] == disk[current] && d.contains_key(next)
                && d[next] == disk[next]
            &&& res is Some && res != Some(Ok::<(), Seq<char>>(())) ==> d.contains_key(next)
                && d[next] == disk[next]
            &&& res is Some && res != Some(Ok::<(), Seq<char>>(())) ==> outcomes[n - 1] is Err
                || (n >= 2 && outcomes[n - 2] is Err)
            &&& res is Some ==> 1 <= n <= 3
            &&& outcomes.len() >= 3 ==> res is Some
        }),
{
    reveal_with_fuel(run_replacement, 4);
    let s = replacement_start(current, next, backup);
    if outcomes.len() >= 1 {
        let o1 = outcomes.drop_first();
        if outcomes.len() >= 2 {
            let o2 = o1.drop_first();
            if outcomes.len() >= 3 {
                let o3 = o2.drop_first();
                assert(o3.len() == outcomes.len() - 3);
            }
        }
    }
}

/// Each rename a replacement asks for, and how the replacement goes on: it first moves
/// `current` to `backup`, and stops with that rename's error if it fails; then moves `next`
/// to `current`, and succeeds if that works; otherwise moves `backup` back to `current`, and
/// fails, saying the previous app was restored where that works. No other rename is asked.
pub proof fn lemma_replacement_renames(
    current: Seq<char>,
    next: Seq<char>,
    backup: Seq<char>,
    first: Result<(), Seq<char>>,
    second: Result<(), Seq<char>>,
    third: Result<(), Seq<char>>,
)
    ensures
        ({
            let s0 = replacement_start(current, next, backup);
            &&& s0.requested() == (current, backup)
            &&& match first {
                Err(e) => s0.advanced(first) == ProgressView::<ReplacementView>::Finished(Err(e)),
                Ok(()) => s0.advanced(first) matches ProgressView::Continue(s1) && s1.requested() == (next, current)
                    && match second {
                    Ok(()) => s1.advanced(second) == ProgressView::<ReplacementView>::Finished(Ok(())),
                    Err(e) => s1.advanced(second) matches ProgressView::Continue(s2) && s2.requested() == (backup, current)
                        && match third {
                        Ok(()) => s2.advanced(third) == ProgressView::<ReplacementView>::Finished(
                            Err(restored_message(e)),
                        ),
                        Err(r) => s2.advanced(third) == ProgressView::<ReplacementView>::Finished(
                            Err(stranded_message(e, r, backup)),
                        ),
                    },
                },
            }
        }),
{
}

/// A replacement run against a disk on which a rename works exactly where its source exists,
/// failing with `error` elsewhere, for at most `steps` renames.
pub open spec fn replace_on_disk(r: ReplacementView, disk: Disk, error: Seq<char>, steps: nat) -> (
    Disk,
    Option<Result<(), Seq<char>>>,
)
    decreases steps,
{
    if steps == 0 {
        (disk, None)
    } else {
        let (from, to) = r.requested();
        let outcome = if disk.contains_key(from) {
            Ok::<(), Seq<char>>(())
        } else {
            Err(error)
        };
        let after = if outcome is Ok {
            renamed(disk, from, to)
        } else {
            disk
        };
        match r.advanced(outcome) {
            ProgressView::Continue(r2) => replace_on_disk(r2, after, error, (steps - 1) as nat),
            ProgressView::Finished(res) => (after, Some(res)),
        }
    }
}

/// Replacing an installed bundle, with no backup in the way: where the new bundle exists it
/// takes the installed one's place, which moves to the backup; where it is missing, the
/// replacement fails, the installed bundle is back in place, and no backup is left.
pub proof fn lemma_replace_moves_bundles_or_restores(
    current: Seq<char>,
    next: Seq<char>,
    backup: Seq<char>,
    disk: Disk,
    error: Seq<char>,
)
    requires
        current != next,
        current != backup,
        next != backup,
        disk.contains_key(current),
        !disk.contains_key(backup),
    ensures
        ({
            let (d, res) = replace_on_disk(replacement_start(current, next, backup), disk, error, 3);
            &&& disk.contains_key(next) ==> res == Some(Ok::<(), Seq<char>>(())) && d.contains_key(current)
                && d[current] == disk[next] && d.contains_key(backup) && d[backup] == disk[current]
                && !d.contains_key(next)
            &&& !disk.contains_key(next) ==> res == Some(Err::<(), Seq<char>>(restored_message(error)))
                && d.contains_key(current) && d[current] == disk[current] && !d.contains_key(backup)
        }),
{
    reveal_with_fuel(replace_on_disk, 4);
    let d1 = renamed(disk, current, backup);
    assert(d1.contains_key(backup) && !d1.contains_key(current));
    if disk.contains_key(next) {
        assert(d1.contains_key(next));
    } else {
        assert(!d1.contains_key(next));
        assert(renamed(d1, backup, current).remove(backup) == renamed(d1, backup, current));
    }
}

/// The start of replacing `current` by `next` and restarting.
pub open spec fn restart_start(current: Seq<char>, next: Seq<char>, backup: Seq<char>) -> RestartView {
    RestartView {
        current,
        next,
        backup,
        phase: RestartPhaseView::Replacing(replacement_start(current, next, backup)),
    }
}

/// Whatever the renames and the restart do, updating never loses the installed bundle:
/// when it succeeds, `current` holds the new bundle and `backup` the old one; when it
/// fails, the old bundle is at `current` or at `backup`, and if the last two renames
/// succeeded (the restart failed and the replacement was undone), both bundles are back
/// where they were.
pub proof fn lemma_restart_keeps_the_previous_app(
    current: Seq<char>,
    next: Seq<char>,
    backup: Seq<char>,
    disk: Disk,
    outcomes: Seq<Result<(), Seq<char>>>,
)
    requires
        current != next,
        current != backup,
        next != backup,
        disk.contains_key(current),
        disk.contains_key(next),
    ensures
        ({
            let (d, res, n) = run_restart(restart_start(current, next, backup), disk, outcomes);
            &&& res == Some(Ok::<(), Seq<char>>(())) ==> d.contains_key(current) && d[current] == disk[next]
                && d.contains_key(backup) && d[backup] == disk[current]
            &&& res is Some && res != Some(Ok::<(), Seq<char>>(())) ==> (d.contains_key(current)
                && d[current] == disk[current]) || (d.contains_key(backup) && d[backup]
                == disk[current])
            &&& res is Some && res != Some(Ok::<(), Seq<char>>(())) && n >= 2 && outcomes[n - 1] is Ok
                && outcomes[n - 2] is Ok ==> d.contains_key(current) && d[current] == disk[current]
                && d.contains_key(next) && d[next] == disk[next]
            &&& res is Some ==> 1 <= n <= 7
            &&& outcomes.len() >= 7 ==> res is Some
        }),
{
    let start = restart_start(current, next, backup);
    let r = replacement_start(current, next, backup);
    lemma_run_replacing(start, r, disk, outcomes);
    lemma_replacement_keeps_the_previous_app(current, next, backup, disk, outcomes);
    lemma_run_replacement_len(r, disk, outcomes);
    let (d, res, n) = run_replacement(r, disk, outcomes);
    if res == Some(Ok::<(), Seq<char>>(())) {
        let rest = outcomes.skip(n as int);
        let m = RestartView { phase: RestartPhaseView::Restarting, ..start };
        if rest.len() > 0 {
            if rest[0] is Err {
                let e = rest[0]->Err_0;
                let revert = replacement_start(current, backup, next);
                let m2 = RestartView { phase: RestartPhaseView::Reverting(revert, e), ..start };
                let rest2 = rest.drop_first();
                lemma_run_reverting(m2, revert, e, d, rest2);
                lemma_replacement_keeps_the_previous_app(current, backup, next, d, rest2);
                lemma_run_replacement_len(revert, d, rest2);
                let (d3, res3, n3) = run_replacement(revert, d, rest2);
                if res3 is Some {
                    assert(outcomes[(n + 1 + n3) - 1] == rest2[n3 - 1]);
                    if n3 >= 2 {
                        assert(outcomes[(n + 1 + n3) - 2] == rest2[n3 - 2]);
                    }
                }
                assert(run_restart(m, d, rest) == ({
                    let (d4, res4, n4) = run_restart(m2, d, rest2);
                    (d4, res4, n4 + 1)
                }));
            } else {
                assert(run_restart(m, d, rest) == (d, Some(Ok::<(), Seq<char>>(())), 1nat));
            }
        }
    }
}

proof fn lemma_run_replacement_len(r: ReplacementView, disk: Disk, os: Seq<Result<(), Seq<char>>>)
    ensures
        run_replacement(r, disk, os).2 <= os.len(),
        run_replacement(r, disk, os).1 is Some ==> run_replacement(r, disk, os).2 >= 1,
    decreases os.len(),
{
    if os.len() > 0 {
        let (from, to) = r.requested();
        let after = if os[0] is Ok {
            renamed(disk, from, to)
        } else {
            disk
        };
        match r.advanced(os[0]) {
            ProgressView::Continue(r2) => lemma_run_replacement_len(r2, after, os.drop_first()),
            ProgressView::Finished(_) => {},
        }
    }
}

proof fn lemma_run_replacing(m: RestartView, r: ReplacementView, disk: Disk, os: Seq<Result<(), Seq<char>>>)
    requires
        m.phase == RestartPhaseView::Replacing(r),
    ensures
        run_restart(m, disk, os) == ({
            let (d, res, n) = run_replacement(r, disk, os);
            if res == Some(Ok::<(), Seq<char>>(())) {
                let (d2, res2, n2) = run_restart(
                    RestartView { phase: RestartPhaseView::Restarting, ..m },
                    d,
                    os.skip(n as int),
                );
                (d2, res2, n + n2)
            } else {
                (d, res, n)
            }
        }),
    decreases os.len(),
{
    if os.len() > 0 {
        let (from, to) = r.requested();
        let after = if os[0] is Ok {
            renamed(disk, from, to)
        } else {
            disk
        };
        match r.advanced(os[0]) {
            ProgressView::Continue(r2) => {
                let m2 = RestartView { phase: RestartPhaseView::Replacing(r2), ..m };
                lemma_run_replacing(m2, r2, after, os.drop_first());
                lemma_run_replacement_len(r2, after, os.drop_first());
                let (d, res, n) = run_replacement(r2, after, os.drop_first());
                assert(os.drop_first().skip(n as int) =~= os.skip(n as int + 1));
            },
            ProgressView::Finished(res) => {
                assert(os.skip(1) =~= os.drop_first());
            },
        }
    }
}

proof fn lemma_run_reverting(
    m: RestartView,
    r: ReplacementView,
    error: Seq<char>,
    disk: Disk,
    os: Seq<Result<(), Seq<char>>>,
)
    requires
        m.phase == RestartPhaseView::Reverting(r, error),
    ensures
        run_restart(m, disk, os) == ({
            let (d, res, n) = run_replacement(r, disk, os);
            if res == Some(Ok::<(), Seq<char>>(())) {
                (d, Some(Err::<(), Seq<char>>(restart_message(error))), n)
            } else {
                (d, res, n)
            }
        }),
    decreases os.len(),
{
    if os.len() > 0 {
        let (from, to) = r.requested();
        let after = if os[0] is Ok {
            renamed(disk, from, to)
        } else {
            disk
        };
        match r.advanced(os[0]) {
            ProgressView::Continue(r2) => {
                let m2 = RestartView { phase: RestartPhaseView::Reverting(r2, error), ..m };
                lemma_run_reverting(m2, r2, error, after, os.drop_first());
            },
            ProgressView::Finished(res) => {},
        }
    }
}

} // verus!
