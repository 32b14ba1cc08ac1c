//! The log files: how older ones make room for a new one, and what is written.

use vstd::prelude::*;
use vstd::string::*;

use crate::text::{decimal, decimal_reads_back, push_decimal};

verus! {

/// How many older log files are kept.
pub const MAX_BACKUPS: u32 = 5;

/// The name of the log file.
pub const LOG_NAME: &'static str = "ffscreencast.log";

/// The name of an older log file; the newest of them is the first.
pub open spec fn backup_name(i: nat) -> Seq<char> {
    LOG_NAME@ + decimal(i)
}

fn backup_file(i: u32) -> (r: String)
    ensures
        r@ == backup_name(i as nat),
{
    let mut s: String = LOG_NAME.to_owned();
    push_decimal(&mut s, i as u64);
    s
}

/// A step in the directory of the log files. One that cannot be done is passed
/// over.
#[derive(Debug)]
pub enum FileStep {
    Remove { name: String },
    Rename { from: String, to: String },
}

/// A step in plain values.
pub enum StepView {
    Remove(Seq<char>),
    Rename(Seq<char>, Seq<char>),
}

impl FileStep {
    /// The step in plain values.
    pub open spec fn view(&self) -> StepView {
        match self {
            FileStep::Remove { name } => StepView::Remove(name@),
            FileStep::Rename { from, to } => StepView::Rename(from@, to@),
        }
    }
}

/// Steps in plain values.
pub open spec fn steps_view(steps: Seq<FileStep>) -> Seq<StepView> {
    Seq::new(steps.len(), |i: int| steps[i].view())
}

/// The steps that make room for a new log file: the oldest goes, and each other
/// one takes the name of the next older.
pub open spec fn rotation() -> Seq<StepView> {
    seq![
        StepView::Remove(backup_name(5)),
        StepView::Rename(backup_name(4), backup_name(5)),
        StepView::Rename(backup_name(3), backup_name(4)),
        StepView::Rename(backup_name(2), backup_name(3)),
        StepView::Rename(backup_name(1), backup_name(2)),
        StepView::Rename(LOG_NAME@, backup_name(1)),
    ]
}

/// Makes room for a new log file.
pub fn init() -> (r: Vec<FileStep>)
    ensures
        steps_view(r@) == rotation(),
{
    let mut steps: Vec<FileStep> = Vec::new();
    steps.push(FileStep::Remove { name: backup_file(MAX_BACKUPS) });
    assert(steps_view(steps@) =~= rotation().take(1));
    let mut i: u32 = MAX_BACKUPS;
    while i > 1
        invariant
            1 <= i <= MAX_BACKUPS,
            steps_view(steps@) == rotation().take(6 - i),
        decreases i,
    {
        i = i - 1;
        let ghost before = steps_view(steps@);
        steps.push(FileStep::Rename { from: backup_file(i), to: backup_file(i + 1) });
        assert(steps_view(steps@) =~= before.push(
            StepView::Rename(backup_name(i as nat), backup_name((i + 1) as nat)),
        ));
        assert(rotation().take(6 - i) =~= before.push(rotation()[5 - i]));
    }
    let ghost before = steps_view(steps@);
    steps.push(FileStep::Rename { from: LOG_NAME.to_owned(), to: backup_file(1) });
    assert(steps_view(steps@) =~= before.push(StepView::Rename(LOG_NAME@, backup_name(1))));
    assert(steps_view(steps@) =~= rotation());
    steps
}

/// A directory after a step: files by name, with what they hold.
pub open spec fn stepped<T>(dir: Map<Seq<char>, T>, step: StepView) -> Map<Seq<char>, T> {
    match step {
        StepView::Remove(name) => dir.remove(name),
        StepView::Rename(from, to) => if dir.contains_key(from) {
            dir.remove(from).insert(to, dir[from])
        } else {
            dir
        },
    }
}

/// A directory after steps.
pub open spec fn after_steps<T>(dir: Map<Seq<char>, T>, steps: Seq<StepView>) -> Map<Seq<char>, T>
    decreases steps.len(),
{
    if steps.len() == 0 {
        dir
    } else {
        after_steps(stepped(dir, steps[0]), steps.skip(1))
    }
}

/// What a directory holds under a name.
pub open spec fn held<T>(dir: Map<Seq<char>, T>, name: Seq<char>) -> Option<T> {
    if dir.contains_key(name) {
        Some(dir[name])
    } else {
        None
    }
}

proof fn lemma_names()
    ensures
        forall|i: nat, j: nat|
            i != j && i <= 5 && j <= 5 ==> #[trigger] backup_name(i) != #[trigger] backup_name(j),
        forall|i: nat| i <= 5 ==> #[trigger] backup_name(i) != LOG_NAME@,
{
    assert forall|i: nat| i <= 5 implies #[trigger] backup_name(i) != LOG_NAME@ by {
        decimal_reads_back(i, 5);
        assert(backup_name(i).len() > LOG_NAME@.len());
    }
    assert forall|i: nat, j: nat| i != j && i <= 5 && j <= 5 implies #[trigger] backup_name(i)
        != #[trigger] backup_name(j) by {
        decimal_reads_back(i, 5);
        decimal_reads_back(j, 5);
        if backup_name(i) == backup_name(j) {
            let n = LOG_NAME@.len() as int;
            assert(backup_name(i).skip(n) =~= decimal(i));
            assert(backup_name(j).skip(n) =~= decimal(j));
        }
    }
}

/// Once room is made there is no log file, the one there was is the newest of
/// the older ones, and each older one has become one older; the oldest is gone.
/// No other file is touched.
pub proof fn rotation_keeps_the_newest<T>(dir: Map<Seq<char>, T>, other: Seq<char>)
    requires
        other != LOG_NAME@,
        forall|i: nat| 1 <= i <= 5 ==> other != #[trigger] backup_name(i),
    ensures
        held(after_steps(dir, rotation()), LOG_NAME@) is None,
        held(after_steps(dir, rotation()), backup_name(1)) == held(dir, LOG_NAME@),
        held(after_steps(dir, rotation()), backup_name(2)) == held(dir, backup_name(1)),
        held(after_steps(dir, rotation()), backup_name(3)) == held(dir, backup_name(2)),
        held(after_steps(dir, rotation()), backup_name(4)) == held(dir, backup_name(3)),
        held(after_steps(dir, rotation()), backup_name(5)) == held(dir, backup_name(4)),
        held(after_steps(dir, rotation()), other) == held(dir, other),
{
    lemma_names();
    let r = rotation();
    reveal_with_fuel(after_steps, 7);
    let d1 = stepped(dir, r[0]);
    let d2 = stepped(d1, r[1]);
    let d3 = stepped(d2, r[2]);
    let d4 = stepped(d3, r[3]);
    let d5 = stepped(d4, r[4]);
    let d6 = stepped(d5, r[5]);
    assert(r.skip(1)[0] == r[1]);
    assert(r.skip(1).skip(1)[0] == r[2]);
    assert(r.skip(1).skip(1).skip(1)[0] == r[3]);
    assert(r.skip(1).skip(1).skip(1).skip(1)[0] == r[4]);
    assert(r.skip(1).skip(1).skip(1).skip(1).skip(1)[0] == r[5]);
    assert(after_steps(dir, r) == d6);
}

/// The line for a panic.
pub fn panic_line(thread: Option<&str>, location: Option<&str>, payload: Option<&str>) -> (r: String)
    ensures
        r@ == "[PANIC] thread '"@ + (match thread {
            Some(t) => t@,
            None => "<unnamed>"@,
        }) + "' panicked at "@ + (match location {
            Some(l) => l@,
            None => "<unknown>"@,
        }) + ": "@ + (match payload {
            Some(p) => p@,
            None => "Box<dyn Any>"@,
        }),
{
    let mut s: String = "[PANIC] thread '".to_owned();
    s.append(
        match thread {
            Some(t) => t,
            None => "<unnamed>",
        },
    );
    s.append("' panicked at ");
    s.append(
        match location {
            Some(l) => l,
            None => "<unknown>",
        },
    );
    s.append(": ");
    s.append(
        match payload {
            Some(p) => p,
            None => "Box<dyn Any>",
        },
    );
    s
}

/// The line for a panic tells the thread, the place and the message as they
/// were given, in this order.
pub proof fn panics_are_told_as_they_were(
    thread: &str,
    location: &str,
    payload: &str,
    r: String,
)
    requires
        call_ensures(panic_line, (Some(thread), Some(location), Some(payload)), r),
    ensures
        r@ == "[PANIC] thread '"@ + thread@ + "' panicked at "@ + location@ + ": "@ + payload@,
{
}

} // verus!
