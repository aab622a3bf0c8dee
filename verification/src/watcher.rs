use vstd::prelude::*;

use crate::processor::{plan_file, spec_plan, ConversionJob};

verus! {

/// What the watch loop receives from the notification transport.
pub enum WatchInput {
    /// A filesystem event: each notified path, flagged with whether it is a
    /// regular file.
    Event(Vec<(String, bool)>),
    /// The transport reported an error but stays open.
    TransportError,
    /// The transport channel closed.
    ChannelClosed,
}

/// What the watch loop does next.
pub enum WatchDirective {
    /// Convert these files, one after the other, after the configured
    /// debounce delay each.
    Convert(Vec<ConversionJob>),
    /// Log the fault and keep watching.
    LogAndContinue,
    /// End the watch loop.
    Stop,
}

/// The view of a list of directory entries.
pub open spec fn entries_view(v: Vec<(String, bool)>) -> Seq<(Seq<char>, bool)> {
    v@.map_values(|e: (String, bool)| (e.0@, e.1))
}

/// The view of a list of jobs.
pub open spec fn jobs_view(v: Vec<ConversionJob>) -> Seq<(Seq<char>, Seq<char>)> {
    v@.map_values(|j: ConversionJob| (j.input@, j.output@))
}

/// The jobs the entries `[i..]` give rise to, in order.
pub open spec fn jobs_from(
    entries: Seq<(Seq<char>, bool)>,
    input_dir: Seq<char>,
    output_dir: Seq<char>,
    i: int,
) -> Seq<(Seq<char>, Seq<char>)>
    decreases entries.len() - i,
{
    if i < 0 || i >= entries.len() {
        Seq::empty()
    } else {
        (match spec_plan(entries[i].0, entries[i].1, input_dir, output_dir) {
            Option::Some(j) => seq![j],
            Option::None => Seq::empty(),
        }) + jobs_from(entries, input_dir, output_dir, i + 1)
    }
}

/// The jobs one event's paths give rise to, in order.
pub open spec fn spec_event_jobs(
    entries: Seq<(Seq<char>, bool)>,
    input_dir: Seq<char>,
    output_dir: Seq<char>,
) -> Seq<(Seq<char>, Seq<char>)> {
    jobs_from(entries, input_dir, output_dir, 0)
}

/// Plans the jobs of one event's paths: the same filter and mapping the
/// batch traversal uses, in notification order.
pub fn plan_event(
    entries: &Vec<(String, bool)>,
    input_dir: &str,
    output_dir: &str,
) -> (jobs: Vec<ConversionJob>)
    ensures
        jobs_view(jobs) == spec_event_jobs(entries_view(*entries), input_dir@, output_dir@),
{
    let ghost evs = entries_view(*entries);
    let mut jobs: Vec<ConversionJob> = Vec::new();
    proof {
        assert(jobs_view(jobs) =~= Seq::<(Seq<char>, Seq<char>)>::empty());
    }
    let n: usize = entries.len();
    let mut i: usize = 0;
    while i < n
        invariant
            i <= n,
            n == entries@.len(),
            evs == entries_view(*entries),
            jobs_view(jobs) + jobs_from(evs, input_dir@, output_dir@, i as int)
                == spec_event_jobs(evs, input_dir@, output_dir@),
        decreases n - i,
    {
        let ghost pre = jobs_view(jobs);
        proof {
            assert(evs[i as int] == (entries@[i as int].0@, entries@[i as int].1));
        }
        match plan_file(entries[i].0.as_str(), entries[i].1, input_dir, output_dir) {
            Option::Some(job) => {
                jobs.push(job);
                proof {
                    assert(jobs_view(jobs) =~= pre.push(
                        spec_plan(evs[i as int].0, evs[i as int].1, input_dir@, output_dir@)->0,
                    ));
                    assert(jobs_view(jobs) + jobs_from(evs, input_dir@, output_dir@, i + 1) =~= pre
                        + jobs_from(evs, input_dir@, output_dir@, i as int));
                }
            },
            Option::None => {
                proof {
                    assert(jobs_view(jobs) + jobs_from(evs, input_dir@, output_dir@, i + 1) =~= pre
                        + jobs_from(evs, input_dir@, output_dir@, i as int));
                }
            },
        }
        i += 1;
    }
    proof {
        assert(jobs_view(jobs) + jobs_from(evs, input_dir@, output_dir@, n as int) =~= jobs_view(
            jobs,
        ));
    }
    jobs
}

/// Decides the watch loop's reaction to one transport message: convert the
/// event's matching files through the shared per-file path, keep going on a
/// transport error, and stop only when the channel closes.
pub fn watch_step(input: &WatchInput, input_dir: &str, output_dir: &str) -> (r: WatchDirective)
    ensures
        match *input {
            WatchInput::Event(ref entries) => r matches WatchDirective::Convert(jobs)
                && jobs_view(jobs) == spec_event_jobs(
                entries_view(*entries),
                input_dir@,
                output_dir@,
            ),
            WatchInput::TransportError => r matches WatchDirective::LogAndContinue,
            WatchInput::ChannelClosed => r matches WatchDirective::Stop,
        },
{
    match input {
        WatchInput::Event(entries) => WatchDirective::Convert(
            plan_event(entries, input_dir, output_dir),
        ),
        WatchInput::TransportError => WatchDirective::LogAndContinue,
        WatchInput::ChannelClosed => WatchDirective::Stop,
    }
}

/// Every planned job's input is one of the event's paths.
proof fn lemma_jobs_membership(
    entries: Seq<(Seq<char>, bool)>,
    input_dir: Seq<char>,
    output_dir: Seq<char>,
    i: int,
    a: int,
)
    requires
        0 <= a < jobs_from(entries, input_dir, output_dir, i).len(),
    ensures
        exists|k: int|
            i <= k < entries.len() && jobs_from(entries, input_dir, output_dir, i)[a].0 == (
            #[trigger] entries[k]).0,
    decreases entries.len() - i,
{
    if i < 0 || i >= entries.len() {
    } else {
        let head = match spec_plan(entries[i].0, entries[i].1, input_dir, output_dir) {
            Option::Some(j) => seq![j],
            Option::None => Seq::<(Seq<char>, Seq<char>)>::empty(),
        };
        if a < head.len() {
            assert(jobs_from(entries, input_dir, output_dir, i)[a].0 == entries[i].0);
        } else {
            lemma_jobs_membership(entries, input_dir, output_dir, i + 1, a - head.len());
        }
    }
}

/// One pass over distinct paths plans each file at most once: no path gives
/// rise to two jobs.
pub proof fn lemma_plan_no_duplicates(
    entries: Seq<(Seq<char>, bool)>,
    input_dir: Seq<char>,
    output_dir: Seq<char>,
)
    requires
        forall|i: int, j: int| 0 <= i < j < entries.len() ==> (#[trigger] entries[i]).0 != (
        #[trigger] entries[j]).0,
    ensures
        forall|a: int, b: int|
            0 <= a < b < spec_event_jobs(entries, input_dir, output_dir).len()
                ==> (#[trigger] spec_event_jobs(entries, input_dir, output_dir)[a]).0 != (
            #[trigger] spec_event_jobs(entries, input_dir, output_dir)[b]).0,
{
    lemma_plan_no_duplicates_from(entries, input_dir, output_dir, 0);
}

proof fn lemma_plan_no_duplicates_from(
    entries: Seq<(Seq<char>, bool)>,
    input_dir: Seq<char>,
    output_dir: Seq<char>,
    i: int,
)
    requires
        forall|a: int, b: int| 0 <= a < b < entries.len() ==> (#[trigger] entries[a]).0 != (
        #[trigger] entries[b]).0,
    ensures
        forall|a: int, b: int|
            0 <= a < b < jobs_from(entries, input_dir, output_dir, i).len()
                ==> (#[trigger] jobs_from(entries, input_dir, output_dir, i)[a]).0 != (
            #[trigger] jobs_from(entries, input_dir, output_dir, i)[b]).0,
    decreases entries.len() - i,
{
    if i < 0 || i >= entries.len() {
    } else {
        lemma_plan_no_duplicates_from(entries, input_dir, output_dir, i + 1);
        let jobs = jobs_from(entries, input_dir, output_dir, i);
        let head = match spec_plan(entries[i].0, entries[i].1, input_dir, output_dir) {
            Option::Some(j) => seq![j],
            Option::None => Seq::<(Seq<char>, Seq<char>)>::empty(),
        };
        let rest = jobs_from(entries, input_dir, output_dir, i + 1);
        assert forall|a: int, b: int| 0 <= a < b < jobs.len() implies (#[trigger] jobs[a]).0 != (
        #[trigger] jobs[b]).0 by {
            if a < head.len() {
                assert(jobs[a].0 == entries[i].0);
                lemma_jobs_membership(entries, input_dir, output_dir, i + 1, b - head.len());
                let k = choose|k: int|
                    i + 1 <= k < entries.len() && rest[b - head.len()].0 == (
                    #[trigger] entries[k]).0;
                assert(entries[i].0 != entries[k].0);
            } else {
                assert(jobs[a].0 == rest[a - head.len()].0);
                assert(jobs[b].0 == rest[b - head.len()].0);
            }
        }
    }
}

} // verus!
