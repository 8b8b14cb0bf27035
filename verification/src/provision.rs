//! The idempotent provisioning state machine: ensure the cache root exists,
//! ensure the archive has been downloaded, ensure it has been extracted.
//! Presence of the target file or directory is the sole completion marker of
//! each step, so a completed step is never performed again. The caller
//! performs each returned step (directory creation, network fetch, archive
//! extraction) and feeds the resulting state back.

use vstd::prelude::*;
use vstd::string::*;
use crate::text::path_join;
use crate::text::path_join_spec;

verus! {

/// What is already present under the cache root.
#[derive(Debug, Clone, Copy, PartialEq, Eq, Structural)]
pub struct CacheState {
    /// The cache root directory itself exists.
    pub root_exists: bool,
    /// The downloaded archive file exists under the root.
    pub archive_exists: bool,
    /// The extracted directory exists under the root.
    pub extracted_exists: bool,
}

/// One provisioning step for the caller to perform, or `Ready` when nothing
/// is left to do.
#[derive(Debug, Clone, Copy, PartialEq, Eq, Structural)]
pub enum Step {
    CreateRoot,
    FetchArchive,
    ExtractArchive,
    Ready,
}

/// The cache is fully provisioned: every artifact is present.
pub open spec fn provisioned(s: CacheState) -> bool {
    s.root_exists && s.archive_exists && s.extracted_exists
}

/// The next step owed from state `s`: create the root first, then download,
/// then extract; `Ready` once everything is present.
pub open spec fn next_step_spec(s: CacheState) -> Step {
    if !s.root_exists {
        Step::CreateRoot
    } else if !s.archive_exists {
        Step::FetchArchive
    } else if !s.extracted_exists {
        Step::ExtractArchive
    } else {
        Step::Ready
    }
}

/// What a successfully performed step makes true. `Ready` changes nothing.
pub open spec fn apply_step_spec(s: CacheState, step: Step) -> CacheState {
    match step {
        Step::CreateRoot => CacheState { root_exists: true, ..s },
        Step::FetchArchive => CacheState { archive_exists: true, ..s },
        Step::ExtractArchive => CacheState { extracted_exists: true, ..s },
        Step::Ready => s,
    }
}

/// How many artifacts are still missing in state `s`.
pub open spec fn missing_count(s: CacheState) -> nat {
    (if s.root_exists {
        0nat
    } else {
        1nat
    }) + (if s.archive_exists {
        0nat
    } else {
        1nat
    }) + (if s.extracted_exists {
        0nat
    } else {
        1nat
    })
}

/// The steps one provisioning run performs from state `s`, in order: keep
/// taking the next owed step until the machine reports `Ready`.
pub open spec fn trace_spec(s: CacheState) -> Seq<Step>
    decreases missing_count(s),
{
    if next_step_spec(s) == Step::Ready {
        Seq::empty()
    } else {
        seq![next_step_spec(s)] + trace_spec(apply_step_spec(s, next_step_spec(s)))
    }
}

/// The state left behind after performing `steps` in order from `s`.
pub open spec fn apply_trace(s: CacheState, steps: Seq<Step>) -> CacheState
    decreases steps.len(),
{
    if steps.len() == 0 {
        s
    } else {
        apply_trace(apply_step_spec(s, steps[0]), steps.drop_first())
    }
}

/// How often `which` occurs in `steps`.
pub open spec fn count_step(steps: Seq<Step>, which: Step) -> nat
    decreases steps.len(),
{
    if steps.len() == 0 {
        0nat
    } else {
        count_step(steps.drop_first(), which) + if steps[0] == which {
            1nat
        } else {
            0nat
        }
    }
}

/// Decides the next owed provisioning step.
pub fn next_step(s: &CacheState) -> (step: Step)
    ensures
        step == next_step_spec(*s),
{
    if !s.root_exists {
        Step::CreateRoot
    } else if !s.archive_exists {
        Step::FetchArchive
    } else if !s.extracted_exists {
        Step::ExtractArchive
    } else {
        Step::Ready
    }
}

/// Records the effect of a successfully performed step.
pub fn apply_step(s: &CacheState, step: Step) -> (r: CacheState)
    ensures
        r == apply_step_spec(*s, step),
{
    match step {
        Step::CreateRoot => CacheState { root_exists: true, ..*s },
        Step::FetchArchive => CacheState { archive_exists: true, ..*s },
        Step::ExtractArchive => CacheState { extracted_exists: true, ..*s },
        Step::Ready => *s,
    }
}

/// Performing the steps so far and then one more is performing the longer
/// trace in one go.
pub proof fn lemma_apply_trace_snoc(s: CacheState, steps: Seq<Step>, step: Step)
    ensures
        apply_trace(s, steps.push(step)) == apply_step_spec(apply_trace(s, steps), step),
    decreases steps.len(),
{
    reveal_with_fuel(apply_trace, 3);
    if steps.len() == 0 {
        assert(steps.push(step).drop_first() =~= Seq::<Step>::empty());
    } else {
        assert(steps.push(step).drop_first() =~= steps.drop_first().push(step));
        lemma_apply_trace_snoc(apply_step_spec(s, steps[0]), steps.drop_first(), step);
    }
}

/// One whole provisioning run, as the decision core sees it: the steps owed
/// from `s`, in order, and the state they leave behind, which is fully
/// provisioned. The caller performs each step as it is decided.
pub fn provision_run(state: &CacheState) -> (r: (Vec<Step>, CacheState))
    ensures
        r.0@ == trace_spec(*state),
        r.1 == apply_trace(*state, trace_spec(*state)),
        provisioned(r.1),
{
    let mut steps: Vec<Step> = Vec::new();
    let mut s = *state;
    let mut step = next_step(&s);
    while step != Step::Ready
        invariant
            step == next_step_spec(s),
            trace_spec(*state) =~= steps@ + trace_spec(s),
            apply_trace(*state, steps@) == s,
        decreases missing_count(s),
    {
        let ghost prev_steps = steps@;
        steps.push(step);
        let prev = s;
        s = apply_step(&s, step);
        proof {
            lemma_apply_trace_snoc(*state, prev_steps, step);
            assert(trace_spec(prev) =~= seq![step] + trace_spec(s));
            assert(steps@ + trace_spec(s) =~= prev_steps + trace_spec(prev));
        }
        step = next_step(&s);
    }
    proof {
        assert(trace_spec(s) =~= Seq::<Step>::empty());
        assert(steps@ =~= trace_spec(*state));
    }
    (steps, s)
}

/// Idempotence of provisioning: one run fetches at most once and extracts at
/// most once, leaves the cache fully provisioned, and a second run straight
/// after performs no step at all.
pub proof fn lemma_provision_idempotent(s: CacheState)
    ensures
        count_step(trace_spec(s), Step::FetchArchive) <= 1,
        count_step(trace_spec(s), Step::ExtractArchive) <= 1,
        provisioned(apply_trace(s, trace_spec(s))),
        trace_spec(apply_trace(s, trace_spec(s))) == Seq::<Step>::empty(),
{
    reveal_with_fuel(trace_spec, 5);
    reveal_with_fuel(apply_trace, 5);
    reveal_with_fuel(count_step, 5);
}

/// The path of the downloaded archive under the cache root.
pub fn archive_path(cache_root: &str) -> (r: String)
    ensures
        r@ == path_join_spec(cache_root@, "sound_packs.zip"@),
{
    path_join(cache_root, "sound_packs.zip")
}

/// The path of the extracted directory under the cache root. This is a pure
/// function of the cache root, so repeated runs return the same root.
pub fn extracted_root(cache_root: &str) -> (r: String)
    ensures
        r@ == path_join_spec(cache_root@, "sound_packs"@),
{
    path_join(cache_root, "sound_packs")
}

/// An archive entry names a directory exactly when its name ends in a slash.
pub open spec fn names_directory(name: Seq<char>) -> bool {
    name.len() > 0 && name.last() == '/'
}

/// Decides whether an archive entry name designates a directory (it ends in
/// a slash) rather than a plain file.
pub fn zip_entry_is_dir(name: &str) -> (r: bool)
    ensures
        r == names_directory(name@),
{
    let n = name.unicode_len();
    n > 0 && name.get_char(n - 1) == '/'
}

} // verus!
