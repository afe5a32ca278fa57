//! The engine: per-fragment derived state and the absorb/requeue cycle.
//!
//! A batch of fragments is turned into derived states (hash, fingerprint,
//! language) — in parallel on a thread pool, or sequentially — and then driven
//! through a strictly sequential loop: the fragment at the front of the queue
//! is scored; at or above the threshold it is absorbed and its hash chained
//! onto the anchor list, below it it is requeued at the back.  An optional cap
//! bounds the number of evaluations.  The whole outcome is pinned down by
//! [`spec_run_cycle`], a function of the inputs, the threshold and the cap
//! alone.

use vstd::prelude::*;

use crate::identity::{compute_anchor_hash, compute_fingerprint, spec_anchor_hash,
    spec_fingerprint};
use crate::language::{detect_language, spec_language};
use crate::score::{hygiene_score, spec_score_units};

verus! {

/// One raw unit of submitted text, with positional metadata.
pub struct FragmentInput {
    pub path: String,
    pub idx: u32,
    pub lines: String,
    pub body: String,
}

/// The view of a [`FragmentInput`]: its fields as character sequences.
#[verifier::ext_equal]
pub struct FragSpec {
    pub path: Seq<char>,
    pub idx: u32,
    pub lines: Seq<char>,
    pub body: Seq<char>,
}

impl View for FragmentInput {
    type V = FragSpec;

    open spec fn view(&self) -> FragSpec {
        FragSpec { path: self.path@, idx: self.idx, lines: self.lines@, body: self.body@ }
    }
}

/// Where a fragment stands within a cycle.
#[derive(Clone, Copy, PartialEq, Eq, Structural)]
pub enum FragmentStatus {
    Pending,
    Requeued,
    Absorbed,
}

/// A fragment's derived, engine-owned state.
pub struct FragmentState {
    pub input: FragmentInput,
    pub hash: String,
    pub fingerprint: String,
    pub language: String,
    pub hygiene_score: Option<u32>,
    pub status: FragmentStatus,
}

/// The view of a [`FragmentState`].
#[verifier::ext_equal]
pub struct StateSpec {
    pub path: Seq<char>,
    pub idx: u32,
    pub lines: Seq<char>,
    pub body: Seq<char>,
    pub hash: Seq<char>,
    pub fingerprint: Seq<char>,
    pub language: Seq<char>,
    pub hygiene_score: Option<int>,
    pub status: FragmentStatus,
}

impl View for FragmentState {
    type V = StateSpec;

    open spec fn view(&self) -> StateSpec {
        StateSpec {
            path: self.input.path@,
            idx: self.input.idx,
            lines: self.input.lines@,
            body: self.input.body@,
            hash: self.hash@,
            fingerprint: self.fingerprint@,
            language: self.language@,
            hygiene_score: match self.hygiene_score {
                Some(v) => Some(v as int),
                None => None,
            },
            status: self.status,
        }
    }
}

/// The derived state a fresh fragment gets: hash and fingerprint of its body,
/// its detected language, no score yet, pending.
pub open spec fn state_of(f: FragSpec) -> StateSpec {
    StateSpec {
        path: f.path,
        idx: f.idx,
        lines: f.lines,
        body: f.body,
        hash: spec_anchor_hash(f.body),
        fingerprint: spec_fingerprint(f.body),
        language: spec_language(f.path, f.body),
        hygiene_score: None,
        status: FragmentStatus::Pending,
    }
}

impl FragmentState {
    /// Derives the state of one fragment.  Safe to evaluate in any order or
    /// thread: the result depends on the fragment alone.
    pub fn new(input: FragmentInput) -> (r: FragmentState)
        ensures
            r@ == state_of(input@),
    {
        let hash = compute_anchor_hash(input.body.as_str());
        let fingerprint = compute_fingerprint(input.body.as_str());
        let language = detect_language(input.path.as_str(), input.body.as_str());
        FragmentState {
            input,
            hash,
            fingerprint,
            language,
            hygiene_score: None,
            status: FragmentStatus::Pending,
        }
    }

    /// Copies this state into a report.
    pub fn to_report(&self) -> (r: FragmentReport)
        ensures
            r@ == report_of(self@, self@.hygiene_score),
    {
        make_report(self, self.hygiene_score)
    }
}

/// The wire-shaped copy of a fragment's state.
pub struct FragmentReport {
    pub path: String,
    pub idx: u32,
    pub lines: String,
    pub hash: String,
    pub hygiene_score: Option<u32>,
    pub language: String,
    pub fingerprint: String,
    pub body_len: usize,
}

/// The view of a [`FragmentReport`].
#[verifier::ext_equal]
pub struct ReportSpec {
    pub path: Seq<char>,
    pub idx: u32,
    pub lines: Seq<char>,
    pub hash: Seq<char>,
    pub hygiene_score: Option<int>,
    pub language: Seq<char>,
    pub fingerprint: Seq<char>,
    pub body_len: int,
}

impl View for FragmentReport {
    type V = ReportSpec;

    open spec fn view(&self) -> ReportSpec {
        ReportSpec {
            path: self.path@,
            idx: self.idx,
            lines: self.lines@,
            hash: self.hash@,
            hygiene_score: match self.hygiene_score {
                Some(v) => Some(v as int),
                None => None,
            },
            language: self.language@,
            fingerprint: self.fingerprint@,
            body_len: self.body_len as int,
        }
    }
}

/// The report a state yields when its recorded score is `score`.
/// `body_len` is the byte length of the body's UTF-8 encoding.
pub open spec fn report_of(st: StateSpec, score: Option<int>) -> ReportSpec {
    ReportSpec {
        path: st.path,
        idx: st.idx,
        lines: st.lines,
        hash: st.hash,
        hygiene_score: score,
        language: st.language,
        fingerprint: st.fingerprint,
        body_len: vstd::utf8::encode_utf8(st.body).len() as int,
    }
}

/// Builds the report of a state under a given recorded score.
fn make_report(st: &FragmentState, score: Option<u32>) -> (r: FragmentReport)
    ensures
        r@ == report_of(st@, match score {
            Some(v) => Some(v as int),
            None => None,
        }),
{
    FragmentReport {
        path: st.input.path.clone(),
        idx: st.input.idx,
        lines: st.input.lines.clone(),
        hash: st.hash.clone(),
        hygiene_score: score,
        language: st.language.clone(),
        fingerprint: st.fingerprint.clone(),
        body_len: st.input.body.as_str().as_bytes().len(),
    }
}

/// One append-only log entry: a fragment's evaluation, with the anchor chain
/// before and after it.
pub struct CycleEvent {
    pub event: String,
    pub path: String,
    pub idx: u32,
    pub lines: String,
    pub hash: String,
    pub hygiene_score: u32,
    pub anchor_prev: Option<String>,
    pub anchor_next: Option<String>,
    pub language: String,
    pub fingerprint: String,
    pub iteration_index: usize,
}

/// The view of a [`CycleEvent`].
#[verifier::ext_equal]
pub struct EventSpec {
    pub event: Seq<char>,
    pub path: Seq<char>,
    pub idx: u32,
    pub lines: Seq<char>,
    pub hash: Seq<char>,
    pub hygiene_score: int,
    pub anchor_prev: Option<Seq<char>>,
    pub anchor_next: Option<Seq<char>>,
    pub language: Seq<char>,
    pub fingerprint: Seq<char>,
    pub iteration_index: int,
}

impl View for CycleEvent {
    type V = EventSpec;

    open spec fn view(&self) -> EventSpec {
        EventSpec {
            event: self.event@,
            path: self.path@,
            idx: self.idx,
            lines: self.lines@,
            hash: self.hash@,
            hygiene_score: self.hygiene_score as int,
            anchor_prev: match self.anchor_prev {
                Some(ref s) => Some(s@),
                None => None,
            },
            anchor_next: match self.anchor_next {
                Some(ref s) => Some(s@),
                None => None,
            },
            language: self.language@,
            fingerprint: self.fingerprint@,
            iteration_index: self.iteration_index as int,
        }
    }
}

/// The final aggregate of one cycle.
pub struct HarpoonCycle {
    pub absorbed: Vec<FragmentReport>,
    pub pending: Vec<FragmentReport>,
    pub events: Vec<CycleEvent>,
    pub iterations: usize,
    pub anchors: Vec<String>,
}

/// The view of a [`HarpoonCycle`].
#[verifier::ext_equal]
pub struct CycleSpec {
    pub absorbed: Seq<ReportSpec>,
    pub pending: Seq<ReportSpec>,
    pub events: Seq<EventSpec>,
    pub iterations: int,
    pub anchors: Seq<Seq<char>>,
}

impl View for HarpoonCycle {
    type V = CycleSpec;

    open spec fn view(&self) -> CycleSpec {
        CycleSpec {
            absorbed: self.absorbed@.map_values(|r: FragmentReport| r@),
            pending: self.pending@.map_values(|r: FragmentReport| r@),
            events: self.events@.map_values(|e: CycleEvent| e@),
            iterations: self.iterations as int,
            anchors: self.anchors@.map_values(|s: String| s@),
        }
    }
}

impl HarpoonCycle {
    /// The reports absorbed during the cycle, in absorption order.
    pub fn get_absorbed(&self) -> (r: &Vec<FragmentReport>)
        ensures
            r@.map_values(|x: FragmentReport| x@) == self@.absorbed,
    {
        &self.absorbed
    }

    /// The reports still queued at termination, in residual queue order.
    pub fn get_pending(&self) -> (r: &Vec<FragmentReport>)
        ensures
            r@.map_values(|x: FragmentReport| x@) == self@.pending,
    {
        &self.pending
    }

    /// The full ordered event log.
    pub fn get_events(&self) -> (r: &Vec<CycleEvent>)
        ensures
            r@.map_values(|x: CycleEvent| x@) == self@.events,
    {
        &self.events
    }

    /// How many evaluations were performed.
    pub fn get_iterations(&self) -> (r: usize)
        ensures
            r == self@.iterations,
    {
        self.iterations
    }

    /// The ordered list of absorbed hashes.
    pub fn get_anchors(&self) -> (r: &Vec<String>)
        ensures
            r@.map_values(|x: String| x@) == self@.anchors,
    {
        &self.anchors
    }
}

/// Whether a state's score reaches the threshold (in units of `1/10000`).
pub open spec fn passes(st: StateSpec, threshold: int) -> bool {
    spec_score_units(st.body, st.language) >= threshold
}

/// The mutable portion of the cycle loop.
#[verifier::ext_equal]
pub struct LoopState {
    pub scores: Seq<Option<int>>,
    pub queue: Seq<int>,
    pub iterations: int,
    pub last_anchor: Option<Seq<char>>,
    pub absorbed_idx: Seq<int>,
    pub anchors: Seq<Seq<char>>,
    pub events: Seq<EventSpec>,
}

/// The loop state a batch of `n` fragments starts from.
pub open spec fn init_loop_state(n: int) -> LoopState {
    LoopState {
        scores: Seq::new(n as nat, |i: int| None),
        queue: Seq::new(n as nat, |i: int| i),
        iterations: 0,
        last_anchor: None,
        absorbed_idx: Seq::empty(),
        anchors: Seq::empty(),
        events: Seq::empty(),
    }
}

/// How many more evaluations the cap allows, plus one; the first component of
/// the loop's termination measure.
pub open spec fn cap_slack(cap: Option<int>, iterations: int) -> int {
    match cap {
        Some(m) => if m >= iterations {
            m - iterations + 1
        } else {
            0
        },
        None => 0,
    }
}

/// The event an absorption records.
pub open spec fn absorb_event(st: StateSpec, score: int, last: Option<Seq<char>>, it: int)
    -> EventSpec {
    EventSpec {
        event: "fragment_absorbed"@,
        path: st.path,
        idx: st.idx,
        lines: st.lines,
        hash: st.hash,
        hygiene_score: score,
        anchor_prev: last,
        anchor_next: Some(st.hash),
        language: st.language,
        fingerprint: st.fingerprint,
        iteration_index: it,
    }
}

/// The event a requeue records: the anchor chain is unchanged.
pub open spec fn requeue_event(st: StateSpec, score: int, last: Option<Seq<char>>, it: int)
    -> EventSpec {
    EventSpec {
        event: "fragment_requeued"@,
        path: st.path,
        idx: st.idx,
        lines: st.lines,
        hash: st.hash,
        hygiene_score: score,
        anchor_prev: last,
        anchor_next: last,
        language: st.language,
        fingerprint: st.fingerprint,
        iteration_index: it,
    }
}

/// The absorb/requeue loop.  Pops the front of the queue; stops, leaving the
/// queue as it is, once the cap is reached (that attempt is not counted and
/// not logged); otherwise scores the fragment, absorbs it at or above the
/// threshold and requeues it below.  Without a cap a fragment below the
/// threshold would requeue forever, so a returning run never takes that
/// branch; the spec leaves it arbitrary.
pub open spec fn cycle_loop(
    states: Seq<StateSpec>,
    st: LoopState,
    threshold: int,
    cap: Option<int>,
) -> LoopState
    decreases cap_slack(cap, st.iterations), st.queue.len(),
{
    if st.queue.len() == 0 {
        st
    } else if cap is Some && st.iterations >= cap->0 {
        st
    } else {
        let i = st.queue[0];
        let s0 = states[i];
        let score = spec_score_units(s0.body, s0.language);
        if score >= threshold {
            cycle_loop(
                states,
                LoopState {
                    scores: st.scores.update(i, Some(score)),
                    queue: st.queue.drop_first(),
                    iterations: st.iterations + 1,
                    last_anchor: Some(s0.hash),
                    absorbed_idx: st.absorbed_idx.push(i),
                    anchors: st.anchors.push(s0.hash),
                    events: st.events.push(
                        absorb_event(s0, score, st.last_anchor, st.iterations + 1),
                    ),
                },
                threshold,
                cap,
            )
        } else if cap is Some {
            cycle_loop(
                states,
                LoopState {
                    scores: st.scores.update(i, Some(score)),
                    queue: st.queue.drop_first().push(i),
                    iterations: st.iterations + 1,
                    last_anchor: st.last_anchor,
                    absorbed_idx: st.absorbed_idx,
                    anchors: st.anchors,
                    events: st.events.push(
                        requeue_event(s0, score, st.last_anchor, st.iterations + 1),
                    ),
                },
                threshold,
                cap,
            )
        } else {
            vstd::pervasive::arbitrary()
        }
    }
}

/// The view of a score cell.
pub open spec fn score_view(x: Option<u32>) -> Option<int> {
    match x {
        Some(v) => Some(v as int),
        None => None,
    }
}

/// The views of a score table.
pub open spec fn scores_view(s: Seq<Option<u32>>) -> Seq<Option<int>> {
    s.map_values(|x: Option<u32>| score_view(x))
}

/// A queue of indices as mathematical integers.
pub open spec fn usize_seq(s: Seq<usize>) -> Seq<int> {
    s.map_values(|x: usize| x as int)
}

/// The views of a list of strings.
pub open spec fn strings_view(s: Seq<String>) -> Seq<Seq<char>> {
    s.map_values(|x: String| x@)
}

/// The view of an optional string.
pub open spec fn opt_string_view(s: Option<String>) -> Option<Seq<char>> {
    match s {
        Some(x) => Some(x@),
        None => None,
    }
}

/// The cap as a mathematical option.
pub open spec fn cap_view(cap: Option<usize>) -> Option<int> {
    match cap {
        Some(m) => Some(m as int),
        None => None,
    }
}

/// A cycle over these inputs returns: either a cap bounds it, or every
/// fragment passes the threshold, so nothing is ever requeued.
pub open spec fn cycle_terminates(inputs: Seq<FragSpec>, threshold: int, cap: Option<int>)
    -> bool {
    cap is Some || forall|i: int|
        0 <= i < inputs.len() ==> passes(state_of(#[trigger] inputs[i]), threshold)
}

/// The complete result of one cycle, as a function of the input batch, the
/// threshold and the cap.
pub open spec fn spec_run_cycle(inputs: Seq<FragSpec>, threshold: int, cap: Option<int>)
    -> CycleSpec {
    if inputs.len() == 0 {
        CycleSpec {
            absorbed: Seq::empty(),
            pending: Seq::empty(),
            events: Seq::empty(),
            iterations: 0,
            anchors: Seq::empty(),
        }
    } else {
        let states = inputs.map_values(|f: FragSpec| state_of(f));
        let fin = cycle_loop(states, init_loop_state(inputs.len() as int), threshold, cap);
        CycleSpec {
            absorbed: fin.absorbed_idx.map_values(|i: int| report_of(states[i], fin.scores[i])),
            pending: fin.queue.map_values(|i: int| report_of(states[i], fin.scores[i])),
            events: fin.events,
            iterations: fin.iterations,
            anchors: fin.anchors,
        }
    }
}

/// The `rayon` thread pool, used opaquely: only the trusted wrappers below
/// touch it.
#[verifier::external_type_specification]
#[verifier::external_body]
pub struct ExThreadPool(rayon::ThreadPool);

/// Relies on `rayon::ThreadPoolBuilder::build` and
/// `rayon::ThreadPool::current_num_threads`: a pool always holds at least one
/// thread, and with `num_threads(n)` for a nonzero `n` it is built with `n`
/// threads — except that rayon reduces requests above a target-dependent
/// maximum (65535 on 64-bit targets, 255 on 32-bit ones), so only requests up
/// to 255 are promised back exactly, and larger ones only never exceeded.
/// With no explicit count the platform default is used.  The build can fail
/// for platform reasons, reported as an error value; nothing is promised of
/// which outcome occurs.
#[verifier::external_body]
fn build_pool(num_threads: Option<usize>) -> (r: Result<(rayon::ThreadPool, usize), String>)
    requires
        num_threads != Some(0usize),
    ensures
        r is Ok ==> r->Ok_0.1 >= 1,
        r is Ok ==> (match num_threads {
            Some(n) => r->Ok_0.1 <= n && (n <= 255 ==> r->Ok_0.1 == n),
            None => true,
        }),
{
    let mut builder = rayon::ThreadPoolBuilder::new();
    if let Some(threads) = num_threads {
        builder = builder.num_threads(threads);
    }
    match builder.build() {
        Ok(pool) => {
            let count = pool.current_num_threads();
            Ok((pool, count))
        },
        Err(err) => Err(err.to_string()),
    }
}

/// Relies on `rayon`'s indexed parallel iterators: `into_par_iter().map(..)
/// .collect()` applies the function to every element and collects the results
/// in the input's order, whatever the thread count; `with_min_len` only tunes
/// how work is chunked.  The function applied is the verified
/// [`FragmentState::new`].
#[verifier::external_body]
fn par_compute_states(
    pool: &rayon::ThreadPool,
    min_len: usize,
    fragments: Vec<FragmentInput>,
) -> (r: Vec<FragmentState>)
    requires
        min_len >= 1,
    ensures
        r@.len() == fragments@.len(),
        forall|i: int| 0 <= i < r@.len() ==> r@[i]@ == state_of(fragments@[i]@),
{
    pool.install(move || {
        rayon::iter::ParallelIterator::collect(
            rayon::iter::ParallelIterator::map(
                rayon::iter::IndexedParallelIterator::with_min_len(
                    rayon::iter::IntoParallelIterator::into_par_iter(fragments),
                    min_len,
                ),
                FragmentState::new,
            ),
        )
    })
}

/// Why an engine could not be constructed.
pub enum EngineError {
    /// Zero worker threads were requested explicitly.
    ZeroThreads,
    /// The platform thread pool could not be built.
    ThreadPoolBuild(String),
}

impl EngineError {
    /// The error rendered for humans.
    pub open spec fn spec_message(&self) -> Seq<char> {
        match self {
            EngineError::ZeroThreads => "thread pool requires at least one thread"@,
            EngineError::ThreadPoolBuild(m) => "failed to build thread pool: "@ + m@,
        }
    }

    /// Renders the error.
    pub fn message(&self) -> (r: String)
        ensures
            r@ == self.spec_message(),
    {
        match self {
            EngineError::ZeroThreads => "thread pool requires at least one thread".to_owned(),
            EngineError::ThreadPoolBuild(m) => {
                let mut s = "failed to build thread pool: ".to_owned();
                s.append(m.as_str());
                s
            },
        }
    }
}

/// The engine core: the scheduler configuration and its thread pool.
pub struct EngineCore {
    max_batch: usize,
    configured_threads: Option<usize>,
    thread_count: usize,
    pool: rayon::ThreadPool,
}

impl EngineCore {
    /// The minimum chunk length of the parallel fan-out; at least 1.
    pub closed spec fn spec_max_batch(&self) -> usize {
        self.max_batch
    }

    /// The explicitly requested thread count, if any.
    pub closed spec fn spec_configured_threads(&self) -> Option<usize> {
        self.configured_threads
    }

    /// The pool's actual thread count.
    pub closed spec fn spec_thread_count(&self) -> usize {
        self.thread_count
    }

    #[verifier::type_invariant]
    spec fn wf(self) -> bool {
        &&& self.max_batch >= 1
        &&& self.thread_count >= 1
        &&& match self.configured_threads {
            Some(t) => self.thread_count <= t && (t <= 255 ==> self.thread_count == t),
            None => true,
        }
    }

    /// Builds a core.  An explicit request for zero threads is an error, as is
    /// a platform failure to build the pool; `max_batch` is floored at 1.
    pub fn new(max_batch: usize, num_threads: Option<usize>) -> (r: Result<EngineCore, EngineError>)
        ensures
            num_threads == Some(0usize) ==> r is Err && r->Err_0 is ZeroThreads,
            r is Err ==> (r->Err_0 is ZeroThreads ==> num_threads == Some(0usize)),
            r is Ok ==> r->Ok_0.spec_configured_threads() == num_threads
                && r->Ok_0.spec_max_batch() == (if max_batch >= 1 {
                max_batch
            } else {
                1
            }),
            r is Ok ==> r->Ok_0.spec_thread_count() >= 1,
            r is Ok ==> (match num_threads {
                Some(t) => r->Ok_0.spec_thread_count() <= t && (t <= 255
                    ==> r->Ok_0.spec_thread_count() == t),
                None => true,
            }),
    {
        if let Some(t) = num_threads {
            if t == 0 {
                return Err(EngineError::ZeroThreads);
            }
        }
        match build_pool(num_threads) {
            Ok((pool, count)) => Ok(
                EngineCore {
                    max_batch: if max_batch >= 1 {
                        max_batch
                    } else {
                        1
                    },
                    configured_threads: num_threads,
                    thread_count: count,
                    pool,
                },
            ),
            Err(msg) => Err(EngineError::ThreadPoolBuild(msg)),
        }
    }

    /// The explicitly requested thread count, if any.
    pub fn configured_threads(&self) -> (r: Option<usize>)
        ensures
            r == self.spec_configured_threads(),
    {
        self.configured_threads
    }

    /// The pool's actual thread count: never zero, never above an explicit
    /// request, and exactly the request for requests up to 255 (above that,
    /// rayon's target-dependent maximum may reduce it).
    pub fn thread_count(&self) -> (r: usize)
        ensures
            r == self.spec_thread_count(),
            r >= 1,
            self.spec_configured_threads() matches Some(t) ==> r <= t && (t <= 255 ==> r == t),
    {
        proof {
            use_type_invariant(self);
        }
        self.thread_count
    }

    /// Derives the states of a batch, in input order.  A batch of more than
    /// one fragment is fanned out over the pool; the result does not depend
    /// on how the work was distributed.
    fn compute_states(&self, fragments: Vec<FragmentInput>) -> (r: Vec<FragmentState>)
        ensures
            r@.len() == fragments@.len(),
            forall|i: int| 0 <= i < r@.len() ==> r@[i]@ == state_of(fragments@[i]@),
    {
        if fragments.len() <= 1 {
            compute_states_sequential(fragments)
        } else {
            proof {
                use_type_invariant(self);
            }
            par_compute_states(&self.pool, self.max_batch, fragments)
        }
    }
}

/// Clones an optional anchor hash.
fn clone_opt(s: &Option<String>) -> (r: Option<String>)
    ensures
        r == *s,
{
    match s {
        Some(x) => Some(x.clone()),
        None => None,
    }
}

/// The loop state the executable locals stand for.
pub open spec fn cur_state(
    scores: Seq<Option<u32>>,
    queue: Seq<usize>,
    head: int,
    iterations: int,
    last_anchor: Option<String>,
    absorbed_idx: Seq<usize>,
    anchors: Seq<String>,
    events: Seq<CycleEvent>,
) -> LoopState {
    LoopState {
        scores: scores_view(scores),
        queue: usize_seq(queue.skip(head)),
        iterations: iterations,
        last_anchor: opt_string_view(last_anchor),
        absorbed_idx: usize_seq(absorbed_idx),
        anchors: strings_view(anchors),
        events: events.map_values(|e: CycleEvent| e@),
    }
}

impl EngineCore {
    /// Runs one absorb/requeue cycle.  The result is exactly
    /// [`spec_run_cycle`] of the batch, the threshold and the cap — in
    /// particular it does not depend on the thread count.  The threshold is in
    /// score units of `1/10000`; a nonpositive threshold absorbs everything,
    /// one above 10000 requeues everything until the cap stops the loop.
    pub fn run_cycle(
        &self,
        fragments: Vec<FragmentInput>,
        hygiene_threshold: i32,
        max_iterations: Option<usize>,
    ) -> (r: HarpoonCycle)
        requires
            cycle_terminates(
                fragments@.map_values(|f: FragmentInput| f@),
                hygiene_threshold as int,
                cap_view(max_iterations),
            ),
        ensures
            r@ == spec_run_cycle(
                fragments@.map_values(|f: FragmentInput| f@),
                hygiene_threshold as int,
                cap_view(max_iterations),
            ),
    {
        let ghost inputs = fragments@.map_values(|f: FragmentInput| f@);
        let ghost threshold = hygiene_threshold as int;
        let ghost capv = cap_view(max_iterations);
        if fragments.len() == 0 {
            let r = HarpoonCycle {
                absorbed: Vec::new(),
                pending: Vec::new(),
                events: Vec::new(),
                iterations: 0,
                anchors: Vec::new(),
            };
            proof {
                assert(r@ =~= spec_run_cycle(inputs, threshold, capv));
            }
            return r;
        }

        let n = fragments.len();
        let states = self.compute_states(fragments);
        let ghost sviews = inputs.map_values(|f: FragSpec| state_of(f));
        proof {
            assert(forall|i: int| 0 <= i < n ==> states@[i]@ == sviews[i]);
        }

        let mut scores: Vec<Option<u32>> = Vec::new();
        let mut queue: Vec<usize> = Vec::new();
        let mut k: usize = 0;
        while k < n
            invariant
                k <= n,
                scores@.len() == k,
                queue@.len() == k,
                forall|j: int| 0 <= j < k ==> scores@[j] is None,
                forall|j: int| 0 <= j < k ==> queue@[j] == j,
            decreases n - k,
        {
            scores.push(None);
            queue.push(k);
            k = k + 1;
        }

        let mut head: usize = 0;
        let mut iterations: usize = 0;
        let mut last_anchor: Option<String> = None;
        let mut absorbed_idx: Vec<usize> = Vec::new();
        let mut anchors: Vec<String> = Vec::new();
        let mut events: Vec<CycleEvent> = Vec::new();
        let mut stopped = false;

        proof {
            let cur0 = cur_state(scores@, queue@, 0, 0, None, absorbed_idx@, anchors@, events@);
            assert(cur0.scores =~= init_loop_state(n as int).scores);
            assert(queue@.skip(0) =~= queue@);
            assert(cur0.queue =~= init_loop_state(n as int).queue);
            assert(cur0.absorbed_idx =~= init_loop_state(n as int).absorbed_idx);
            assert(cur0.anchors =~= init_loop_state(n as int).anchors);
            assert(cur0.events =~= init_loop_state(n as int).events);
            assert(cur0 =~= init_loop_state(n as int));
        }

        while !stopped
            invariant
                n == states@.len(),
                n == inputs.len(),
                n >= 1,
                sviews == inputs.map_values(|f: FragSpec| state_of(f)),
                forall|i: int| 0 <= i < n ==> states@[i]@ == sviews[i],
                scores@.len() == n,
                head <= queue@.len(),
                forall|j: int| 0 <= j < queue@.len() ==> queue@[j] < n,
                forall|j: int| 0 <= j < absorbed_idx@.len() ==> absorbed_idx@[j] < n,
                capv == cap_view(max_iterations),
                threshold == hygiene_threshold as int,
                match max_iterations {
                    Some(m) => iterations <= m,
                    None => iterations + queue@.len() - head == n,
                },
                capv is None ==> forall|i: int| 0 <= i < n ==> passes(sviews[i], threshold),
                cycle_loop(
                    sviews,
                    cur_state(
                        scores@,
                        queue@,
                        head as int,
                        iterations as int,
                        last_anchor,
                        absorbed_idx@,
                        anchors@,
                        events@,
                    ),
                    threshold,
                    capv,
                ) == cycle_loop(sviews, init_loop_state(n as int), threshold, capv),
                stopped ==> (head == queue@.len() || (capv is Some && iterations
                    >= capv->0)),
            decreases
                    cap_slack(capv, iterations as int),
                    queue@.len() - head,
                    (if stopped {
                        0int
                    } else {
                        1int
                    }),
        {
            let ghost pre = cur_state(
                scores@,
                queue@,
                head as int,
                iterations as int,
                last_anchor,
                absorbed_idx@,
                anchors@,
                events@,
            );
            if head == queue.len() {
                proof {
                    assert(queue@.skip(head as int).len() == 0);
                }
                stopped = true;
            } else {
                let idx = queue[head];
                proof {
                    assert(pre.queue.len() > 0);
                    assert(queue@.skip(head as int)[0] == idx);
                    assert(pre.queue[0] == idx as int);
                }
                let mut cap_hit = false;
                if let Some(limit) = max_iterations {
                    if iterations >= limit {
                        cap_hit = true;
                    }
                }
                if cap_hit {
                    stopped = true;
                } else {
                    let state = &states[idx];
                    let score = hygiene_score(state.input.body.as_str(), state.language.as_str());
                    proof {
                        assert(state@ == sviews[idx as int]);
                        assert(score == spec_score_units(
                            sviews[idx as int].body,
                            sviews[idx as int].language,
                        ));
                    }
                    iterations = iterations + 1;
                    scores[idx] = Some(score);
                    let passed = score as i64 >= hygiene_threshold as i64;
                    if passed {
                        absorbed_idx.push(idx);
                        anchors.push(state.hash.clone());
                        let ev = CycleEvent {
                            event: "fragment_absorbed".to_owned(),
                            path: state.input.path.clone(),
                            idx: state.input.idx,
                            lines: state.input.lines.clone(),
                            hash: state.hash.clone(),
                            hygiene_score: score,
                            anchor_prev: clone_opt(&last_anchor),
                            anchor_next: Some(state.hash.clone()),
                            language: state.language.clone(),
                            fingerprint: state.fingerprint.clone(),
                            iteration_index: iterations,
                        };
                        events.push(ev);
                        last_anchor = Some(state.hash.clone());
                        head = head + 1;
                        proof {
                            let s0 = sviews[idx as int];
                            let sc = spec_score_units(s0.body, s0.language);
                            let next = LoopState {
                                scores: pre.scores.update(idx as int, Some(sc)),
                                queue: pre.queue.drop_first(),
                                iterations: pre.iterations + 1,
                                last_anchor: Some(s0.hash),
                                absorbed_idx: pre.absorbed_idx.push(idx as int),
                                anchors: pre.anchors.push(s0.hash),
                                events: pre.events.push(
                                    absorb_event(s0, sc, pre.last_anchor, pre.iterations + 1),
                                ),
                            };
                            assert(cycle_loop(sviews, pre, threshold, capv) == cycle_loop(
                                sviews,
                                next,
                                threshold,
                                capv,
                            ));
                            let post = cur_state(
                                scores@,
                                queue@,
                                head as int,
                                iterations as int,
                                last_anchor,
                                absorbed_idx@,
                                anchors@,
                                events@,
                            );
                            assert(post.scores =~= next.scores);
                            assert(queue@.skip(head as int) =~= queue@.skip(
                                head as int - 1,
                            ).drop_first());
                            assert(post.queue =~= next.queue);
                            assert(post.absorbed_idx =~= next.absorbed_idx);
                            assert(post.anchors =~= next.anchors);
                            assert(post.events =~= next.events);
                            assert(post =~= next);
                        }
                    } else {
                        proof {
                            if capv is None {
                                assert(passes(sviews[idx as int], threshold));
                                assert(false);
                            }
                        }
                        let ev = CycleEvent {
                            event: "fragment_requeued".to_owned(),
                            path: state.input.path.clone(),
                            idx: state.input.idx,
                            lines: state.input.lines.clone(),
                            hash: state.hash.clone(),
                            hygiene_score: score,
                            anchor_prev: clone_opt(&last_anchor),
                            anchor_next: clone_opt(&last_anchor),
                            language: state.language.clone(),
                            fingerprint: state.fingerprint.clone(),
                            iteration_index: iterations,
                        };
                        events.push(ev);
                        let ghost oldq = queue@;
                        queue.push(idx);
                        head = head + 1;
                        proof {
                            assert(queue@ == oldq.push(idx));
                            let s0 = sviews[idx as int];
                            let sc = spec_score_units(s0.body, s0.language);
                            let next = LoopState {
                                scores: pre.scores.update(idx as int, Some(sc)),
                                queue: pre.queue.drop_first().push(idx as int),
                                iterations: pre.iterations + 1,
                                last_anchor: pre.last_anchor,
                                absorbed_idx: pre.absorbed_idx,
                                anchors: pre.anchors,
                                events: pre.events.push(
                                    requeue_event(s0, sc, pre.last_anchor, pre.iterations + 1),
                                ),
                            };
                            assert(cycle_loop(sviews, pre, threshold, capv) == cycle_loop(
                                sviews,
                                next,
                                threshold,
                                capv,
                            ));
                            let post = cur_state(
                                scores@,
                                queue@,
                                head as int,
                                iterations as int,
                                last_anchor,
                                absorbed_idx@,
                                anchors@,
                                events@,
                            );
                            assert(post.scores =~= next.scores);
                            assert(queue@.skip(head as int) =~= oldq.skip(
                                head as int - 1,
                            ).drop_first().push(idx));
                            assert(post.queue =~= next.queue);
                            assert(post.events =~= next.events);
                            assert(post =~= next);
                        }
                    }
                }
            }
        }

        let ghost fin = cycle_loop(sviews, init_loop_state(n as int), threshold, capv);
        proof {
            let cur = cur_state(
                scores@,
                queue@,
                head as int,
                iterations as int,
                last_anchor,
                absorbed_idx@,
                anchors@,
                events@,
            );
            assert(cycle_loop(sviews, cur, threshold, capv) == cur);
            assert(fin == cur);
        }

        let na = absorbed_idx.len();
        let mut absorbed: Vec<FragmentReport> = Vec::new();
        let mut i: usize = 0;
        while i < na
            invariant
                i <= na,
                na == absorbed_idx@.len(),
                absorbed@.len() == i,
                scores@.len() == n,
                n == states@.len(),
                forall|j: int| 0 <= j < na ==> absorbed_idx@[j] < n,
                forall|j: int| 0 <= j < n ==> states@[j]@ == sviews[j],
                forall|j: int|
                    0 <= j < i ==> absorbed@[j]@ == report_of(
                        sviews[absorbed_idx@[j] as int],
                        score_view(scores@[absorbed_idx@[j] as int]),
                    ),
            decreases na - i,
        {
            let pos = absorbed_idx[i];
            absorbed.push(make_report(&states[pos], scores[pos]));
            i = i + 1;
        }

        let nq = queue.len();
        let mut pending: Vec<FragmentReport> = Vec::new();
        let mut j: usize = head;
        while j < nq
            invariant
                head <= j <= nq,
                nq == queue@.len(),
                pending@.len() == j - head,
                scores@.len() == n,
                n == states@.len(),
                forall|p: int| 0 <= p < nq ==> queue@[p] < n,
                forall|p: int| 0 <= p < n ==> states@[p]@ == sviews[p],
                forall|p: int|
                    0 <= p < j - head ==> pending@[p]@ == report_of(
                        sviews[queue@[head + p] as int],
                        score_view(scores@[queue@[head + p] as int]),
                    ),
            decreases nq - j,
        {
            let pos = queue[j];
            pending.push(make_report(&states[pos], scores[pos]));
            j = j + 1;
        }

        let r = HarpoonCycle { absorbed, pending, events, iterations, anchors };
        proof {
            let expected = spec_run_cycle(inputs, threshold, capv);
            assert(r@.absorbed =~= expected.absorbed);
            assert(r@.pending =~= expected.pending);
            assert(r@.events =~= expected.events);
            assert(r@.anchors =~= expected.anchors);
            assert(r@ =~= expected);
        }
        r
    }
}

/// The public engine handle.  It holds no cycle state: every run keeps its
/// queue, log and result local, so one handle can serve concurrent callers.
pub struct HarpoonEngine {
    inner: EngineCore,
}

impl HarpoonEngine {
    /// The minimum chunk length of the parallel fan-out.
    pub closed spec fn spec_max_batch(&self) -> usize {
        self.inner.spec_max_batch()
    }

    /// The explicitly requested thread count, if any.
    pub closed spec fn spec_configured_threads(&self) -> Option<usize> {
        self.inner.spec_configured_threads()
    }

    /// The pool's actual thread count.
    pub closed spec fn spec_thread_count(&self) -> usize {
        self.inner.spec_thread_count()
    }

    /// Builds an engine.  `max_batch` defaults to 64 and is floored at 1;
    /// requesting zero threads is an error, and a platform failure to build
    /// the pool is reported as an error string, never a panic.  Every error
    /// string is the rendering of an [`EngineError`].
    pub fn new_native(max_batch: Option<usize>, num_threads: Option<usize>) -> (r: Result<
        HarpoonEngine,
        String,
    >)
        ensures
            num_threads == Some(0usize) ==> r is Err && r->Err_0@ == (
            EngineError::ZeroThreads).spec_message(),
            r is Err ==> exists|e: EngineError| r->Err_0@ == #[trigger] e.spec_message(),
            r is Ok ==> r->Ok_0.spec_configured_threads() == num_threads,
            r is Ok ==> r->Ok_0.spec_max_batch() == (match max_batch {
                Some(b) => if b >= 1 {
                    b
                } else {
                    1
                },
                None => 64usize,
            }),
            r is Ok ==> r->Ok_0.spec_thread_count() >= 1,
            r is Ok ==> (match num_threads {
                Some(t) => r->Ok_0.spec_thread_count() <= t && (t <= 255
                    ==> r->Ok_0.spec_thread_count() == t),
                None => true,
            }),
    {
        let batch = match max_batch {
            Some(b) => b,
            None => 64,
        };
        match EngineCore::new(batch, num_threads) {
            Ok(core) => Ok(HarpoonEngine { inner: core }),
            Err(e) => {
                let ghost err = e;
                let msg = e.message();
                proof {
                    assert(msg@ == err.spec_message());
                }
                Err(msg)
            },
        }
    }

    /// Runs one absorb/requeue cycle; see [`EngineCore::run_cycle`].  The run
    /// is total over any batch whose cycle terminates, so it always returns
    /// the result.
    pub fn run_native_cycle(
        &self,
        fragments: Vec<FragmentInput>,
        hygiene_threshold: i32,
        max_iterations: Option<usize>,
    ) -> (r: Result<HarpoonCycle, String>)
        requires
            cycle_terminates(
                fragments@.map_values(|f: FragmentInput| f@),
                hygiene_threshold as int,
                cap_view(max_iterations),
            ),
        ensures
            r is Ok,
            r->Ok_0@ == spec_run_cycle(
                fragments@.map_values(|f: FragmentInput| f@),
                hygiene_threshold as int,
                cap_view(max_iterations),
            ),
    {
        Ok(self.inner.run_cycle(fragments, hygiene_threshold, max_iterations))
    }

    /// Computes the fingerprint of a body, outside any cycle.
    pub fn compute_fingerprint(&self, body: &str) -> (r: String)
        ensures
            r@ == spec_fingerprint(body@),
    {
        crate::identity::compute_fingerprint(body)
    }

    /// Same operation under its host-facing name.
    pub fn fingerprint(&self, body: &str) -> (r: String)
        ensures
            r@ == spec_fingerprint(body@),
    {
        crate::identity::compute_fingerprint(body)
    }

    /// The pool's actual thread count: never zero, never above an explicit
    /// request, and exactly the request for requests up to 255 (above that,
    /// rayon's target-dependent maximum may reduce it).
    pub fn thread_count(&self) -> (r: usize)
        ensures
            r == self.spec_thread_count(),
            r >= 1,
            self.spec_configured_threads() matches Some(t) ==> r <= t && (t <= 255 ==> r == t),
    {
        self.inner.thread_count()
    }

    /// The explicitly requested thread count, if any.
    pub fn configured_thread_count(&self) -> (r: Option<usize>)
        ensures
            r == self.spec_configured_threads(),
    {
        self.inner.configured_threads()
    }
}

/// Derives the states of a batch one by one, in order: the fallback for tiny
/// batches and for hosts without real threads.
fn compute_states_sequential(fragments: Vec<FragmentInput>) -> (r: Vec<FragmentState>)
    ensures
        r@.len() == fragments@.len(),
        forall|i: int| 0 <= i < r@.len() ==> r@[i]@ == state_of(fragments@[i]@),
{
    let ghost orig = fragments@;
    let mut fragments = fragments;
    let mut r: Vec<FragmentState> = Vec::new();
    while fragments.len() > 0
        invariant
            r@.len() + fragments@.len() == orig.len(),
            fragments@ == orig.skip(r@.len() as int),
            forall|i: int| 0 <= i < r@.len() ==> r@[i]@ == state_of(orig[i]@),
        decreases fragments@.len(),
    {
        let f = fragments.remove(0);
        proof {
            assert(f == orig[r@.len() as int]);
            assert(fragments@ =~= orig.skip(r@.len() as int + 1));
        }
        r.push(FragmentState::new(f));
    }
    r
}

} // verus!
