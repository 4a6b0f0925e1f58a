//! The pipeline around the store: the run configuration, the fan-out plan
//! (one lookup task per target and nameserver), the classifier step that
//! turns one raw lookup outcome into a batch of records, the batching store
//! writer with its flush threshold, and the synchronous core of a whole run
//! over the collected outcomes.
//!
//! The network lookups themselves are asynchronous I/O and happen outside
//! the library; they hand every outcome back as a [`LookupOutcome`].

use vstd::prelude::*;

use crate::OutputFormat;
use crate::data::LookupOutcome;
use crate::data::LookupOutcomeView;
use crate::data::RecordView;
use crate::data::ResolveResponse;
use crate::data::ResultsCache;
use crate::data::classify_error;
use crate::data::classify_record;
use crate::data::insert_all;
use crate::data::lemma_insert_all_concat;
use crate::serialize::output_chars;
use crate::strutil::str_eq;

verus! {

/// The capacity of each inter-stage channel: how far the fastest stage may
/// run ahead of the slowest before its sends wait.
pub const CHANSIZE: usize = 128;

/// The store-flush target of the batching store writer, before it is capped
/// at the total number of lookup tasks.
pub const QUEUE_SIZE: usize = 256;

// ---------------------------------------------------------------------------
// Run configuration.
// ---------------------------------------------------------------------------

/// The immutable configuration of one resolution run: the nameserver set,
/// the per-query timeout, and where and how the output goes.
#[derive(Debug)]
pub struct Resolver {
    nameservers: Vec<String>,
    timeout_secs: u64,
    format: OutputFormat,
    output_path: String,
    stdout: bool,
}

/// Mathematical model of a [`Resolver`].
pub struct ResolverView {
    pub nameservers: Seq<Seq<char>>,
    pub timeout_secs: u64,
    pub format: OutputFormat,
    pub output_path: Seq<char>,
    pub stdout: bool,
}

impl View for Resolver {
    type V = ResolverView;

    closed spec fn view(&self) -> ResolverView {
        ResolverView {
            nameservers: self.nameservers@.map_values(|s: String| s@),
            timeout_secs: self.timeout_secs,
            format: self.format,
            output_path: self.output_path@,
            stdout: self.stdout,
        }
    }
}

/// The built-in default nameserver set: Google's and Cloudflare's public
/// resolvers, over IPv4 and IPv6.
pub open spec fn default_nameservers() -> Seq<Seq<char>> {
    seq![
        "8.8.8.8"@,
        "8.8.4.4"@,
        "2001:4860:4860::8888"@,
        "2001:4860:4860::8844"@,
        "1.1.1.1"@,
        "1.0.0.1"@,
        "2606:4700:4700::1111"@,
        "2606:4700:4700::1001"@,
    ]
}

impl Default for Resolver {
    /// The default configuration: the built-in nameserver set, a five second
    /// per-query timeout, and JSON output.
    fn default() -> (r: Self)
        ensures
            r@.nameservers == default_nameservers(),
            r@.timeout_secs == 5,
            r@.format == OutputFormat::Json,
            r@.output_path == Seq::<char>::empty(),
            r@.stdout == false,
    {
        let mut nameservers: Vec<String> = Vec::new();
        nameservers.push(String::from_str("8.8.8.8"));
        nameservers.push(String::from_str("8.8.4.4"));
        nameservers.push(String::from_str("2001:4860:4860::8888"));
        nameservers.push(String::from_str("2001:4860:4860::8844"));
        nameservers.push(String::from_str("1.1.1.1"));
        nameservers.push(String::from_str("1.0.0.1"));
        nameservers.push(String::from_str("2606:4700:4700::1111"));
        nameservers.push(String::from_str("2606:4700:4700::1001"));
        let r = Resolver {
            nameservers,
            timeout_secs: 5,
            format: OutputFormat::Json,
            output_path: String::new(),
            stdout: false,
        };
        proof {
            assert(r@.nameservers =~= default_nameservers());
        }
        r
    }
}

impl Resolver {
    /// Sets the output configuration: the format (`csv` selects CSV, any
    /// other name selects JSON), the destination path, and whether the
    /// output goes to standard output instead.
    pub fn output(self, format: &str, path: String, stdout: bool) -> (r: Self)
        ensures
            r@.format == (if format@ == "csv"@ {
                OutputFormat::Csv
            } else {
                OutputFormat::Json
            }),
            r@.output_path == path@,
            r@.stdout == stdout,
            r@.nameservers == self@.nameservers,
            r@.timeout_secs == self@.timeout_secs,
    {
        let format = if str_eq(format, "csv") {
            OutputFormat::Csv
        } else {
            OutputFormat::Json
        };
        Resolver { format, output_path: path, stdout, ..self }
    }

    /// Sets the per-query timeout, in seconds.
    pub fn timeout(self, timeout: u64) -> (r: Self)
        ensures
            r@.timeout_secs == timeout,
            r@.nameservers == self@.nameservers,
            r@.format == self@.format,
            r@.output_path == self@.output_path,
            r@.stdout == self@.stdout,
    {
        Resolver { timeout_secs: timeout, ..self }
    }

    /// Replaces the built-in nameserver set with a custom one, one textual
    /// address per line of the loaded list.
    pub fn load_resolvers(self, lines: Vec<String>) -> (r: Self)
        ensures
            r@.nameservers == lines@.map_values(|s: String| s@),
            r@.timeout_secs == self@.timeout_secs,
            r@.format == self@.format,
            r@.output_path == self@.output_path,
            r@.stdout == self@.stdout,
    {
        Resolver { nameservers: lines, ..self }
    }

    /// The configured nameserver set.
    pub fn nameservers(&self) -> (r: &Vec<String>)
        ensures
            r@.map_values(|s: String| s@) == self@.nameservers,
    {
        &self.nameservers
    }

    /// The configured per-query timeout, in seconds.
    pub fn timeout_secs(&self) -> (r: u64)
        ensures
            r == self@.timeout_secs,
    {
        self.timeout_secs
    }

    /// The configured output format.
    pub fn format(&self) -> (r: OutputFormat)
        ensures
            r == self@.format,
    {
        self.format
    }

    /// The configured output path.
    pub fn output_path(&self) -> (r: &String)
        ensures
            r@ == self@.output_path,
    {
        &self.output_path
    }

    /// Whether the output goes to standard output.
    pub fn stdout(&self) -> (r: bool)
        ensures
            r == self@.stdout,
    {
        self.stdout
    }
}

// ---------------------------------------------------------------------------
// Fan-out planning.
// ---------------------------------------------------------------------------

/// One unit of work for the fan-out stage: one target queried against one
/// nameserver.
#[derive(Debug)]
pub struct LookupTask {
    pub host: String,
    pub nameserver: String,
}

/// Mathematical model of a [`LookupTask`].
pub struct LookupTaskView {
    pub host: Seq<char>,
    pub nameserver: Seq<char>,
}

impl View for LookupTask {
    type V = LookupTaskView;

    open spec fn view(&self) -> LookupTaskView {
        LookupTaskView { host: self.host@, nameserver: self.nameserver@ }
    }
}

/// The tasks for one target: one per nameserver, in nameserver order.
pub open spec fn tasks_for(host: Seq<char>, nameservers: Seq<Seq<char>>) -> Seq<LookupTaskView> {
    nameservers.map_values(|n: Seq<char>| LookupTaskView { host: host, nameserver: n })
}

/// The full fan-out plan: the tasks of every target, in target order.
pub open spec fn plan_spec(hosts: Seq<Seq<char>>, nameservers: Seq<Seq<char>>) -> Seq<
    LookupTaskView,
>
    decreases hosts.len(),
{
    if hosts.len() == 0 {
        Seq::<LookupTaskView>::empty()
    } else {
        plan_spec(hosts.drop_last(), nameservers) + tasks_for(hosts.last(), nameservers)
    }
}

/// The fan-out plan holds exactly one task per target and nameserver.
pub proof fn lemma_plan_len(hosts: Seq<Seq<char>>, nameservers: Seq<Seq<char>>)
    ensures
        plan_spec(hosts, nameservers).len() == hosts.len() * nameservers.len(),
    decreases hosts.len(),
{
    if hosts.len() == 0 {
    } else {
        lemma_plan_len(hosts.drop_last(), nameservers);
        assert((hosts.len() - 1) * nameservers.len() + nameservers.len() == hosts.len()
            * nameservers.len()) by (nonlinear_arith);
    }
}

impl Resolver {
    /// The lookup tasks for one target: one per configured nameserver, in
    /// order.  Within a host the dispatcher outside the library runs them
    /// with its own concurrency cap.
    #[verifier::loop_isolation(false)]
    pub fn enumerate_ns(&self, target: &String) -> (r: Vec<LookupTask>)
        ensures
            r@.map_values(|t: LookupTask| t@) == tasks_for(target@, self@.nameservers),
    {
        let mut out: Vec<LookupTask> = Vec::new();
        let mut j: usize = 0;
        while j < self.nameservers.len()
            invariant
                j <= self.nameservers.len(),
                out@.map_values(|t: LookupTask| t@) =~= tasks_for(target@, self@.nameservers).take(
                    j as int,
                ),
            decreases self.nameservers.len() - j,
        {
            out.push(LookupTask { host: target.clone(), nameserver: self.nameservers[j].clone() });
            proof {
                assert(out@.map_values(|t: LookupTask| t@) =~= tasks_for(
                    target@,
                    self@.nameservers,
                ).take(j + 1 as int));
            }
            j = j + 1;
        }
        proof {
            assert(tasks_for(target@, self@.nameservers).take(self@.nameservers.len() as int)
                =~= tasks_for(target@, self@.nameservers));
        }
        out
    }

    /// The full fan-out plan for a host list: exactly one lookup task per
    /// target and nameserver, grouped by target in input order.
    #[verifier::loop_isolation(false)]
    pub fn plan_lookups(&self, hosts: &Vec<String>) -> (r: Vec<LookupTask>)
        ensures
            r@.map_values(|t: LookupTask| t@) == plan_spec(
                hosts@.map_values(|h: String| h@),
                self@.nameservers,
            ),
            r@.len() == hosts@.len() * self@.nameservers.len(),
    {
        let ghost hs = hosts@.map_values(|h: String| h@);
        let mut out: Vec<LookupTask> = Vec::new();
        let mut i: usize = 0;
        while i < hosts.len()
            invariant
                i <= hosts.len(),
                out@.map_values(|t: LookupTask| t@) == plan_spec(hs.take(i as int), self@.nameservers),
            decreases hosts.len() - i,
        {
            let mut tasks = self.enumerate_ns(&hosts[i]);
            let ghost prev = out@;
            out.append(&mut tasks);
            proof {
                assert(hs.take(i + 1 as int).drop_last() =~= hs.take(i as int));
                assert(hs.take(i + 1 as int).last() == hs[i as int]);
                assert(out@.map_values(|t: LookupTask| t@) =~= plan_spec(
                    hs.take(i + 1 as int),
                    self@.nameservers,
                ));
            }
            i = i + 1;
        }
        proof {
            assert(hs.take(hs.len() as int) =~= hs);
            lemma_plan_len(hs, self@.nameservers);
        }
        out
    }
}

// ---------------------------------------------------------------------------
// The classifier step.
// ---------------------------------------------------------------------------

/// The classification of all answer records of one successful lookup.
pub open spec fn classify_answer(q: Seq<char>, rs: Seq<crate::data::RawRecordView>) -> Seq<
    RecordView,
> {
    rs.map_values(|r: crate::data::RawRecordView| classify_record(q, r))
}

/// What the classifier forwards for one lookup outcome: the classified
/// answer records of a success (possibly an empty batch), exactly one error
/// record for a failure that carries a response code, and nothing for a
/// silently dropped failure.
pub open spec fn deliver_spec(o: LookupOutcomeView) -> Option<Seq<RecordView>> {
    match o {
        LookupOutcomeView::Answer { query, records } => Some(classify_answer(query, records)),
        LookupOutcomeView::Failure(e) => match classify_error(e) {
            Some(r) => Some(seq![r]),
            None => None,
        },
    }
}

impl Resolver {
    /// The classifier stage's step for one raw lookup outcome: the batch of
    /// records to forward to the batching store writer, or nothing when the
    /// failure is dropped silently.
    #[verifier::loop_isolation(false)]
    pub fn deliver_response(response: LookupOutcome) -> (r: Option<Vec<ResolveResponse>>)
        ensures
            match r {
                Some(batch) => deliver_spec(response@) == Some(
                    batch@.map_values(|x: ResolveResponse| x@),
                ),
                None => deliver_spec(response@) is None,
            },
    {
        match response {
            LookupOutcome::Answer { query, mut records } => {
                let ghost rs0 = records@.map_values(|r: crate::data::RawRecord| r@);
                let mut out: Vec<ResolveResponse> = Vec::new();
                let ghost k: int = 0;
                while records.len() > 0
                    invariant
                        0 <= k <= rs0.len(),
                        records@.map_values(|r: crate::data::RawRecord| r@) =~= rs0.skip(k),
                        out@.map_values(|x: ResolveResponse| x@) =~= classify_answer(
                            query@,
                            rs0.take(k),
                        ),
                    decreases records.len(),
                {
                    let ghost before = records@;
                    let rec = records.remove(0);
                    proof {
                        assert(k < rs0.len());
                        assert(rec@ == before.map_values(|r: crate::data::RawRecord| r@)[0]);
                        assert(rec@ == rs0[k]);
                        assert(records@ == before.remove(0));
                        assert(records@ =~= before.skip(1));
                        assert(records@.map_values(|r: crate::data::RawRecord| r@)
                            =~= before.map_values(|r: crate::data::RawRecord| r@).skip(1));
                        assert(before.map_values(|r: crate::data::RawRecord| r@).skip(1)
                            =~= rs0.skip(k + 1));
                    }
                    let ghost out_before = out@;
                    out.push(ResolveResponse::new(rec, &query));
                    proof {
                        assert(out@.map_values(|x: ResolveResponse| x@) =~= out_before.map_values(
                            |x: ResolveResponse| x@,
                        ).push(out@.last()@));
                        assert(out_before.map_values(|x: ResolveResponse| x@).push(out@.last()@)
                            =~= classify_answer(query@, rs0.take(k + 1)));
                        k = k + 1;
                    }
                }
                proof {
                    assert(rs0.take(k) =~= rs0);
                }
                Some(out)
            },
            LookupOutcome::Failure(e) => match ResolveResponse::from_error(e) {
                Some(rec) => {
                    let mut out: Vec<ResolveResponse> = Vec::new();
                    out.push(rec);
                    proof {
                        assert(out@.map_values(|x: ResolveResponse| x@) =~= seq![out@[0]@]);
                    }
                    Some(out)
                },
                None => None,
            },
        }
    }
}

// ---------------------------------------------------------------------------
// The batching store writer.
// ---------------------------------------------------------------------------

/// The views of one batch of records.
pub open spec fn batch_views(b: Seq<ResolveResponse>) -> Seq<RecordView> {
    b.map_values(|x: ResolveResponse| x@)
}

/// The batching store writer: records accumulate in a pending queue and are
/// flushed into the store in bulk once the queue has reached the flush
/// threshold, so the store's lock is taken once per batch rather than once
/// per record.
#[derive(Debug)]
pub struct Batcher {
    pending: Vec<ResolveResponse>,
    threshold: usize,
}

impl View for Batcher {
    type V = Seq<RecordView>;

    closed spec fn view(&self) -> Seq<RecordView> {
        self.pending@.map_values(|x: ResolveResponse| x@)
    }
}

impl Batcher {
    /// The flush threshold this writer was built with.
    pub closed spec fn threshold_spec(&self) -> usize {
        self.threshold
    }

    /// Creates a writer with threshold `queue_size`, capped at the total
    /// number of lookup tasks of the run.
    pub fn new(queue_size: usize, total: usize) -> (r: Self)
        ensures
            r@ == Seq::<RecordView>::empty(),
            r.threshold_spec() == (if queue_size > total {
                total
            } else {
                queue_size
            }),
    {
        let threshold = if queue_size > total {
            total
        } else {
            queue_size
        };
        let r = Batcher { pending: Vec::new(), threshold };
        proof {
            assert(r@ =~= Seq::<RecordView>::empty());
        }
        r
    }

    /// Accepts one batch from the classifier: the records join the pending
    /// queue, and once the queue has reached or passed the threshold it is
    /// flushed into the store in one bulk insert.
    pub fn accept(&mut self, records: Vec<ResolveResponse>, cache: &mut ResultsCache)
        requires
            old(cache).wf(),
        ensures
            final(cache).wf(),
            final(self).threshold_spec() == old(self).threshold_spec(),
            ({
                let all = old(self)@ + batch_views(records@);
                if all.len() >= old(self).threshold_spec() {
                    final(self)@ == Seq::<RecordView>::empty() && final(cache)@ == insert_all(
                        old(cache)@,
                        all,
                    )
                } else {
                    final(self)@ == all && final(cache)@ == old(cache)@
                }
            }),
    {
        let ghost all = self@ + batch_views(records@);
        let mut records = records;
        self.pending.append(&mut records);
        proof {
            assert(self@ =~= all);
        }
        if self.pending.len() >= self.threshold {
            cache.insert(&mut self.pending);
            proof {
                assert(self@ =~= Seq::<RecordView>::empty());
            }
        }
    }

    /// Flushes whatever is still pending at stream end into the store.
    pub fn finish(&mut self, cache: &mut ResultsCache)
        requires
            old(cache).wf(),
        ensures
            final(cache).wf(),
            final(self)@ == Seq::<RecordView>::empty(),
            final(cache)@ == insert_all(old(cache)@, old(self)@),
    {
        if self.pending.len() > 0 {
            cache.insert(&mut self.pending);
            proof {
                assert(self@ =~= Seq::<RecordView>::empty());
            }
        } else {
            proof {
                assert(self@ =~= Seq::<RecordView>::empty());
            }
        }
    }
}

/// The flattened contents of a stream of batches, in arrival order.
pub open spec fn flat_views(bs: Seq<Vec<ResolveResponse>>) -> Seq<RecordView>
    decreases bs.len(),
{
    if bs.len() == 0 {
        Seq::<RecordView>::empty()
    } else {
        flat_views(bs.drop_last()) + batch_views(bs.last()@)
    }
}

impl Resolver {
    /// The batching store writer's whole run over a stream of batches: every
    /// record of every batch ends up inserted into the store in arrival
    /// order, whatever the flush points were.
    #[verifier::loop_isolation(false)]
    pub fn cache_responses(
        batches: Vec<Vec<ResolveResponse>>,
        queue_size: usize,
        cache: &mut ResultsCache,
        total: usize,
    )
        requires
            old(cache).wf(),
        ensures
            final(cache).wf(),
            final(cache)@ == insert_all(old(cache)@, flat_views(batches@)),
    {
        let ghost bs0 = batches@;
        let ghost cache0 = cache@;
        let mut batches = batches;
        let mut writer = Batcher::new(queue_size, total);
        let ghost k: int = 0;
        while batches.len() > 0
            invariant
                0 <= k <= bs0.len(),
                batches@ =~= bs0.skip(k),
                cache.wf(),
                insert_all(cache@, writer@) == insert_all(cache0, flat_views(bs0.take(k))),
            decreases batches.len(),
        {
            let batch = batches.remove(0);
            let ghost pending = writer@;
            let ghost pre_cache = cache@;
            writer.accept(batch, cache);
            proof {
                k = k + 1;
                assert(batches@ =~= bs0.skip(k));
                assert(bs0.take(k).drop_last() =~= bs0.take(k - 1));
                assert(bs0.take(k).last() == bs0[k - 1]);
                lemma_insert_all_concat(pre_cache, pending, batch_views(bs0[k - 1]@));
                lemma_insert_all_concat(cache0, flat_views(bs0.take(k - 1)), batch_views(bs0[k - 1]@));
                if (pending + batch_views(bs0[k - 1]@)).len() >= writer.threshold_spec() {
                    assert(insert_all(cache@, writer@) == insert_all(cache0, flat_views(bs0.take(k))));
                } else {
                    assert(insert_all(cache@, writer@) == insert_all(cache0, flat_views(bs0.take(k))));
                }
            }
        }
        writer.finish(cache);
        proof {
            assert(bs0.take(k) =~= bs0);
        }
    }
}

// ---------------------------------------------------------------------------
// The whole-run core.
// ---------------------------------------------------------------------------

/// The records the classifier forwards over a whole run, in outcome order;
/// silently dropped failures contribute nothing.
pub open spec fn run_records(outcomes: Seq<LookupOutcomeView>) -> Seq<RecordView>
    decreases outcomes.len(),
{
    if outcomes.len() == 0 {
        Seq::<RecordView>::empty()
    } else {
        run_records(outcomes.drop_last()) + (match deliver_spec(outcomes.last()) {
            Some(b) => b,
            None => Seq::<RecordView>::empty(),
        })
    }
}

/// The store contents after a whole run over the given outcomes.
pub open spec fn run_store(outcomes: Seq<LookupOutcomeView>) -> Seq<RecordView> {
    insert_all(Seq::<RecordView>::empty(), run_records(outcomes))
}

/// What a finished run hands back: the serialized output and the number of
/// stored records.
#[derive(Debug)]
pub struct ResolveOutput {
    pub output: String,
    pub count: usize,
}

impl Resolver {
    /// The synchronous core of a whole run: classifies every collected
    /// lookup outcome, drives the batching store writer over the resulting
    /// batches with the capped flush threshold, and serializes the drained
    /// store in the configured format.  The caller dispatches one lookup per
    /// planned task and hands every outcome back, in any completion order.
    #[verifier::loop_isolation(false)]
    pub fn resolve(&self, outcomes: Vec<LookupOutcome>) -> (r: ResolveOutput)
        ensures
            r.count == run_store(outcomes@.map_values(|o: LookupOutcome| o@)).len(),
            r.output@ == output_chars(
                run_store(outcomes@.map_values(|o: LookupOutcome| o@)),
                self@.format,
            ),
            crate::data::keys_distinct(run_store(outcomes@.map_values(|o: LookupOutcome| o@))),
    {
        let ghost os0 = outcomes@.map_values(|o: LookupOutcome| o@);
        let total = outcomes.len();
        let mut outcomes = outcomes;
        let mut cache = ResultsCache::new();
        let mut writer = Batcher::new(QUEUE_SIZE, total);
        let ghost k: int = 0;
        while outcomes.len() > 0
            invariant
                0 <= k <= os0.len(),
                outcomes@.map_values(|o: LookupOutcome| o@) =~= os0.skip(k),
                cache.wf(),
                insert_all(cache@, writer@) == insert_all(
                    Seq::<RecordView>::empty(),
                    run_records(os0.take(k)),
                ),
            decreases outcomes.len(),
        {
            let ghost before = outcomes@;
            let outcome = outcomes.remove(0);
            proof {
                assert(k < os0.len());
                assert(outcome@ == before.map_values(|o: LookupOutcome| o@)[0]);
                assert(outcome@ == os0[k]);
                assert(outcomes@ == before.remove(0));
                assert(outcomes@ =~= before.skip(1));
                assert(outcomes@.map_values(|o: LookupOutcome| o@) =~= before.map_values(
                    |o: LookupOutcome| o@,
                ).skip(1));
                assert(before.map_values(|o: LookupOutcome| o@).skip(1) =~= os0.skip(k + 1));
                assert(os0.take(k + 1).drop_last() =~= os0.take(k));
                assert(os0.take(k + 1).last() == os0[k]);
            }
            let ghost pending = writer@;
            let ghost pre_cache = cache@;
            match Resolver::deliver_response(outcome) {
                Some(batch) => {
                    let ghost bv = batch@.map_values(|x: ResolveResponse| x@);
                    proof {
                        assert(deliver_spec(os0[k]) == Some(bv));
                    }
                    writer.accept(batch, &mut cache);
                    proof {
                        lemma_insert_all_concat(pre_cache, pending, bv);
                        lemma_insert_all_concat(
                            Seq::<RecordView>::empty(),
                            run_records(os0.take(k)),
                            bv,
                        );
                        assert(run_records(os0.take(k + 1)) == run_records(os0.take(k)) + bv);
                        assert(insert_all(cache@, writer@) == insert_all(
                            Seq::<RecordView>::empty(),
                            run_records(os0.take(k + 1)),
                        ));
                    }
                },
                None => {
                    proof {
                        assert(run_records(os0.take(k + 1)) =~= run_records(os0.take(k)));
                    }
                },
            }
            proof {
                k = k + 1;
            }
        }
        writer.finish(&mut cache);
        proof {
            assert(os0.take(k) =~= os0);
        }
        let count = cache.num_results();
        let output = cache.results(&self.format);
        ResolveOutput { output, count }
    }
}

// ---------------------------------------------------------------------------
// The run orchestrator's state machine.
// ---------------------------------------------------------------------------

/// The stages of one run, in order.  No stage is entered before its
/// predecessor has fully drained.
#[derive(Clone, Copy, Debug, PartialEq, Eq, Structural)]
pub enum RunState {
    /// Nothing started yet.
    Idle,
    /// The pipeline stages are running and lookup tasks are being dispatched.
    FanningOut,
    /// All tasks are dispatched and awaited; the first channel is closed and
    /// the classifier drains it.
    Draining,
    /// The classifier is done; the second channel is closed and the batcher
    /// performs its final flush.
    Flushing,
    /// The store is serialized in the configured format.
    Serialized,
    /// The output is written and the summary reported.
    Done,
}

impl RunState {
    /// The successor of each stage; a finished run stays finished.
    pub open spec fn next_spec(self) -> RunState {
        match self {
            RunState::Idle => RunState::FanningOut,
            RunState::FanningOut => RunState::Draining,
            RunState::Draining => RunState::Flushing,
            RunState::Flushing => RunState::Serialized,
            RunState::Serialized => RunState::Done,
            RunState::Done => RunState::Done,
        }
    }

    /// Advances the run to the next stage.
    pub fn advance(self) -> (r: RunState)
        ensures
            r == self.next_spec(),
    {
        match self {
            RunState::Idle => RunState::FanningOut,
            RunState::FanningOut => RunState::Draining,
            RunState::Draining => RunState::Flushing,
            RunState::Flushing => RunState::Serialized,
            RunState::Serialized => RunState::Done,
            RunState::Done => RunState::Done,
        }
    }
}

} // verus!
