//! The record model of the pipeline: raw answers as they come back from a
//! nameserver, their classification into structured records, and the keyed
//! results store that deduplicates records by content.

use vstd::prelude::*;

use crate::strutil::str_eq;

verus! {

// ---------------------------------------------------------------------------
// Raw answers: what one lookup task hands the classifier, as plain values.
// ---------------------------------------------------------------------------

/// The kind of one raw answer record.
#[derive(Debug)]
pub enum RecordKind {
    A,
    AAAA,
    Cname,
    /// Any record type not specially modeled; carries its textual name.
    Other(String),
}

/// Mathematical model of a [`RecordKind`].
pub enum RecordKindView {
    A,
    AAAA,
    Cname,
    Other(Seq<char>),
}

impl View for RecordKind {
    type V = RecordKindView;

    open spec fn view(&self) -> RecordKindView {
        match self {
            RecordKind::A => RecordKindView::A,
            RecordKind::AAAA => RecordKindView::AAAA,
            RecordKind::Cname => RecordKindView::Cname,
            RecordKind::Other(s) => RecordKindView::Other(s@),
        }
    }
}

/// The textual name of a record kind, as it appears in the output.
pub open spec fn kind_text(k: RecordKindView) -> Seq<char> {
    match k {
        RecordKindView::A => "A"@,
        RecordKindView::AAAA => "AAAA"@,
        RecordKindView::Cname => "CNAME"@,
        RecordKindView::Other(s) => s,
    }
}

/// One answer record as the external client reports it: the owner name, the
/// record kind, the textual address for address records (absent when the
/// address could not be parsed), the alias target for CNAME records, and the
/// time to live.
#[derive(Debug)]
pub struct RawRecord {
    pub name: String,
    pub kind: RecordKind,
    pub address: Option<String>,
    pub cname_target: Option<String>,
    pub ttl: u32,
}

/// Mathematical model of a [`RawRecord`].
pub struct RawRecordView {
    pub name: Seq<char>,
    pub kind: RecordKindView,
    pub address: Option<Seq<char>>,
    pub cname_target: Option<Seq<char>>,
    pub ttl: u32,
}

impl View for RawRecord {
    type V = RawRecordView;

    open spec fn view(&self) -> RawRecordView {
        RawRecordView {
            name: self.name@,
            kind: self.kind@,
            address: match self.address {
                Some(ref a) => Some(a@),
                None => None,
            },
            cname_target: match self.cname_target {
                Some(ref t) => Some(t@),
                None => None,
            },
            ttl: self.ttl,
        }
    }
}

/// A classified per-lookup failure, as the external client reports it.
#[derive(Debug)]
pub enum RawError {
    /// A plain message failure.
    Message(String),
    /// Name resolution failed with a response code (such as NXDOMAIN).
    NoRecords { query: String, response_code: String },
    /// A protocol-level failure that carries a message.
    ProtoMessage(String),
    /// A protocol-level failure with no informative message.
    ProtoOther,
    /// A transport-level I/O failure.
    Io,
    /// The query timed out.
    Timeout,
}

/// Mathematical model of a [`RawError`].
pub enum RawErrorView {
    Message(Seq<char>),
    NoRecords { query: Seq<char>, response_code: Seq<char> },
    ProtoMessage(Seq<char>),
    ProtoOther,
    Io,
    Timeout,
}

impl View for RawError {
    type V = RawErrorView;

    open spec fn view(&self) -> RawErrorView {
        match self {
            RawError::Message(m) => RawErrorView::Message(m@),
            RawError::NoRecords { query, response_code } => RawErrorView::NoRecords {
                query: query@,
                response_code: response_code@,
            },
            RawError::ProtoMessage(m) => RawErrorView::ProtoMessage(m@),
            RawError::ProtoOther => RawErrorView::ProtoOther,
            RawError::Io => RawErrorView::Io,
            RawError::Timeout => RawErrorView::Timeout,
        }
    }
}

/// The outcome of one lookup task: either the answer records together with
/// the query name, or a classified failure.
#[derive(Debug)]
pub enum LookupOutcome {
    Answer { query: String, records: Vec<RawRecord> },
    Failure(RawError),
}

/// Mathematical model of a [`LookupOutcome`].
pub enum LookupOutcomeView {
    Answer { query: Seq<char>, records: Seq<RawRecordView> },
    Failure(RawErrorView),
}

impl View for LookupOutcome {
    type V = LookupOutcomeView;

    open spec fn view(&self) -> LookupOutcomeView {
        match self {
            LookupOutcome::Answer { query, records } => LookupOutcomeView::Answer {
                query: query@,
                records: records@.map_values(|r: RawRecord| r@),
            },
            LookupOutcome::Failure(e) => LookupOutcomeView::Failure(e@),
        }
    }
}

// ---------------------------------------------------------------------------
// Structured records.
// ---------------------------------------------------------------------------

/// One structured record, the unit the results store holds.
#[derive(Debug)]
pub enum ResolveResponse {
    /// An address record (A or AAAA).  `value` is the textual address and is
    /// absent when the raw answer's address could not be parsed.
    Address { name: String, value: Option<String>, kind: String, ttl: u32, is_wildcard: bool },
    /// A CNAME record.  `query` is the originating hostname that triggered
    /// the lookup, filled in by the classifier; `name` is the alias target.
    Alias { query: String, name: String, kind: String, ttl: u32, is_wildcard: bool },
    /// Any record kind not specially modeled.
    Other { name: String, kind: String, ttl: u32, is_wildcard: bool },
    /// A classified per-lookup failure that is part of the normal output.
    Error { query: String, response_code: String },
}

/// Mathematical model of a [`ResolveResponse`].
pub enum RecordView {
    Address { name: Seq<char>, value: Option<Seq<char>>, kind: Seq<char>, ttl: u32, is_wildcard: bool },
    Alias { query: Seq<char>, name: Seq<char>, kind: Seq<char>, ttl: u32, is_wildcard: bool },
    Other { name: Seq<char>, kind: Seq<char>, ttl: u32, is_wildcard: bool },
    Error { query: Seq<char>, response_code: Seq<char> },
}

impl View for ResolveResponse {
    type V = RecordView;

    open spec fn view(&self) -> RecordView {
        match self {
            ResolveResponse::Address { name, value, kind, ttl, is_wildcard } => RecordView::Address {
                name: name@,
                value: match value {
                    Some(v) => Some(v@),
                    None => None,
                },
                kind: kind@,
                ttl: *ttl,
                is_wildcard: *is_wildcard,
            },
            ResolveResponse::Alias { query, name, kind, ttl, is_wildcard } => RecordView::Alias {
                query: query@,
                name: name@,
                kind: kind@,
                ttl: *ttl,
                is_wildcard: *is_wildcard,
            },
            ResolveResponse::Other { name, kind, ttl, is_wildcard } => RecordView::Other {
                name: name@,
                kind: kind@,
                ttl: *ttl,
                is_wildcard: *is_wildcard,
            },
            ResolveResponse::Error { query, response_code } => RecordView::Error {
                query: query@,
                response_code: response_code@,
            },
        }
    }
}

impl Clone for ResolveResponse {
    fn clone(&self) -> (r: Self)
        ensures
            r@ == self@,
    {
        match self {
            ResolveResponse::Address { name, value, kind, ttl, is_wildcard } => {
                ResolveResponse::Address {
                    name: name.clone(),
                    value: match value {
                        Some(v) => Some(v.clone()),
                        None => None,
                    },
                    kind: kind.clone(),
                    ttl: *ttl,
                    is_wildcard: *is_wildcard,
                }
            },
            ResolveResponse::Alias { query, name, kind, ttl, is_wildcard } => {
                ResolveResponse::Alias {
                    query: query.clone(),
                    name: name.clone(),
                    kind: kind.clone(),
                    ttl: *ttl,
                    is_wildcard: *is_wildcard,
                }
            },
            ResolveResponse::Other { name, kind, ttl, is_wildcard } => ResolveResponse::Other {
                name: name.clone(),
                kind: kind.clone(),
                ttl: *ttl,
                is_wildcard: *is_wildcard,
            },
            ResolveResponse::Error { query, response_code } => ResolveResponse::Error {
                query: query.clone(),
                response_code: response_code.clone(),
            },
        }
    }
}

/// The key under which a record is stored: the textual address for an
/// address record (empty when the address is absent), the name for an alias
/// or other record, and the query for an error record.
pub open spec fn key_view(r: RecordView) -> Seq<char> {
    match r {
        RecordView::Address { value, .. } => match value {
            Some(v) => v,
            None => Seq::<char>::empty(),
        },
        RecordView::Alias { name, .. } => name,
        RecordView::Other { name, .. } => name,
        RecordView::Error { query, .. } => query,
    }
}

/// The alias target a CNAME record resolves to: the raw record's target when
/// it is present, its owner name otherwise.
pub open spec fn alias_name(r: RawRecordView) -> Seq<char> {
    match r.cname_target {
        Some(t) => t,
        None => r.name,
    }
}

/// How the classifier turns one raw answer record into a structured record.
/// Address records keep their owner name and textual address; CNAME records
/// take the originating query; the wildcard flag starts out false.
pub open spec fn classify_record(q: Seq<char>, r: RawRecordView) -> RecordView {
    match r.kind {
        RecordKindView::A => RecordView::Address {
            name: r.name,
            value: r.address,
            kind: kind_text(r.kind),
            ttl: r.ttl,
            is_wildcard: false,
        },
        RecordKindView::AAAA => RecordView::Address {
            name: r.name,
            value: r.address,
            kind: kind_text(r.kind),
            ttl: r.ttl,
            is_wildcard: false,
        },
        RecordKindView::Cname => RecordView::Alias {
            query: q,
            name: alias_name(r),
            kind: kind_text(r.kind),
            ttl: r.ttl,
            is_wildcard: false,
        },
        RecordKindView::Other(k) => RecordView::Other {
            name: r.name,
            kind: k,
            ttl: r.ttl,
            is_wildcard: false,
        },
    }
}

/// How the classifier turns one per-lookup failure into at most one error
/// record.  Failures with no informative response code (bare protocol,
/// I/O and timeout failures) are dropped silently; the rest become exactly
/// one error record keyed by the query name (empty when the failure does not
/// carry it).
pub open spec fn classify_error(e: RawErrorView) -> Option<RecordView> {
    match e {
        RawErrorView::Message(m) => Some(RecordView::Error {
            query: Seq::<char>::empty(),
            response_code: m,
        }),
        RawErrorView::NoRecords { query, response_code } => Some(RecordView::Error {
            query: query,
            response_code: response_code,
        }),
        RawErrorView::ProtoMessage(m) => Some(RecordView::Error {
            query: Seq::<char>::empty(),
            response_code: m,
        }),
        RawErrorView::ProtoOther => None,
        RawErrorView::Io => None,
        RawErrorView::Timeout => None,
    }
}

impl ResolveResponse {
    /// Classifies one raw answer record, filling in the originating query
    /// for CNAME records.
    pub fn new(record: RawRecord, q: &String) -> (r: ResolveResponse)
        ensures
            r@ == classify_record(q@, record@),
    {
        let RawRecord { name, kind, address, cname_target, ttl } = record;
        match kind {
            RecordKind::A => ResolveResponse::Address {
                name,
                value: address,
                kind: String::from_str("A"),
                ttl,
                is_wildcard: false,
            },
            RecordKind::AAAA => ResolveResponse::Address {
                name,
                value: address,
                kind: String::from_str("AAAA"),
                ttl,
                is_wildcard: false,
            },
            RecordKind::Cname => ResolveResponse::Alias {
                query: q.clone(),
                name: match cname_target {
                    Some(t) => t,
                    None => name,
                },
                kind: String::from_str("CNAME"),
                ttl,
                is_wildcard: false,
            },
            RecordKind::Other(k) => ResolveResponse::Other { name, kind: k, ttl, is_wildcard: false },
        }
    }

    /// Extracts an error record from a classified failure, or drops it when
    /// it carries no informative response code.
    pub fn from_error(error: RawError) -> (r: Option<ResolveResponse>)
        ensures
            match r {
                Some(rec) => classify_error(error@) == Some(rec@),
                None => classify_error(error@) is None,
            },
    {
        match error {
            RawError::Message(m) => Some(ResolveResponse::Error {
                query: String::new(),
                response_code: m,
            }),
            RawError::NoRecords { query, response_code } => Some(ResolveResponse::Error {
                query,
                response_code,
            }),
            RawError::ProtoMessage(m) => Some(ResolveResponse::Error {
                query: String::new(),
                response_code: m,
            }),
            RawError::ProtoOther => None,
            RawError::Io => None,
            RawError::Timeout => None,
        }
    }

    /// The key under which this record is stored.
    pub fn key(&self) -> (r: String)
        ensures
            r@ == key_view(self@),
    {
        match self {
            ResolveResponse::Address { value, .. } => match value {
                Some(v) => v.clone(),
                None => String::new(),
            },
            ResolveResponse::Alias { name, .. } => name.clone(),
            ResolveResponse::Other { name, .. } => name.clone(),
            ResolveResponse::Error { query, .. } => query.clone(),
        }
    }
}

// ---------------------------------------------------------------------------
// The keyed results store.
// ---------------------------------------------------------------------------

/// No two stored records share a key.
pub open spec fn keys_distinct(s: Seq<RecordView>) -> bool {
    forall|i: int, j: int| 0 <= i < j < s.len() ==> key_view(s[i]) != key_view(s[j])
}

/// Whether some stored record has the given key.
pub open spec fn has_key(s: Seq<RecordView>, k: Seq<char>) -> bool {
    exists|i: int| 0 <= i < s.len() && key_view(s[i]) == k
}

/// Inserting one record: a record with the same key is overwritten in place
/// (last write wins); a record with a fresh key is appended.
pub open spec fn insert_one(s: Seq<RecordView>, r: RecordView) -> Seq<RecordView> {
    if has_key(s, key_view(r)) {
        let i = choose|i: int| 0 <= i < s.len() && key_view(s[i]) == key_view(r);
        s.update(i, r)
    } else {
        s.push(r)
    }
}

/// Inserting a batch of records in order.
pub open spec fn insert_all(s: Seq<RecordView>, batch: Seq<RecordView>) -> Seq<RecordView>
    decreases batch.len(),
{
    if batch.len() == 0 {
        s
    } else {
        insert_one(insert_all(s, batch.drop_last()), batch.last())
    }
}

/// The results store: a mapping from derived keys to records, deduplicated
/// by content with a last-write-wins merge policy.  It is written only by
/// the batching store writer and read once after the pipeline drains.
#[derive(Debug)]
pub struct ResultsCache {
    pub(crate) records: Vec<ResolveResponse>,
}

impl View for ResultsCache {
    type V = Seq<RecordView>;

    closed spec fn view(&self) -> Seq<RecordView> {
        self.records@.map_values(|r: ResolveResponse| r@)
    }
}

impl ResultsCache {
    /// The store invariant: stored keys are pairwise distinct.
    pub open spec fn wf(&self) -> bool {
        keys_distinct(self@)
    }

    /// The store's contents are the views of its record vector, in order.
    pub(crate) proof fn lemma_view(&self)
        ensures
            self@ == self.records@.map_values(|r: ResolveResponse| r@),
    {
    }

    /// Creates an empty store.
    pub fn new() -> (r: Self)
        ensures
            r@ == Seq::<RecordView>::empty(),
            r.wf(),
    {
        let r = ResultsCache { records: Vec::new() };
        proof {
            assert(r@ =~= Seq::<RecordView>::empty());
        }
        r
    }

    /// The number of stored records, one per distinct key.
    pub fn num_results(&self) -> (r: usize)
        ensures
            r == self@.len(),
    {
        self.records.len()
    }

    /// A copy of the stored records, in storage order.
    #[verifier::loop_isolation(false)]
    pub fn records(&self) -> (r: Vec<ResolveResponse>)
        ensures
            r@.map_values(|x: ResolveResponse| x@) == self@,
    {
        let mut out: Vec<ResolveResponse> = Vec::new();
        let mut i: usize = 0;
        while i < self.records.len()
            invariant
                i <= self.records.len(),
                out@.map_values(|x: ResolveResponse| x@) =~= self@.take(i as int),
            decreases self.records.len() - i,
        {
            out.push(self.records[i].clone());
            proof {
                assert(out@.map_values(|x: ResolveResponse| x@) =~= self@.take(i + 1 as int));
            }
            i = i + 1;
        }
        proof {
            assert(self@.take(self.records@.len() as int) =~= self@);
        }
        out
    }

    /// Inserts one record under its derived key, last write wins.
    #[verifier::loop_isolation(false)]
    fn insert_record(&mut self, r: ResolveResponse)
        requires
            old(self).wf(),
        ensures
            final(self).wf(),
            final(self)@ == insert_one(old(self)@, r@),
    {
        let k = r.key();
        let ghost s0 = self@;
        let mut j: usize = 0;
        while j < self.records.len()
            invariant
                *self == *old(self),
                j <= self.records.len(),
                forall|i: int| 0 <= i < j ==> key_view(self@[i]) != k@,
            decreases self.records.len() - j,
        {
            let kj = self.records[j].key();
            if str_eq(kj.as_str(), k.as_str()) {
                proof {
                    assert(s0.len() == self.records@.len());
                    assert(s0[j as int] == self.records@[j as int]@);
                    assert(0 <= j < s0.len() && key_view(s0[j as int]) == key_view(r@));
                    assert(has_key(s0, key_view(r@)));
                    let i = choose|i: int| 0 <= i < s0.len() && key_view(s0[i]) == key_view(r@);
                    assert(i == j) by {
                        if i < j {
                            assert(key_view(s0[i]) != key_view(s0[j as int]));
                        } else if i > j {
                            assert(key_view(s0[j as int]) != key_view(s0[i]));
                        }
                    };
                }
                self.records[j] = r;
                proof {
                    assert(self@ =~= insert_one(s0, s0.update(j as int, self.records@[j as int]@)[j as int]));
                    assert(self@ =~= s0.update(j as int, self.records@[j as int]@));
                    assert(self@ =~= insert_one(s0, self.records@[j as int]@));
                    assert forall|a: int, b: int| 0 <= a < b < self@.len() implies key_view(
                        self@[a],
                    ) != key_view(self@[b]) by {
                        assert(key_view(self@[j as int]) == key_view(s0[j as int]));
                    };
                }
                return ;
            }
            j = j + 1;
        }
        proof {
            assert(!has_key(s0, key_view(r@)));
        }
        self.records.push(r);
        proof {
            assert(self@ =~= s0.push(self.records@.last()@));
            assert forall|a: int, b: int| 0 <= a < b < self@.len() implies key_view(self@[a])
                != key_view(self@[b]) by {
                if b == self@.len() - 1 {
                    assert(key_view(self@[a]) == key_view(s0[a]));
                }
            };
        }
    }

    /// Drains a batch of records into the store, merging by key with a
    /// last-write-wins policy.  This is the bulk insert the batching store
    /// writer calls once per flush.
    #[verifier::loop_isolation(false)]
    pub fn insert(&mut self, records: &mut Vec<ResolveResponse>)
        requires
            old(self).wf(),
        ensures
            final(self).wf(),
            final(self)@ == insert_all(old(self)@, old(records)@.map_values(|x: ResolveResponse| x@)),
            final(records)@.len() == 0,
    {
        let ghost s0 = self@;
        let ghost batch = records@.map_values(|x: ResolveResponse| x@);
        let mut i: usize = 0;
        while i < records.len()
            invariant
                old(self).wf(),
                i <= records.len(),
                records@ == old(records)@,
                batch == records@.map_values(|x: ResolveResponse| x@),
                self.wf(),
                self@ == insert_all(s0, batch.take(i as int)),
            decreases records.len() - i,
        {
            let r = records[i].clone();
            proof {
                assert(batch.take(i + 1 as int).drop_last() =~= batch.take(i as int));
                assert(batch.take(i + 1 as int).last() == r@);
            }
            self.insert_record(r);
            i = i + 1;
        }
        proof {
            assert(batch.take(records@.len() as int) =~= batch);
        }
        records.clear();
    }

    /// Marks the record stored under `key` as the result of a wildcard
    /// match.  Error records carry no wildcard flag and are left unchanged,
    /// as is a store that does not hold the key.
    #[verifier::loop_isolation(false)]
    pub fn set_wildcard(&mut self, key: &String)
        requires
            old(self).wf(),
        ensures
            final(self).wf(),
            final(self)@ == set_wildcard_spec(old(self)@, key@),
    {
        let ghost s0 = self@;
        let mut j: usize = 0;
        while j < self.records.len()
            invariant
                *self == *old(self),
                j <= self.records.len(),
                forall|i: int| 0 <= i < j ==> key_view(self@[i]) != key@,
            decreases self.records.len() - j,
        {
            let kj = self.records[j].key();
            if str_eq(kj.as_str(), key.as_str()) {
                proof {
                    assert(0 <= j < s0.len() && key_view(s0[j as int]) == key@);
                    assert(has_key(s0, key@));
                    let i = choose|i: int| 0 <= i < s0.len() && key_view(s0[i]) == key@;
                    assert(i == j) by {
                        if i < j {
                            assert(key_view(s0[i]) != key_view(s0[j as int]));
                        } else if i > j {
                            assert(key_view(s0[j as int]) != key_view(s0[i]));
                        }
                    };
                }
                let updated = match self.records[j].clone() {
                    ResolveResponse::Address { name, value, kind, ttl, is_wildcard: _ } => {
                        ResolveResponse::Address { name, value, kind, ttl, is_wildcard: true }
                    },
                    ResolveResponse::Alias { query, name, kind, ttl, is_wildcard: _ } => {
                        ResolveResponse::Alias { query, name, kind, ttl, is_wildcard: true }
                    },
                    ResolveResponse::Other { name, kind, ttl, is_wildcard: _ } => {
                        ResolveResponse::Other { name, kind, ttl, is_wildcard: true }
                    },
                    ResolveResponse::Error { query, response_code } => ResolveResponse::Error {
                        query,
                        response_code,
                    },
                };
                proof {
                    assert(updated@ == set_wildcard_one(s0[j as int]));
                }
                self.records[j] = updated;
                proof {
                    assert(self@ =~= s0.update(j as int, set_wildcard_one(s0[j as int])));
                    assert(key_view(set_wildcard_one(s0[j as int])) == key_view(s0[j as int]));
                    assert forall|a: int, b: int| 0 <= a < b < self@.len() implies key_view(
                        self@[a],
                    ) != key_view(self@[b]) by {
                        assert(key_view(self@[j as int]) == key_view(s0[j as int]));
                    };
                }
                return ;
            }
            j = j + 1;
        }
        proof {
            assert(!has_key(s0, key@));
        }
    }
}

/// Setting the wildcard flag of one record; error records are unchanged.
pub open spec fn set_wildcard_one(r: RecordView) -> RecordView {
    match r {
        RecordView::Address { name, value, kind, ttl, is_wildcard } => RecordView::Address {
            name,
            value,
            kind,
            ttl,
            is_wildcard: true,
        },
        RecordView::Alias { query, name, kind, ttl, is_wildcard } => RecordView::Alias {
            query,
            name,
            kind,
            ttl,
            is_wildcard: true,
        },
        RecordView::Other { name, kind, ttl, is_wildcard } => RecordView::Other {
            name,
            kind,
            ttl,
            is_wildcard: true,
        },
        RecordView::Error { query, response_code } => RecordView::Error { query, response_code },
    }
}

/// Setting the wildcard flag of the record stored under `k`, if any.
pub open spec fn set_wildcard_spec(s: Seq<RecordView>, k: Seq<char>) -> Seq<RecordView> {
    if has_key(s, k) {
        let i = choose|i: int| 0 <= i < s.len() && key_view(s[i]) == k;
        s.update(i, set_wildcard_one(s[i]))
    } else {
        s
    }
}


/// Inserting a concatenation of two batches is inserting the first batch,
/// then the second.
pub proof fn lemma_insert_all_concat(s: Seq<RecordView>, x: Seq<RecordView>, y: Seq<RecordView>)
    ensures
        insert_all(s, x + y) == insert_all(insert_all(s, x), y),
    decreases y.len(),
{
    if y.len() == 0 {
        assert(x + y =~= x);
    } else {
        lemma_insert_all_concat(s, x, y.drop_last());
        assert((x + y).drop_last() =~= x + y.drop_last());
        assert((x + y).last() == y.last());
    }
}

/// Two records with the same key collapse to one stored entry: inserting the
/// second does not grow the store, and the record inserted last is the one
/// that stays (last write wins).
pub proof fn lemma_same_key_collapses(s: Seq<RecordView>, r1: RecordView, r2: RecordView)
    requires
        key_view(r1) == key_view(r2),
    ensures
        insert_one(insert_one(s, r1), r2).len() == insert_one(s, r1).len(),
        exists|i: int|
            0 <= i < insert_one(insert_one(s, r1), r2).len() && insert_one(
                insert_one(s, r1),
                r2,
            )[i] == r2,
{
    let s1 = insert_one(s, r1);
    if has_key(s, key_view(r1)) {
        let i = choose|i: int| 0 <= i < s.len() && key_view(s[i]) == key_view(r1);
        assert(s1 == s.update(i, r1));
        assert(key_view(s1[i]) == key_view(r2));
    } else {
        assert(s1 == s.push(r1));
        assert(key_view(s1[s.len() as int]) == key_view(r2));
    }
    assert(has_key(s1, key_view(r2)));
    let j = choose|j: int| 0 <= j < s1.len() && key_view(s1[j]) == key_view(r2);
    assert(insert_one(s1, r2) == s1.update(j, r2));
    assert(insert_one(s1, r2)[j] == r2);
}


/// A classified CNAME answer records the originating hostname: the alias
/// record's `query` field is the query that triggered the lookup, never the
/// alias target the answer resolved to.
pub proof fn lemma_alias_query_is_origin(q: Seq<char>, r: RawRecordView)
    requires
        r.kind is Cname,
    ensures
        match classify_record(q, r) {
            RecordView::Alias { query, name, .. } => query == q && name == alias_name(r),
            _ => false,
        },
{
}

} // verus!
