//! Data ingestion: sources, their configuration, and the buffer of ingested records.
use vstd::prelude::*;
use crate::pipeline::fields::Fields;
use crate::text::{decimal, push_decimal, str_eq};

verus! {

/// Supported data source types.
#[derive(Debug, Clone, Copy, PartialEq, Eq, Structural)]
pub enum SourceType {
    /// File-based input (CSV, JSON, Parquet).
    File,
    /// HTTP/REST API endpoint.
    HttpApi,
    /// Message queue (Kafka, AMQP).
    MessageQueue,
    /// Database query.
    Database,
    /// Real-time sensor stream.
    Sensor,
}

/// Data format for ingested records.
#[derive(Debug, Clone, Copy, PartialEq, Eq, Structural)]
pub enum DataFormat {
    Json,
    Csv,
    Binary,
    Protobuf,
    Avro,
}

/// A single ingested record.
#[derive(Debug, Clone)]
pub struct Record {
    /// Unique record identifier.
    pub id: String,
    /// Source that produced this record.
    pub source_id: String,
    /// Timestamp of ingestion (epoch millis).
    pub ingested_at_ms: u64,
    /// Key-value payload.
    pub fields: Fields,
    /// Raw byte size.
    pub byte_size: usize,
}

/// Ingestion source configuration.
#[derive(Debug, Clone)]
pub struct SourceConfig {
    /// Source identifier.
    pub id: String,
    /// Source type.
    pub source_type: SourceType,
    /// Data format.
    pub format: DataFormat,
    /// Whether the source is active.
    pub active: bool,
    /// Maximum records per batch.
    pub batch_size: usize,
    /// Connection string or URI.
    pub uri: String,
}

/// Ingestion error.
#[derive(Debug, Clone)]
pub struct IngestionError {
    /// Source that produced the error.
    pub source_id: String,
    /// Error message.
    pub message: String,
    /// Timestamp (epoch millis).
    pub timestamp_ms: u64,
}

/// The ids of a list of source configurations.
pub open spec fn config_ids(s: Seq<SourceConfig>) -> Seq<Seq<char>> {
    s.map_values(|c: SourceConfig| c.id@)
}

/// No id occurs twice.
pub open spec fn ids_distinct(ids: Seq<Seq<char>>) -> bool {
    forall|a: int, b: int| 0 <= a < ids.len() && 0 <= b < ids.len() && a != b ==> ids[a] != ids[b]
}

/// The position of `id` in `ids` (meaningful when `ids.contains(id)`).
pub open spec fn id_index(ids: Seq<Seq<char>>, id: Seq<char>) -> int {
    choose|i: int| 0 <= i < ids.len() && ids[i] == id
}

/// The sum of the byte sizes of some records.
pub open spec fn total_size(s: Seq<Record>) -> nat
    decreases s.len(),
{
    if s.len() == 0 {
        0
    } else {
        total_size(s.drop_last()) + s.last().byte_size as nat
    }
}

/// The error for an unknown source.
pub open spec fn source_not_found_msg(id: Seq<char>) -> Seq<char> {
    "Source '"@ + id + "' not found"@
}

/// The error for an inactive source.
pub open spec fn source_inactive_msg(id: Seq<char>) -> Seq<char> {
    "Source '"@ + id + "' is not active"@
}

/// The error for a batch larger than the source allows.
pub open spec fn batch_too_large_msg(len: nat, max: nat, id: Seq<char>) -> Seq<char> {
    "Batch size "@ + decimal(len) + " exceeds max "@ + decimal(max) + " for source '"@ + id
        + "'"@
}

/// The predicate "the source is active".
pub open spec fn is_active() -> spec_fn(SourceConfig) -> bool {
    |c: SourceConfig| c.active
}

/// Ingestion engine: manages data sources and collects their records.
pub struct IngestionEngine {
    sources: Vec<SourceConfig>,
    records: Vec<Record>,
    total_bytes_ingested: u64,
    total_records_ingested: u64,
    errors: Vec<IngestionError>,
}

impl IngestionEngine {
    #[verifier::type_invariant]
    spec fn inv(self) -> bool {
        ids_distinct(config_ids(self.sources@))
    }

    /// The registered sources, in registration order; their ids are distinct.
    pub closed spec fn spec_sources(&self) -> Seq<SourceConfig> {
        self.sources@
    }

    /// The ids of the registered sources.
    pub open spec fn spec_ids(&self) -> Seq<Seq<char>> {
        config_ids(self.spec_sources())
    }

    /// The configuration registered under `id` (meaningful when `id` is registered).
    pub open spec fn source_of(&self, id: Seq<char>) -> SourceConfig {
        self.spec_sources()[id_index(self.spec_ids(), id)]
    }

    /// The records ingested and not yet drained, in order.
    pub closed spec fn spec_records(&self) -> Seq<Record> {
        self.records@
    }

    /// Total bytes ingested.
    pub closed spec fn spec_total_bytes(&self) -> nat {
        self.total_bytes_ingested as nat
    }

    /// Total records ingested.
    pub closed spec fn spec_total_records(&self) -> nat {
        self.total_records_ingested as nat
    }

    /// The recorded errors, in order.
    pub closed spec fn spec_errors(&self) -> Seq<IngestionError> {
        self.errors@
    }

    /// Create a new ingestion engine.
    pub fn new() -> (e: Self)
        ensures
            e.spec_sources().len() == 0,
            e.spec_records().len() == 0,
            e.spec_total_bytes() == 0,
            e.spec_total_records() == 0,
            e.spec_errors().len() == 0,
    {
        let sources: Vec<SourceConfig> = Vec::new();
        assert(config_ids(sources@) =~= Seq::<Seq<char>>::empty());
        IngestionEngine {
            sources,
            records: Vec::new(),
            total_bytes_ingested: 0,
            total_records_ingested: 0,
            errors: Vec::new(),
        }
    }

    fn find(&self, id: &str) -> (r: Option<usize>)
        ensures
            match r {
                Some(i) => i < self.spec_sources().len() && self.spec_ids().contains(id@)
                    && id_index(self.spec_ids(), id@) == i && self.spec_sources()[i as int].id@
                    == id@,
                None => !self.spec_ids().contains(id@),
            },
    {
        proof {
            use_type_invariant(self);
        }
        let ghost ids = self.spec_ids();
        let mut i: usize = 0;
        while i < self.sources.len()
            invariant
                ids == config_ids(self.sources@),
                ids_distinct(ids),
                i <= self.sources@.len(),
                forall|j: int| 0 <= j < i ==> ids[j] != id@,
            decreases self.sources@.len() - i,
        {
            if str_eq(self.sources[i].id.as_str(), id) {
                proof {
                    assert(ids[i as int] == id@);
                    assert(id_index(ids, id@) == i);
                }
                return Some(i);
            }
            i = i + 1;
        }
        None
    }

    /// Register a data source; fails when its id is already registered.
    pub fn register_source(&mut self, config: SourceConfig) -> (r: Result<(), String>)
        ensures
            old(self).spec_ids().contains(config.id@) ==> r is Err && r->Err_0@ == "Source '"@
                + config.id@ + "' already registered"@ && final(self).spec_sources() == old(
                self,
            ).spec_sources(),
            !old(self).spec_ids().contains(config.id@) ==> r is Ok && final(self).spec_sources()
                == old(self).spec_sources().push(config),
            final(self).spec_records() == old(self).spec_records(),
            final(self).spec_total_bytes() == old(self).spec_total_bytes(),
            final(self).spec_total_records() == old(self).spec_total_records(),
            final(self).spec_errors() == old(self).spec_errors(),
    {
        proof {
            use_type_invariant(&*self);
        }
        if let Some(_) = self.find(config.id.as_str()) {
            let mut msg = "Source '".to_owned();
            msg.append(config.id.as_str());
            msg.append("' already registered");
            return Err(msg);
        }
        let ghost ids0 = self.spec_ids();
        let mut sources: Vec<SourceConfig> = Vec::new();
        std::mem::swap(&mut sources, &mut self.sources);
        sources.push(config);
        proof {
            let ids = config_ids(sources@);
            assert(ids =~= ids0.push(config.id@));
            assert forall|a: int, b: int|
                0 <= a < ids.len() && 0 <= b < ids.len() && a != b implies ids[a] != ids[b] by {
                if a == ids.len() - 1 {
                    assert(ids[b] == ids0[b]);
                } else if b == ids.len() - 1 {
                    assert(ids[a] == ids0[a]);
                }
            }
        }
        self.sources = sources;
        Ok(())
    }

    /// Unregister a data source and return its configuration.
    pub fn unregister_source(&mut self, id: &str) -> (r: Result<SourceConfig, String>)
        ensures
            !old(self).spec_ids().contains(id@) ==> r is Err && r->Err_0@ == source_not_found_msg(
                id@,
            ) && final(self).spec_sources() == old(self).spec_sources(),
            old(self).spec_ids().contains(id@) ==> ({
                let p = id_index(old(self).spec_ids(), id@);
                &&& r is Ok
                &&& r->Ok_0 == old(self).spec_sources()[p]
                &&& final(self).spec_sources() == old(self).spec_sources().remove(p)
            }),
            final(self).spec_records() == old(self).spec_records(),
            final(self).spec_total_bytes() == old(self).spec_total_bytes(),
            final(self).spec_total_records() == old(self).spec_total_records(),
            final(self).spec_errors() == old(self).spec_errors(),
    {
        proof {
            use_type_invariant(&*self);
        }
        let idx = match self.find(id) {
            Some(i) => i,
            None => {
                let mut msg = "Source '".to_owned();
                msg.append(id);
                msg.append("' not found");
                return Err(msg);
            },
        };
        let ghost ids0 = self.spec_ids();
        let mut sources: Vec<SourceConfig> = Vec::new();
        std::mem::swap(&mut sources, &mut self.sources);
        let removed = sources.remove(idx);
        proof {
            let ids = config_ids(sources@);
            assert(ids =~= ids0.remove(idx as int));
            assert forall|a: int, b: int|
                0 <= a < ids.len() && 0 <= b < ids.len() && a != b implies ids[a] != ids[b] by {
                assert(ids[a] == ids0[if a < idx { a } else { a + 1 }]);
                assert(ids[b] == ids0[if b < idx { b } else { b + 1 }]);
            }
        }
        self.sources = sources;
        Ok(removed)
    }

    /// Ingest a batch of records from a source. The source must be registered and active,
    /// and the batch no larger than its batch size; the records are then appended to the
    /// buffer and the totals grow by their count and byte size.
    pub fn ingest(&mut self, source_id: &str, records: Vec<Record>) -> (r: Result<usize, String>)
        requires
            old(self).spec_ids().contains(source_id@) && old(self).source_of(source_id@).active
                && records@.len() <= old(self).source_of(source_id@).batch_size ==> old(
                self,
            ).spec_total_records() + records@.len() <= u64::MAX && old(self).spec_total_bytes()
                + total_size(records@) <= u64::MAX,
        ensures
            final(self).spec_sources() == old(self).spec_sources(),
            final(self).spec_errors() == old(self).spec_errors(),
            !old(self).spec_ids().contains(source_id@) ==> r is Err && r->Err_0@
                == source_not_found_msg(source_id@),
            old(self).spec_ids().contains(source_id@) && !old(self).source_of(source_id@).active
                ==> r is Err && r->Err_0@ == source_inactive_msg(source_id@),
            old(self).spec_ids().contains(source_id@) && old(self).source_of(source_id@).active
                && records@.len() > old(self).source_of(source_id@).batch_size ==> r is Err
                && r->Err_0@ == batch_too_large_msg(
                records@.len(),
                old(self).source_of(source_id@).batch_size as nat,
                source_id@,
            ),
            r is Err ==> final(self).spec_records() == old(self).spec_records()
                && final(self).spec_total_bytes() == old(self).spec_total_bytes()
                && final(self).spec_total_records() == old(self).spec_total_records(),
            old(self).spec_ids().contains(source_id@) && old(self).source_of(source_id@).active
                && records@.len() <= old(self).source_of(source_id@).batch_size ==> r is Ok
                && r->Ok_0 == records@.len() && final(self).spec_records() == old(
                self,
            ).spec_records() + records@ && final(self).spec_total_records() == old(
                self,
            ).spec_total_records() + records@.len() && final(self).spec_total_bytes() == old(
                self,
            ).spec_total_bytes() + total_size(records@),
    {
        proof {
            use_type_invariant(&*self);
        }
        let idx = match self.find(source_id) {
            Some(i) => i,
            None => {
                let mut msg = "Source '".to_owned();
                msg.append(source_id);
                msg.append("' not found");
                return Err(msg);
            },
        };
        if !self.sources[idx].active {
            let mut msg = "Source '".to_owned();
            msg.append(source_id);
            msg.append("' is not active");
            return Err(msg);
        }
        let batch_size = self.sources[idx].batch_size;
        if records.len() > batch_size {
            let mut msg = "Batch size ".to_owned();
            push_decimal(&mut msg, records.len() as u64);
            msg.append(" exceeds max ");
            push_decimal(&mut msg, batch_size as u64);
            msg.append(" for source '");
            msg.append(source_id);
            msg.append("'");
            return Err(msg);
        }
        let count = records.len();
        let ghost limit = u64::MAX - self.total_bytes_ingested;
        let mut bytes: u64 = 0;
        let mut i: usize = 0;
        while i < records.len()
            invariant
                i <= records@.len(),
                bytes == total_size(records@.take(i as int)),
                total_size(records@) <= limit <= u64::MAX,
            decreases records@.len() - i,
        {
            proof {
                assert(records@.take(i + 1).drop_last() =~= records@.take(i as int));
                assert(records@.take(i + 1).last() == records@[i as int]);
                lemma_total_size_prefix(records@, i + 1);
            }
            bytes = bytes + records[i].byte_size as u64;
            i = i + 1;
        }
        assert(records@.take(records@.len() as int) =~= records@);
        self.total_bytes_ingested = self.total_bytes_ingested + bytes;
        self.total_records_ingested = self.total_records_ingested + count as u64;
        let mut buffer: Vec<Record> = Vec::new();
        std::mem::swap(&mut buffer, &mut self.records);
        let mut incoming = records;
        buffer.append(&mut incoming);
        self.records = buffer;
        Ok(count)
    }

    /// Record an ingestion error.
    pub fn record_error(&mut self, source_id: &str, message: &str, timestamp_ms: u64)
        ensures
            final(self).spec_errors().len() == old(self).spec_errors().len() + 1,
            final(self).spec_errors().drop_last() == old(self).spec_errors(),
            final(self).spec_errors().last().source_id@ == source_id@,
            final(self).spec_errors().last().message@ == message@,
            final(self).spec_errors().last().timestamp_ms == timestamp_ms,
            final(self).spec_sources() == old(self).spec_sources(),
            final(self).spec_records() == old(self).spec_records(),
            final(self).spec_total_bytes() == old(self).spec_total_bytes(),
            final(self).spec_total_records() == old(self).spec_total_records(),
    {
        proof {
            use_type_invariant(&*self);
        }
        let e = IngestionError {
            source_id: source_id.to_owned(),
            message: message.to_owned(),
            timestamp_ms,
        };
        let mut errors: Vec<IngestionError> = Vec::new();
        std::mem::swap(&mut errors, &mut self.errors);
        errors.push(e);
        self.errors = errors;
        assert(self.errors@.drop_last() =~= old(self).errors@);
    }

    /// Take all buffered records, leaving the buffer empty.
    pub fn drain_records(&mut self) -> (r: Vec<Record>)
        ensures
            r@ == old(self).spec_records(),
            final(self).spec_records().len() == 0,
            final(self).spec_sources() == old(self).spec_sources(),
            final(self).spec_total_bytes() == old(self).spec_total_bytes(),
            final(self).spec_total_records() == old(self).spec_total_records(),
            final(self).spec_errors() == old(self).spec_errors(),
    {
        proof {
            use_type_invariant(&*self);
        }
        let mut out: Vec<Record> = Vec::new();
        std::mem::swap(&mut out, &mut self.records);
        out
    }

    /// Total bytes ingested.
    pub fn total_bytes(&self) -> (n: u64)
        ensures
            n == self.spec_total_bytes(),
    {
        self.total_bytes_ingested
    }

    /// Total records ingested.
    pub fn total_records(&self) -> (n: u64)
        ensures
            n == self.spec_total_records(),
    {
        self.total_records_ingested
    }

    /// Number of recorded errors.
    pub fn error_count(&self) -> (n: usize)
        ensures
            n == self.spec_errors().len(),
    {
        self.errors.len()
    }

    /// Number of registered sources.
    pub fn source_count(&self) -> (n: usize)
        ensures
            n == self.spec_sources().len(),
    {
        self.sources.len()
    }

    /// Number of active sources.
    pub fn active_sources(&self) -> (n: usize)
        ensures
            n == self.spec_sources().filter(is_active()).len(),
    {
        let ghost s = self.sources@;
        let ghost f = is_active();
        let mut count: usize = 0;
        let mut i: usize = 0;
        proof {
            reveal(Seq::filter);
            assert(s.take(0) =~= Seq::<SourceConfig>::empty());
        }
        while i < self.sources.len()
            invariant
                s == self.sources@,
                f == is_active(),
                i <= s.len(),
                count == s.take(i as int).filter(f).len(),
                count <= i,
            decreases s.len() - i,
        {
            proof {
                assert(s.take(i + 1) =~= s.take(i as int).push(s[i as int]));
                s.take(i as int).lemma_filter_push(s[i as int], f);
            }
            if self.sources[i].active {
                count = count + 1;
            }
            i = i + 1;
        }
        proof {
            assert(s.take(i as int) =~= s);
        }
        count
    }

    /// Number of buffered records.
    pub fn buffered_records(&self) -> (n: usize)
        ensures
            n == self.spec_records().len(),
    {
        self.records.len()
    }

    /// The configuration of a source.
    pub fn get_source(&self, id: &str) -> (r: Option<&SourceConfig>)
        ensures
            self.spec_ids().contains(id@) ==> r is Some && *r->0 == self.source_of(id@),
            !self.spec_ids().contains(id@) ==> r is None,
    {
        match self.find(id) {
            Some(i) => Some(&self.sources[i]),
            None => None,
        }
    }

    /// Set a source active or inactive.
    pub fn set_source_active(&mut self, id: &str, active: bool) -> (r: Result<(), String>)
        ensures
            !old(self).spec_ids().contains(id@) ==> r is Err && r->Err_0@ == source_not_found_msg(
                id@,
            ) && final(self).spec_sources() == old(self).spec_sources(),
            old(self).spec_ids().contains(id@) ==> ({
                let p = id_index(old(self).spec_ids(), id@);
                r is Ok && final(self).spec_sources() == old(self).spec_sources().update(
                    p,
                    SourceConfig { active, ..old(self).spec_sources()[p] },
                )
            }),
            final(self).spec_records() == old(self).spec_records(),
            final(self).spec_total_bytes() == old(self).spec_total_bytes(),
            final(self).spec_total_records() == old(self).spec_total_records(),
            final(self).spec_errors() == old(self).spec_errors(),
    {
        proof {
            use_type_invariant(&*self);
        }
        let idx = match self.find(id) {
            Some(i) => i,
            None => {
                let mut msg = "Source '".to_owned();
                msg.append(id);
                msg.append("' not found");
                return Err(msg);
            },
        };
        let ghost ids0 = self.spec_ids();
        let mut sources: Vec<SourceConfig> = Vec::new();
        std::mem::swap(&mut sources, &mut self.sources);
        let mut c = sources.remove(idx);
        c.active = active;
        sources.insert(idx, c);
        proof {
            assert(config_ids(sources@) =~= ids0);
        }
        self.sources = sources;
        assert(self.sources@ =~= old(self).sources@.update(
            idx as int,
            SourceConfig { active, ..old(self).sources@[idx as int] },
        ));
        Ok(())
    }
}

/// A prefix's byte total never exceeds the whole's.
proof fn lemma_total_size_prefix(s: Seq<Record>, k: int)
    requires
        0 <= k <= s.len(),
    ensures
        total_size(s.take(k)) <= total_size(s),
    decreases s.len() - k,
{
    if k < s.len() {
        lemma_total_size_prefix(s, k + 1);
        assert(s.take(k + 1).drop_last() =~= s.take(k));
    } else {
        assert(s.take(k) =~= s);
    }
}

impl Default for IngestionEngine {
    fn default() -> (e: Self)
        ensures
            e.spec_sources().len() == 0,
            e.spec_records().len() == 0,
            e.spec_total_bytes() == 0,
            e.spec_total_records() == 0,
            e.spec_errors().len() == 0,
    {
        Self::new()
    }
}

} // verus!
