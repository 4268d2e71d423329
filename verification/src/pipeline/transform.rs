//! Data transformation: field mapping, filtering and enrichment of records.
use vstd::prelude::*;
use crate::pipeline::fields::Fields;
use crate::text::{spec_to_lowercase, spec_to_uppercase, spec_trim, str_eq, to_lowercase, to_uppercase, trim};

verus! {

/// Transformation operation type.
#[derive(Debug, Clone, PartialEq, Eq)]
pub enum TransformOp {
    /// Rename a field.
    Rename { from: String, to: String },
    /// Remove a field.
    Drop(String),
    /// Add a constant field.
    AddConstant { key: String, value: String },
    /// Convert field value to uppercase.
    Uppercase(String),
    /// Convert field value to lowercase.
    Lowercase(String),
    /// Trim whitespace from field value.
    Trim(String),
    /// Filter: keep record only if field matches value.
    FilterEquals { field: String, value: String },
    /// Filter: keep record only if field exists.
    FilterExists(String),
    /// Compute a derived field by concatenating two fields.
    Concat { field_a: String, field_b: String, output: String, separator: String },
}

/// A record's fields as a map from names to values.
pub type FieldMap = Map<Seq<char>, Seq<char>>;

/// The value of a field, or the empty string when it is absent.
pub open spec fn value_or_empty(m: FieldMap, k: Seq<char>) -> Seq<char> {
    if m.contains_key(k) {
        m[k]
    } else {
        Seq::empty()
    }
}

/// `m` with the value of `k` replaced by `f` of it, when `k` is present.
pub open spec fn map_value(m: FieldMap, k: Seq<char>, f: spec_fn(Seq<char>) -> Seq<char>) -> FieldMap {
    if m.contains_key(k) {
        m.insert(k, f(m[k]))
    } else {
        m
    }
}

/// What one operation makes of a record; `None` when a filter drops it.
pub open spec fn apply_op(op: TransformOp, m: FieldMap) -> Option<FieldMap> {
    match op {
        TransformOp::Rename { from, to } => if m.contains_key(from@) {
            Some(m.remove(from@).insert(to@, m[from@]))
        } else {
            Some(m)
        },
        TransformOp::Drop(key) => Some(m.remove(key@)),
        TransformOp::AddConstant { key, value } => Some(m.insert(key@, value@)),
        TransformOp::Uppercase(key) => Some(map_value(m, key@, |v: Seq<char>| spec_to_uppercase(v))),
        TransformOp::Lowercase(key) => Some(map_value(m, key@, |v: Seq<char>| spec_to_lowercase(v))),
        TransformOp::Trim(key) => Some(map_value(m, key@, |v: Seq<char>| spec_trim(v))),
        TransformOp::FilterEquals { field, value } => if m.contains_key(field@) && m[field@]
            == value@ {
            Some(m)
        } else {
            None
        },
        TransformOp::FilterExists(field) => if m.contains_key(field@) {
            Some(m)
        } else {
            None
        },
        TransformOp::Concat { field_a, field_b, output, separator } => Some(
            m.insert(output@, value_or_empty(m, field_a@) + separator@ + value_or_empty(m, field_b@)),
        ),
    }
}

/// The operations applied in order; `None` as soon as one of them drops the record.
pub open spec fn apply_ops(ops: Seq<TransformOp>, m: FieldMap) -> Option<FieldMap>
    decreases ops.len(),
{
    if ops.len() == 0 {
        Some(m)
    } else {
        match apply_ops(ops.drop_last(), m) {
            Some(m2) => apply_op(ops.last(), m2),
            None => None,
        }
    }
}

/// The records of a batch that pass the operations, transformed, in their order.
pub open spec fn batch_output(ops: Seq<TransformOp>, batch: Seq<FieldMap>) -> Seq<FieldMap>
    decreases batch.len(),
{
    if batch.len() == 0 {
        Seq::empty()
    } else {
        let prev = batch_output(ops, batch.drop_last());
        match apply_ops(ops, batch.last()) {
            Some(m) => prev.push(m),
            None => prev,
        }
    }
}

/// How many records of a batch the operations drop.
pub open spec fn batch_dropped(ops: Seq<TransformOp>, batch: Seq<FieldMap>) -> nat
    decreases batch.len(),
{
    if batch.len() == 0 {
        0
    } else {
        batch_dropped(ops, batch.drop_last()) + if apply_ops(ops, batch.last()) is None {
            1nat
        } else {
            0nat
        }
    }
}

/// The field maps of a sequence of records.
pub open spec fn field_maps(s: Seq<Fields>) -> Seq<FieldMap> {
    s.map_values(|f: Fields| f@)
}

/// Once a prefix of the operations drops a record, the whole list drops it.
proof fn lemma_dropped_stays(ops: Seq<TransformOp>, m: FieldMap, k: int, j: int)
    requires
        0 <= k <= j <= ops.len(),
        apply_ops(ops.take(k), m) is None,
    ensures
        apply_ops(ops.take(j), m) is None,
    decreases j - k,
{
    if j > k {
        lemma_dropped_stays(ops, m, k, j - 1);
        assert(ops.take(j).drop_last() =~= ops.take(j - 1));
    }
}

proof fn lemma_batch_step(ops: Seq<TransformOp>, s: Seq<FieldMap>, i: int)
    requires
        0 <= i < s.len(),
    ensures
        batch_output(ops, s.take(i + 1)) == match apply_ops(ops, s[i]) {
            Some(m) => batch_output(ops, s.take(i)).push(m),
            None => batch_output(ops, s.take(i)),
        },
        batch_dropped(ops, s.take(i + 1)) == batch_dropped(ops, s.take(i)) + if apply_ops(
            ops,
            s[i],
        ) is None {
            1nat
        } else {
            0nat
        },
{
    assert(s.take(i + 1).drop_last() =~= s.take(i));
    assert(s.take(i + 1).last() == s[i]);
}

/// A transformation pipeline: an ordered list of operations, with counters of the records
/// it has seen and dropped.
pub struct TransformPipeline {
    name: String,
    operations: Vec<TransformOp>,
    records_processed: u64,
    records_dropped: u64,
}

impl TransformPipeline {
    #[verifier::type_invariant]
    spec fn inv(self) -> bool {
        self.records_dropped <= self.records_processed
    }

    /// The pipeline's name.
    pub closed spec fn spec_name(&self) -> Seq<char> {
        self.name@
    }

    /// The operations, in the order they are applied.
    pub closed spec fn spec_ops(&self) -> Seq<TransformOp> {
        self.operations@
    }

    /// Records handed to the pipeline so far.
    pub closed spec fn spec_processed(&self) -> nat {
        self.records_processed as nat
    }

    /// Records dropped by a filter so far.
    pub closed spec fn spec_dropped(&self) -> nat {
        self.records_dropped as nat
    }

    /// Create a new transformation pipeline.
    pub fn new(name: &str) -> (p: Self)
        ensures
            p.spec_name() == name@,
            p.spec_ops().len() == 0,
            p.spec_processed() == 0,
            p.spec_dropped() == 0,
    {
        TransformPipeline {
            name: name.to_owned(),
            operations: Vec::new(),
            records_processed: 0,
            records_dropped: 0,
        }
    }

    /// Add an operation to the end of the pipeline.
    pub fn add_op(&mut self, op: TransformOp)
        ensures
            final(self).spec_ops() == old(self).spec_ops().push(op),
            final(self).spec_name() == old(self).spec_name(),
            final(self).spec_processed() == old(self).spec_processed(),
            final(self).spec_dropped() == old(self).spec_dropped(),
    {
        proof {
            use_type_invariant(&*self);
        }
        let mut ops: Vec<TransformOp> = Vec::new();
        std::mem::swap(&mut ops, &mut self.operations);
        ops.push(op);
        self.operations = ops;
    }

    /// Apply one operation to the fields in place; `false` when a filter drops the record.
    fn apply_one(op: &TransformOp, fields: &mut Fields) -> (keep: bool)
        ensures
            match apply_op(*op, old(fields)@) {
                Some(m) => keep && final(fields)@ == m,
                None => !keep,
            },
    {
        match op {
            TransformOp::Rename { from, to } => {
                if let Some(val) = fields.remove(from.as_str()) {
                    fields.insert(to.clone(), val);
                }
                true
            },
            TransformOp::Drop(key) => {
                fields.remove(key.as_str());
                true
            },
            TransformOp::AddConstant { key, value } => {
                fields.insert(key.clone(), value.clone());
                true
            },
            TransformOp::Uppercase(key) => {
                let new_value = match fields.get(key.as_str()) {
                    Some(v) => Some(to_uppercase(v.as_str())),
                    None => None,
                };
                if let Some(u) = new_value {
                    fields.insert(key.clone(), u);
                }
                true
            },
            TransformOp::Lowercase(key) => {
                let new_value = match fields.get(key.as_str()) {
                    Some(v) => Some(to_lowercase(v.as_str())),
                    None => None,
                };
                if let Some(u) = new_value {
                    fields.insert(key.clone(), u);
                }
                true
            },
            TransformOp::Trim(key) => {
                let new_value = match fields.get(key.as_str()) {
                    Some(v) => Some(trim(v.as_str()).to_owned()),
                    None => None,
                };
                if let Some(u) = new_value {
                    fields.insert(key.clone(), u);
                }
                true
            },
            TransformOp::FilterEquals { field, value } => {
                match fields.get(field.as_str()) {
                    Some(v) => str_eq(v.as_str(), value.as_str()),
                    None => false,
                }
            },
            TransformOp::FilterExists(field) => fields.contains_key(field.as_str()),
            TransformOp::Concat { field_a, field_b, output, separator } => {
                let mut joined = match fields.get(field_a.as_str()) {
                    Some(a) => a.clone(),
                    None => String::new(),
                };
                joined.append(separator.as_str());
                match fields.get(field_b.as_str()) {
                    Some(b) => joined.append(b.as_str()),
                    None => {},
                }
                proof {
                    let m = fields@;
                    assert(joined@ =~= value_or_empty(m, field_a@) + separator@ + value_or_empty(
                        m,
                        field_b@,
                    ));
                }
                fields.insert(output.clone(), joined);
                true
            },
        }
    }

    /// Apply the pipeline to a single record; `None` when a filter drops it.
    pub fn apply(&mut self, fields: Fields) -> (r: Option<Fields>)
        requires
            old(self).spec_processed() < u64::MAX,
        ensures
            final(self).spec_name() == old(self).spec_name(),
            final(self).spec_ops() == old(self).spec_ops(),
            final(self).spec_processed() == old(self).spec_processed() + 1,
            match apply_ops(old(self).spec_ops(), fields@) {
                Some(m) => r is Some && r->0@ == m && final(self).spec_dropped() == old(
                    self,
                ).spec_dropped(),
                None => r is None && final(self).spec_dropped() == old(self).spec_dropped() + 1,
            },
    {
        proof {
            use_type_invariant(&*self);
        }
        self.records_processed = self.records_processed + 1;
        let ghost ops = self.operations@;
        let ghost m0 = fields@;
        let mut fields = fields;
        let mut dropped = false;
        let n = self.operations.len();
        let mut i: usize = 0;
        while i < n && !dropped
            invariant
                n == ops.len(),
                ops == self.operations@,
                i <= n,
                dropped ==> apply_ops(ops.take(i as int), m0) is None,
                !dropped ==> apply_ops(ops.take(i as int), m0) == Some(fields@),
            decreases n - i,
        {
            proof {
                assert(ops.take(i + 1).drop_last() =~= ops.take(i as int));
            }
            let keep = Self::apply_one(&self.operations[i], &mut fields);
            if !keep {
                dropped = true;
            }
            i = i + 1;
        }
        if dropped {
            proof {
                lemma_dropped_stays(ops, m0, i as int, n as int);
                assert(ops.take(n as int) =~= ops);
            }
            self.records_dropped = self.records_dropped + 1;
            None
        } else {
            assert(ops.take(n as int) =~= ops);
            Some(fields)
        }
    }

    /// Apply the pipeline to a batch of records, keeping those that pass, in order.
    pub fn apply_batch(&mut self, batch: Vec<Fields>) -> (r: Vec<Fields>)
        requires
            old(self).spec_processed() + batch@.len() <= u64::MAX,
        ensures
            final(self).spec_name() == old(self).spec_name(),
            final(self).spec_ops() == old(self).spec_ops(),
            final(self).spec_processed() == old(self).spec_processed() + batch@.len(),
            final(self).spec_dropped() == old(self).spec_dropped() + batch_dropped(
                old(self).spec_ops(),
                field_maps(batch@),
            ),
            field_maps(r@) == batch_output(old(self).spec_ops(), field_maps(batch@)),
    {
        let ghost s = field_maps(batch@);
        let ghost bs = batch@;
        let ghost n = batch@.len();
        let mut out: Vec<Fields> = Vec::new();
        for f in it: batch
            invariant
                it.seq() == bs,
                s == field_maps(bs),
                n == bs.len(),
                0 <= it.index() <= n,
                self.spec_ops() == old(self).spec_ops(),
                self.spec_name() == old(self).spec_name(),
                self.spec_processed() == old(self).spec_processed() + it.index(),
                old(self).spec_processed() + n <= u64::MAX,
                self.spec_dropped() == old(self).spec_dropped() + batch_dropped(
                    old(self).spec_ops(),
                    s.take(it.index() as int),
                ),
                field_maps(out@) == batch_output(old(self).spec_ops(), s.take(it.index() as int)),
        {
            let ghost i = it.index() as int;
            proof {
                assert(f@ == s[i]);
                lemma_batch_step(old(self).spec_ops(), s, i);
            }
            let ghost out_before = out@;
            match self.apply(f) {
                Some(g) => {
                    out.push(g);
                    assert(field_maps(out@) =~= field_maps(out_before).push(g@));
                },
                None => {},
            }
        }
        proof {
            assert(s.take(n as int) =~= s);
        }
        out
    }

    /// The pipeline's name.
    pub fn name(&self) -> (r: &str)
        ensures
            r@ == self.spec_name(),
    {
        self.name.as_str()
    }

    /// Number of operations.
    pub fn op_count(&self) -> (n: usize)
        ensures
            n == self.spec_ops().len(),
    {
        self.operations.len()
    }

    /// Total records handed to the pipeline.
    pub fn records_processed(&self) -> (n: u64)
        ensures
            n == self.spec_processed(),
    {
        self.records_processed
    }

    /// Total records dropped by filters.
    pub fn records_dropped(&self) -> (n: u64)
        ensures
            n == self.spec_dropped(),
    {
        self.records_dropped
    }
}

/// Pipelines compose: applying `a` followed by `b` is applying `a`, then (when the record
/// survives) applying `b` to the result. In particular `add_op` extends what `apply` does
/// by one step.
pub proof fn law_apply_concat(a: Seq<TransformOp>, b: Seq<TransformOp>, m: FieldMap)
    ensures
        apply_ops(a + b, m) == match apply_ops(a, m) {
            Some(m2) => apply_ops(b, m2),
            None => None,
        },
    decreases b.len(),
{
    if b.len() == 0 {
        assert(a + b =~= a);
    } else {
        law_apply_concat(a, b.drop_last(), m);
        assert((a + b).drop_last() =~= a + b.drop_last());
        assert((a + b).last() == b.last());
    }
}

/// Every record of a batch is either passed on or dropped: the outputs and the drops add
/// up to the batch size.
pub proof fn law_batch_accounts_for_all(ops: Seq<TransformOp>, batch: Seq<FieldMap>)
    ensures
        batch_output(ops, batch).len() + batch_dropped(ops, batch) == batch.len(),
    decreases batch.len(),
{
    if batch.len() > 0 {
        law_batch_accounts_for_all(ops, batch.drop_last());
    }
}

/// A batch is processed record by record: the output of two batches in a row is the
/// output of the first followed by that of the second, and a single record's output is
/// what `apply` returns for it (nothing when it is dropped).
pub proof fn law_batch_is_repeated_apply(ops: Seq<TransformOp>, b1: Seq<FieldMap>, b2: Seq<FieldMap>, m: FieldMap)
    ensures
        batch_output(ops, b1 + b2) == batch_output(ops, b1) + batch_output(ops, b2),
        batch_dropped(ops, b1 + b2) == batch_dropped(ops, b1) + batch_dropped(ops, b2),
        batch_output(ops, seq![m]) == match apply_ops(ops, m) {
            Some(m2) => seq![m2],
            None => Seq::<FieldMap>::empty(),
        },
    decreases b2.len(),
{
    assert(seq![m].drop_last() =~= Seq::<FieldMap>::empty());
    if b2.len() == 0 {
        assert(b1 + b2 =~= b1);
        assert(batch_output(ops, b1) + batch_output(ops, b2) =~= batch_output(ops, b1));
    } else {
        law_batch_is_repeated_apply(ops, b1, b2.drop_last(), m);
        assert((b1 + b2).drop_last() =~= b1 + b2.drop_last());
        assert((b1 + b2).last() == b2.last());
        match apply_ops(ops, b2.last()) {
            Some(x) => {
                assert(batch_output(ops, b1) + batch_output(ops, b2.drop_last()).push(x)
                    =~= (batch_output(ops, b1) + batch_output(ops, b2.drop_last())).push(x));
            },
            None => {},
        }
    }
    let e = Seq::<FieldMap>::empty();
    assert(batch_output(ops, e) == e);
    assert(seq![m].last() == m);
    assert(batch_output(ops, seq![m]) == match apply_ops(ops, m) {
        Some(m2) => e.push(m2),
        None => e,
    });
    match apply_ops(ops, m) {
        Some(m2) => {
            assert(e.push(m2) =~= seq![m2]);
        },
        None => {},
    }
}

} // verus!
