//! The dedup store: one record per fingerprint, counted by atomic steps.
//!
//! Every operation is a single indivisible step on the store, so any
//! interleaving of concurrent producers is a sequence of these steps.
use vstd::prelude::*;

verus! {

/// Largest occurrence count that the store can hold.
pub const MAX_OCCURRENCES: u64 = 0xffff_ffff_ffff_ffff;

/// A persisted failure record.
pub struct ErrorRecord {
    pub fingerprint: Vec<u8>,
    pub payload: String,
    pub occurrences: u64,
    pub notification_ref: u64,
}

/// What the store knows of one fingerprint.
pub ghost struct RecordView {
    pub payload: Seq<char>,
    pub occurrences: nat,
    pub notification_ref: u64,
}

impl ErrorRecord {
    pub open spec fn record_view(&self) -> RecordView {
        RecordView {
            payload: self.payload@,
            occurrences: self.occurrences as nat,
            notification_ref: self.notification_ref,
        }
    }
}

/// Result of counting one report of a fingerprint.
#[derive(Clone, Copy, Debug, PartialEq, Eq)]
pub enum Outcome {
    /// The fingerprint was known: its notification and its new count.
    Repeated(u64, u64),
    /// The fingerprint is unknown: a notification must be created first.
    New,
}

/// Result of settling a freshly created candidate notification.
#[derive(Clone, Copy, Debug, PartialEq, Eq)]
pub enum FinalizeOutcome {
    /// The candidate became the record's notification; the count.
    Won(u64),
    /// Another producer got there first: its notification and the new count.
    Lost(u64, u64),
}

/// A failure of the store itself.
#[derive(Clone, Copy, Debug, PartialEq, Eq)]
pub enum StoreError {
    /// The occurrence counter cannot grow any further.
    CounterOverflow,
}

pub type Records = Map<Seq<u8>, RecordView>;

/// The record with one more occurrence.
pub open spec fn bumped(rec: RecordView) -> RecordView {
    RecordView { occurrences: rec.occurrences + 1, ..rec }
}

/// The atomic increment: bumps a known fingerprint, leaves an unknown one.
pub open spec fn occurrence_step(m: Records, fp: Seq<u8>) -> (Records, Result<Outcome, StoreError>) {
    if !m.contains_key(fp) {
        (m, Ok(Outcome::New))
    } else if m[fp].occurrences >= MAX_OCCURRENCES {
        (m, Err(StoreError::CounterOverflow))
    } else {
        (
            m.insert(fp, bumped(m[fp])),
            Ok(Outcome::Repeated(m[fp].notification_ref, (m[fp].occurrences + 1) as u64)),
        )
    }
}

/// The atomic upsert: inserts a first record, or bumps the one that won.
pub open spec fn finalize_step(m: Records, fp: Seq<u8>, payload: Seq<char>, candidate: u64) -> (
    Records,
    Result<FinalizeOutcome, StoreError>,
) {
    if !m.contains_key(fp) {
        (
            m.insert(fp, RecordView { payload, occurrences: 1, notification_ref: candidate }),
            Ok(FinalizeOutcome::Won(1)),
        )
    } else if m[fp].occurrences >= MAX_OCCURRENCES {
        (m, Err(StoreError::CounterOverflow))
    } else {
        (
            m.insert(fp, bumped(m[fp])),
            Ok(FinalizeOutcome::Lost(m[fp].notification_ref, (m[fp].occurrences + 1) as u64)),
        )
    }
}

/// One atomic store step taken by some producer for one fingerprint.
pub ghost enum StoreOp {
    /// `record_occurrence`.
    Occur,
    /// `finalize_new` with the given candidate notification.
    Finalize(u64),
}

/// The state and result of one store step.
pub open spec fn apply_op(m: Records, fp: Seq<u8>, payload: Seq<char>, op: StoreOp) -> (
    Records,
    bool,
    bool,
) {
    match op {
        StoreOp::Occur => {
            let (m2, r) = occurrence_step(m, fp);
            (m2, r matches Ok(Outcome::Repeated(_, _)), false)
        },
        StoreOp::Finalize(c) => {
            let (m2, r) = finalize_step(m, fp, payload, c);
            (m2, r is Ok, r matches Ok(FinalizeOutcome::Won(_)))
        },
    }
}

/// The store after the steps `ops`, taken in order.
pub open spec fn run_ops(m: Records, fp: Seq<u8>, payload: Seq<char>, ops: Seq<StoreOp>) -> Records
    decreases ops.len(),
{
    if ops.len() == 0 {
        m
    } else {
        run_ops(apply_op(m, fp, payload, ops[0]).0, fp, payload, ops.drop_first())
    }
}

/// How many of the steps `ops` completed an increment or an insert.
pub open spec fn completed_count(m: Records, fp: Seq<u8>, payload: Seq<char>, ops: Seq<StoreOp>) -> nat
    decreases ops.len(),
{
    if ops.len() == 0 {
        0
    } else {
        let (m2, done, _) = apply_op(m, fp, payload, ops[0]);
        (if done { 1nat } else { 0nat }) + completed_count(m2, fp, payload, ops.drop_first())
    }
}

/// How many of the steps `ops` were a `finalize_new` that won.
pub open spec fn won_count(m: Records, fp: Seq<u8>, payload: Seq<char>, ops: Seq<StoreOp>) -> nat
    decreases ops.len(),
{
    if ops.len() == 0 {
        0
    } else {
        let (m2, _, won) = apply_op(m, fp, payload, ops[0]);
        (if won { 1nat } else { 0nat }) + won_count(m2, fp, payload, ops.drop_first())
    }
}

/// The candidate of the first `finalize_new` among `ops`.
pub open spec fn first_candidate(ops: Seq<StoreOp>) -> Option<u64>
    decreases ops.len(),
{
    if ops.len() == 0 {
        None
    } else {
        match ops[0] {
            StoreOp::Finalize(c) => Some(c),
            StoreOp::Occur => first_candidate(ops.drop_first()),
        }
    }
}

/// Once a record exists, every step counts once and nothing else changes.
pub proof fn lemma_steps_on_record(m: Records, fp: Seq<u8>, payload: Seq<char>, ops: Seq<StoreOp>)
    requires
        m.contains_key(fp),
        m[fp].occurrences + ops.len() <= MAX_OCCURRENCES,
    ensures
        ({
            let m2 = run_ops(m, fp, payload, ops);
            &&& m2.contains_key(fp)
            &&& m2[fp].occurrences == m[fp].occurrences + completed_count(m, fp, payload, ops)
            &&& m2[fp].notification_ref == m[fp].notification_ref
            &&& m2[fp].payload == m[fp].payload
            &&& m2.remove(fp) == m.remove(fp)
            &&& completed_count(m, fp, payload, ops) == ops.len()
            &&& won_count(m, fp, payload, ops) == 0
        }),
    decreases ops.len(),
{
    if ops.len() > 0 {
        let m1 = apply_op(m, fp, payload, ops[0]).0;
        assert(m1 == m.insert(fp, bumped(m[fp])));
        lemma_steps_on_record(m1, fp, payload, ops.drop_first());
        assert(m1.remove(fp) =~= m.remove(fp));
    }
}

/// Dedup correctness: whatever the interleaving of the concurrent reports
/// of one payload, starting from a store without its fingerprint, the
/// store ends with at most one record for it; its count is the number of
/// steps that completed an increment or insert, so no count is lost or
/// doubled; exactly one `finalize_new` won; its candidate is the record's
/// notification; and no other record changes.
pub proof fn lemma_dedup_correct(m: Records, fp: Seq<u8>, payload: Seq<char>, ops: Seq<StoreOp>)
    requires
        !m.contains_key(fp),
        ops.len() <= MAX_OCCURRENCES,
    ensures
        ({
            let m2 = run_ops(m, fp, payload, ops);
            &&& m2.remove(fp) == m.remove(fp)
            &&& m2.contains_key(fp) <==> first_candidate(ops) is Some
            &&& m2.contains_key(fp) ==> {
                &&& m2[fp].occurrences == completed_count(m, fp, payload, ops)
                &&& m2[fp].payload == payload
                &&& Some(m2[fp].notification_ref) == first_candidate(ops)
                &&& won_count(m, fp, payload, ops) == 1
            }
            &&& !m2.contains_key(fp) ==> completed_count(m, fp, payload, ops) == 0 && won_count(
                m,
                fp,
                payload,
                ops,
            ) == 0
        }),
    decreases ops.len(),
{
    if ops.len() > 0 {
        let m1 = apply_op(m, fp, payload, ops[0]).0;
        match ops[0] {
            StoreOp::Occur => {
                lemma_dedup_correct(m1, fp, payload, ops.drop_first());
            },
            StoreOp::Finalize(c) => {
                lemma_steps_on_record(m1, fp, payload, ops.drop_first());
                assert(m1.remove(fp) =~= m.remove(fp));
            },
        }
    }
}

/// Race compensation: when two producers both saw `New` and both settle
/// their candidates, the first wins with one occurrence, the second loses
/// to the first's candidate with two, and the record keeps the winner's
/// candidate.
pub proof fn lemma_race_two_producers(
    m: Records,
    fp: Seq<u8>,
    payload: Seq<char>,
    first: u64,
    second: u64,
)
    requires
        !m.contains_key(fp),
    ensures
        ({
            let (m1, r1) = finalize_step(m, fp, payload, first);
            let (m2, r2) = finalize_step(m1, fp, payload, second);
            &&& r1 == Ok::<FinalizeOutcome, StoreError>(FinalizeOutcome::Won(1))
            &&& r2 == Ok::<FinalizeOutcome, StoreError>(FinalizeOutcome::Lost(first, 2))
            &&& m2[fp].notification_ref == first
            &&& m2[fp].occurrences == 2
        }),
{
}

/// Retrieval round trip: after a first record for `fp` is inserted with
/// candidate `candidate`, where no record referred to that notification,
/// the records that refer to it are exactly that one, holding `payload`.
pub proof fn lemma_retrieval_round_trip(m: Records, fp: Seq<u8>, payload: Seq<char>, candidate: u64)
    requires
        !m.contains_key(fp),
        forall|k: Seq<u8>| #[trigger] m.contains_key(k) ==> m[k].notification_ref != candidate,
    ensures
        ({
            let m2 = finalize_step(m, fp, payload, candidate).0;
            &&& m2.contains_key(fp) && m2[fp].notification_ref == candidate
            &&& forall|k: Seq<u8>|
                #[trigger] m2.contains_key(k) && m2[k].notification_ref == candidate ==> m2[k].payload
                    == payload
        }),
{
}

/// In-memory dedup store.
pub struct DedupStore {
    records: Vec<ErrorRecord>,
    contents: Ghost<Records>,
}

/// Compares two byte strings.
fn bytes_eq(a: &[u8], b: &[u8]) -> (r: bool)
    ensures
        r == (a@ == b@),
{
    if a.len() != b.len() {
        return false;
    }
    let mut i: usize = 0;
    while i < a.len()
        invariant
            a@.len() == b@.len(),
            i <= a@.len(),
            forall|j: int| 0 <= j < i ==> a@[j] == b@[j],
        decreases a@.len() - i,
    {
        if a[i] != b[i] {
            return false;
        }
        i = i + 1;
    }
    assert(a@ =~= b@);
    true
}

impl View for DedupStore {
    type V = Records;

    closed spec fn view(&self) -> Records {
        self.contents@
    }
}

impl DedupStore {
    /// Fingerprints are unique and the records are exactly the view.
    pub closed spec fn wf(&self) -> bool {
        &&& forall|i: int, j: int|
            0 <= i < j < self.records@.len() ==> self.records@[i].fingerprint@
                != self.records@[j].fingerprint@
        &&& forall|i: int|
            0 <= i < self.records@.len() ==> #[trigger] self.contents@.contains_key(
                self.records@[i].fingerprint@,
            ) && self.contents@[self.records@[i].fingerprint@] == self.records@[i].record_view()
        &&& forall|k: Seq<u8>|
            #[trigger] self.contents@.contains_key(k) ==> exists|i: int|
                0 <= i < self.records@.len() && self.records@[i].fingerprint@ == k
    }

    /// An empty store.
    pub fn new() -> (r: Self)
        ensures
            r.wf(),
            r@ == Map::<Seq<u8>, RecordView>::empty(),
    {
        DedupStore { records: Vec::new(), contents: Ghost(Map::empty()) }
    }

    /// The number of records.
    pub fn len(&self) -> (r: usize)
        requires
            self.wf(),
        ensures
            r == self@.len(),
    {
        proof {
            self.lemma_len();
        }
        self.records.len()
    }

    proof fn lemma_len(&self)
        requires
            self.wf(),
        ensures
            self@.dom().finite(),
            self@.len() == self.records@.len(),
    {
        let fps = Seq::new(self.records@.len(), |i: int| self.records@[i].fingerprint@);
        assert(fps.no_duplicates());
        assert(self@.dom() =~= fps.to_set()) by {
            assert forall|k: Seq<u8>| self@.dom().contains(k) implies fps.to_set().contains(k) by {
                let i = choose|i: int| 0 <= i < self.records@.len() && self.records@[i].fingerprint@ == k;
                assert(fps[i] == k);
            }
            assert forall|k: Seq<u8>| fps.to_set().contains(k) implies self@.dom().contains(k) by {
                let i = choose|i: int| 0 <= i < fps.len() && fps[i] == k;
                assert(self.contents@.contains_key(self.records@[i].fingerprint@));
            }
        }
        fps.unique_seq_to_set();
    }

    /// Position of the record with fingerprint `fp`, if there is one.
    fn find(&self, fp: &[u8]) -> (r: Option<usize>)
        requires
            self.wf(),
        ensures
            match r {
                Some(i) => i < self.records@.len() && self.records@[i as int].fingerprint@ == fp@,
                None => !self@.contains_key(fp@),
            },
    {
        let mut i: usize = 0;
        while i < self.records.len()
            invariant
                self.wf(),
                i <= self.records@.len(),
                forall|j: int| 0 <= j < i ==> self.records@[j].fingerprint@ != fp@,
            decreases self.records@.len() - i,
        {
            if bytes_eq(self.records[i].fingerprint.as_slice(), fp) {
                return Some(i);
            }
            i = i + 1;
        }
        None
    }

    /// Adds one occurrence to the record at position `i`.
    fn bump(&mut self, i: usize)
        requires
            old(self).wf(),
            i < old(self).records@.len(),
            old(self).records@[i as int].occurrences < MAX_OCCURRENCES,
        ensures
            final(self).wf(),
            final(self).records@.len() == old(self).records@.len(),
            final(self).records@[i as int].notification_ref == old(self).records@[i as int].notification_ref,
            final(self).records@[i as int].occurrences == old(self).records@[i as int].occurrences + 1,
            final(self)@ == old(self)@.insert(
                old(self).records@[i as int].fingerprint@,
                bumped(old(self).records@[i as int].record_view()),
            ),
    {
        let ghost fp = self.records@[i as int].fingerprint@;
        let n = self.records[i].occurrences + 1;
        self.records[i].occurrences = n;
        self.contents = Ghost(self.contents@.insert(fp, self.records@[i as int].record_view()));
        assert(self.records@[i as int].record_view() == bumped(old(self).records@[i as int].record_view()));
        assert forall|k: Seq<u8>| #[trigger] self.contents@.contains_key(k) implies exists|j: int|
            0 <= j < self.records@.len() && self.records@[j].fingerprint@ == k by {
            if k != fp {
                let j = choose|j: int| 0 <= j < old(self).records@.len() && old(self).records@[j].fingerprint@ == k;
                assert(self.records@[j].fingerprint@ == k);
            } else {
                assert(self.records@[i as int].fingerprint@ == k);
            }
        }
        assert forall|j: int| 0 <= j < self.records@.len() implies #[trigger] self.contents@.contains_key(
            self.records@[j].fingerprint@,
        ) && self.contents@[self.records@[j].fingerprint@] == self.records@[j].record_view() by {
            if j != i {
                assert(old(self).records@[j] == self.records@[j]);
                assert(old(self).contents@.contains_key(old(self).records@[j].fingerprint@));
            }
        }
    }

    /// Counts one report of fingerprint `fp`, as one atomic step: a known
    /// fingerprint gets one more occurrence and its notification back, an
    /// unknown one is left for `finalize_new`.
    pub fn record_occurrence(&mut self, fp: &[u8]) -> (r: Result<Outcome, StoreError>)
        requires
            old(self).wf(),
        ensures
            final(self).wf(),
            (final(self)@, r) == occurrence_step(old(self)@, fp@),
    {
        match self.find(fp) {
            None => Ok(Outcome::New),
            Some(i) => {
                proof {
                    assert(self.contents@.contains_key(self.records@[i as int].fingerprint@));
                }
                if self.records[i].occurrences >= MAX_OCCURRENCES {
                    Err(StoreError::CounterOverflow)
                } else {
                    self.bump(i);
                    Ok(Outcome::Repeated(self.records[i].notification_ref, self.records[i].occurrences))
                }
            },
        }
    }
    /// Appends a record for a fingerprint that the store does not hold.
    fn insert_new(&mut self, fp: &[u8], payload: &str, candidate: u64)
        requires
            old(self).wf(),
            !old(self)@.contains_key(fp@),
        ensures
            final(self).wf(),
            final(self)@ == old(self)@.insert(
                fp@,
                RecordView { payload: payload@, occurrences: 1, notification_ref: candidate },
            ),
    {
        let rec = ErrorRecord {
            fingerprint: vstd::slice::slice_to_vec(fp),
            payload: payload.to_owned(),
            occurrences: 1,
            notification_ref: candidate,
        };
        let ghost n = self.records@.len();
        proof {
            assert forall|j: int| 0 <= j < n implies self.records@[j].fingerprint@ != fp@ by {
                assert(self.contents@.contains_key(self.records@[j].fingerprint@));
            }
        }
        self.records.push(rec);
        self.contents = Ghost(self.contents@.insert(fp@, self.records@[n as int].record_view()));
        assert forall|k: Seq<u8>| #[trigger] self.contents@.contains_key(k) implies exists|j: int|
            0 <= j < self.records@.len() && self.records@[j].fingerprint@ == k by {
            if k != fp@ {
                let j = choose|j: int| 0 <= j < old(self).records@.len() && old(self).records@[j].fingerprint@ == k;
                assert(self.records@[j].fingerprint@ == k);
            } else {
                assert(self.records@[n as int].fingerprint@ == k);
            }
        }
        assert forall|j: int| 0 <= j < self.records@.len() implies #[trigger] self.contents@.contains_key(
            self.records@[j].fingerprint@,
        ) && self.contents@[self.records@[j].fingerprint@] == self.records@[j].record_view() by {
            if j != n {
                assert(old(self).records@[j] == self.records@[j]);
                assert(old(self).contents@.contains_key(old(self).records@[j].fingerprint@));
            }
        }
    }

    /// Settles a candidate notification for fingerprint `fp`, as one atomic
    /// upsert. With no record yet, a record with one occurrence, `payload`
    /// and `candidate` is inserted and the candidate wins. Otherwise a
    /// concurrent producer won: its record gets one more occurrence, and its
    /// notification comes back as the canonical one.
    pub fn finalize_new(&mut self, fp: &[u8], payload: &str, candidate: u64) -> (r: Result<
        FinalizeOutcome,
        StoreError,
    >)
        requires
            old(self).wf(),
        ensures
            final(self).wf(),
            (final(self)@, r) == finalize_step(old(self)@, fp@, payload@, candidate),
    {
        match self.find(fp) {
            None => {
                self.insert_new(fp, payload, candidate);
                Ok(FinalizeOutcome::Won(1))
            },
            Some(i) => {
                proof {
                    assert(self.contents@.contains_key(self.records@[i as int].fingerprint@));
                }
                if self.records[i].occurrences >= MAX_OCCURRENCES {
                    Err(StoreError::CounterOverflow)
                } else {
                    self.bump(i);
                    Ok(FinalizeOutcome::Lost(self.records[i].notification_ref, self.records[i].occurrences))
                }
            },
        }
    }

    /// The full diagnostic text of the record whose notification is
    /// `notification_ref`, or `None` when no record refers to it. Looks up
    /// by notification, not by fingerprint, and changes nothing.
    pub fn fetch_payload(&self, notification_ref: u64) -> (r: Option<String>)
        requires
            self.wf(),
        ensures
            r is None <==> (forall|k: Seq<u8>|
                #[trigger] self@.contains_key(k) ==> self@[k].notification_ref != notification_ref),
            r matches Some(p) ==> exists|k: Seq<u8>|
                #[trigger] self@.contains_key(k) && self@[k].notification_ref == notification_ref
                    && self@[k].payload == p@,
    {
        let mut i: usize = 0;
        while i < self.records.len()
            invariant
                self.wf(),
                i <= self.records@.len(),
                forall|j: int| 0 <= j < i ==> self.records@[j].notification_ref != notification_ref,
            decreases self.records@.len() - i,
        {
            if self.records[i].notification_ref == notification_ref {
                proof {
                    assert(self@.contains_key(self.records@[i as int].fingerprint@));
                }
                return Some(self.records[i].payload.clone());
            }
            i = i + 1;
        }
        proof {
            assert forall|k: Seq<u8>| #[trigger] self@.contains_key(k) implies self@[k].notification_ref
                != notification_ref by {
                let j = choose|j: int| 0 <= j < self.records@.len() && self.records@[j].fingerprint@ == k;
                assert(self.contents@.contains_key(self.records@[j].fingerprint@));
            }
        }
        None
    }
}

} // verus!
