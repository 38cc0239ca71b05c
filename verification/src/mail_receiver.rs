//! The mail receiver: identifier selection for a fetch of the most recent
//! messages, and batch processing of fetched records.

use vstd::prelude::*;
use vstd::seq_lib::group_to_multiset_ensures;

use crate::config::Config;
use crate::message::{fields_of, is_summary_of, MessageFields, ParsedEmail};

verus! {

/// The identifiers of `s` stand in ascending order.
pub open spec fn sorted_asc(s: Seq<u32>) -> bool {
    forall|i: int, j: int| 0 <= i < j < s.len() ==> s[i] <= s[j]
}

/// The smaller of two lengths.
pub open spec fn min_nat(a: nat, b: nat) -> nat {
    if a <= b {
        a
    } else {
        b
    }
}

/// A fatal error of one fetch call. Per-message failures are not errors of
/// the call: they are skipped records.
#[derive(Debug)]
pub enum MailError {
    /// Opening the connection or the encrypted session failed.
    ConnectionError { detail: String },
    /// The server rejected the credentials.
    AuthError { detail: String },
    /// A protocol step (select, search, fetch, logout) failed.
    ProtocolError { detail: String },
}

/// The mail receiver owns the account configuration for the duration of a
/// fetch operation.
pub struct MailReceiver {
    config: Config,
}

impl MailReceiver {
    /// The configuration this receiver was built with.
    pub closed spec fn spec_config(&self) -> Config {
        self.config
    }

    /// Build a receiver around an account configuration.
    pub fn new(config: Config) -> (r: MailReceiver)
        ensures
            r.spec_config() == config,
    {
        MailReceiver { config }
    }

    /// The account configuration, for the session driver.
    pub fn config(&self) -> (r: &Config)
        ensures
            *r == self.spec_config(),
    {
        &self.config
    }
}

/// Sort message identifiers ascending, keeping exactly the same identifiers.
pub fn sort_ids(ids: &mut Vec<u32>)
    ensures
        sorted_asc(final(ids)@),
        final(ids)@.to_multiset() == old(ids)@.to_multiset(),
        final(ids)@.len() == old(ids)@.len(),
{
    broadcast use group_to_multiset_ensures;

    let mut r: Vec<u32> = Vec::new();
    let mut i: usize = 0;
    proof {
        assert(r@ =~= ids@.subrange(0, 0));
    }
    while i < ids.len()
        invariant
            i <= ids@.len(),
            sorted_asc(r@),
            r@.to_multiset() == ids@.subrange(0, i as int).to_multiset(),
            r@.len() == i,
        decreases ids@.len() - i,
    {
        let x = ids[i];
        let mut p: usize = 0;
        while p < r.len() && r[p] <= x
            invariant
                p <= r@.len(),
                forall|k: int| 0 <= k < p ==> r@[k] <= x,
            decreases r@.len() - p,
        {
            p += 1;
        }
        let ghost r_old = r@;
        r.insert(p, x);
        proof {
            assert(sorted_asc(r@)) by {
                assert(forall|k: int| 0 <= k < p ==> r@[k] == r_old[k]);
                assert(forall|k: int| p < k < r@.len() ==> r@[k] == r_old[k - 1]);
                assert(r@[p as int] == x);
            }
            assert(r@ == r_old.insert(p as int, x));
            vstd::seq_lib::to_multiset_insert(r_old, p as int, x);
            vstd::seq_lib::to_multiset_build(ids@.subrange(0, i as int), ids@[i as int]);
            assert(ids@.subrange(0, i as int + 1) =~= ids@.subrange(0, i as int).push(
                ids@[i as int],
            ));
        }
        i += 1;
    }
    proof {
        assert(ids@.subrange(0, ids@.len() as int) =~= ids@);
    }
    *ids = r;
}

/// Select the identifiers of the most recent messages: the last
/// `min(count, len)` entries, in the order they stand in `ids`.
pub fn select_recent(ids: &Vec<u32>, count: usize) -> (r: Vec<u32>)
    ensures
        r@.len() == min_nat(count as nat, ids@.len()),
        r@ == ids@.subrange(ids@.len() - r@.len(), ids@.len() as int),
{
    let n = ids.len();
    let start: usize = if n > count {
        n - count
    } else {
        0
    };
    let mut r: Vec<u32> = Vec::new();
    let mut i: usize = start;
    while i < n
        invariant
            start <= i <= n,
            n == ids@.len(),
            r@ =~= ids@.subrange(start as int, i as int),
        decreases n - i,
    {
        let x = ids[i];
        r.push(x);
        proof {
            assert(ids@.subrange(start as int, i as int + 1) =~= ids@.subrange(
                start as int,
                i as int,
            ).push(ids@[i as int]));
        }
        i += 1;
    }
    r
}

/// One fetched record: a message identifier together with the raw content
/// the fetch produced. The content is absent when the fetch itself failed
/// or the record came back without a body.
pub struct FetchRecord {
    pub id: u32,
    pub raw: Option<Vec<u8>>,
}

/// The outcome of processing one batch of fetched records: the summaries of
/// the records that parsed, their source identifiers in the same order, and
/// the identifiers of the records that were skipped.
pub struct BatchOutcome {
    pub summaries: Vec<ParsedEmail>,
    pub summary_ids: Vec<u32>,
    pub failed_ids: Vec<u32>,
}

/// The identifiers of a sequence of records, in order.
pub open spec fn ids_of(records: Seq<FetchRecord>) -> Seq<u32> {
    records.map_values(|r: FetchRecord| r.id)
}

/// A record that is summarized: its raw content is present and the MIME
/// parser reports fields for it.
pub open spec fn record_ok(rec: FetchRecord) -> bool {
    rec.raw matches Option::Some(b) && fields_of(b@) is Some
}

/// The fields the MIME parser reports for a record that parses.
pub open spec fn record_fields(rec: FetchRecord) -> MessageFields {
    fields_of(rec.raw->0@)->0
}

/// The records of a batch that parse, in order.
pub open spec fn successes(records: Seq<FetchRecord>) -> Seq<FetchRecord> {
    records.filter(|rec: FetchRecord| record_ok(rec))
}

/// The records of a batch that are skipped, in order.
pub open spec fn failures(records: Seq<FetchRecord>) -> Seq<FetchRecord> {
    records.filter(|rec: FetchRecord| !record_ok(rec))
}

/// How one record extends the two filtered views of a batch.
proof fn lemma_partition_push(s: Seq<FetchRecord>, x: FetchRecord)
    ensures
        record_ok(x) ==> successes(s.push(x)) == successes(s).push(x) && failures(s.push(x))
            == failures(s),
        !record_ok(x) ==> successes(s.push(x)) == successes(s) && failures(s.push(x)) == failures(
            s,
        ).push(x),
{
    reveal_with_fuel(Seq::filter, 2);
    assert(s.push(x).drop_last() =~= s);
    assert(s.push(x).last() == x);
}

/// Process a batch of fetched records, in the order given: parse each one,
/// keep the summaries of those that parse, skip the rest. The result is the
/// order-preserving filter-map of the batch: the kept and the skipped
/// identifiers are exactly those of the records that do and do not parse,
/// and each summary is the normalization of its record's reported fields. A
/// per-record failure never aborts the batch: every record is accounted
/// for, either by a summary or by a skipped identifier.
///
/// With records in ascending identifier order, the summaries come out in
/// ascending identifier order as well.
pub fn process_records(records: &Vec<FetchRecord>) -> (r: BatchOutcome)
    requires
        sorted_asc(ids_of(records@)),
    ensures
        r.summaries@.len() == r.summary_ids@.len(),
        r.summary_ids@.len() + r.failed_ids@.len() == records@.len(),
        sorted_asc(r.summary_ids@),
        sorted_asc(r.failed_ids@),
        r.summary_ids@ == ids_of(successes(records@)),
        r.failed_ids@ == ids_of(failures(records@)),
        forall|j: int|
            0 <= j < r.summaries@.len() ==> is_summary_of(
                #[trigger] r.summaries@[j],
                record_fields(successes(records@)[j]),
            ),
{
    let mut summaries: Vec<ParsedEmail> = Vec::new();
    let mut summary_ids: Vec<u32> = Vec::new();
    let mut failed_ids: Vec<u32> = Vec::new();
    let mut i: usize = 0;
    proof {
        reveal_with_fuel(Seq::filter, 1);
        assert(successes(records@.subrange(0, 0)) =~= Seq::<FetchRecord>::empty());
        assert(failures(records@.subrange(0, 0)) =~= Seq::<FetchRecord>::empty());
        assert(summary_ids@ =~= ids_of(successes(records@.subrange(0, 0))));
        assert(failed_ids@ =~= ids_of(failures(records@.subrange(0, 0))));
    }
    while i < records.len()
        invariant
            i <= records@.len(),
            sorted_asc(ids_of(records@)),
            summaries@.len() == summary_ids@.len(),
            summary_ids@.len() + failed_ids@.len() == i,
            sorted_asc(summary_ids@),
            sorted_asc(failed_ids@),
            summary_ids@ == ids_of(successes(records@.subrange(0, i as int))),
            failed_ids@ == ids_of(failures(records@.subrange(0, i as int))),
            forall|j: int|
                0 <= j < summaries@.len() ==> is_summary_of(
                    #[trigger] summaries@[j],
                    record_fields(successes(records@.subrange(0, i as int))[j]),
                ),
            forall|k: int, j: int|
                0 <= k < summary_ids@.len() && i <= j < records@.len() ==> summary_ids@[k]
                    <= records@[j].id,
            forall|k: int, j: int|
                0 <= k < failed_ids@.len() && i <= j < records@.len() ==> failed_ids@[k]
                    <= records@[j].id,
        decreases records@.len() - i,
    {
        let rec = &records[i];
        let ghost done = records@.subrange(0, i as int);
        proof {
            assert(forall|j: int|
                0 <= j < records@.len() ==> ids_of(records@)[j] == records@[j].id);
            assert(records@.subrange(0, i as int + 1) =~= done.push(records@[i as int]));
            assert forall|j: int| i < j < records@.len() implies records@[i as int].id
                <= records@[j].id by {
                assert(ids_of(records@)[i as int] <= ids_of(records@)[j]);
            }
            lemma_partition_push(done, records@[i as int]);
        }
        let raw: Option<&[u8]> = match &rec.raw {
            Option::Some(v) => Option::Some(v.as_slice()),
            Option::None => Option::None,
        };
        let ghost sums_old = summaries@;
        match ParsedEmail::parse(raw) {
            Result::Ok(email) => {
                proof {
                    assert(record_ok(records@[i as int]));
                    assert(is_summary_of(email, record_fields(records@[i as int])));
                }
                summaries.push(email);
                summary_ids.push(rec.id);
                proof {
                    assert(successes(done.push(records@[i as int])) == successes(done).push(
                        records@[i as int],
                    ));
                    assert(summary_ids@ =~= ids_of(successes(done).push(records@[i as int])));
                    assert forall|j: int| 0 <= j < summaries@.len() implies is_summary_of(
                        #[trigger] summaries@[j],
                        record_fields(successes(records@.subrange(0, i as int + 1))[j]),
                    ) by {
                        if j < summaries@.len() - 1 {
                            assert(summaries@[j] == sums_old[j]);
                            assert(successes(records@.subrange(0, i as int + 1))[j] == successes(
                                done,
                            )[j]);
                        } else {
                            assert(summaries@[j] == email);
                        }
                    }
                }
            },
            Result::Err(_) => {
                proof {
                    if records@[i as int].raw is Some {
                        assert(fields_of(records@[i as int].raw->0@) is None);
                    }
                    assert(!record_ok(records@[i as int]));
                }
                failed_ids.push(rec.id);
                proof {
                    assert(failures(done.push(records@[i as int])) == failures(done).push(
                        records@[i as int],
                    ));
                    assert(failed_ids@ =~= ids_of(failures(done).push(records@[i as int])));
                }
            },
        }
        i += 1;
    }
    proof {
        assert(records@.subrange(0, records@.len() as int) =~= records@);
    }
    BatchOutcome { summaries, summary_ids, failed_ids }
}

/// A record that does not parse — its raw content absent, or content the
/// MIME parser reports nothing for — is never summarized: its identifier
/// stands among the skipped ones of any batch that holds it.
pub proof fn lemma_failing_record_is_skipped(records: Seq<FetchRecord>, k: int)
    requires
        0 <= k < records.len(),
        !record_ok(records[k]),
    ensures
        ids_of(failures(records)).contains(records[k].id),
{
    records.lemma_filter_contains(|rec: FetchRecord| !record_ok(rec), k);
    assert(failures(records).contains(records[k]));
    let j = choose|j: int|
        0 <= j < failures(records).len() && failures(records)[j] == records[k];
    assert(ids_of(failures(records))[j] == records[k].id);
}

/// Induction step for the strict-order law: with strictly ascending record
/// identifiers, the records that parse keep strictly ascending identifiers,
/// each bounded by the last record's.
proof fn lemma_successes_strict(records: Seq<FetchRecord>)
    requires
        forall|i: int, j: int| 0 <= i < j < records.len() ==> records[i].id < records[j].id,
    ensures
        forall|i: int, j: int|
            0 <= i < j < successes(records).len() ==> successes(records)[i].id < successes(
                records,
            )[j].id,
        forall|k: int|
            0 <= k < successes(records).len() ==> successes(records)[k].id <= records.last().id,
    decreases records.len(),
{
    reveal_with_fuel(Seq::filter, 1);
    if records.len() == 0 {
        assert(successes(records) =~= Seq::<FetchRecord>::empty());
    } else {
        let s = records.drop_last();
        let x = records.last();
        lemma_successes_strict(s);
        lemma_partition_push(s, x);
        assert(records =~= s.push(x));
        assert(successes(records) == successes(s.push(x)));
        assert(forall|m: int| 0 <= m < s.len() ==> s[m] == records[m]);
        let out = successes(records);
        let prev = successes(s);
        if s.len() == 0 {
            assert(prev =~= Seq::<FetchRecord>::empty());
        }
        assert forall|k: int| 0 <= k < prev.len() implies prev[k].id < x.id by {
            assert(prev[k].id <= s.last().id);
            assert(s.last() == records[records.len() - 2]);
        }
        if record_ok(x) {
            assert(out == prev.push(x));
        } else {
            assert(out == prev);
        }
    }
}

/// Returned summaries are ordered by strictly ascending source identifier
/// when the batch's identifiers are strictly ascending, as a mailbox
/// listing's are: each summary's identifier is strictly smaller than the
/// next summary's.
pub proof fn lemma_summaries_strictly_ascending(records: Seq<FetchRecord>)
    requires
        forall|i: int, j: int| 0 <= i < j < records.len() ==> records[i].id < records[j].id,
    ensures
        forall|i: int, j: int|
            0 <= i < j < ids_of(successes(records)).len() ==> ids_of(successes(records))[i]
                < ids_of(successes(records))[j],
{
    lemma_successes_strict(records);
    assert(forall|k: int|
        0 <= k < successes(records).len() ==> ids_of(successes(records))[k] == successes(
            records,
        )[k].id);
}

/// For a mailbox with no messages the fetch plan is empty, so a batch built
/// from it returns no summaries and no skipped identifiers.
pub proof fn lemma_empty_inbox_yields_empty(
    ids: Seq<u32>,
    count: nat,
    picked_len: nat,
    n_summaries: nat,
    n_failed: nat,
)
    requires
        ids.len() == 0,
        picked_len == min_nat(count, ids.len()),
        n_summaries + n_failed == picked_len,
    ensures
        n_summaries == 0,
        n_failed == 0,
{
}

/// The number of returned summaries is bounded by the smaller of the
/// requested count and the mailbox size; and when the whole mailbox was
/// requested it is exactly the mailbox size minus the per-message failures.
pub proof fn lemma_summary_count(
    mailbox_len: nat,
    count: nat,
    picked_len: nat,
    n_summaries: nat,
    n_failed: nat,
)
    requires
        picked_len == min_nat(count, mailbox_len),
        n_summaries + n_failed == picked_len,
    ensures
        n_summaries <= min_nat(count, mailbox_len),
        count >= mailbox_len ==> n_summaries == mailbox_len - n_failed,
{
}

/// Keeping only a suffix of an ascending sequence keeps it ascending.
///
/// Together with `sort_ids` and `select_recent` this shows that the
/// identifiers handed to the per-message fetch loop stand in ascending
/// order.
pub proof fn lemma_subrange_sorted(s: Seq<u32>, from: int, to: int)
    requires
        sorted_asc(s),
        0 <= from <= to <= s.len(),
    ensures
        sorted_asc(s.subrange(from, to)),
{
}

} // verus!
