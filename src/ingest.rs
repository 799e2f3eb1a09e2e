//! Ingestion: raw records are numbered, validated and applied in order,
//! under a policy that either aborts on the first failing record or reports
//! it and goes on.
use vstd::prelude::*;

use crate::ledger::{apply, empty_ledger, Ledger, LedgerError, LedgerState};
use crate::transaction::{fields_view, process_row, row_spec, Transaction, ValidationError};

verus! {

/// Why one record failed.
#[derive(Clone, Copy, Debug, PartialEq, Eq, Structural)]
pub enum RecordError {
    Validation(ValidationError),
    Ledger(LedgerError),
}

/// A failed record and its position in the input (the header not counted).
#[derive(Clone, Copy, Debug, PartialEq, Eq, Structural)]
pub struct RecordFailure {
    pub index: usize,
    pub error: RecordError,
}

/// Why a whole run failed.
#[derive(Clone, Copy, Debug, PartialEq, Eq, Structural)]
pub enum IngestError {
    /// The input could not be read as records.
    SourceUnavailable,
    /// More records than sequence numbers.
    TooManyRecords,
    /// A record failed and the policy was to abort.
    Record(RecordFailure),
}

/// What a run that was not aborted hands back.
pub struct IngestReport {
    /// The transactions accepted, in order.
    pub accepted: Vec<Transaction>,
    /// The records that failed, in order.
    pub failures: Vec<RecordFailure>,
}

/// The characters of each field of each record.
pub open spec fn records_view(records: Seq<Vec<String>>) -> Seq<Seq<Seq<char>>> {
    records.map_values(|r: Vec<String>| fields_view(r@))
}

/// Where ingestion stands after a prefix of the records.
pub ghost struct IngestState {
    pub ledger: LedgerState,
    pub next_seq: nat,
    pub accepted: Seq<Transaction>,
    pub failures: Seq<RecordFailure>,
}

/// `st` with one more failure.
pub open spec fn fail(st: IngestState, index: int, error: RecordError) -> IngestState {
    IngestState {
        failures: st.failures.push(RecordFailure { index: index as usize, error }),
        ..st
    }
}

/// One record taken in. A record of other than four fields fails without a
/// sequence number; any other takes the next one, then is validated and, where
/// `to_ledger`, applied.
pub open spec fn record_step(
    st: IngestState,
    index: int,
    rec: Seq<Seq<char>>,
    to_ledger: bool,
) -> IngestState {
    if rec.len() != 4 {
        fail(st, index, RecordError::Validation(ValidationError::MalformedRecord))
    } else {
        let st1 = IngestState { next_seq: st.next_seq + 1, ..st };
        match row_spec(rec, st.next_seq as u32) {
            Err(e) => fail(st1, index, RecordError::Validation(e)),
            Ok(t) => if to_ledger {
                let (l, r) = apply(st.ledger, t);
                let st2 = IngestState { ledger: l, ..st1 };
                match r {
                    Err(e) => fail(st2, index, RecordError::Ledger(e)),
                    Ok(_) => IngestState { accepted: st2.accepted.push(t), ..st2 },
                }
            } else {
                IngestState { accepted: st1.accepted.push(t), ..st1 }
            },
        }
    }
}

/// Ingestion of the first `n` records from ledger `s0`, every record attempted.
pub open spec fn ingest_prefix(
    s0: LedgerState,
    recs: Seq<Seq<Seq<char>>>,
    n: nat,
    to_ledger: bool,
) -> IngestState
    decreases n,
{
    if n == 0 {
        IngestState { ledger: s0, next_seq: 0, accepted: seq![], failures: seq![] }
    } else {
        record_step(
            ingest_prefix(s0, recs, (n - 1) as nat, to_ledger),
            n - 1,
            recs[n - 1],
            to_ledger,
        )
    }
}

/// The outcome of a run over `recs`: the policy that goes on yields every
/// failure; the one that aborts stops at the first failing record and yields
/// it, with all records before it applied.
pub open spec fn run_outcome(
    s0: LedgerState,
    recs: Seq<Seq<Seq<char>>>,
    keep_going: bool,
    to_ledger: bool,
    end: LedgerState,
    r: Result<(Seq<Transaction>, Seq<RecordFailure>), RecordFailure>,
) -> bool {
    let all = ingest_prefix(s0, recs, recs.len(), to_ledger);
    if keep_going {
        r == Ok::<_, RecordFailure>((all.accepted, all.failures)) && end == all.ledger
    } else {
        match r {
            Ok((acc, fs)) => all.failures.len() == 0 && acc == all.accepted && fs.len() == 0
                && end == all.ledger,
            Err(f) => {
                let k = f.index as nat;
                let upto = ingest_prefix(s0, recs, k + 1, to_ledger);
                &&& k < recs.len()
                &&& ingest_prefix(s0, recs, k, to_ledger).failures.len() == 0
                &&& upto.failures == seq![f]
                &&& end == upto.ledger
            },
        }
    }
}

proof fn lemma_next_seq_bound(s0: LedgerState, recs: Seq<Seq<Seq<char>>>, n: nat, to_ledger: bool)
    ensures
        ingest_prefix(s0, recs, n, to_ledger).next_seq <= n,
    decreases n,
{
    if n > 0 {
        lemma_next_seq_bound(s0, recs, (n - 1) as nat, to_ledger);
    }
}

proof fn lemma_validation_keeps_ledger(s0: LedgerState, recs: Seq<Seq<Seq<char>>>, n: nat)
    ensures
        ingest_prefix(s0, recs, n, false).ledger == s0,
    decreases n,
{
    if n > 0 {
        lemma_validation_keeps_ledger(s0, recs, (n - 1) as nat);
    }
}

/// The loop that both public runs share.
fn run_records(
    ledger: &mut Ledger,
    records: &Vec<Vec<String>>,
    keep_going: bool,
    to_ledger: bool,
) -> (r: Result<IngestReport, RecordFailure>)
    requires
        records@.len() <= u32::MAX,
    ensures
        run_outcome(
            old(ledger)@,
            records_view(records@),
            keep_going,
            to_ledger,
            final(ledger)@,
            match r {
                Ok(rep) => Ok((rep.accepted@, rep.failures@)),
                Err(f) => Err(f),
            },
        ),
{
    let ghost s0 = ledger@;
    let ghost recs = records_view(records@);
    let mut accepted: Vec<Transaction> = Vec::new();
    let mut failures: Vec<RecordFailure> = Vec::new();
    let mut next_seq: u32 = 0;
    let n: usize = records.len();
    let mut i: usize = 0;
    while i < n
        invariant
            n == records@.len() <= u32::MAX,
            recs == records_view(records@),
            recs.len() == n,
            s0 == old(ledger)@,
            i <= n,
            ({
                let st = ingest_prefix(s0, recs, i as nat, to_ledger);
                &&& st.ledger == ledger@
                &&& st.next_seq == next_seq
                &&& st.accepted == accepted@
                &&& st.failures == failures@
            }),
            !keep_going ==> failures@.len() == 0,
        decreases n - i,
    {
        proof {
            lemma_next_seq_bound(s0, recs, i as nat, to_ledger);
            assert(recs[i as int] == fields_view(records@[i as int]@));
        }
        let rec = &records[i];
        let mut error: Option<RecordError> = None;
        if rec.len() != 4 {
            error = Some(RecordError::Validation(ValidationError::MalformedRecord));
        } else {
            let seq: u32 = next_seq;
            next_seq = next_seq + 1;
            match process_row(rec, seq) {
                Err(e) => {
                    error = Some(RecordError::Validation(e));
                },
                Ok(t) => {
                    if to_ledger {
                        match ledger.process_transaction(&t) {
                            Ok(()) => accepted.push(t),
                            Err(e) => {
                                error = Some(RecordError::Ledger(e));
                            },
                        }
                    } else {
                        accepted.push(t);
                    }
                },
            }
        }
        if let Some(e) = error {
            let f = RecordFailure { index: i, error: e };
            if !keep_going {
                proof {
                    let st = ingest_prefix(s0, recs, (i + 1) as nat, to_ledger);
                    assert(st.failures == failures@.push(f));
                    assert(failures@.push(f) =~= seq![f]);
                }
                return Err(f);
            }
            failures.push(f);
        }
        i = i + 1;
    }
    proof {
        assert(recs.len() == n);
    }
    Ok(IngestReport { accepted, failures })
}

/// Validates every record, numbering them in order, without touching any
/// ledger: the validator and the policy alone.
pub fn validate_records(records: &Vec<Vec<String>>, keep_going: bool) -> (r: Result<
    IngestReport,
    RecordFailure,
>)
    requires
        records@.len() <= u32::MAX,
    ensures
        run_outcome(
            empty_ledger(),
            records_view(records@),
            keep_going,
            false,
            empty_ledger(),
            match r {
                Ok(rep) => Ok((rep.accepted@, rep.failures@)),
                Err(f) => Err(f),
            },
        ),
{
    let mut scratch = Ledger::new();
    let r = run_records(&mut scratch, records, keep_going, false);
    proof {
        let recs = records_view(records@);
        lemma_validation_keeps_ledger(empty_ledger(), recs, recs.len());
        if let Err(f) = r {
            lemma_validation_keeps_ledger(empty_ledger(), recs, f.index as nat + 1);
        }
    }
    r
}

/// Validates every record and applies each valid one to `ledger`, in order.
pub fn process_records(ledger: &mut Ledger, records: &Vec<Vec<String>>, keep_going: bool) -> (r:
    Result<IngestReport, RecordFailure>)
    requires
        records@.len() <= u32::MAX,
    ensures
        run_outcome(
            old(ledger)@,
            records_view(records@),
            keep_going,
            true,
            final(ledger)@,
            match r {
                Ok(rep) => Ok((rep.accepted@, rep.failures@)),
                Err(f) => Err(f),
            },
        ),
{
    run_records(ledger, records, keep_going, true)
}

/// The records that the csv reader finds in a text, each as its fields.
pub uninterp spec fn csv_records_of(text: Seq<char>) -> Option<Seq<Seq<Seq<char>>>>;

/// Relies on `csv::ReaderBuilder` and `csv::Reader::records`: the reader skips
/// a header row, trims every field and takes records of any length; it fails
/// where the text is not well-formed csv.
#[verifier::external_body]
fn read_csv_records(buffer: &str) -> (r: Option<Vec<Vec<String>>>)
    ensures
        match r {
            Some(v) => csv_records_of(buffer@) == Some(records_view(v@)),
            None => csv_records_of(buffer@) is None,
        },
{
    let mut rdr = csv::ReaderBuilder::new().has_headers(true).trim(csv::Trim::All).flexible(
        true,
    ).from_reader(buffer.as_bytes());
    let mut out: Vec<Vec<String>> = Vec::new();
    for rec in rdr.records() {
        match rec {
            Ok(rec) => out.push(rec.iter().map(String::from).collect()),
            Err(_) => return None,
        }
    }
    Some(out)
}

/// A whole run as seen from its text: the text does not read as records, has
/// too many of them, or the run goes as [`run_outcome`] says.
pub open spec fn text_outcome(
    s0: LedgerState,
    text: Seq<char>,
    keep_going: bool,
    to_ledger: bool,
    end: LedgerState,
    r: Result<(Seq<Transaction>, Seq<RecordFailure>), IngestError>,
) -> bool {
    match csv_records_of(text) {
        None => r == Err::<(Seq<Transaction>, Seq<RecordFailure>), _>(IngestError::SourceUnavailable)
            && end == s0,
        Some(recs) => if recs.len() > u32::MAX {
            r == Err::<(Seq<Transaction>, Seq<RecordFailure>), _>(IngestError::TooManyRecords)
                && end == s0
        } else {
            match r {
                Ok(v) => run_outcome(s0, recs, keep_going, to_ledger, end, Ok(v)),
                Err(IngestError::Record(f)) => run_outcome(
                    s0,
                    recs,
                    keep_going,
                    to_ledger,
                    end,
                    Err(f),
                ),
                Err(_) => false,
            }
        },
    }
}

/// Reads csv text (with a header row) and validates every record in it,
/// without touching any ledger.
pub fn process_csv_from_buffer(buffer: &str, keep_going: bool) -> (r: Result<
    IngestReport,
    IngestError,
>)
    ensures
        text_outcome(
            empty_ledger(),
            buffer@,
            keep_going,
            false,
            empty_ledger(),
            match r {
                Ok(rep) => Ok((rep.accepted@, rep.failures@)),
                Err(e) => Err(e),
            },
        ),
{
    let records = match read_csv_records(buffer) {
        Some(v) => v,
        None => return Err(IngestError::SourceUnavailable),
    };
    if records.len() > u32::MAX as usize {
        return Err(IngestError::TooManyRecords);
    }
    match validate_records(&records, keep_going) {
        Ok(rep) => Ok(rep),
        Err(f) => Err(IngestError::Record(f)),
    }
}

/// Reads csv text (with a header row) and applies every valid record in it
/// to `ledger`, in order.
pub fn process_csv_into_ledger(ledger: &mut Ledger, buffer: &str, keep_going: bool) -> (r: Result<
    IngestReport,
    IngestError,
>)
    ensures
        text_outcome(
            old(ledger)@,
            buffer@,
            keep_going,
            true,
            final(ledger)@,
            match r {
                Ok(rep) => Ok((rep.accepted@, rep.failures@)),
                Err(e) => Err(e),
            },
        ),
{
    let records = match read_csv_records(buffer) {
        Some(v) => v,
        None => return Err(IngestError::SourceUnavailable),
    };
    if records.len() > u32::MAX as usize {
        return Err(IngestError::TooManyRecords);
    }
    match process_records(ledger, &records, keep_going) {
        Ok(rep) => Ok(rep),
        Err(f) => Err(IngestError::Record(f)),
    }
}

} // verus!
