//! The decisions of the two operations that callers run: checking one
//! candidate, and fetching, sampling and checking a batch.
//!
//! Each operation waits on the network at most twice, for the candidate list
//! and for the service's answer. The functions here stand between those
//! waits: they take what the network gave and say what to do next.

use vstd::prelude::*;
use crate::candidate::{candidates_in, parse_proxies, proxy_views, Proxy};
use crate::encoding::{encode_batch, field_views, fields_for, FormField};
use crate::json::JsonValue;
use crate::record::{
    decode_results, decoded, record_views, working_among, working_records, DecodeError,
    ProxyCheckResult, ProxyCheckResults, RecordView,
};
use crate::selector::{drawn, select};

verus! {

/// The number of proxies that a batch asks for where the caller names none.
pub const DEFAULT_AMOUNT: usize = 1;

/// The least number of proxies that a batch may ask for.
pub const MIN_AMOUNT: usize = 1;

/// The greatest number of proxies that a batch may ask for.
pub const MAX_AMOUNT: usize = 50;

/// A batch was asked for fewer than `MIN_AMOUNT` or more than `MAX_AMOUNT`
/// proxies.
#[derive(Debug, Clone, Copy, PartialEq, Eq, Structural)]
pub struct AmountError {
    pub requested: usize,
}

/// The amount that a request stands for, or why it is turned away.
pub open spec fn amount_for(requested: Option<usize>) -> Result<usize, AmountError> {
    match requested {
        None => Ok(DEFAULT_AMOUNT),
        Some(n) => if MIN_AMOUNT <= n <= MAX_AMOUNT {
            Ok(n)
        } else {
            Err(AmountError { requested: n })
        },
    }
}

/// Settles how many proxies a batch asks for, before anything is fetched.
pub fn resolve_amount(requested: Option<usize>) -> (r: Result<usize, AmountError>)
    ensures
        r == amount_for(requested),
{
    match requested {
        None => Ok(DEFAULT_AMOUNT),
        Some(n) => if MIN_AMOUNT <= n && n <= MAX_AMOUNT {
            Ok(n)
        } else {
            Err(AmountError { requested: n })
        },
    }
}

/// Why a verification gave no records.
#[derive(Debug, Clone, Copy, PartialEq, Eq, Structural)]
pub enum VerifyError {
    /// The request did not get through, or the service refused it.
    Network,
    /// The service answered, but not with records.
    Decode(DecodeError),
}

/// What came back from the verification service.
#[derive(Debug)]
pub enum ServiceReply {
    /// The request failed in transport.
    Unreachable,
    /// A body arrived that is no JSON document.
    Unreadable,
    /// A JSON document arrived.
    Document(JsonValue),
}

/// What to do to verify a batch.
#[derive(Debug)]
pub enum VerificationStep {
    /// Nothing is to be sent: these are the results.
    Finished(ProxyCheckResults),
    /// Send one request with these fields.
    Submit(Vec<FormField>),
}

/// Opens the verification of `candidates`.
///
/// An empty batch is settled on the spot, with an answer that holds no
/// records. Any other batch becomes the fields of a single request.
pub fn begin_verification(candidates: &[Proxy]) -> (step: VerificationStep)
    ensures
        match step {
            VerificationStep::Finished(results) => candidates@.len() == 0 && results@.len() == 0,
            VerificationStep::Submit(fields) => candidates@.len() > 0 && field_views(fields@)
                == fields_for(proxy_views(candidates@)),
        },
{
    if candidates.len() == 0 {
        VerificationStep::Finished(ProxyCheckResults::empty())
    } else {
        VerificationStep::Submit(encode_batch(candidates))
    }
}

/// What a reply of the service amounts to.
pub open spec fn verified(reply: ServiceReply) -> Result<Seq<RecordView>, VerifyError> {
    match reply {
        ServiceReply::Unreachable => Err(VerifyError::Network),
        ServiceReply::Unreadable => Err(VerifyError::Decode(DecodeError::NotJson)),
        ServiceReply::Document(document) => match decoded(document) {
            Ok(records) => Ok(records),
            Err(e) => Err(VerifyError::Decode(e)),
        },
    }
}

/// Closes a verification with the service's reply. Whatever went wrong ends
/// the verification: nothing is tried a second time.
pub fn finish_verification(reply: &ServiceReply) -> (r: Result<ProxyCheckResults, VerifyError>)
    ensures
        match r {
            Ok(results) => verified(*reply) == Ok::<Seq<RecordView>, VerifyError>(results@),
            Err(e) => verified(*reply) == Err::<Seq<RecordView>, VerifyError>(e),
        },
{
    match reply {
        ServiceReply::Unreachable => Err(VerifyError::Network),
        ServiceReply::Unreadable => Err(VerifyError::Decode(DecodeError::NotJson)),
        ServiceReply::Document(document) => match decode_results(document) {
            Ok(results) => Ok(results),
            Err(e) => Err(VerifyError::Decode(e)),
        },
    }
}

/// How a batch ended.
#[derive(Debug)]
pub enum BatchReport {
    /// The list held no candidate; nothing was verified.
    NoProxiesAvailable,
    /// The verification failed.
    VerificationFailed(VerifyError),
    /// The service found none of the sample working.
    NoWorkingProxies,
    /// The records of the working proxies, in the service's order.
    Working(Vec<ProxyCheckResult>),
}

/// What to do once the candidate list has arrived.
#[derive(Debug)]
pub enum BatchStep {
    /// The batch is over.
    Done(BatchReport),
    /// Verify this sample.
    Verify(Vec<Proxy>),
}

/// Reads the fetched candidate list and draws the sample to verify.
///
/// A list without any candidate ends the batch at once, with no verification.
/// Otherwise a random sample of at most `amount` candidates is drawn from the
/// list.
pub fn plan_batch(body: &str, amount: usize) -> (step: BatchStep)
    ensures
        match step {
            BatchStep::Done(report) => candidates_in(body@).len() == 0
                && report is NoProxiesAvailable,
            BatchStep::Verify(sample) => {
                &&& candidates_in(body@).len() > 0
                &&& sample@.len() == drawn(amount as int, candidates_in(body@).len() as int)
                &&& proxy_views(sample@).to_multiset().subset_of(candidates_in(body@).to_multiset())
                &&& amount >= candidates_in(body@).len() ==> proxy_views(sample@).to_multiset()
                    == candidates_in(body@).to_multiset()
            },
        },
{
    let candidates = parse_proxies(body);
    if candidates.len() == 0 {
        BatchStep::Done(BatchReport::NoProxiesAvailable)
    } else {
        BatchStep::Verify(select(candidates, amount))
    }
}

/// Sums a batch up once its verification is over: the failure, or the
/// records of the proxies that work.
pub fn report_batch(outcome: Result<ProxyCheckResults, VerifyError>) -> (report: BatchReport)
    ensures
        match report {
            BatchReport::NoProxiesAvailable => false,
            BatchReport::VerificationFailed(e) => outcome == Err::<ProxyCheckResults, VerifyError>(
                e,
            ),
            BatchReport::NoWorkingProxies => outcome matches Ok(results) && working_among(
                results@,
            ).len() == 0,
            BatchReport::Working(records) => outcome matches Ok(results) && records@.len() > 0
                && record_views(records@) == working_among(results@),
        },
{
    match outcome {
        Err(e) => BatchReport::VerificationFailed(e),
        Ok(results) => {
            let working = working_records(&results);
            if working.len() == 0 {
                BatchReport::NoWorkingProxies
            } else {
                BatchReport::Working(working)
            }
        },
    }
}

/// How the check of a single candidate ended.
#[derive(Debug)]
pub enum CheckReport {
    /// The verification failed.
    VerificationFailed(VerifyError),
    /// The service answered without a record.
    NoRecord,
    /// The first record of the answer.
    Record(ProxyCheckResult),
}

/// Sums the check of one candidate up: the failure, or the first record of
/// the answer.
pub fn report_check(outcome: Result<ProxyCheckResults, VerifyError>) -> (report: CheckReport)
    ensures
        match report {
            CheckReport::VerificationFailed(e) => outcome == Err::<ProxyCheckResults, VerifyError>(
                e,
            ),
            CheckReport::NoRecord => outcome matches Ok(results) && results@.len() == 0,
            CheckReport::Record(record) => outcome matches Ok(results) && results@.len() > 0
                && record@ == results@[0],
        },
{
    match outcome {
        Err(e) => CheckReport::VerificationFailed(e),
        Ok(results) => {
            let mut records = results.into_vec();
            if records.len() == 0 {
                CheckReport::NoRecord
            } else {
                CheckReport::Record(records.remove(0))
            }
        },
    }
}

} // verus!
