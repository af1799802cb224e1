//! Verification records: what the service says of one candidate, and how a
//! JSON answer is decoded into them.

use vstd::prelude::*;
use vstd::string::StringExecFns;
use crate::json::{find_member, member_named, JsonMember, JsonValue};

verus! {

/// A field that the service fills either with text or, where it has no data,
/// with a boolean. The boolean carries no meaning of its own: `true` and
/// `false` both stand for "unknown".
#[derive(Debug)]
pub enum OptString {
    Str(String),
    Bool(bool),
}

/// What an [`OptString`] holds.
pub enum OptStringView {
    Str(Seq<char>),
    Bool(bool),
}

impl View for OptString {
    type V = OptStringView;

    open spec fn view(&self) -> OptStringView {
        match self {
            OptString::Str(s) => OptStringView::Str(s@),
            OptString::Bool(b) => OptStringView::Bool(*b),
        }
    }
}

impl Clone for OptString {
    fn clone(&self) -> (copy: Self)
        ensures
            copy@ == self@,
    {
        match self {
            OptString::Str(s) => OptString::Str(s.clone()),
            OptString::Bool(b) => OptString::Bool(*b),
        }
    }
}

impl OptStringView {
    /// The text shown for the field: its own where it has one, and the word
    /// `Unknown` in place of either boolean.
    pub open spec fn display(self) -> Seq<char> {
        match self {
            OptStringView::Str(s) => s,
            OptStringView::Bool(_) => "Unknown"@,
        }
    }
}

impl OptString {
    /// The text to show for this field.
    pub fn display_text(&self) -> (text: String)
        ensures
            text@ == self@.display(),
    {
        match self {
            OptString::Str(s) => s.clone(),
            OptString::Bool(_) => String::from_str("Unknown"),
        }
    }
}

/// The service's judgment of one candidate.
#[derive(Debug)]
pub struct ProxyCheckResult {
    pub working: bool,
    /// The proxy protocol; the member `type` of the JSON object.
    pub proxy_type: OptString,
    pub ip: String,
    pub port: String,
    pub country: OptString,
    /// The label that the service attaches to the record. It is carried along
    /// and never read.
    pub ind: String,
}

/// What a [`ProxyCheckResult`] holds.
pub struct RecordView {
    pub working: bool,
    pub proxy_type: OptStringView,
    pub ip: Seq<char>,
    pub port: Seq<char>,
    pub country: OptStringView,
    pub ind: Seq<char>,
}

impl View for ProxyCheckResult {
    type V = RecordView;

    open spec fn view(&self) -> RecordView {
        RecordView {
            working: self.working,
            proxy_type: self.proxy_type@,
            ip: self.ip@,
            port: self.port@,
            country: self.country@,
            ind: self.ind@,
        }
    }
}

impl Clone for ProxyCheckResult {
    fn clone(&self) -> (copy: Self)
        ensures
            copy@ == self@,
    {
        ProxyCheckResult {
            working: self.working,
            proxy_type: self.proxy_type.clone(),
            ip: self.ip.clone(),
            port: self.port.clone(),
            country: self.country.clone(),
            ind: self.ind.clone(),
        }
    }
}

/// The views of a sequence of records, in the same order.
pub open spec fn record_views(records: Seq<ProxyCheckResult>) -> Seq<RecordView> {
    records.map_values(|r: ProxyCheckResult| r@)
}

/// The records of one answer, in the order in which the service gave them.
/// There may be fewer than candidates were submitted, or none.
#[derive(Debug)]
pub struct ProxyCheckResults(Vec<ProxyCheckResult>);

impl View for ProxyCheckResults {
    type V = Seq<RecordView>;

    closed spec fn view(&self) -> Seq<RecordView> {
        record_views(self.0@)
    }
}

impl std::ops::Deref for ProxyCheckResults {
    type Target = Vec<ProxyCheckResult>;

    fn deref(&self) -> (records: &Vec<ProxyCheckResult>)
        ensures
            record_views(records@) == self@,
    {
        &self.0
    }
}

impl ProxyCheckResults {
    /// Wraps the given records.
    pub fn new(records: Vec<ProxyCheckResult>) -> (results: Self)
        ensures
            results@ == record_views(records@),
    {
        ProxyCheckResults(records)
    }

    /// An answer without records.
    pub fn empty() -> (results: Self)
        ensures
            results@ == Seq::<RecordView>::empty(),
    {
        ProxyCheckResults(Vec::new())
    }

    /// Hands the records out.
    pub fn into_vec(self) -> (records: Vec<ProxyCheckResult>)
        ensures
            record_views(records@) == self@,
    {
        self.0
    }
}

/// The members of a record object that the decoder reads.
#[derive(Debug, Clone, Copy, PartialEq, Eq, Structural)]
pub enum Field {
    Working,
    Type,
    Ip,
    Port,
    Country,
    Ind,
}

impl Field {
    /// The member's name in the JSON object.
    pub open spec fn key(self) -> Seq<char> {
        match self {
            Field::Working => "working"@,
            Field::Type => "type"@,
            Field::Ip => "ip"@,
            Field::Port => "port"@,
            Field::Country => "country"@,
            Field::Ind => "ind"@,
        }
    }

    /// The member's name in the JSON object.
    pub fn name(self) -> (name: String)
        ensures
            name@ == self.key(),
    {
        match self {
            Field::Working => String::from_str("working"),
            Field::Type => String::from_str("type"),
            Field::Ip => String::from_str("ip"),
            Field::Port => String::from_str("port"),
            Field::Country => String::from_str("country"),
            Field::Ind => String::from_str("ind"),
        }
    }
}

/// Why an answer could not be decoded. `index` is the position of the
/// offending element in the answer's array.
#[derive(Debug, Clone, Copy, PartialEq, Eq, Structural)]
pub enum DecodeError {
    /// The body is no JSON document.
    NotJson,
    /// The document is not an array.
    NotAnArray,
    /// An element of the array is not an object.
    NotAnObject { index: usize },
    /// A record lacks a member.
    MissingField { index: usize, field: Field },
    /// A member holds a value of a kind that its field does not take.
    WrongType { index: usize, field: Field },
}

/// The boolean that `field` holds in a record object.
pub open spec fn bool_of(members: Seq<JsonMember>, index: usize, field: Field) -> Result<
    bool,
    DecodeError,
> {
    match member_named(members, field.key()) {
        None => Err(DecodeError::MissingField { index, field }),
        Some(JsonValue::Bool(b)) => Ok(b),
        Some(_) => Err(DecodeError::WrongType { index, field }),
    }
}

/// The text that `field` holds in a record object.
pub open spec fn text_of(members: Seq<JsonMember>, index: usize, field: Field) -> Result<
    Seq<char>,
    DecodeError,
> {
    match member_named(members, field.key()) {
        None => Err(DecodeError::MissingField { index, field }),
        Some(JsonValue::Text(s)) => Ok(s@),
        Some(_) => Err(DecodeError::WrongType { index, field }),
    }
}

/// The text or boolean that `field` holds in a record object. The variant
/// follows the kind of the JSON value, and no third kind is taken.
pub open spec fn flag_of(members: Seq<JsonMember>, index: usize, field: Field) -> Result<
    OptStringView,
    DecodeError,
> {
    match member_named(members, field.key()) {
        None => Err(DecodeError::MissingField { index, field }),
        Some(JsonValue::Text(s)) => Ok(OptStringView::Str(s@)),
        Some(JsonValue::Bool(b)) => Ok(OptStringView::Bool(b)),
        Some(_) => Err(DecodeError::WrongType { index, field }),
    }
}

/// The record that the element at position `index` of an answer stands for.
/// The members are read in the order `working`, `type`, `ip`, `port`,
/// `country`, `ind`, and the first that fails gives the error. Members under
/// other names are ignored.
pub open spec fn record_of(value: JsonValue, index: usize) -> Result<RecordView, DecodeError> {
    match value {
        JsonValue::Object(members) => match bool_of(members@, index, Field::Working) {
            Err(e) => Err(e),
            Ok(working) => match flag_of(members@, index, Field::Type) {
                Err(e) => Err(e),
                Ok(proxy_type) => match text_of(members@, index, Field::Ip) {
                    Err(e) => Err(e),
                    Ok(ip) => match text_of(members@, index, Field::Port) {
                        Err(e) => Err(e),
                        Ok(port) => match flag_of(members@, index, Field::Country) {
                            Err(e) => Err(e),
                            Ok(country) => match text_of(members@, index, Field::Ind) {
                                Err(e) => Err(e),
                                Ok(ind) => Ok(
                                    RecordView { working, proxy_type, ip, port, country, ind },
                                ),
                            },
                        },
                    },
                },
            },
        },
        _ => Err(DecodeError::NotAnObject { index }),
    }
}

/// The records that the elements of an answer's array stand for, in order;
/// or the error of the first element that is no record.
pub open spec fn records_of(elements: Seq<JsonValue>) -> Result<Seq<RecordView>, DecodeError>
    decreases elements.len(),
{
    if elements.len() == 0 {
        Ok(Seq::empty())
    } else {
        match records_of(elements.drop_last()) {
            Err(e) => Err(e),
            Ok(front) => match record_of(elements.last(), (elements.len() - 1) as usize) {
                Err(e) => Err(e),
                Ok(record) => Ok(front.push(record)),
            },
        }
    }
}

/// What an answer decodes to: the records of its array, or why it has none.
pub open spec fn decoded(document: JsonValue) -> Result<Seq<RecordView>, DecodeError> {
    match document {
        JsonValue::Array(elements) => records_of(elements@),
        _ => Err(DecodeError::NotAnArray),
    }
}

/// A record whose `country` arrives as a JSON boolean decodes to the boolean
/// variant, and that variant is shown as `Unknown` whichever boolean it holds.
pub proof fn lemma_boolean_country_shows_unknown(value: JsonValue, index: usize, flag: bool)
    requires
        value matches JsonValue::Object(members) && member_named(members@, Field::Country.key())
            == Some(JsonValue::Bool(flag)),
        record_of(value, index) is Ok,
    ensures
        record_of(value, index)->Ok_0.country == OptStringView::Bool(flag),
        record_of(value, index)->Ok_0.country.display() == "Unknown"@,
{
}

/// A record whose `type` arrives as a JSON boolean decodes to the boolean
/// variant, and that variant is shown as `Unknown` whichever boolean it holds.
pub proof fn lemma_boolean_type_shows_unknown(value: JsonValue, index: usize, flag: bool)
    requires
        value matches JsonValue::Object(members) && member_named(members@, Field::Type.key())
            == Some(JsonValue::Bool(flag)),
        record_of(value, index) is Ok,
    ensures
        record_of(value, index)->Ok_0.proxy_type == OptStringView::Bool(flag),
        record_of(value, index)->Ok_0.proxy_type.display() == "Unknown"@,
{
}

/// An answer that decodes has one record for each element of its array.
pub proof fn lemma_records_of_len(elements: Seq<JsonValue>)
    requires
        records_of(elements) is Ok,
    ensures
        records_of(elements)->Ok_0.len() == elements.len(),
    decreases elements.len(),
{
    if elements.len() > 0 {
        lemma_records_of_len(elements.drop_last());
    }
}

/// An error among the first elements is the error of the whole array.
pub proof fn lemma_records_of_prefix_error(elements: Seq<JsonValue>, k: int)
    requires
        0 <= k <= elements.len(),
        records_of(elements.take(k)) is Err,
    ensures
        records_of(elements) == records_of(elements.take(k)),
    decreases elements.len(),
{
    if k < elements.len() {
        assert(elements.drop_last().take(k) == elements.take(k));
        lemma_records_of_prefix_error(elements.drop_last(), k);
    } else {
        assert(elements.take(k) == elements);
    }
}

fn read_bool(members: &Vec<JsonMember>, index: usize, field: Field) -> (r: Result<
    bool,
    DecodeError,
>)
    ensures
        r == bool_of(members@, index, field),
{
    let name = field.name();
    match find_member(members, &name) {
        None => Err(DecodeError::MissingField { index, field }),
        Some(JsonValue::Bool(b)) => Ok(*b),
        Some(_) => Err(DecodeError::WrongType { index, field }),
    }
}

fn read_text(members: &Vec<JsonMember>, index: usize, field: Field) -> (r: Result<
    String,
    DecodeError,
>)
    ensures
        match r {
            Ok(s) => text_of(members@, index, field) == Ok::<Seq<char>, DecodeError>(s@),
            Err(e) => text_of(members@, index, field) == Err::<Seq<char>, DecodeError>(e),
        },
{
    let name = field.name();
    match find_member(members, &name) {
        None => Err(DecodeError::MissingField { index, field }),
        Some(JsonValue::Text(s)) => Ok(s.clone()),
        Some(_) => Err(DecodeError::WrongType { index, field }),
    }
}

fn read_flag(members: &Vec<JsonMember>, index: usize, field: Field) -> (r: Result<
    OptString,
    DecodeError,
>)
    ensures
        match r {
            Ok(v) => flag_of(members@, index, field) == Ok::<OptStringView, DecodeError>(v@),
            Err(e) => flag_of(members@, index, field) == Err::<OptStringView, DecodeError>(e),
        },
{
    let name = field.name();
    match find_member(members, &name) {
        None => Err(DecodeError::MissingField { index, field }),
        Some(JsonValue::Text(s)) => Ok(OptString::Str(s.clone())),
        Some(JsonValue::Bool(b)) => Ok(OptString::Bool(*b)),
        Some(_) => Err(DecodeError::WrongType { index, field }),
    }
}

/// Decodes the element at position `index` of an answer.
pub fn decode_record(value: &JsonValue, index: usize) -> (r: Result<ProxyCheckResult, DecodeError>)
    ensures
        match r {
            Ok(record) => record_of(*value, index) == Ok::<RecordView, DecodeError>(record@),
            Err(e) => record_of(*value, index) == Err::<RecordView, DecodeError>(e),
        },
{
    match value {
        JsonValue::Object(members) => {
            let working = read_bool(members, index, Field::Working)?;
            let proxy_type = read_flag(members, index, Field::Type)?;
            let ip = read_text(members, index, Field::Ip)?;
            let port = read_text(members, index, Field::Port)?;
            let country = read_flag(members, index, Field::Country)?;
            let ind = read_text(members, index, Field::Ind)?;
            Ok(ProxyCheckResult { working, proxy_type, ip, port, country, ind })
        },
        _ => Err(DecodeError::NotAnObject { index }),
    }
}

/// Decodes the service's answer.
///
/// The answer is an array with one object per record; an empty array is an
/// answer without records and no error. The records come out in the order of
/// the array. Nothing relates that order to the order in which candidates
/// were submitted: the label of a record is kept and not compared with any
/// tag.
pub fn decode_results(document: &JsonValue) -> (r: Result<ProxyCheckResults, DecodeError>)
    ensures
        match r {
            Ok(results) => decoded(*document) == Ok::<Seq<RecordView>, DecodeError>(results@),
            Err(e) => decoded(*document) == Err::<Seq<RecordView>, DecodeError>(e),
        },
        r matches Ok(results) ==> document matches JsonValue::Array(elements) && results@.len()
            == elements@.len(),
{
    match document {
        JsonValue::Array(elements) => {
            let n = elements.len();
            let mut records: Vec<ProxyCheckResult> = Vec::new();
            let mut i: usize = 0;
            assert(record_views(records@) == Seq::<RecordView>::empty());
            while i < n
                invariant
                    n == elements@.len(),
                    i <= n,
                    decoded(*document) == records_of(elements@),
                    records_of(elements@.take(i as int)) == Ok::<Seq<RecordView>, DecodeError>(
                        record_views(records@),
                    ),
                decreases n - i,
            {
                proof {
                    assert(elements@.take(i + 1).drop_last() == elements@.take(i as int));
                }
                match decode_record(&elements[i], i) {
                    Ok(record) => {
                        proof {
                            assert(record_views(records@.push(record)) == record_views(
                                records@,
                            ).push(record@));
                        }
                        records.push(record);
                    },
                    Err(e) => {
                        proof {
                            lemma_records_of_prefix_error(elements@, i + 1);
                        }
                        return Err(e);
                    },
                }
                i += 1;
            }
            proof {
                assert(elements@.take(n as int) == elements@);
                lemma_records_of_len(elements@);
            }
            Ok(ProxyCheckResults::new(records))
        },
        _ => Err(DecodeError::NotAnArray),
    }
}

/// The records that the service found working, in their order.
pub open spec fn working_among(records: Seq<RecordView>) -> Seq<RecordView> {
    records.filter(|r: RecordView| r.working)
}

/// Picks the records of working proxies out of an answer.
pub fn working_records(results: &ProxyCheckResults) -> (working: Vec<ProxyCheckResult>)
    ensures
        record_views(working@) == working_among(results@),
{
    let all: &Vec<ProxyCheckResult> = results;
    let n = all.len();
    let mut working: Vec<ProxyCheckResult> = Vec::new();
    let mut i: usize = 0;
    while i < n
        invariant
            n == all@.len(),
            i <= n,
            record_views(all@) == results@,
            record_views(working@) == working_among(record_views(all@).take(i as int)),
        decreases n - i,
    {
        proof {
            let seen = record_views(all@).take(i as int);
            assert(record_views(all@).take(i + 1) == seen.push(all@[i as int]@));
            seen.lemma_filter_push(all@[i as int]@, |r: RecordView| r.working);
        }
        if all[i].working {
            let record = all[i].clone();
            working.push(record);
        }
        i += 1;
    }
    assert(record_views(all@).take(n as int) == record_views(all@));
    working
}

/// The line that lists one record: address, a colon, port, a bar between
/// spaces, and the protocol as it is shown.
pub open spec fn listing_line(record: RecordView) -> Seq<char> {
    record.ip + seq![':'] + record.port + " | "@ + record.proxy_type.display()
}

/// The listing of `records`: one line for each, in order, with a line feed
/// between two lines and none at the end.
pub open spec fn listing_text(records: Seq<RecordView>) -> Seq<char>
    decreases records.len(),
{
    if records.len() == 0 {
        Seq::empty()
    } else if records.len() == 1 {
        listing_line(records[0])
    } else {
        listing_text(records.drop_last()) + seq!['\n'] + listing_line(records.last())
    }
}

impl ProxyCheckResult {
    /// Writes the line that lists this record.
    pub fn summary_line(&self) -> (line: String)
        ensures
            line@ == listing_line(self@),
    {
        let mut line = self.ip.clone();
        line.push(':');
        line.append(self.port.as_str());
        line.append(" | ");
        let shown = self.proxy_type.display_text();
        line.append(shown.as_str());
        line
    }
}

/// Writes the listing of `records`.
pub fn listing(records: &[ProxyCheckResult]) -> (text: String)
    ensures
        text@ == listing_text(record_views(records@)),
{
    let mut text = String::new();
    let n = records.len();
    let mut i: usize = 0;
    while i < n
        invariant
            n == records@.len(),
            i <= n,
            text@ == listing_text(record_views(records@).take(i as int)),
        decreases n - i,
    {
        proof {
            let seen = record_views(records@).take(i + 1);
            assert(seen.drop_last() == record_views(records@).take(i as int));
        }
        if i > 0 {
            text.push('\n');
        }
        let line = records[i].summary_line();
        text.append(line.as_str());
        i += 1;
    }
    assert(record_views(records@).take(n as int) == record_views(records@));
    text
}

} // verus!
