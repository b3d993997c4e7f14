//! Data points and the write requests that carry them to the database.

use vstd::prelude::*;
use vstd::string::StringExecFns;
use crate::text::{join_seq, lemma_join_push, lemma_split_join, split_seq};

verus! {

/// One field of a point: its key, and its number as decimal text.
#[derive(Debug, Clone, PartialEq, Eq)]
pub struct Field {
    pub key: String,
    pub value: String,
}

impl View for Field {
    type V = (Seq<char>, Seq<char>);

    open spec fn view(&self) -> (Seq<char>, Seq<char>) {
        (self.key@, self.value@)
    }
}

impl DeepView for Field {
    type V = (Seq<char>, Seq<char>);

    open spec fn deep_view(&self) -> (Seq<char>, Seq<char>) {
        self@
    }
}

/// A point of data: the measurement it belongs to and its fields.
#[derive(Debug, Clone, PartialEq, Eq)]
pub struct Point {
    pub measurement: String,
    pub field_map: Vec<Field>,
}

/// What a point holds.
pub ghost struct PointView {
    pub measurement: Seq<char>,
    pub fields: Seq<(Seq<char>, Seq<char>)>,
}

impl View for Point {
    type V = PointView;

    open spec fn view(&self) -> PointView {
        PointView { measurement: self.measurement@, fields: self.field_map.deep_view() }
    }
}

impl Point {
    /// No key occurs twice among the fields.
    pub open spec fn wf(&self) -> bool {
        forall|i: int, j: int|
            0 <= i < j < self@.fields.len() ==> self@.fields[i].0 != self@.fields[j].0
    }
}

/// The unit in which a timestamp counts.
#[derive(Debug, Clone, Copy, PartialEq, Eq, Structural)]
pub enum Precision {
    /// Seconds.
    S,
}

impl Precision {
    /// The name of the unit in a write request.
    pub open spec fn code(&self) -> Seq<char> {
        match *self {
            Precision::S => "s"@,
        }
    }

    /// The name of the unit in a write request.
    pub fn value(&self) -> (out: &str)
        ensures
            out@ == self.code(),
    {
        match *self {
            Precision::S => "s",
        }
    }
}

/// The character of a decimal digit.
pub open spec fn digit(d: nat) -> char {
    if d == 0 {
        '0'
    } else if d == 1 {
        '1'
    } else if d == 2 {
        '2'
    } else if d == 3 {
        '3'
    } else if d == 4 {
        '4'
    } else if d == 5 {
        '5'
    } else if d == 6 {
        '6'
    } else if d == 7 {
        '7'
    } else if d == 8 {
        '8'
    } else {
        '9'
    }
}

/// A number in decimal digits, without sign and without leading zeros.
pub open spec fn decimal(n: nat) -> Seq<char>
    decreases n,
{
    if n < 10 {
        seq![digit(n)]
    } else {
        decimal(n / 10).push(digit(n % 10))
    }
}

/// The number that decimal digits stand for.
pub open spec fn decimal_value(digits: Seq<char>) -> nat
    decreases digits.len(),
{
    if digits.len() == 0 {
        0
    } else {
        decimal_value(digits.drop_last()) * 10 + (digits.last() as nat - '0' as nat) as nat
    }
}

/// Decimal digits stand for the number that they were written for, and
/// hold nothing but digits.
pub proof fn lemma_decimal_reads_back(n: nat)
    ensures
        decimal_value(decimal(n)) == n,
        decimal(n).len() > 0,
        forall|i: int| 0 <= i < decimal(n).len() ==> '0' <= #[trigger] decimal(n)[i] <= '9',
    decreases n,
{
    if n < 10 {
        assert(decimal(n).drop_last() =~= Seq::<char>::empty());
        assert(decimal_value(decimal(n).drop_last()) == 0);
    } else {
        lemma_decimal_reads_back(n / 10);
        assert(decimal(n).drop_last() =~= decimal(n / 10));
    }
}

fn digit_str(d: u64) -> (out: &'static str)
    requires
        d < 10,
    ensures
        out@ == seq![digit(d as nat)],
{
    proof {
        reveal_strlit("0");
        reveal_strlit("1");
        reveal_strlit("2");
        reveal_strlit("3");
        reveal_strlit("4");
        reveal_strlit("5");
        reveal_strlit("6");
        reveal_strlit("7");
        reveal_strlit("8");
        reveal_strlit("9");
    }
    let out = if d == 0 {
        "0"
    } else if d == 1 {
        "1"
    } else if d == 2 {
        "2"
    } else if d == 3 {
        "3"
    } else if d == 4 {
        "4"
    } else if d == 5 {
        "5"
    } else if d == 6 {
        "6"
    } else if d == 7 {
        "7"
    } else if d == 8 {
        "8"
    } else {
        "9"
    };
    assert(out@ =~= seq![digit(d as nat)]);
    out
}

/// Writes a number in decimal digits.
pub fn to_decimal(n: u64) -> (out: String)
    ensures
        out@ == decimal(n as nat),
    decreases n,
{
    if n < 10 {
        digit_str(n).to_owned()
    } else {
        let mut out = to_decimal(n / 10);
        out.append(digit_str(n % 10));
        out
    }
}

/// One field on the wire: key, `=`, value.
pub open spec fn field_text(field: (Seq<char>, Seq<char>)) -> Seq<char> {
    field.0 + seq!['='] + field.1
}

/// Each field on the wire.
pub open spec fn field_texts(fields: Seq<(Seq<char>, Seq<char>)>) -> Seq<Seq<char>> {
    Seq::new(fields.len(), |i: int| field_text(fields[i]))
}

/// A line of the line protocol: the measurement, a space, the fields with
/// commas between them, a space, the timestamp.
pub open spec fn line(
    measurement: Seq<char>,
    fields: Seq<(Seq<char>, Seq<char>)>,
    timestamp: Seq<char>,
) -> Seq<char> {
    measurement + seq![' '] + join_seq(field_texts(fields), ',') + seq![' '] + timestamp
}

/// A line whose parts hold no space of their own falls into those three
/// parts again when it is cut at its spaces.
pub proof fn lemma_line_reads_back(
    measurement: Seq<char>,
    fields: Seq<(Seq<char>, Seq<char>)>,
    timestamp: Seq<char>,
)
    requires
        !measurement.contains(' '),
        !join_seq(field_texts(fields), ',').contains(' '),
        !timestamp.contains(' '),
    ensures
        split_seq(line(measurement, fields, timestamp), ' ') == seq![
            measurement,
            join_seq(field_texts(fields), ','),
            timestamp,
        ],
{
    let set = join_seq(field_texts(fields), ',');
    let parts = seq![measurement, set, timestamp];
    lemma_split_join(parts, ' ');
    let tail = parts.drop_first();
    assert(tail == seq![set, timestamp]);
    assert(tail.drop_first() == seq![timestamp]);
    assert(join_seq(tail.drop_first(), ' ') == timestamp);
    assert(join_seq(tail, ' ') == set + seq![' '] + timestamp);
    assert(join_seq(parts, ' ') == measurement + seq![' '] + (set + seq![' '] + timestamp));
    assert(join_seq(parts, ' ') == line(measurement, fields, timestamp));
}

/// Where a write is posted to.
pub open spec fn write_url(
    url: Seq<char>,
    org: Seq<char>,
    bucket: Seq<char>,
    precision: Seq<char>,
) -> Seq<char> {
    url + "/api/v2/write?org="@ + org + "&bucket="@ + bucket + "&precision="@ + precision
}

/// The `Authorization` header of a write.
pub open spec fn authorization(token: Seq<char>) -> Seq<char> {
    "Token "@ + token
}

/// One write, ready to be posted.
#[derive(Debug, Clone, PartialEq, Eq)]
pub struct WriteRequest {
    /// The address to post to.
    pub url: String,
    /// The value of the `Authorization` header.
    pub authorization: String,
    /// The body: one line of the line protocol.
    pub body: String,
}

/// What a write request holds.
pub ghost struct RequestView {
    pub url: Seq<char>,
    pub authorization: Seq<char>,
    pub body: Seq<char>,
}

impl View for WriteRequest {
    type V = RequestView;

    open spec fn view(&self) -> RequestView {
        RequestView { url: self.url@, authorization: self.authorization@, body: self.body@ }
    }
}

/// Writes one line of the line protocol.
pub fn encode_line(measurement: &String, fields: &Vec<Field>, timestamp: &String) -> (out: String)
    ensures
        out@ == line(measurement@, fields.deep_view(), timestamp@),
{
    proof {
        reveal_strlit(" ");
        reveal_strlit(",");
        reveal_strlit("=");
    }
    assert(" "@ =~= seq![' ']);
    assert(","@ =~= seq![',']);
    assert("="@ =~= seq!['=']);
    let ghost texts = field_texts(fields.deep_view());
    let mut body = measurement.clone();
    body.append(" ");
    let mut i: usize = 0;
    assert(texts.take(0) == Seq::<Seq<char>>::empty());
    while i < fields.len()
        invariant
            i <= fields.len(),
            texts == field_texts(fields.deep_view()),
            " "@ == seq![' '],
            ","@ == seq![','],
            "="@ == seq!['='],
            body@ == measurement@ + seq![' '] + join_seq(texts.take(i as int), ','),
        decreases fields.len() - i,
    {
        proof {
            lemma_join_push(texts.take(i as int), texts[i as int], ',');
            assert(texts.take(i + 1) == texts.take(i as int).push(texts[i as int]));
            assert(fields.deep_view()[i as int] == fields[i as int]@);
        }
        if i > 0 {
            body.append(",");
        }
        body.append(fields[i].key.as_str());
        body.append("=");
        body.append(fields[i].value.as_str());
        assert(body@ == measurement@ + seq![' '] + join_seq(texts.take(i + 1), ','));
        i = i + 1;
    }
    assert(texts.take(i as int) == texts);
    body.append(" ");
    body.append(timestamp.as_str());
    body
}

/// Puts one write together: where it goes, who sends it, and the line it
/// carries.
pub fn make_request(
    url: &String,
    token: &String,
    org: &String,
    bucket: &String,
    precision: &String,
    measurement: &String,
    fields: &Vec<Field>,
    timestamp: &String,
) -> (out: WriteRequest)
    ensures
        out@ == (RequestView {
            url: write_url(url@, org@, bucket@, precision@),
            authorization: authorization(token@),
            body: line(measurement@, fields.deep_view(), timestamp@),
        }),
{
    let mut authorization = "Token ".to_owned();
    authorization.append(token.as_str());
    let body = encode_line(measurement, fields, timestamp);
    let mut address = url.clone();
    address.append("/api/v2/write?org=");
    address.append(org.as_str());
    address.append("&bucket=");
    address.append(bucket.as_str());
    address.append("&precision=");
    address.append(precision.as_str());
    WriteRequest { url: address, authorization, body }
}

/// The last second that a timestamp can name: the end of the year 262142.
pub const MAX_TIMESTAMP: u64 = 8_210_266_876_799;

/// The whole seconds in a time given in milliseconds.
pub open spec fn whole_seconds(millis: nat) -> nat {
    millis / 1000
}

/// Runs seconds and nanoseconds since the epoch through chrono's calendar
/// and reads the seconds back: `NaiveDateTime::from_timestamp`, then
/// `DateTime::<Utc>::from_utc`, then `DateTime::timestamp`. The first
/// panics beyond the year 262142 and on two seconds or more of nanoseconds,
/// so both are bounded; the last returns the seconds that went in.
#[verifier::external_body]
#[allow(deprecated)]
fn utc_timestamp(secs: i64, nanos: u32) -> (out: i64)
    requires
        0 <= secs <= MAX_TIMESTAMP,
        nanos < 1_000_000_000,
    ensures
        out == secs,
{
    chrono::DateTime::<chrono::Utc>::from_utc(
        chrono::NaiveDateTime::from_timestamp(secs, nanos),
        chrono::Utc,
    ).timestamp()
}

/// The timestamp of a moment given in milliseconds since the epoch: its
/// whole seconds, as long as the calendar reaches that far.
pub fn timestamp_seconds(millis: u128) -> (out: Option<u64>)
    ensures
        out == if whole_seconds(millis as nat) <= MAX_TIMESTAMP {
            Some(whole_seconds(millis as nat) as u64)
        } else {
            None
        },
{
    let secs: u128 = millis / 1000;
    if secs > MAX_TIMESTAMP as u128 {
        return None;
    }
    let nanos: u128 = (millis % 1000) * 1_000_000;
    let stamp = utc_timestamp(secs as i64, nanos as u32);
    Some(stamp as u64)
}

/// Where and as whom points are written.
pub struct InfluxSession {
    url: String,
    token: String,
    org: String,
    bucket: String,
    precision: String,
}

/// What a session holds.
pub ghost struct SessionView {
    pub url: Seq<char>,
    pub token: Seq<char>,
    pub org: Seq<char>,
    pub bucket: Seq<char>,
    pub precision: Seq<char>,
}

impl View for InfluxSession {
    type V = SessionView;

    closed spec fn view(&self) -> SessionView {
        SessionView {
            url: self.url@,
            token: self.token@,
            org: self.org@,
            bucket: self.bucket@,
            precision: self.precision@,
        }
    }
}

/// The write of `point` at `timestamp` that a session asks for.
pub open spec fn write_of(session: SessionView, point: PointView, timestamp: nat) -> RequestView {
    RequestView {
        url: write_url(session.url, session.org, session.bucket, session.precision),
        authorization: authorization(session.token),
        body: line(point.measurement, point.fields, decimal(timestamp)),
    }
}

/// The view of a write that may not have come about.
pub open spec fn request_view(r: Option<WriteRequest>) -> Option<RequestView> {
    match r {
        Some(request) => Some(request@),
        None => None,
    }
}

impl InfluxSession {
    /// A session for one database, organisation and bucket.
    pub fn new(url: String, token: String, org: String, bucket: String, precision: Precision) -> (out:
        InfluxSession)
        ensures
            out@ == (SessionView {
                url: url@,
                token: token@,
                org: org@,
                bucket: bucket@,
                precision: precision.code(),
            }),
    {
        let precision = precision.value().to_owned();
        InfluxSession { url, token, org, bucket, precision }
    }

    /// The write that carries `point`, stamped with the whole seconds of
    /// `millis`, the time since the epoch in milliseconds. There is none
    /// where the calendar does not reach that far.
    pub fn push_points(&self, point: Point, millis: u128) -> (out: Option<WriteRequest>)
        ensures
            request_view(out) == if whole_seconds(millis as nat) <= MAX_TIMESTAMP {
                Some(write_of(self@, point@, whole_seconds(millis as nat)))
            } else {
                None
            },
    {
        match timestamp_seconds(millis) {
            Some(seconds) => {
                let ts = to_decimal(seconds);
                Some(
                    make_request(
                        &self.url,
                        &self.token,
                        &self.org,
                        &self.bucket,
                        &self.precision,
                        &point.measurement,
                        &point.field_map,
                        &ts,
                    ),
                )
            },
            None => None,
        }
    }
}

} // verus!
