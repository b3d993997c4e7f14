//! From an inbound message to a data point: the topic names the series,
//! the payload carries the reading.

use vstd::prelude::*;
use vstd::string::StringExecFns;
use vstd::utf8::{
    decode_utf8, decode_utf8_encode_utf8, encode_utf8, encode_utf8_decode_utf8, valid_utf8,
    valid_utf8_concat,
};
use crate::influx_client::{Field, Point, PointView};
use crate::text::{count, lemma_split_len, split, split_seq};

verus! {

/// Why a payload could not be decoded.
#[derive(Debug, Clone, Copy, PartialEq, Eq, Structural)]
pub enum DecodeError {
    /// The chunk at this position is no UTF-8 text.
    InvalidUtf8 { chunk: usize },
    /// The decoded mapping has no entry `value`.
    MissingValue,
}

/// The measurement of a topic that names none.
pub open spec fn default_measurement() -> Seq<char> {
    "unknown_measurement"@
}

/// The field key of a topic that names none.
pub open spec fn default_field_key() -> Seq<char> {
    "default"@
}

/// The measurement and the field key that a topic stands for.
///
/// A topic reads `bucket/f/measurement.field_key`: only its third
/// `/`-segment counts. One `.`-piece there is the measurement (unless it is
/// empty), two are measurement and field key as they stand, and any other
/// number leaves both at their defaults.
pub open spec fn parse_topic(topic: Seq<char>) -> (Seq<char>, Seq<char>) {
    let segments = split_seq(topic, '/');
    if segments.len() <= 2 {
        (default_measurement(), default_field_key())
    } else {
        let pieces = split_seq(segments[2], '.');
        if pieces.len() == 1 {
            (
                if pieces[0].len() > 0 {
                    pieces[0]
                } else {
                    default_measurement()
                },
                default_field_key(),
            )
        } else if pieces.len() == 2 {
            (pieces[0], pieces[1])
        } else {
            (default_measurement(), default_field_key())
        }
    }
}

/// A topic with fewer than three `/`-segments, that is with fewer than two
/// `/` in it, stands for the defaults.
pub proof fn lemma_short_topic_is_default(topic: Seq<char>)
    requires
        count(topic, '/') < 2,
    ensures
        split_seq(topic, '/').len() < 3,
        parse_topic(topic) == (default_measurement(), default_field_key()),
{
    lemma_split_len(topic, '/');
}

/// Reading a topic is repeatable: two readings of topics with the same
/// characters come to the same measurement and the same field key.
pub proof fn lemma_topic_parser_repeatable(
    first: Seq<char>,
    second: Seq<char>,
    first_out: (String, String),
    second_out: (String, String),
)
    requires
        first == second,
        (first_out.0@, first_out.1@) == parse_topic(first),
        (second_out.0@, second_out.1@) == parse_topic(second),
    ensures
        first_out.0@ == second_out.0@,
        first_out.1@ == second_out.1@,
{
}

/// Reads measurement and field key off a topic.
pub fn topic_parser(topic: &String) -> (out: (String, String))
    ensures
        (out.0@, out.1@) == parse_topic(topic@),
        split_seq(topic@, '/').len() < 3 ==> out.0@ == default_measurement() && out.1@
            == default_field_key(),
{
    let measurement = "unknown_measurement".to_owned();
    let field_key = "default".to_owned();
    let segments = split(topic.as_str(), '/');
    if segments.len() <= 2 {
        return (measurement, field_key);
    }
    assert(segments.deep_view()[2] == segments[2]@);
    let pieces = split(segments[2].as_str(), '.');
    if pieces.len() == 1 {
        assert(pieces.deep_view()[0] == pieces[0]@);
        if !pieces[0].as_str().is_empty() {
            (pieces[0].clone(), field_key)
        } else {
            (measurement, field_key)
        }
    } else if pieces.len() == 2 {
        assert(pieces.deep_view()[0] == pieces[0]@);
        assert(pieces.deep_view()[1] == pieces[1]@);
        (pieces[0].clone(), pieces[1].clone())
    } else {
        (measurement, field_key)
    }
}

/// `bytes::Bytes`, the buffer that a broker hands a chunk over in. Nothing
/// is known of it but what `chunk_bytes` names.
#[verifier::external_type_specification]
#[verifier::external_body]
pub struct ExBytes(bytes::Bytes);

/// `std::string::FromUtf8Error`, which `String::from_utf8` returns for
/// bytes that are no UTF-8. It is only told apart from success.
#[verifier::external_type_specification]
#[verifier::external_body]
pub struct ExFromUtf8Error(std::string::FromUtf8Error);

/// The bytes that a chunk holds, in order.
pub uninterp spec fn chunk_bytes(chunk: bytes::Bytes) -> Seq<u8>;

/// The lower-case form of a text, as `str::to_lowercase` gives it.
pub uninterp spec fn lowercase(text: Seq<char>) -> Seq<char>;

/// Copies a chunk out of its buffer, through `Deref<Target = [u8]>` of
/// `bytes::Bytes` and `to_vec`: the copy holds the chunk's bytes.
#[verifier::external_body]
fn chunk_to_vec(chunk: &bytes::Bytes) -> (out: Vec<u8>)
    ensures
        out@ == chunk_bytes(*chunk),
{
    chunk.to_vec()
}

/// `String::from_utf8`: succeeds exactly on well-formed UTF-8, and the
/// string then holds the characters that the bytes encode.
#[verifier::external_body]
fn string_from_utf8(bytes: Vec<u8>) -> (out: Result<String, std::string::FromUtf8Error>)
    ensures
        out is Ok <==> valid_utf8(bytes@),
        out matches Ok(s) ==> s@ == decode_utf8(bytes@),
{
    String::from_utf8(bytes)
}

/// `str::to_lowercase`: the result is a function of the text alone, here
/// called `lowercase`.
#[verifier::external_body]
fn to_lowercase(text: &str) -> (out: String)
    ensures
        out@ == lowercase(text@),
{
    text.to_lowercase()
}

/// The bytes of each chunk of a payload.
pub open spec fn payload_bytes(payload: Seq<bytes::Bytes>) -> Seq<Seq<u8>> {
    Seq::new(payload.len(), |i: int| chunk_bytes(payload[i]))
}

/// Every chunk is well-formed UTF-8 on its own.
pub open spec fn all_valid(chunks: Seq<Seq<u8>>) -> bool {
    forall|i: int| 0 <= i < chunks.len() ==> valid_utf8(#[trigger] chunks[i])
}

/// `at` is the first chunk that is not well-formed UTF-8.
pub open spec fn is_first_invalid(chunks: Seq<Seq<u8>>, at: int) -> bool {
    &&& 0 <= at < chunks.len()
    &&& !valid_utf8(chunks[at])
    &&& forall|j: int| 0 <= j < at ==> valid_utf8(#[trigger] chunks[j])
}

/// The position of the first chunk that is not well-formed UTF-8.
pub open spec fn first_invalid(chunks: Seq<Seq<u8>>) -> int {
    choose|at: int| is_first_invalid(chunks, at)
}

/// The characters of all chunks, each decoded on its own, in order.
pub open spec fn decoded(chunks: Seq<Seq<u8>>) -> Seq<char>
    decreases chunks.len(),
{
    if chunks.len() == 0 {
        Seq::empty()
    } else {
        decoded(chunks.drop_last()) + decode_utf8(chunks.last())
    }
}

/// The text of a payload: its chunks decoded, put together and lower-cased;
/// or which chunk is the first that cannot be decoded.
pub open spec fn bytes_to_text(chunks: Seq<Seq<u8>>) -> Result<Seq<char>, DecodeError> {
    if all_valid(chunks) {
        Ok(lowercase(decoded(chunks)))
    } else {
        Err(DecodeError::InvalidUtf8 { chunk: first_invalid(chunks) as usize })
    }
}

/// All chunks as one run of bytes.
pub open spec fn flattened(chunks: Seq<Seq<u8>>) -> Seq<u8>
    decreases chunks.len(),
{
    if chunks.len() == 0 {
        Seq::empty()
    } else {
        flattened(chunks.drop_last()) + chunks.last()
    }
}

/// Encoding two texts in a row is encoding each and putting the bytes
/// together.
pub proof fn lemma_encode_concat(a: Seq<char>, b: Seq<char>)
    ensures
        encode_utf8(a + b) == encode_utf8(a) + encode_utf8(b),
    decreases a.len(),
{
    if a.len() == 0 {
        assert(a + b == b);
    } else {
        lemma_encode_concat(a.drop_first(), b);
        assert((a + b).drop_first() == a.drop_first() + b);
    }
}

/// Two runs of well-formed UTF-8 decode in a row to what each decodes to
/// on its own.
pub proof fn lemma_decode_concat(a: Seq<u8>, b: Seq<u8>)
    requires
        valid_utf8(a),
        valid_utf8(b),
    ensures
        valid_utf8(a + b),
        decode_utf8(a + b) == decode_utf8(a) + decode_utf8(b),
{
    valid_utf8_concat(a, b);
    decode_utf8_encode_utf8(a);
    decode_utf8_encode_utf8(b);
    lemma_encode_concat(decode_utf8(a), decode_utf8(b));
    encode_utf8_decode_utf8(decode_utf8(a) + decode_utf8(b));
}

/// Where every chunk is well-formed, it makes no difference that each is
/// decoded on its own: the text is that of the payload's bytes in one run.
pub proof fn lemma_decoded_is_whole(chunks: Seq<Seq<u8>>)
    requires
        all_valid(chunks),
    ensures
        valid_utf8(flattened(chunks)),
        decoded(chunks) == decode_utf8(flattened(chunks)),
    decreases chunks.len(),
{
    if chunks.len() > 0 {
        let front = chunks.drop_last();
        assert forall|i: int| 0 <= i < front.len() implies valid_utf8(#[trigger] front[i]) by {
            assert(front[i] == chunks[i]);
        }
        lemma_decoded_is_whole(front);
        lemma_decode_concat(flattened(front), chunks.last());
    }
}

/// There is at most one first invalid chunk.
pub proof fn lemma_first_invalid_unique(chunks: Seq<Seq<u8>>, at: int)
    requires
        is_first_invalid(chunks, at),
    ensures
        !all_valid(chunks),
        first_invalid(chunks) == at,
{
    let other = first_invalid(chunks);
    assert(is_first_invalid(chunks, other));
    if other < at {
        assert(valid_utf8(chunks[other]));
    } else if at < other {
        assert(valid_utf8(chunks[at]));
    }
}

/// Decoding is repeatable: payloads that hold the same bytes in the same
/// chunks decode to the same text, or fail at the same chunk.
pub proof fn lemma_decoding_repeatable(
    first: Seq<bytes::Bytes>,
    second: Seq<bytes::Bytes>,
    first_out: Result<String, DecodeError>,
    second_out: Result<String, DecodeError>,
)
    requires
        payload_bytes(first) == payload_bytes(second),
        text_view(first_out) == bytes_to_text(payload_bytes(first)),
        text_view(second_out) == bytes_to_text(payload_bytes(second)),
    ensures
        text_view(first_out) == text_view(second_out),
{
}

/// The view of a decoding result.
pub open spec fn text_view(r: Result<String, DecodeError>) -> Result<Seq<char>, DecodeError> {
    match r {
        Ok(s) => Ok(s@),
        Err(e) => Err(e),
    }
}

/// Decodes the chunks of a payload into one lower-case text.
pub fn deserialize_bytes_to_str(payload: &Vec<bytes::Bytes>) -> (out: Result<String, DecodeError>)
    ensures
        text_view(out) == bytes_to_text(payload_bytes(payload@)),
{
    let ghost chunks = payload_bytes(payload@);
    let mut buf = String::new();
    let mut i: usize = 0;
    while i < payload.len()
        invariant
            i <= payload.len(),
            chunks == payload_bytes(payload@),
            forall|j: int| 0 <= j < i ==> valid_utf8(#[trigger] chunks[j]),
            buf@ == decoded(chunks.take(i as int)),
        decreases payload.len() - i,
    {
        let bytes = chunk_to_vec(&payload[i]);
        assert(bytes@ == chunks[i as int]);
        match string_from_utf8(bytes) {
            Ok(s) => {
                proof {
                    let upto = chunks.take(i + 1);
                    assert(upto.drop_last() == chunks.take(i as int));
                    assert(upto.last() == chunks[i as int]);
                }
                buf.append(s.as_str());
            },
            Err(_) => {
                proof {
                    lemma_first_invalid_unique(chunks, i as int);
                }
                return Err(DecodeError::InvalidUtf8 { chunk: i });
            },
        }
        i = i + 1;
    }
    assert(chunks.take(i as int) == chunks);
    Ok(to_lowercase(buf.as_str()))
}

/// The key under which a payload carries its reading.
pub open spec fn value_key() -> Seq<char> {
    "value"@
}

/// The mapping that stands in for a payload that is no JSON mapping of
/// numbers: its only entry binds `value` to zero.
pub open spec fn default_fields() -> Seq<(Seq<char>, Seq<char>)> {
    seq![(value_key(), "0"@)]
}

/// Some entry of `fields` has this key.
pub open spec fn has_key(fields: Seq<(Seq<char>, Seq<char>)>, key: Seq<char>) -> bool {
    exists|i: int| 0 <= i < fields.len() && (#[trigger] fields[i]).0 == key
}

/// `at` is the first entry of `fields` with this key.
pub open spec fn is_first_with_key(
    fields: Seq<(Seq<char>, Seq<char>)>,
    key: Seq<char>,
    at: int,
) -> bool {
    &&& 0 <= at < fields.len()
    &&& fields[at].0 == key
    &&& forall|j: int| 0 <= j < at ==> (#[trigger] fields[j]).0 != key
}

/// What `key` is bound to in `fields`: the value of its first entry.
pub open spec fn value_of(fields: Seq<(Seq<char>, Seq<char>)>, key: Seq<char>) -> Seq<char> {
    fields[choose|at: int| is_first_with_key(fields, key, at)].1
}

/// There is at most one first entry with a key.
pub proof fn lemma_first_with_key_unique(
    fields: Seq<(Seq<char>, Seq<char>)>,
    key: Seq<char>,
    at: int,
)
    requires
        is_first_with_key(fields, key, at),
    ensures
        has_key(fields, key),
        value_of(fields, key) == fields[at].1,
{
    let other = choose|k: int| is_first_with_key(fields, key, k);
    assert(is_first_with_key(fields, key, other));
    if other < at {
        assert(fields[other].0 != key);
    } else if at < other {
        assert(fields[at].0 != key);
    }
}

/// The position of the first entry of `fields` with this key.
pub fn find_key(fields: &Vec<Field>, key: &String) -> (out: Option<usize>)
    ensures
        out is None <==> !has_key(fields.deep_view(), key@),
        out matches Some(at) ==> is_first_with_key(fields.deep_view(), key@, at as int),
{
    let mut i: usize = 0;
    while i < fields.len()
        invariant
            i <= fields.len(),
            forall|j: int| 0 <= j < i ==> (#[trigger] fields.deep_view()[j]).0 != key@,
        decreases fields.len() - i,
    {
        assert(fields.deep_view()[i as int] == fields[i as int]@);
        if fields[i].key == *key {
            proof {
                lemma_first_with_key_unique(fields.deep_view(), key@, i as int);
            }
            return Some(i);
        }
        i = i + 1;
    }
    None
}

/// The result of parsing a payload as a JSON mapping of numbers, where the
/// parser rejected it: `None`.
pub open spec fn parsed_view(parsed: Option<Vec<Field>>) -> Option<Seq<(Seq<char>, Seq<char>)>> {
    match parsed {
        Some(fields) => Some(fields.deep_view()),
        None => None,
    }
}

/// The mapping that a payload is read as: what the parser found, or the
/// default where it found nothing.
pub open spec fn fields_or_default(parsed: Option<Seq<(Seq<char>, Seq<char>)>>) -> Seq<
    (Seq<char>, Seq<char>),
> {
    match parsed {
        Some(fields) => fields,
        None => default_fields(),
    }
}

/// That mapping, provided it binds `value`.
pub open spec fn checked_fields(parsed: Option<Seq<(Seq<char>, Seq<char>)>>) -> Result<
    Seq<(Seq<char>, Seq<char>)>,
    DecodeError,
> {
    let fields = fields_or_default(parsed);
    if has_key(fields, value_key()) {
        Ok(fields)
    } else {
        Err(DecodeError::MissingValue)
    }
}

/// The view of a checked mapping.
pub open spec fn fields_view(r: Result<Vec<Field>, DecodeError>) -> Result<
    Seq<(Seq<char>, Seq<char>)>,
    DecodeError,
> {
    match r {
        Ok(fields) => Ok(fields.deep_view()),
        Err(e) => Err(e),
    }
}

/// The default mapping always binds `value`, to zero.
pub proof fn lemma_default_has_value()
    ensures
        has_key(default_fields(), value_key()),
        value_of(default_fields(), value_key()) == "0"@,
        checked_fields(None) == Ok::<Seq<(Seq<char>, Seq<char>)>, DecodeError>(default_fields()),
{
    assert(default_fields()[0].0 == value_key());
    lemma_first_with_key_unique(default_fields(), value_key(), 0);
}

/// Settles which mapping a payload is read as, and insists on `value`.
pub fn json_to_hashmap(parsed: Option<Vec<Field>>) -> (out: Result<Vec<Field>, DecodeError>)
    ensures
        fields_view(out) == checked_fields(parsed_view(parsed)),
        parsed is None ==> fields_view(out) == Ok::<Seq<(Seq<char>, Seq<char>)>, DecodeError>(
            default_fields(),
        ),
{
    proof {
        lemma_default_has_value();
    }
    let key = "value".to_owned();
    let fields = match parsed {
        Some(fields) => fields,
        None => {
            let mut fields: Vec<Field> = Vec::new();
            fields.push(Field { key: "value".to_owned(), value: "0".to_owned() });
            assert(fields.deep_view() == default_fields());
            fields
        },
    };
    match find_key(&fields, &key) {
        Some(_) => Ok(fields),
        None => Err(DecodeError::MissingValue),
    }
}

/// A mapping is taken for the default when it has one entry, and that
/// entry binds `value` to zero of either sign.
pub open spec fn is_default(fields: Seq<(Seq<char>, Seq<char>)>) -> bool {
    &&& fields.len() == 1
    &&& fields[0].0 == value_key()
    &&& (fields[0].1 == "0"@ || fields[0].1 == "-0"@)
}

/// Tells whether a mapping equals the default, which is when its payload
/// is worth a warning: either nothing could be read from it, or what was
/// read cannot be told from that.
pub fn is_default_fields(fields: &Vec<Field>) -> (out: bool)
    ensures
        out == is_default(fields.deep_view()),
{
    if fields.len() != 1 {
        return false;
    }
    assert(fields.deep_view()[0] == fields[0]@);
    let key = "value".to_owned();
    let zero = "0".to_owned();
    let negative_zero = "-0".to_owned();
    fields[0].key == key && (fields[0].value == zero || fields[0].value == negative_zero)
}

/// The point that a topic and a parsed payload make: the topic gives the
/// measurement and the key of the only field, the payload gives the
/// field's value.
pub open spec fn build_point(topic: Seq<char>, parsed: Option<Seq<(Seq<char>, Seq<char>)>>) -> Result<
    PointView,
    DecodeError,
> {
    match checked_fields(parsed) {
        Ok(fields) => Ok(
            PointView {
                measurement: parse_topic(topic).0,
                fields: seq![(parse_topic(topic).1, value_of(fields, value_key()))],
            },
        ),
        Err(e) => Err(e),
    }
}

/// Building a point is repeatable: the same topic and the same parsed
/// payload give the same point, or the same error.
pub proof fn lemma_building_repeatable(
    topic: Seq<char>,
    parsed: Option<Seq<(Seq<char>, Seq<char>)>>,
    first_out: Result<Point, DecodeError>,
    second_out: Result<Point, DecodeError>,
)
    requires
        point_view(first_out) == build_point(topic, parsed),
        point_view(second_out) == build_point(topic, parsed),
    ensures
        point_view(first_out) == point_view(second_out),
{
}

/// A payload that the parser rejected reads as zero: the point carries
/// the topic's names and the value `0`, and building it cannot fail.
pub proof fn lemma_rejected_payload_is_zero(topic: Seq<char>)
    ensures
        build_point(topic, None) == Ok::<PointView, DecodeError>(
            PointView {
                measurement: parse_topic(topic).0,
                fields: seq![(parse_topic(topic).1, "0"@)],
            },
        ),
{
    lemma_default_has_value();
}

/// The view of a built point.
pub open spec fn point_view(r: Result<Point, DecodeError>) -> Result<PointView, DecodeError> {
    match r {
        Ok(point) => Ok(point@),
        Err(e) => Err(e),
    }
}

/// Builds the point of one message from its topic and its parsed payload.
pub fn deserialize_message(topic: &String, parsed: Option<Vec<Field>>) -> (out: Result<
    Point,
    DecodeError,
>)
    ensures
        point_view(out) == build_point(topic@, parsed_view(parsed)),
        out matches Ok(point) ==> point.wf() && point.field_map.len() == 1,
        parsed is None ==> out is Ok,
{
    let (measurement, field_key) = topic_parser(topic);
    let fields = match json_to_hashmap(parsed) {
        Ok(fields) => fields,
        Err(e) => {
            proof {
                lemma_default_has_value();
            }
            return Err(e);
        },
    };
    let key = "value".to_owned();
    match find_key(&fields, &key) {
        Some(at) => {
            proof {
                lemma_first_with_key_unique(fields.deep_view(), key@, at as int);
            }
            assert(fields.deep_view()[at as int] == fields[at as int]@);
            let value = fields[at].value.clone();
            let mut field_map: Vec<Field> = Vec::new();
            field_map.push(Field { key: field_key, value });
            let point = Point { measurement, field_map };
            assert(point@.fields == seq![(parse_topic(topic@).1, value_of(fields.deep_view(), value_key()))]);
            Ok(point)
        },
        None => Err(DecodeError::MissingValue),
    }
}

} // verus!
