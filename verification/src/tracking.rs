//! Reading the hand tracker's messages.
//!
//! Each line that the tracker prints is a JSON object. It may carry a list of
//! hands (`"hands"`, each with `"landmarks"` and an optional `"handedness"`),
//! or a single hand's `"landmarks"`, and it may carry a preview frame
//! (`"frame_id"` and the JPEG bytes in standard base64, `"preview_jpeg_b64"`).
use base64::Engine;
use vstd::prelude::*;
use crate::json::{
    get, json_as_array, json_as_number, json_as_str, json_as_u64, json_get, JsonNumber, JsonValue,
};

verus! {

/// Number of landmarks the tracker reports for one hand.
pub const LANDMARK_COUNT: usize = 21;

/// One landmark: its normalised image coordinates, as the tracker wrote them.
#[derive(Clone, Copy, PartialEq, Eq, Debug)]
pub struct Point {
    pub x: JsonNumber,
    pub y: JsonNumber,
}

/// A hand as the tracker reports it: its landmarks (wrist first) and, when
/// the tracker tells, which hand it is.
#[derive(Clone, Debug)]
pub struct TrackedHand {
    pub landmarks: Vec<Point>,
    pub handedness: Option<String>,
}

impl View for TrackedHand {
    type V = (Seq<Point>, Option<Seq<char>>);

    open spec fn view(&self) -> (Seq<Point>, Option<Seq<char>>) {
        (
            self.landmarks@,
            match self.handedness {
                Some(s) => Some(s@),
                None => None,
            },
        )
    }
}

/// A landmark read from `[x, y, ..]`: an array whose first two elements are numbers.
pub open spec fn spec_point(value: JsonValue) -> Option<Point> {
    match json_as_array(value) {
        Some(coords) => if coords.len() >= 2 && json_as_number(coords[0]) is Some && json_as_number(
            coords[1],
        ) is Some {
            Some(Point { x: json_as_number(coords[0]).unwrap(), y: json_as_number(coords[1]).unwrap() })
        } else {
            None
        },
        None => None,
    }
}

/// The landmarks of a hand: an array of exactly 21 points, each readable.
pub open spec fn spec_landmarks(value: JsonValue) -> Option<Seq<Point>> {
    match json_as_array(value) {
        Some(items) => if items.len() == LANDMARK_COUNT && (forall|i: int|
            0 <= i < items.len() ==> #[trigger] spec_point(items[i]) is Some) {
            Some(Seq::new(items.len(), |i: int| spec_point(items[i]).unwrap()))
        } else {
            None
        },
        None => None,
    }
}

/// One entry of `"hands"`: its `"landmarks"` must read, its `"handedness"` is
/// kept when it is a string.
pub open spec fn spec_hand(value: JsonValue) -> Option<(Seq<Point>, Option<Seq<char>>)> {
    match json_get(value, "landmarks"@) {
        Some(l) => match spec_landmarks(l) {
            Some(points) => Some(
                (
                    points,
                    match json_get(value, "handedness"@) {
                        Some(h) => json_as_str(h),
                        None => None,
                    },
                ),
            ),
            None => None,
        },
        None => None,
    }
}

/// A message's single hand, from its top-level `"landmarks"`.
pub open spec fn spec_single_hand(value: JsonValue) -> Option<Seq<(Seq<Point>, Option<Seq<char>>)>> {
    match json_get(value, "landmarks"@) {
        Some(l) => match spec_landmarks(l) {
            Some(points) => Some(seq![(points, None::<Seq<char>>)]),
            None => None,
        },
        None => None,
    }
}

/// The hands of a message. A `"hands"` array in which some entry does not
/// read gives no hands at all; a non-empty one whose entries all read gives
/// them in order; otherwise the message's own `"landmarks"` give one hand.
pub open spec fn spec_hands(value: JsonValue) -> Option<Seq<(Seq<Point>, Option<Seq<char>>)>> {
    match json_get(value, "hands"@) {
        Some(JsonValue::Array(hands)) => if exists|i: int|
            0 <= i < hands@.len() && #[trigger] spec_hand(hands@[i]) is None {
            None
        } else if hands@.len() > 0 {
            Some(Seq::new(hands@.len(), |i: int| spec_hand(hands@[i]).unwrap()))
        } else {
            spec_single_hand(value)
        },
        _ => spec_single_hand(value),
    }
}

/// A hand always has exactly 21 landmarks.
pub proof fn lemma_landmarks_count(value: JsonValue)
    ensures
        spec_landmarks(value) matches Some(points) ==> points.len() == LANDMARK_COUNT,
{
}

/// A message that yields hands yields at least one, and each has its 21
/// landmarks.
pub proof fn lemma_hands_not_empty(value: JsonValue)
    ensures
        spec_hands(value) matches Some(hands) ==> {
            &&& hands.len() > 0
            &&& forall|i: int| 0 <= i < hands.len() ==> (#[trigger] hands[i]).0.len() == LANDMARK_COUNT
        },
{
    match json_get(value, "hands"@) {
        Some(JsonValue::Array(list)) => {
            if !(exists|i: int| 0 <= i < list@.len() && #[trigger] spec_hand(list@[i]) is None)
                && list@.len() > 0 {
                let hands = Seq::new(list@.len(), |k: int| spec_hand(list@[k]).unwrap());
                assert forall|i: int| 0 <= i < hands.len() implies (#[trigger] hands[i]).0.len()
                    == LANDMARK_COUNT by {
                    assert(spec_hand(list@[i]) is Some);
                }
            }
        },
        _ => {},
    }
}

/// A message without a usable `"hands"` list yields at most its one
/// top-level hand, whose handedness is unknown.
pub proof fn lemma_single_hand_unknown_handedness(value: JsonValue)
    requires
        !(json_get(value, "hands"@) matches Some(JsonValue::Array(list)) && list@.len() > 0),
    ensures
        spec_hands(value) matches Some(hands) ==> hands.len() == 1 && hands[0].1 is None,
{
}

/// A point is read from the first two elements of an array, which must be
/// numbers: `x` is the first, `y` the second.
pub proof fn lemma_point_reads_first_two(value: JsonValue)
    ensures
        spec_point(value) is Some <==> (value matches JsonValue::Array(c) && c@.len() >= 2
            && c@[0] is Number && c@[1] is Number),
        match value {
            JsonValue::Array(c) => (c@.len() >= 2 && c@[0] is Number && c@[1] is Number) ==> spec_point(
                value,
            ) == Some(Point { x: c@[0]->Number_0, y: c@[1]->Number_0 }),
            _ => true,
        },
{
}

/// Landmark `i` of a hand is the point read from element `i` of its array,
/// for every `i`, and the array has exactly 21 elements.
pub proof fn lemma_landmarks_pointwise(value: JsonValue)
    ensures
        spec_landmarks(value) matches Some(points) ==> {
            &&& value matches JsonValue::Array(items)
            &&& items@.len() == 21
            &&& points.len() == 21
            &&& forall|i: int| 0 <= i < 21 ==> spec_point(#[trigger] items@[i]) == Some(points[i])
        },
        (value matches JsonValue::Array(items) && items@.len() == 21 && (forall|i: int|
            0 <= i < 21 ==> #[trigger] spec_point(items@[i]) is Some)) ==> spec_landmarks(value) is Some,
{
}

/// For a message whose `"hands"` list is non-empty and whose every entry
/// reads, hand `i` of the result has exactly the landmarks read from the
/// `"landmarks"` member of entry `i`, and the handedness that entry's
/// `"handedness"` string names (none when it is not a string), for every
/// `i`, and there are as many hands as entries.
pub proof fn lemma_hands_follow_entries(value: JsonValue, list: Vec<JsonValue>)
    requires
        json_get(value, "hands"@) == Some(JsonValue::Array(list)),
        list@.len() > 0,
        spec_hands(value) is Some,
    ensures
        spec_hands(value).unwrap().len() == list@.len(),
        forall|i: int| 0 <= i < list@.len() ==> {
            &&& json_get(#[trigger] list@[i], "landmarks"@) matches Some(l)
            &&& spec_landmarks(l) == Some(spec_hands(value).unwrap()[i].0)
            &&& spec_hands(value).unwrap()[i].1 == match json_get(list@[i], "handedness"@) {
                Some(h) => json_as_str(h),
                None => None,
            }
        },
{
    assert forall|i: int| 0 <= i < list@.len() implies {
        &&& json_get(#[trigger] list@[i], "landmarks"@) matches Some(l)
        &&& spec_landmarks(l) == Some(spec_hands(value).unwrap()[i].0)
        &&& spec_hands(value).unwrap()[i].1 == match json_get(list@[i], "handedness"@) {
            Some(h) => json_as_str(h),
            None => None,
        }
    } by {
        assert(spec_hand(list@[i]) is Some);
    }
}

/// For a message whose `"hands"` member is not a non-empty array, the one
/// hand has the landmarks read from its top-level `"landmarks"` member.
pub proof fn lemma_single_hand_landmarks(value: JsonValue)
    requires
        !(json_get(value, "hands"@) matches Some(JsonValue::Array(list)) && list@.len() > 0),
    ensures
        spec_hands(value) is Some <==> (json_get(value, "landmarks"@) matches Some(l) && spec_landmarks(
            l,
        ) is Some),
        spec_hands(value) matches Some(hands) ==> hands.len() == 1 && Some(hands[0].0) == spec_landmarks(
            json_get(value, "landmarks"@).unwrap(),
        ) && hands[0].1 is None,
{
}

/// The preview of a message is its `"frame_id"`, when that is a
/// non-negative integer, with the bytes that its `"preview_jpeg_b64"`
/// string decodes to; there is none when either is missing or the text does
/// not decode.
pub proof fn lemma_preview_parts(value: JsonValue)
    ensures
        spec_preview(value) matches Some((id, bytes)) ==> {
            &&& json_get(value, "frame_id"@) == Some(JsonValue::Number(JsonNumber::PosInt(id)))
            &&& json_get(value, "preview_jpeg_b64"@) matches Some(JsonValue::String(t))
            &&& base64_standard_decoding(t@) == Some(bytes)
        },
        (json_get(value, "frame_id"@) matches Some(JsonValue::Number(JsonNumber::PosInt(id)))
            && json_get(value, "preview_jpeg_b64"@) matches Some(JsonValue::String(t))
            && base64_standard_decoding(t@) is Some) ==> spec_preview(value) is Some,
{
}

/// The view of an optional list of landmarks.
pub open spec fn points_view(points: Option<Vec<Point>>) -> Option<Seq<Point>> {
    match points {
        Some(v) => Some(v@),
        None => None,
    }
}

/// The view of an optional list of hands.
pub open spec fn hands_view(hands: Option<Vec<TrackedHand>>) -> Option<Seq<(Seq<Point>, Option<Seq<char>>)>> {
    match hands {
        Some(v) => Some(v@.map_values(|h: TrackedHand| h@)),
        None => None,
    }
}

fn parse_point(value: &JsonValue) -> (res: Option<Point>)
    ensures
        res == spec_point(*value),
{
    match value {
        JsonValue::Array(coords) => {
            if coords.len() < 2 {
                return None;
            }
            match (&coords[0], &coords[1]) {
                (JsonValue::Number(x), JsonValue::Number(y)) => Some(Point { x: *x, y: *y }),
                _ => None,
            }
        },
        _ => None,
    }
}

/// Reads a hand's landmarks: an array of exactly 21 `[x, y]` points.
pub fn parse_landmarks_value(value: &JsonValue) -> (res: Option<Vec<Point>>)
    ensures
        points_view(res) == spec_landmarks(*value),
{
    let items = match value {
        JsonValue::Array(items) => items,
        _ => return None,
    };
    if items.len() != LANDMARK_COUNT {
        return None;
    }
    let mut landmarks: Vec<Point> = Vec::new();
    let mut i: usize = 0;
    while i < items.len()
        invariant
            i <= items.len(),
            json_as_array(*value) == Some(items@),
            items@.len() == LANDMARK_COUNT,
            landmarks@.len() == i,
            forall|j: int| 0 <= j < i ==> spec_point(items@[j]) == Some(#[trigger] landmarks@[j]),
        decreases items.len() - i,
    {
        match parse_point(&items[i]) {
            Some(p) => {
                landmarks.push(p);
            },
            None => {
                assert(spec_point(items@[i as int]) is None);
                return None;
            },
        }
        i = i + 1;
    }
    assert forall|k: int| 0 <= k < items@.len() implies #[trigger] spec_point(items@[k]) is Some by {
        assert(spec_point(items@[k]) == Some(landmarks@[k]));
    }
    assert(landmarks@ =~= Seq::new(items@.len(), |k: int| spec_point(items@[k]).unwrap()));
    Some(landmarks)
}


fn parse_hand(value: &JsonValue) -> (res: Option<TrackedHand>)
    ensures
        match res {
            Some(h) => spec_hand(*value) == Some(h@),
            None => spec_hand(*value) is None,
        },
{
    let landmarks_value = match get(value, "landmarks") {
        Some(l) => l,
        None => return None,
    };
    let landmarks = match parse_landmarks_value(landmarks_value) {
        Some(l) => l,
        None => return None,
    };
    let handedness = match get(value, "handedness") {
        Some(JsonValue::String(s)) => Some(s.clone()),
        _ => None,
    };
    Some(TrackedHand { landmarks, handedness })
}

fn parse_single_hand(value: &JsonValue) -> (res: Option<Vec<TrackedHand>>)
    ensures
        hands_view(res) == spec_single_hand(*value),
{
    let landmarks_value = match get(value, "landmarks") {
        Some(l) => l,
        None => return None,
    };
    let landmarks = match parse_landmarks_value(landmarks_value) {
        Some(l) => l,
        None => return None,
    };
    let mut hands: Vec<TrackedHand> = Vec::new();
    hands.push(TrackedHand { landmarks, handedness: None });
    assert(hands@.map_values(|h: TrackedHand| h@) =~= seq![(landmarks@, None::<Seq<char>>)]);
    Some(hands)
}

/// Reads the hands of a message (see `spec_hands`).
pub fn parse_hands(value: &JsonValue) -> (res: Option<Vec<TrackedHand>>)
    ensures
        hands_view(res) == spec_hands(*value),
{
    if let Some(JsonValue::Array(hands)) = get(value, "hands") {
        let mut parsed: Vec<TrackedHand> = Vec::new();
        let mut i: usize = 0;
        while i < hands.len()
            invariant
                i <= hands.len(),
                json_get(*value, "hands"@) == Some(JsonValue::Array(*hands)),
                parsed@.len() == i,
                forall|j: int| 0 <= j < i ==> spec_hand(hands@[j]) == Some(#[trigger] parsed@[j]@),
            decreases hands.len() - i,
        {
            match parse_hand(&hands[i]) {
                Some(h) => {
                    parsed.push(h);
                },
                None => {
                    assert(spec_hand(hands@[i as int]) is None);
                    return None;
                },
            }
            i = i + 1;
        }
        assert forall|k: int| 0 <= k < hands@.len() implies #[trigger] spec_hand(hands@[k]) is Some by {
            assert(spec_hand(hands@[k]) == Some(parsed@[k]@));
        }
        if parsed.len() > 0 {
            assert(parsed@.map_values(|h: TrackedHand| h@) =~= Seq::new(
                hands@.len(),
                |k: int| spec_hand(hands@[k]).unwrap(),
            ));
            return Some(parsed);
        }
    }
    parse_single_hand(value)
}

/// What standard base64 decoding (with padding) makes of `text`:
/// the bytes, or `None` where `text` is not valid standard base64.
pub uninterp spec fn base64_standard_decoding(text: Seq<char>) -> Option<Seq<u8>>;

/// Decodes `text` with `base64::engine::general_purpose::STANDARD`
/// (`Engine::decode`). Trusted: the result is the named decoding of `text`,
/// `None` where the crate reports a decoding error.
#[verifier::external_body]
fn decode_base64_standard(text: &str) -> (res: Option<Vec<u8>>)
    ensures
        match res {
            Some(bytes) => base64_standard_decoding(text@) == Some(bytes@),
            None => base64_standard_decoding(text@) is None,
        },
{
    base64::engine::general_purpose::STANDARD.decode(text).ok()
}

/// The preview frame of a message: its `"frame_id"` (a non-negative integer)
/// and the bytes that its `"preview_jpeg_b64"` string decodes to.
pub open spec fn spec_preview(value: JsonValue) -> Option<(u64, Seq<u8>)> {
    let id = match json_get(value, "frame_id"@) {
        Some(v) => json_as_u64(v),
        None => None,
    };
    let text = match json_get(value, "preview_jpeg_b64"@) {
        Some(v) => json_as_str(v),
        None => None,
    };
    match (id, text) {
        (Some(id), Some(t)) => match base64_standard_decoding(t) {
            Some(bytes) => Some((id, bytes)),
            None => None,
        },
        _ => None,
    }
}

/// The view of an optional preview frame.
pub open spec fn preview_view(preview: Option<(u64, Vec<u8>)>) -> Option<(u64, Seq<u8>)> {
    match preview {
        Some((id, bytes)) => Some((id, bytes@)),
        None => None,
    }
}

/// Pairs a frame id with the outcome of decoding the frame's bytes: no
/// preview where they did not decode.
pub fn preview_from_decoded(frame_id: u64, decoded: Option<Vec<u8>>) -> (res: Option<(u64, Vec<u8>)>)
    ensures
        preview_view(res) == match decoded {
            Some(bytes) => Some((frame_id, bytes@)),
            None => None::<(u64, Seq<u8>)>,
        },
{
    match decoded {
        Some(bytes) => Some((frame_id, bytes)),
        None => None,
    }
}

/// Reads the preview frame of a message (see `spec_preview`).
pub fn parse_preview(value: &JsonValue) -> (res: Option<(u64, Vec<u8>)>)
    ensures
        preview_view(res) == spec_preview(*value),
{
    let frame_id = match get(value, "frame_id") {
        Some(JsonValue::Number(JsonNumber::PosInt(id))) => *id,
        _ => return None,
    };
    let text = match get(value, "preview_jpeg_b64") {
        Some(JsonValue::String(t)) => t,
        _ => return None,
    };
    let decoded = decode_base64_standard(text.as_str());
    preview_from_decoded(frame_id, decoded)
}

/// Which hand the first of `hands` is, as the tracker named it, or
/// `"unknown"` when there is no hand or the tracker did not tell.
pub fn primary_handedness(hands: &Vec<TrackedHand>) -> (name: &str)
    ensures
        name@ == if hands@.len() > 0 && hands@[0].handedness is Some {
            hands@[0].handedness.unwrap()@
        } else {
            "unknown"@
        },
{
    if hands.len() > 0 {
        match &hands[0].handedness {
            Some(h) => h.as_str(),
            None => "unknown",
        }
    } else {
        "unknown"
    }
}

/// What one message of the tracker carries: its hands and its preview frame.
pub type Message = (Option<Vec<TrackedHand>>, Option<(u64, Vec<u8>)>);

/// The JSON value that `text` holds, as `serde_json` reads it into the
/// library's model; `None` where `text` is not JSON.
pub uninterp spec fn json_reading(text: Seq<char>) -> Option<JsonValue>;

#[verifier::external_type_specification]
#[verifier::external_body]
pub struct ExSerdeJsonValue(serde_json::Value);

#[verifier::external_type_specification]
#[verifier::external_body]
pub struct ExSerdeJsonNumber(serde_json::Number);

/// Copies a `serde_json::Number` into the library's model, keeping the
/// class `serde_json` gave it: `PosInt` where `as_u64` gives it, else
/// `NegInt` where `as_i64` does, else the bit pattern of its `as_f64` (a
/// quiet NaN pattern where even that fails).
#[verifier::external_body]
fn number_model(n: &serde_json::Number) -> JsonNumber {
    match (n.as_u64(), n.as_i64()) {
        (Some(v), _) => JsonNumber::PosInt(v),
        (None, Some(v)) => JsonNumber::NegInt(v),
        _ => JsonNumber::Float(n.as_f64().map_or(0x7ff8_0000_0000_0000, |x| x.to_bits())),
    }
}

/// Copies a `serde_json::Value` into the library's model, one variant for
/// one variant.
#[verifier::external_body]
fn json_model(value: &serde_json::Value) -> JsonValue {
    match value {
        serde_json::Value::Null => JsonValue::Null,
        serde_json::Value::Bool(b) => JsonValue::Bool(*b),
        serde_json::Value::Number(n) => JsonValue::Number(number_model(n)),
        serde_json::Value::String(s) => JsonValue::String(s.clone()),
        serde_json::Value::Array(a) => JsonValue::Array(a.iter().map(json_model).collect()),
        serde_json::Value::Object(m) => JsonValue::Object(m.iter().map(|(k, v)| (k.clone(), json_model(v))).collect()),
    }
}

/// Reads `line` with `serde_json::from_str` into a `serde_json::Value`, in
/// the library's model. Trusted: the result is the named reading of the
/// line's text, `None` where `serde_json` reports an error.
#[verifier::external_body]
pub fn read_json(line: &str) -> (res: Option<JsonValue>)
    ensures
        res == json_reading(line@),
{
    match serde_json::from_str::<serde_json::Value>(line) {
        Ok(value) => Some(json_model(&value)),
        Err(_) => None,
    }
}

/// The step of `parse_line` after the JSON reading: `reading` is the JSON
/// value that `line` holds, `None` where the line is not JSON. An empty
/// line, or one that is not JSON, carries no message; any other line carries
/// the hands and the preview frame read from its value.
pub fn parse_line_reading(line: &str, reading: Option<JsonValue>) -> (res: Option<Message>)
    ensures
        line@.len() == 0 ==> res is None,
        line@.len() > 0 ==> (res is Some <==> reading is Some),
        res matches Some((hands, preview)) ==> hands_view(hands) == spec_hands(reading.unwrap())
            && preview_view(preview) == spec_preview(reading.unwrap()),
{
    if line.is_empty() {
        return None;
    }
    match reading {
        Some(value) => {
            let hands = parse_hands(&value);
            let preview = parse_preview(&value);
            Some((hands, preview))
        },
        None => None,
    }
}

/// Reads one line of the tracker's output: an empty line, or one that is
/// not JSON, carries no message; any other line carries the hands and the
/// preview frame read from the JSON value it holds.
pub fn parse_line(line: &str) -> (res: Option<Message>)
    ensures
        line@.len() == 0 ==> res is None,
        line@.len() > 0 ==> (res is Some <==> json_reading(line@) is Some),
        res matches Some((hands, preview)) ==> hands_view(hands) == spec_hands(
            json_reading(line@).unwrap(),
        ) && preview_view(preview) == spec_preview(json_reading(line@).unwrap()),
{
    if line.is_empty() {
        return None;
    }
    let reading = read_json(line);
    parse_line_reading(line, reading)
}

} // verus!
