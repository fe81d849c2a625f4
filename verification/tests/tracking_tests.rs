use jit_music::preview::{decode_preview, preview_image};
use jit_music::json::{get, JsonNumber, JsonValue};
use jit_music::tracking::{
    parse_hands, parse_landmarks_value, parse_line, parse_line_reading, parse_preview, preview_from_decoded,
    primary_handedness, Point, TrackedHand,
};

fn num(n: u64) -> JsonValue {
    JsonValue::Number(JsonNumber::PosInt(n))
}

fn float(x: f64) -> JsonValue {
    JsonValue::Number(JsonNumber::Float(x.to_bits()))
}

fn text(s: &str) -> JsonValue {
    JsonValue::String(s.to_string())
}

fn object(entries: Vec<(&str, JsonValue)>) -> JsonValue {
    JsonValue::Object(entries.into_iter().map(|(k, v)| (k.to_string(), v)).collect())
}

fn point(i: usize) -> JsonValue {
    JsonValue::Array(vec![float(i as f64 / 100.0), float(0.5 + i as f64 / 100.0), float(0.0)])
}

fn landmarks(n: usize) -> JsonValue {
    JsonValue::Array((0..n).map(point).collect())
}

#[test]
fn get_finds_member_of_object() {
    let v = object(vec![("a", num(1)), ("b", num(2))]);
    match get(&v, "b") {
        Some(JsonValue::Number(JsonNumber::PosInt(2))) => {}
        _ => panic!("member b not found"),
    }
    assert!(get(&v, "c").is_none());
    assert!(get(&num(3), "a").is_none());
}

#[test]
fn landmarks_of_twenty_one_points_are_read() {
    let lm = parse_landmarks_value(&landmarks(21)).expect("21 points");
    assert_eq!(lm.len(), 21);
    assert_eq!(lm[3].x, JsonNumber::Float((0.03f64).to_bits()));
    assert_eq!(lm[3].y, JsonNumber::Float((0.53f64).to_bits()));
}

#[test]
fn landmarks_need_exactly_twenty_one_points() {
    assert!(parse_landmarks_value(&landmarks(20)).is_none());
    assert!(parse_landmarks_value(&landmarks(22)).is_none());
    assert!(parse_landmarks_value(&num(21)).is_none());
}

#[test]
fn landmarks_accept_integer_coordinates() {
    let mut items: Vec<JsonValue> = (0..21).map(point).collect();
    items[0] = JsonValue::Array(vec![num(0), num(1)]);
    let lm = parse_landmarks_value(&JsonValue::Array(items)).expect("integers are numbers");
    assert_eq!(lm[0], Point { x: JsonNumber::PosInt(0), y: JsonNumber::PosInt(1) });
}

#[test]
fn landmarks_reject_a_bad_point() {
    let mut short: Vec<JsonValue> = (0..21).map(point).collect();
    short[7] = JsonValue::Array(vec![float(0.1)]);
    assert!(parse_landmarks_value(&JsonValue::Array(short)).is_none());
    let mut textual: Vec<JsonValue> = (0..21).map(point).collect();
    textual[7] = JsonValue::Array(vec![float(0.1), text("y")]);
    assert!(parse_landmarks_value(&JsonValue::Array(textual)).is_none());
}

#[test]
fn hands_list_keeps_order_and_handedness() {
    let msg = object(vec![(
        "hands",
        JsonValue::Array(vec![
            object(vec![("landmarks", landmarks(21)), ("handedness", text("Left"))]),
            object(vec![("landmarks", landmarks(21)), ("handedness", num(1))]),
        ]),
    )]);
    let hands = parse_hands(&msg).expect("two hands");
    assert_eq!(hands.len(), 2);
    assert_eq!(hands[0].handedness.as_deref(), Some("Left"));
    assert_eq!(hands[1].handedness, None);
    assert_eq!(hands[1].landmarks.len(), 21);
}

#[test]
fn one_bad_hand_spoils_the_list() {
    let msg = object(vec![
        (
            "hands",
            JsonValue::Array(vec![
                object(vec![("landmarks", landmarks(21))]),
                object(vec![("landmarks", landmarks(3))]),
            ]),
        ),
        ("landmarks", landmarks(21)),
    ]);
    assert!(parse_hands(&msg).is_none());
}

#[test]
fn empty_hands_list_falls_back_to_top_level_landmarks() {
    let msg = object(vec![("hands", JsonValue::Array(vec![])), ("landmarks", landmarks(21))]);
    let hands = parse_hands(&msg).expect("one hand");
    assert_eq!(hands.len(), 1);
    assert_eq!(hands[0].handedness, None);
}

#[test]
fn message_without_hands_has_none() {
    assert!(parse_hands(&object(vec![("frame_id", num(4))])).is_none());
    assert!(parse_hands(&JsonValue::Null).is_none());
}

#[test]
fn preview_decodes_base64_frame() {
    let msg = object(vec![("frame_id", num(42)), ("preview_jpeg_b64", text("aGVsbG8="))]);
    assert_eq!(parse_preview(&msg), Some((42, b"hello".to_vec())));
}

#[test]
fn preview_needs_valid_base64_and_frame_id() {
    let bad = object(vec![("frame_id", num(42)), ("preview_jpeg_b64", text("not base64!"))]);
    assert_eq!(parse_preview(&bad), None);
    let negative = object(vec![
        ("frame_id", JsonValue::Number(JsonNumber::NegInt(-1))),
        ("preview_jpeg_b64", text("aGVsbG8=")),
    ]);
    assert_eq!(parse_preview(&negative), None);
    let missing = object(vec![("preview_jpeg_b64", text("aGVsbG8="))]);
    assert_eq!(parse_preview(&missing), None);
}

#[test]
fn preview_from_decoded_pairs_id_and_bytes() {
    assert_eq!(preview_from_decoded(7, Some(vec![1, 2])), Some((7, vec![1, 2])));
    assert_eq!(preview_from_decoded(7, None), None);
}

#[test]
fn empty_or_unreadable_line_carries_nothing() {
    assert!(parse_line_reading("", Some(JsonValue::Null)).is_none());
    assert!(parse_line_reading("{oops", None).is_none());
    assert!(parse_line("").is_none());
    assert!(parse_line("{oops").is_none());
    assert!(parse_line("not json").is_none());
}

#[test]
fn line_carries_hands_and_preview() {
    let msg = object(vec![
        ("landmarks", landmarks(21)),
        ("frame_id", num(9)),
        ("preview_jpeg_b64", text("AAE=")),
    ]);
    let (hands, preview) = parse_line_reading("{...}", Some(msg)).expect("a message");
    assert_eq!(hands.map(|h| h.len()), Some(1));
    assert_eq!(preview, Some((9, vec![0, 1])));
}

#[test]
fn primary_handedness_names_first_hand() {
    let hand = |h: Option<&str>| TrackedHand { landmarks: vec![], handedness: h.map(String::from) };
    assert_eq!(primary_handedness(&vec![]), "unknown");
    assert_eq!(primary_handedness(&vec![hand(None), hand(Some("Left"))]), "unknown");
    assert_eq!(primary_handedness(&vec![hand(Some("Right")), hand(None)]), "Right");
}

fn landmarks_text(n: usize) -> String {
    let points: Vec<String> = (0..n).map(|i| format!("[{}, 0.5, 0.0]", i)).collect();
    format!("[{}]", points.join(", "))
}

#[test]
fn line_text_is_read_as_json() {
    let line = format!(
        "{{\"landmarks\": {}, \"frame_id\": 9, \"preview_jpeg_b64\": \"AAE=\"}}",
        landmarks_text(21)
    );
    let (hands, preview) = parse_line(&line).expect("a message");
    let hands = hands.expect("one hand");
    assert_eq!(hands.len(), 1);
    assert_eq!(hands[0].landmarks[2].x, JsonNumber::PosInt(2));
    assert_eq!(hands[0].landmarks[2].y, JsonNumber::Float(0.5f64.to_bits()));
    assert_eq!(preview, Some((9, vec![0, 1])));
}

#[test]
fn line_text_with_hand_list() {
    let line = format!(
        "{{\"hands\": [{{\"landmarks\": {}, \"handedness\": \"Right\"}}]}}",
        landmarks_text(21)
    );
    let (hands, preview) = parse_line(&line).expect("a message");
    let hands = hands.expect("one hand");
    assert_eq!(hands[0].handedness.as_deref(), Some("Right"));
    assert_eq!(preview, None);
}

#[test]
fn line_text_with_negative_frame_id_has_no_preview() {
    let line = "{\"frame_id\": -4, \"preview_jpeg_b64\": \"AAE=\"}";
    let (hands, preview) = parse_line(line).expect("a message");
    assert!(hands.is_none());
    assert!(preview.is_none());
}

#[test]
fn preview_image_groups_samples_into_pixels() {
    let img = preview_image(2, 1, &vec![1, 2, 3, 4, 5, 6, 7]);
    assert_eq!((img.width, img.height), (2, 1));
    assert_eq!(img.pixels, vec![(1, 2, 3), (4, 5, 6)]);
}

#[test]
fn preview_decodes_jpeg_frames() {
    let frame = image::RgbImage::from_pixel(4, 2, image::Rgb([200, 40, 40]));
    let mut jpeg: Vec<u8> = Vec::new();
    image::DynamicImage::ImageRgb8(frame)
        .write_to(&mut std::io::Cursor::new(&mut jpeg), image::ImageFormat::Jpeg)
        .expect("encodes");
    let img = decode_preview(&jpeg).expect("decodes");
    assert_eq!((img.width, img.height), (4, 2));
    assert_eq!(img.pixels.len(), 8);
    let (r, g, b) = img.pixels[0];
    assert!(r > 150 && g < 90 && b < 90);
    assert!(decode_preview(b"not a jpeg").is_none());
}
