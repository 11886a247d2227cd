use syncbridge::codec::{decode_line, diag_message, encode_request, is_number_text, parse_u64, Decoded};
use syncbridge::events::{BridgeEvent, JobRequest};

fn decode(s: &str) -> Decoded {
    decode_line(&s.as_bytes().to_vec())
}

#[test]
fn blank_lines_are_skipped() {
    assert!(matches!(decode(""), Decoded::Blank));
    assert!(matches!(decode("   \t \r "), Decoded::Blank));
}

#[test]
fn not_json_is_malformed() {
    assert!(matches!(decode("not json"), Decoded::Malformed));
    assert!(matches!(decode("{\"type\":"), Decoded::Malformed));
    assert!(matches!(decode("[1,2,3]"), Decoded::Malformed));
}

#[test]
fn unknown_tag_is_malformed() {
    assert!(matches!(decode("{\"type\":\"mystery\"}"), Decoded::Malformed));
    assert!(matches!(decode("{\"kind\":\"progress\"}"), Decoded::Malformed));
}

#[test]
fn decodes_progress() {
    match decode("{\"type\":\"progress\",\"processed\":2,\"total\":5,\"current\":\"a.mp4\"}") {
        Decoded::Event(BridgeEvent::Progress { processed, total, current }) => {
            assert_eq!(processed, 2);
            assert_eq!(total, 5);
            assert_eq!(current, Some(b"a.mp4".to_vec()));
        },
        _ => panic!("expected progress"),
    }
}

#[test]
fn decodes_progress_null_current() {
    match decode("{\"type\":\"progress\",\"processed\":0,\"total\":1,\"current\":null}") {
        Decoded::Event(BridgeEvent::Progress { current, .. }) => assert_eq!(current, None),
        _ => panic!("expected progress"),
    }
}

#[test]
fn decodes_file_start_with_whitespace_and_field_order() {
    match decode("  { \"file\" : \"x.mkv\" , \"type\" : \"file_start\" }  ") {
        Decoded::Event(BridgeEvent::FileStart { file }) => assert_eq!(file, b"x.mkv".to_vec()),
        _ => panic!("expected file_start"),
    }
}

#[test]
fn decodes_file_end() {
    match decode("{\"type\":\"file_end\",\"file\":\"x.mkv\",\"elapsed_ms\":1234}") {
        Decoded::Event(BridgeEvent::FileEnd { file, elapsed_ms }) => {
            assert_eq!(file, b"x.mkv".to_vec());
            assert_eq!(elapsed_ms, 1234);
        },
        _ => panic!("expected file_end"),
    }
}

#[test]
fn decodes_file_progress_and_rejects_out_of_range_percent() {
    match decode("{\"type\":\"file_progress\",\"file\":\"x\",\"percent\":55}") {
        Decoded::Event(BridgeEvent::FileProgress { percent, .. }) => assert_eq!(percent, 55),
        _ => panic!("expected file_progress"),
    }
    assert!(matches!(
        decode("{\"type\":\"file_progress\",\"file\":\"x\",\"percent\":300}"),
        Decoded::Malformed
    ));
    assert!(matches!(
        decode("{\"type\":\"file_progress\",\"file\":\"x\",\"percent\":55.5}"),
        Decoded::Malformed
    ));
}

#[test]
fn decodes_log_message() {
    match decode("{\"type\":\"log\",\"message\":\"hello there\"}") {
        Decoded::Event(BridgeEvent::Log { message }) => {
            assert_eq!(message, b"hello there".to_vec())
        },
        _ => panic!("expected log"),
    }
}

#[test]
fn decodes_result_with_delays_kept_as_text() {
    let line = "{\"type\":\"result\",\"videoFile\":\"a.mp4\",\"audioFile\":\"a.wav\",\
                \"startDelay\":120.5,\"endDelay\":-30.0,\"elapsed_ms\":842}";
    match decode(line) {
        Decoded::Event(BridgeEvent::ResultItem { result }) => {
            assert_eq!(result.video_file, b"a.mp4".to_vec());
            assert_eq!(result.audio_file, b"a.wav".to_vec());
            assert_eq!(result.start_delay, Some(b"120.5".to_vec()));
            assert_eq!(result.end_delay, Some(b"-30.0".to_vec()));
            assert_eq!(result.error, None);
            assert_eq!(result.elapsed_ms, Some(842));
        },
        _ => panic!("expected result"),
    }
}

#[test]
fn decodes_result_with_error_and_missing_delays() {
    let line = "{\"type\":\"result\",\"videoFile\":\"v\",\"audioFile\":\"a\",\"error\":\"boom\"}";
    match decode(line) {
        Decoded::Event(BridgeEvent::ResultItem { result }) => {
            assert_eq!(result.error, Some(b"boom".to_vec()));
            assert_eq!(result.start_delay, None);
            assert_eq!(result.end_delay, None);
            assert_eq!(result.elapsed_ms, None);
        },
        _ => panic!("expected result"),
    }
}

#[test]
fn result_missing_video_file_is_malformed() {
    assert!(matches!(
        decode("{\"type\":\"result\",\"audioFile\":\"a\"}"),
        Decoded::Malformed
    ));
}

#[test]
fn decodes_done_with_elapsed_in_either_spelling() {
    let line = "{\"type\":\"done\",\"results\":[\
                {\"videoFile\":\"a\",\"audioFile\":\"b\",\"elapsed_ms\":7},\
                {\"videoFile\":\"c\",\"audioFile\":\"d\",\"elapsedMs\":9}]}";
    match decode(line) {
        Decoded::Event(BridgeEvent::Done { results }) => {
            assert_eq!(results.len(), 2);
            assert_eq!(results[0].elapsed_ms, Some(7));
            assert_eq!(results[1].elapsed_ms, Some(9));
        },
        _ => panic!("expected done"),
    }
}

#[test]
fn decodes_empty_done_list() {
    match decode("{\"type\":\"done\",\"results\":[]}") {
        Decoded::Event(BridgeEvent::Done { results }) => assert_eq!(results.len(), 0),
        _ => panic!("expected done"),
    }
}

#[test]
fn done_with_ill_formed_entry_is_malformed() {
    assert!(matches!(
        decode("{\"type\":\"done\",\"results\":[{\"videoFile\":\"a\"}]}"),
        Decoded::Malformed
    ));
    assert!(matches!(decode("{\"type\":\"done\",\"results\":7}"), Decoded::Malformed));
}

#[test]
fn string_escapes_decode() {
    match decode("{\"type\":\"log\",\"message\":\"a\\\"b\\\\c\\nd\\te\"}") {
        Decoded::Event(BridgeEvent::Log { message }) => {
            assert_eq!(message, b"a\"b\\c\nd\te".to_vec())
        },
        _ => panic!("expected log"),
    }
}

#[test]
fn duplicate_keys_first_occurrence_wins() {
    match decode("{\"type\":\"log\",\"message\":\"first\",\"message\":\"second\"}") {
        Decoded::Event(BridgeEvent::Log { message }) => {
            assert_eq!(message, b"first".to_vec())
        },
        _ => panic!("expected log"),
    }
}

#[test]
fn extra_fields_are_ignored() {
    match decode("{\"type\":\"file_start\",\"file\":\"x\",\"spare\":true,\"more\":null}") {
        Decoded::Event(BridgeEvent::FileStart { file }) => assert_eq!(file, b"x".to_vec()),
        _ => panic!("expected file_start"),
    }
}

#[test]
fn diagnostic_names_the_offending_line() {
    let d = diag_message(&b"not json".to_vec());
    assert_eq!(d, b"invalid bridge message: not json".to_vec());
}

#[test]
fn parse_u64_bounds() {
    assert_eq!(parse_u64(&b"0".to_vec()), Some(0));
    assert_eq!(parse_u64(&b"18446744073709551615".to_vec()), Some(u64::MAX));
    assert_eq!(parse_u64(&b"18446744073709551616".to_vec()), None);
    assert_eq!(parse_u64(&b"".to_vec()), None);
    assert_eq!(parse_u64(&b"12a".to_vec()), None);
}

#[test]
fn elapsed_overflow_makes_line_malformed() {
    assert!(matches!(
        decode("{\"type\":\"file_end\",\"file\":\"x\",\"elapsed_ms\":99999999999999999999}"),
        Decoded::Malformed
    ));
}

#[test]
fn number_text_check() {
    assert!(is_number_text(&b"5.0".to_vec()));
    assert!(is_number_text(&b"-30.25".to_vec()));
    assert!(is_number_text(&b"842".to_vec()));
    assert!(!is_number_text(&b"".to_vec()));
    assert!(!is_number_text(&b"1.".to_vec()));
    assert!(!is_number_text(&b"abc".to_vec()));
    assert!(!is_number_text(&b"1 ".to_vec()));
}

#[test]
fn encodes_movie_request() {
    let req = JobRequest {
        mode: b"movie".to_vec(),
        video_folder: None,
        audio_folder: None,
        audio_file: Some(b"a.wav".to_vec()),
        video_files: Some(vec![b"a.mp4".to_vec()]),
        segment_duration: b"5.0".to_vec(),
        match_pattern: None,
    };
    let enc = encode_request(&req);
    let expect = "{\"mode\":\"movie\",\"video_folder\":null,\"audio_folder\":null,\
                  \"audio_file\":\"a.wav\",\"video_files\":[\"a.mp4\"],\
                  \"segment_duration\":5.0,\"match_pattern\":null}";
    assert_eq!(String::from_utf8(enc).unwrap(), expect);
}

#[test]
fn encodes_series_request_with_folders_and_escaping() {
    let req = JobRequest {
        mode: b"series".to_vec(),
        video_folder: Some(b"/tmp/vid\"eo".to_vec()),
        audio_folder: Some(b"/tmp/audio".to_vec()),
        audio_file: None,
        video_files: None,
        segment_duration: b"2.5".to_vec(),
        match_pattern: Some(b"S01E*".to_vec()),
    };
    let enc = encode_request(&req);
    let expect = "{\"mode\":\"series\",\"video_folder\":\"/tmp/vid\\\"eo\",\
                  \"audio_folder\":\"/tmp/audio\",\"audio_file\":null,\"video_files\":null,\
                  \"segment_duration\":2.5,\"match_pattern\":\"S01E*\"}";
    assert_eq!(String::from_utf8(enc).unwrap(), expect);
}

#[test]
fn encode_round_trips_through_the_wire_grammar() {
    let req = JobRequest {
        mode: b"movie".to_vec(),
        video_folder: None,
        audio_folder: None,
        audio_file: Some(b"x\\y\n".to_vec()),
        video_files: Some(vec![b"a.mp4".to_vec(), b"b.mkv".to_vec()]),
        segment_duration: b"10".to_vec(),
        match_pattern: None,
    };
    let enc = encode_request(&req);
    // The payload is for the worker's input, not an event line: feeding it
    // back to the line decoder must neither pass as blank nor produce an
    // event, only the recoverable malformed outcome.
    match decode_line(&enc) {
        Decoded::Malformed => {},
        _ => panic!("payload must not read back as an event or a blank line"),
    }
}

#[test]
fn unicode_escapes_decode_to_utf8() {
    match decode("{\"type\":\"log\",\"message\":\"\\u0041\\u00e9\\u20AC\"}") {
        Decoded::Event(BridgeEvent::Log { message }) => {
            assert_eq!(message, "Aé€".as_bytes().to_vec())
        },
        _ => panic!("expected log"),
    }
}

#[test]
fn surrogate_pairs_decode_to_one_code_point() {
    match decode("{\"type\":\"file_start\",\"file\":\"\\ud83d\\ude00.mp4\"}") {
        Decoded::Event(BridgeEvent::FileStart { file }) => {
            assert_eq!(file, "😀.mp4".as_bytes().to_vec())
        },
        _ => panic!("expected file_start"),
    }
}

#[test]
fn lone_surrogates_and_bad_hex_are_malformed() {
    assert!(matches!(
        decode("{\"type\":\"log\",\"message\":\"\\ud800x\"}"),
        Decoded::Malformed
    ));
    assert!(matches!(
        decode("{\"type\":\"log\",\"message\":\"\\udc00\"}"),
        Decoded::Malformed
    ));
    assert!(matches!(
        decode("{\"type\":\"log\",\"message\":\"\\u12g4\"}"),
        Decoded::Malformed
    ));
}

#[test]
fn exponent_numbers_keep_their_text() {
    let line = "{\"type\":\"result\",\"videoFile\":\"v\",\"audioFile\":\"a\",\
                \"startDelay\":5e-05,\"endDelay\":-1.25E+3}";
    match decode(line) {
        Decoded::Event(BridgeEvent::ResultItem { result }) => {
            assert_eq!(result.start_delay, Some(b"5e-05".to_vec()));
            assert_eq!(result.end_delay, Some(b"-1.25E+3".to_vec()));
        },
        _ => panic!("expected result"),
    }
}

#[test]
fn exponent_number_text_forms() {
    assert!(is_number_text(&b"5e-05".to_vec()));
    assert!(is_number_text(&b"1E+3".to_vec()));
    assert!(is_number_text(&b"2.5e10".to_vec()));
    assert!(!is_number_text(&b"1e".to_vec()));
    assert!(!is_number_text(&b"e5".to_vec()));
    assert!(!is_number_text(&b"1e+".to_vec()));
}

#[test]
fn integer_fields_reject_exponent_form() {
    // An exponent-form elapsed time is a float to the protocol, not a u64.
    assert!(matches!(
        decode("{\"type\":\"file_end\",\"file\":\"x\",\"elapsed_ms\":1e3}"),
        Decoded::Malformed
    ));
}
