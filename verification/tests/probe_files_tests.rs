use syncbridge::files::{filter_video_names, is_video_filename, mode_allows_video_pick, mode_is_movie};
use syncbridge::probe::interpret_probe;

fn b(s: &str) -> Vec<u8> {
    s.as_bytes().to_vec()
}

#[test]
fn probe_reads_streams_and_duration() {
    let out = "\n{\n  \"streams\": [\n    {\"index\": 0, \"codec_type\": \"video\",\
               \"disposition\": {\"default\": 1, \"tags\": {\"x\": [1, 2]}}},\n\
               {\"index\": 1, \"codec_type\": \"audio\"}\n  ],\n\
               \"format\": {\"filename\": \"a.mp4\", \"duration\": \"12.345000\"}\n}\n";
    let p = interpret_probe(&b(out)).expect("probe output must parse");
    assert!(p.has_audio);
    assert!(p.has_video);
    assert_eq!(p.duration, Some(b("12.345000")));
}

#[test]
fn probe_without_audio_stream() {
    let out = "{\"streams\":[{\"codec_type\":\"video\"}],\"format\":{}}";
    let p = interpret_probe(&b(out)).unwrap();
    assert!(!p.has_audio);
    assert!(p.has_video);
    assert_eq!(p.duration, None);
}

#[test]
fn probe_with_no_streams_field() {
    let p = interpret_probe(&b("{\"format\":{\"duration\":\"3.5\"}}")).unwrap();
    assert!(!p.has_audio);
    assert!(!p.has_video);
    assert_eq!(p.duration, Some(b("3.5")));
}

#[test]
fn probe_rejects_non_numeric_duration() {
    let p = interpret_probe(&b("{\"format\":{\"duration\":\"N/A\"}}")).unwrap();
    assert_eq!(p.duration, None);
}

#[test]
fn probe_unparsable_output_is_an_error() {
    assert!(interpret_probe(&b("oops")).is_none());
    assert!(interpret_probe(&b("")).is_none());
}

#[test]
fn video_filenames_by_extension_case_insensitive() {
    assert!(is_video_filename(&b("movie.mp4")));
    assert!(is_video_filename(&b("Movie.MKV")));
    assert!(is_video_filename(&b("a.webm")));
    assert!(is_video_filename(&b("a.AVI")));
    assert!(is_video_filename(&b("clip.mov")));
    assert!(!is_video_filename(&b("song.wav")));
    assert!(!is_video_filename(&b("noext")));
    assert!(!is_video_filename(&b(".mp4")));
    assert!(!is_video_filename(&b("")));
    assert!(!is_video_filename(&b("ends.")));
}

#[test]
fn filter_keeps_videos_in_order() {
    let names = vec![b("a.mp4"), b("notes.txt"), b("b.MKV"), b("c.wav"), b("d.mov")];
    assert_eq!(filter_video_names(names), vec![b("a.mp4"), b("b.MKV"), b("d.mov")]);
}

#[test]
fn mode_rules() {
    assert!(mode_allows_video_pick(&b("movie")));
    assert!(mode_allows_video_pick(&b("series")));
    assert!(!mode_allows_video_pick(&b("other")));
    assert!(mode_is_movie(&b("movie")));
    assert!(!mode_is_movie(&b("series")));
}

#[test]
fn probe_accepts_exponent_form_duration() {
    let p = interpret_probe(&b("{\"format\":{\"duration\":\"1.234e+03\"}}")).unwrap();
    assert_eq!(p.duration, Some(b("1.234e+03")));
}
