use venya::transcript::parse_whisper_output;

#[test]
fn whisper_lines_become_segments() {
    let out = "whisper_init: loading\n[00:00:00.000 --> 00:00:02.000]   Hello world.\n[00:00:02.000 --> 00:00:04.500]  Bye \r\nnoise\n[no arrow] text\n[00:00:05.000-->00:00:06.000]last";
    let segs = parse_whisper_output(out);
    assert_eq!(segs.len(), 3);
    assert_eq!(segs[0].start_time, "00:00:00.000");
    assert_eq!(segs[0].end_time, "00:00:02.000");
    assert_eq!(segs[0].content, "Hello world.");
    assert_eq!(segs[1].start_time, "00:00:02.000");
    assert_eq!(segs[1].end_time, "00:00:04.500");
    assert_eq!(segs[1].content, "Bye");
    assert_eq!(segs[2].start_time, "00:00:05.000");
    assert_eq!(segs[2].end_time, "00:00:06.000");
    assert_eq!(segs[2].content, "last");
}

#[test]
fn empty_output_has_no_segments() {
    assert_eq!(parse_whisper_output("").len(), 0);
    assert_eq!(parse_whisper_output("\n\n").len(), 0);
}
