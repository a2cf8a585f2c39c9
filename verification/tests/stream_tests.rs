use health_guard::stream::StreamReader;

fn push(reader: &mut StreamReader, bytes: &[u8]) -> Vec<String> {
    reader.push_chunk(&bytes.to_vec())
}

#[test]
fn two_fragments_then_terminator() {
    let mut r = StreamReader::new();
    let mut frags = Vec::new();
    frags.extend(push(&mut r, b"data: {\"choices\":[{\"delta\":{\"content\":\"He\"}}]}\n"));
    frags.extend(push(&mut r, b"data: {\"choices\":[{\"delta\":{\"content\":\"llo\"}}]}\n"));
    frags.extend(push(&mut r, b"data: [DONE]\n"));
    assert_eq!(frags, vec!["He".to_string(), "llo".to_string()]);
    assert_eq!(r.finish(), "Hello");
}

#[test]
fn a_line_split_across_chunks_is_reassembled() {
    let mut r = StreamReader::new();
    let mut frags = Vec::new();
    frags.extend(push(&mut r, b"data: {\"choices\":[{\"del"));
    frags.extend(push(&mut r, b"ta\":{\"content\":\"Hi\"}}]}\n"));
    assert_eq!(frags, vec!["Hi".to_string()]);
    assert_eq!(r.finish(), "Hi");
}

#[test]
fn multibyte_characters_split_across_chunks_survive() {
    let line = "data: {\"choices\":[{\"delta\":{\"content\":\"你好\"}}]}\n".as_bytes();
    let (a, b) = line.split_at(line.len() - 10); // cuts inside the multi-byte text
    let mut r = StreamReader::new();
    let mut frags = Vec::new();
    frags.extend(push(&mut r, a));
    frags.extend(push(&mut r, b));
    assert_eq!(frags, vec!["你好".to_string()]);
    assert_eq!(r.finish(), "你好");
}

#[test]
fn blank_lines_comments_and_noise_are_skipped() {
    let mut r = StreamReader::new();
    let mut frags = Vec::new();
    frags.extend(push(&mut r, b"\n\n"));
    frags.extend(push(&mut r, b"event: ping\n"));
    frags.extend(push(&mut r, b"data: not json at all\n"));
    frags.extend(push(&mut r, b"data: {\"choices\":[]}\n"));
    frags.extend(push(&mut r, b"data: {\"choices\":[{\"delta\":{}}]}\n"));
    frags.extend(push(&mut r, b"data: {\"choices\":[{\"delta\":{\"content\":\"ok\"}}]}\n"));
    assert_eq!(frags, vec!["ok".to_string()]);
    assert_eq!(r.finish(), "ok");
}

#[test]
fn a_broken_stream_flushes_what_was_accumulated() {
    let mut r = StreamReader::new();
    push(&mut r, b"data: {\"choices\":[{\"delta\":{\"content\":\"par\"}}]}\n");
    // the stream errors here: the trailing partial line is never completed
    push(&mut r, b"data: {\"choi");
    assert_eq!(r.finish(), "par");
}

#[test]
fn several_lines_in_one_chunk_emit_in_order() {
    let mut r = StreamReader::new();
    let frags = push(
        &mut r,
        b"data: {\"choices\":[{\"delta\":{\"content\":\"a\"}}]}\ndata: {\"choices\":[{\"delta\":{\"content\":\"b\"}}]}\n",
    );
    assert_eq!(frags, vec!["a".to_string(), "b".to_string()]);
}

#[test]
fn lines_are_trimmed_before_the_prefix_check() {
    let mut r = StreamReader::new();
    let frags = push(&mut r, b"  data: {\"choices\":[{\"delta\":{\"content\":\"x\"}}]}  \r\n");
    assert_eq!(frags, vec!["x".to_string()]);
}
