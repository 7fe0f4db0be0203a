use mcpg_cli_core::json::{Json, JsonNumber};
use mcpg_cli_core::stream::{
    block_fields, find_double_newline, finish_phases, print_block, render_event, stream_phases,
};

fn str_json(s: &str) -> Json {
    Json::Str(s.to_owned())
}

#[test]
fn the_first_pair_of_line_feeds_is_found() {
    assert_eq!(find_double_newline(b""), None);
    assert_eq!(find_double_newline(b"\n"), None);
    assert_eq!(find_double_newline(b"a\nb\n"), None);
    assert_eq!(find_double_newline(b"\n\n"), Some(0));
    assert_eq!(find_double_newline(b"a\n\n\nb\n\n"), Some(1));
}

#[test]
fn the_last_field_of_each_name_counts() {
    assert_eq!(
        block_fields("event: a\r\ndata: 1\nid: 7\nevent: b\nevent:c"),
        ("b".to_owned(), Some("1".to_owned()))
    );
    assert_eq!(block_fields("data: x"), (String::new(), Some("x".to_owned())));
    assert_eq!(block_fields(" event: a"), (String::new(), None));
}

#[test]
fn an_event_is_shown_with_its_message() {
    assert_eq!(
        print_block("event: applying\ndata: {\"message\":\"rolling out\"}"),
        ["  ▸ applying: rolling out"]
    );
    assert_eq!(print_block("event: applying\ndata: {\"message\":\"\"}"), ["  ▸ applying"]);
    assert_eq!(print_block("event: applying\ndata: {\"message\":3}"), ["  ▸ applying"]);
    assert_eq!(print_block("event: applying\ndata: not json"), ["  ▸ applying"]);
    assert_eq!(print_block("event: applying"), ["  ▸ applying"]);
}

#[test]
fn events_that_keep_the_stream_alive_are_not_shown() {
    assert!(print_block("event: ping\ndata: {\"message\":\"m\"}").is_empty());
    assert!(print_block("event: keep-alive").is_empty());
    assert!(print_block("event: \ndata: {}").is_empty());
    assert!(print_block("data: {\"message\":\"m\"}").is_empty());
    assert_eq!(print_block("event: pings"), ["  ▸ pings"]);
}

#[test]
fn coordinates_are_shown_with_the_event_that_carries_them() {
    assert_eq!(
        print_block(
            "event: ready\ndata: {\"coords\":{\"instance_uid\":\"u-1\",\
             \"endpoints\":[\"https://a\",7,\"https://b\"]}}"
        ),
        [
            "  ▸ ready",
            "      instance_uid: u-1",
            "      endpoint:     https://a   ← point your MCP client here",
            "      endpoint:     https://b   ← point your MCP client here",
        ]
    );
    assert_eq!(print_block("event: ready\ndata: {\"coords\":null}"), ["  ▸ ready"]);
    assert_eq!(
        print_block("event: ready\ndata: {\"coords\":{\"endpoints\":\"https://a\"}}"),
        ["  ▸ ready"]
    );
}

#[test]
fn rendering_takes_the_value_that_was_read() {
    let data = Json::Object(vec![
        ("message".to_owned(), str_json("done")),
        (
            "coords".to_owned(),
            Json::Object(vec![
                ("instance_uid".to_owned(), Json::Number(JsonNumber::Unsigned(1))),
                (
                    "endpoints".to_owned(),
                    Json::Array(vec![Json::Null, str_json("e")]),
                ),
            ]),
        ),
    ]);
    assert_eq!(
        render_event("ready", Some(&data)),
        [
            "  ▸ ready: done",
            "      endpoint:     e   ← point your MCP client here"
        ]
    );
    assert_eq!(render_event("ready", None), ["  ▸ ready"]);
    assert!(render_event("ping", Some(&data)).is_empty());
}

#[test]
fn blocks_that_are_not_text_are_passed_over() {
    let mut buf = Vec::new();
    assert!(stream_phases(&mut buf, b"event: \xff\n\nevent: b\n\n").len() == 1);
    assert!(buf.is_empty());
    assert!(finish_phases(&b"event: \xff".to_vec()).is_empty());
    assert!(finish_phases(&Vec::new()).is_empty());
    assert_eq!(finish_phases(&b"event: last".to_vec()), ["  ▸ last"]);
}

fn show(chunks: &[&[u8]]) -> Vec<String> {
    let mut buf = Vec::new();
    let mut out = Vec::new();
    for chunk in chunks {
        out.extend(stream_phases(&mut buf, chunk));
        assert_eq!(find_double_newline(&buf), None);
    }
    out.extend(finish_phases(&buf));
    out
}

#[test]
fn how_a_stream_is_cut_does_not_matter() {
    let bytes = "event: a\ndata: {\"message\":\"é\"}\n\nevent: b\n\n\nevent: c\n\nevent: d".as_bytes();
    let whole = show(&[bytes]);
    assert_eq!(whole, ["  ▸ a: é", "  ▸ b", "  ▸ c", "  ▸ d"]);
    for i in 0..=bytes.len() {
        for j in i..=bytes.len() {
            assert_eq!(show(&[&bytes[..i], &bytes[i..j], &bytes[j..]]), whole);
        }
    }
    let single: Vec<&[u8]> = bytes.chunks(1).collect();
    assert_eq!(show(&single), whole);
}
