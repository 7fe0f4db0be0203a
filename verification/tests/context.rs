use mcpg_cli_core::context::{load, path, save, Context};
use mcpg_cli_core::files::FileStep;
use mcpg_cli_core::json::parse_json;
use mcpg_cli_core::paths::PathStyle;

#[test]
fn missing_file_is_an_empty_context() {
    assert_eq!(load(None), Context::default());
}

#[test]
fn round_trips_partial_contexts() {
    let ctx = Context {
        org: Some("acme".into()),
        workspace: None,
        env: Some("eu".into()),
    };
    let written = serde_json::to_vec_pretty(&serde_json::Map::from_iter([
        ("org".to_owned(), serde_json::Value::from("acme")),
        ("env".to_owned(), serde_json::Value::from("eu")),
    ]))
    .unwrap();
    let saved = match save(b"/s", &written, PathStyle::Unix) {
        FileStep::Replace { path, data } => {
            assert_eq!(path, b"/s/context.json");
            data
        }
        _ => panic!("the file is written over"),
    };
    let stored = parse_json(&saved).map(|doc| Context {
        org: doc.get_str("org").map(str::to_owned),
        workspace: doc.get_str("workspace").map(str::to_owned),
        env: doc.get_str("env").map(str::to_owned),
    });
    assert_eq!(load(stored), ctx);
}

#[test]
fn corrupt_file_degrades_to_empty() {
    let stored = parse_json(b"{not json").map(|_| Context {
        org: Some("read".into()),
        workspace: None,
        env: None,
    });
    assert_eq!(load(stored), Context::default());
}

#[test]
fn the_empty_context_has_no_defaults() {
    assert_eq!(
        Context::default(),
        Context { org: None, workspace: None, env: None }
    );
    assert_ne!(
        Context::default(),
        Context { org: None, workspace: None, env: Some(String::new()) }
    );
}

#[test]
fn the_context_is_in_the_state_directory() {
    assert_eq!(path(b"/home/u/.mcpg", PathStyle::Unix), b"/home/u/.mcpg/context.json");
    assert_eq!(path(b"/s/", PathStyle::Unix), b"/s/context.json");
    assert_eq!(path(b"", PathStyle::Unix), b"context.json");
    assert_eq!(path(b"C:\\s", PathStyle::Windows), b"C:\\s\\context.json");
}

#[test]
fn the_last_save_wins() {
    let mut file: Option<Vec<u8>> = None;
    for bytes in [b"{\"org\":\"acme\"}".to_vec(), b"{}".to_vec()] {
        match save(b"/s", &bytes, PathStyle::Unix) {
            FileStep::Replace { path, data } => {
                assert_eq!(path, b"/s/context.json");
                file = Some(data);
            }
            _ => panic!("the file is written over"),
        }
    }
    assert_eq!(file.as_deref(), Some(&b"{}"[..]));
}
