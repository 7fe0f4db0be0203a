use mcpg_cli_core::paths::{
    db_url, default_db_path, default_state_dir, file_name, join_path, PathStyle,
};

const UNIX: PathStyle = PathStyle::Unix;
const WINDOWS: PathStyle = PathStyle::Windows;

#[test]
fn the_environment_names_the_state_directory() {
    assert_eq!(default_state_dir(Some("/tmp/s"), Some(b"/home/u"), UNIX), b"/tmp/s");
    assert_eq!(default_state_dir(Some(""), Some(b"/home/u"), UNIX), b"/home/u/.mcpg");
    assert_eq!(default_state_dir(None, Some(b"/home/u/"), UNIX), b"/home/u/.mcpg");
    assert_eq!(default_state_dir(None, None, UNIX), b"./mcpg-state");
    assert_eq!(default_state_dir(Some(""), None, UNIX), b"./mcpg-state");
    assert_eq!(
        default_state_dir(None, Some(b"C:\\Users\\u"), WINDOWS),
        b"C:\\Users\\u\\.mcpg"
    );
}

#[test]
fn the_database_is_in_the_state_directory() {
    assert_eq!(default_db_path(b"/home/u/.mcpg", UNIX), b"/home/u/.mcpg/cp-state.db");
    assert_eq!(
        db_url(b"/home/u/.mcpg", UNIX),
        "sqlite:///home/u/.mcpg/cp-state.db?mode=rwc"
    );
    assert_eq!(db_url("/hé".as_bytes(), UNIX), "sqlite:///hé/cp-state.db?mode=rwc");
    assert_eq!(
        db_url(b"/a\xffb", UNIX),
        "sqlite:///a\u{fffd}b/cp-state.db?mode=rwc"
    );
    assert_eq!(
        db_url(b"C:\\s", WINDOWS),
        "sqlite://C:\\s\\cp-state.db?mode=rwc"
    );
}

#[test]
fn paths_are_joined_as_std_joins_them() {
    for dir in ["", "/", "a", "a/", "/a/b", "/a/b/", "a//", "a\\", "C:"] {
        for name in ["x", "x.json", "é"] {
            let joined = std::path::Path::new(dir).join(name);
            assert_eq!(
                join_path(dir.as_bytes(), name, UNIX),
                joined.to_str().unwrap().as_bytes()
            );
        }
    }
    assert_eq!(join_path(b"C:", "x", WINDOWS), b"C:x");
    assert_eq!(join_path(b"C:\\", "x", WINDOWS), b"C:\\x");
    assert_eq!(join_path(b"a/", "x", WINDOWS), b"a/x");
    assert_eq!(join_path(b"a/b", "x", WINDOWS), b"a/b\\x");
    assert_eq!(join_path(b"", "x", WINDOWS), b"x");
}

#[test]
fn file_names_are_those_of_std() {
    for path in [
        "", "/", "a", "a/", "/a", "/a/b", "a/b//", ".", "./", "./a", "a/.", "a/./.", "..", "a/..",
        "../a", "...", "a/...", ".a", "//", "/.", "a\\b", "é/ü", "/./", "a/../b/.",
    ] {
        assert_eq!(
            file_name(path, UNIX).as_deref(),
            std::path::Path::new(path).file_name().and_then(|s| s.to_str()),
            "{path}"
        );
    }
    assert_eq!(file_name("C:\\a\\b.exe", WINDOWS).as_deref(), Some("b.exe"));
    assert_eq!(file_name("C:a", WINDOWS).as_deref(), Some("a"));
    assert_eq!(file_name("C:\\", WINDOWS), None);
    for path in [
        r"\\server\share",
        r"\\server\share\",
        r"//server/share",
        r"\\?\C:",
        r"\\?\UNC\server\share",
        r"\\?\UNC\server",
        r"\\?\name",
        r"\\.\COM1",
    ] {
        assert_eq!(file_name(path, WINDOWS), None, "{path}");
        assert_eq!(
            file_name(&format!(r"{path}\a\b.exe"), WINDOWS).as_deref(),
            Some("b.exe")
        );
    }
    assert_eq!(file_name(r"\\server", WINDOWS).as_deref(), Some("server"));
    assert_eq!(file_name(r"\a", WINDOWS).as_deref(), Some("a"));
    assert_eq!(file_name("a/b\\..", WINDOWS), None);
}

#[test]
fn names_keep_files_apart() {
    let names = ["credentials.json", "credentials.json.tmp", "context.json", "cp-state.db"];
    for dir in ["", "/", "/s", "/s/", "C:"] {
        for style in [UNIX, WINDOWS] {
            for (i, a) in names.iter().enumerate() {
                for b in &names[i + 1..] {
                    assert_ne!(
                        join_path(dir.as_bytes(), a, style),
                        join_path(dir.as_bytes(), b, style)
                    );
                }
            }
        }
    }
}
