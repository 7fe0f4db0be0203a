//! The state directory and the files in it.
//!
//! A path is its bytes. Which of them part it depends on the platform.

use vstd::prelude::*;
use vstd::utf8::{decode_utf8, encode_utf8, valid_utf8};

use crate::text::{chars_of, string_of};

verus! {

/// The environment variable that names the state directory.
pub const STATE_DIR_ENV: &'static str = "MCPG_STATE_DIR";

/// How a platform writes paths.
#[derive(Clone, Copy, Debug, PartialEq, Eq, Structural)]
pub enum PathStyle {
    /// `/` parts a path.
    Unix,
    /// `\` parts a path, and `/` where one is given; a drive may come first.
    Windows,
}

/// The byte that is written between the parts of a path.
pub open spec fn separator(style: PathStyle) -> u8 {
    match style {
        PathStyle::Unix => 47,
        PathStyle::Windows => 92,
    }
}

/// Whether a byte parts a path.
pub open spec fn is_separator(b: u8, style: PathStyle) -> bool {
    b == 47 || style == PathStyle::Windows && b == 92
}

/// Whether a byte is a letter of the Latin alphabet.
pub open spec fn is_letter(b: u8) -> bool {
    65 <= b <= 90 || 97 <= b <= 122
}

/// Whether a path is a drive and nothing else.
pub open spec fn is_drive(dir: Seq<u8>, style: PathStyle) -> bool {
    style == PathStyle::Windows && dir.len() == 2 && is_letter(dir[0]) && dir[1] == 58
}

/// The path of the file or directory `name` in the directory `dir`.
pub open spec fn path_join(dir: Seq<u8>, name: Seq<u8>, style: PathStyle) -> Seq<u8> {
    if dir.len() == 0 || is_separator(dir.last(), style) || is_drive(dir, style) {
        dir + name
    } else {
        dir.push(separator(style)) + name
    }
}

/// The path of a file in a directory, by the name of the file.
pub open spec fn file_in(dir: Seq<u8>, name: Seq<char>, style: PathStyle) -> Seq<u8> {
    path_join(dir, encode_utf8(name), style)
}

/// What `String::from_utf8_lossy` reads from bytes.
pub uninterp spec fn utf8_lossy(bytes: Seq<u8>) -> Seq<char>;

/// Reads bytes as UTF-8 with `String::from_utf8_lossy`. The result is named `utf8_lossy`: the text
/// that the bytes encode where they are UTF-8; elsewhere characters stand in for what is not.
#[verifier::external_body]
fn lossy_text(bytes: &[u8]) -> (r: String)
    ensures
        r@ == utf8_lossy(bytes@),
        valid_utf8(bytes@) ==> r@ == decode_utf8(bytes@),
{
    String::from_utf8_lossy(bytes).into_owned()
}

/// The path of the file or directory `name` in the directory `dir`.
pub fn join_path(dir: &[u8], name: &str, style: PathStyle) -> (r: Vec<u8>)
    ensures
        r@ == file_in(dir@, name@, style),
{
    let windows = style == PathStyle::Windows;
    let mut path: Vec<u8> = Vec::new();
    path.extend_from_slice(dir);
    assert(path@ == dir@);
    if dir.len() > 0 {
        let last = dir[dir.len() - 1];
        let parted = last == 47 || windows && last == 92;
        let drive = windows && dir.len() == 2 && (65 <= dir[0] && dir[0] <= 90 || 97 <= dir[0]
            && dir[0] <= 122) && dir[1] == 58;
        if !parted && !drive {
            path.push(if windows { 92 } else { 47 });
        }
    }
    let ghost before = path@;
    path.extend_from_slice(name.as_bytes());
    assert(path@ == before + encode_utf8(name@));
    path
}

/// A path that may be missing, as its bytes.
pub open spec fn bytes_view(path: Option<&[u8]>) -> Option<Seq<u8>> {
    match path {
        Some(p) => Some(p@),
        None => None,
    }
}

/// The state directory: the one that the environment names, or else `.mcpg` in the home directory,
/// or else `./mcpg-state`.
pub fn default_state_dir(env: Option<&str>, home: Option<&[u8]>, style: PathStyle) -> (r: Vec<u8>)
    ensures
        r@ == match (env, home) {
            (Some(dir), _) if dir@.len() > 0 => encode_utf8(dir@),
            (_, Some(home)) => file_in(home@, ".mcpg"@, style),
            (_, None) => encode_utf8("./mcpg-state"@),
        },
        r@ == state_dir(env.deep_view(), bytes_view(home), style),
{
    if let Some(dir) = env {
        if !dir.is_empty() {
            return dir.as_bytes_vec();
        }
    }
    match home {
        Some(home) => join_path(home, ".mcpg", style),
        None => "./mcpg-state".as_bytes_vec(),
    }
}

/// The path of the database in the state directory.
pub fn default_db_path(state_dir: &[u8], style: PathStyle) -> (r: Vec<u8>)
    ensures
        r@ == file_in(state_dir@, "cp-state.db"@, style),
        r@ == database_file(state_dir@, style),
{
    join_path(state_dir, "cp-state.db", style)
}

/// The URL of the database in the state directory, which is made where it is not there.
pub fn db_url(state_dir: &[u8], style: PathStyle) -> (r: String)
    ensures
        r@ == "sqlite://"@ + utf8_lossy(file_in(state_dir@, "cp-state.db"@, style)) + "?mode=rwc"@,
        valid_utf8(file_in(state_dir@, "cp-state.db"@, style)) ==> r@ == "sqlite://"@ + decode_utf8(
            file_in(state_dir@, "cp-state.db"@, style),
        ) + "?mode=rwc"@,
        r@ == database_url(state_dir@, style),
{
    let path = default_db_path(state_dir, style);
    let text = lossy_text(path.as_slice());
    "sqlite://".to_owned().concat(text.as_str()).concat("?mode=rwc")
}

/// Whether a character parts a path.
pub open spec fn parts(c: char, style: PathStyle) -> bool {
    c == '/' || style == PathStyle::Windows && c == '\\'
}

/// Where the last part of a path begins.
pub open spec fn last_part(path: Seq<char>, style: PathStyle) -> nat
    decreases path.len(),
{
    if path.len() == 0 || parts(path.last(), style) {
        path.len()
    } else {
        last_part(path.drop_last(), style)
    }
}

/// The name of the file that a path without a prefix leads to: its last part that says anything.
/// There is none where that part leads back up, or where no part says anything.
pub open spec fn name_of(path: Seq<char>, style: PathStyle) -> Option<Seq<char>>
    decreases path.len(),
{
    let start = last_part(path, style);
    let part = path.skip(start as int);
    if path.len() == 0 {
        None
    } else if start >= path.len() {
        name_of(path.drop_last(), style)
    } else if part == seq!['.'] {
        name_of(path.take(start as int), style)
    } else if part == seq!['.', '.'] {
        None
    } else {
        Some(part)
    }
}

/// Where the part of a path that begins at `from` ends.
pub open spec fn part_end(path: Seq<char>, from: nat, style: PathStyle) -> nat
    decreases path.len() - from,
{
    if from >= path.len() {
        path.len()
    } else if parts(path[from as int], style) {
        from
    } else {
        part_end(path, from + 1, style)
    }
}

/// Where the two parts of a path that begin at `from` end: a server and what it shares.
pub open spec fn share_end(path: Seq<char>, from: nat, style: PathStyle) -> nat {
    part_end(path, part_end(path, from, style) + 1, style)
}

/// Whether a path begins with a drive.
pub open spec fn has_drive(path: Seq<char>) -> bool {
    path.len() >= 2 && ('a' <= path[0] <= 'z' || 'A' <= path[0] <= 'Z') && path[1] == ':'
}

/// The length of the prefix of a path, which only Windows knows: a drive (`C:`), a path taken as it
/// stands (`\\?\name`, `\\?\UNC\server\share`), a device (`\\.\name`), or what a server shares
/// (`\\server\share`).
pub open spec fn prefix_len(path: Seq<char>, style: PathStyle) -> nat {
    if style != PathStyle::Windows {
        0
    } else if has_drive(path) {
        2
    } else if path.len() >= 4 && path[0] == '\\' && path[1] == '\\' && path[2] == '?' && path[3]
        == '\\' {
        let end = part_end(path, 4, style);
        if path.subrange(4, end as int) == seq!['U', 'N', 'C'] {
            share_end(path, end + 1, style)
        } else {
            end
        }
    } else if path.len() >= 4 && parts(path[0], style) && parts(path[1], style) && path[2] == '.'
        && parts(path[3], style) {
        part_end(path, 4, style)
    } else if path.len() >= 2 && parts(path[0], style) && parts(path[1], style) {
        let server = part_end(path, 2, style);
        let share = share_end(path, 2, style);
        if server > 2 && server + 1 < share {
            share
        } else {
            0
        }
    } else {
        0
    }
}

/// The name of the file that a path leads to. A prefix is no part of it.
pub open spec fn file_name_of(path: Seq<char>, style: PathStyle) -> Option<Seq<char>> {
    name_of(path.skip(prefix_len(path, style) as int), style)
}

/// Whether a character parts a path.
fn is_part(c: char, style: PathStyle) -> (r: bool)
    ensures
        r == parts(c, style),
{
    c == '/' || style == PathStyle::Windows && c == '\\'
}

/// Where the part of a path that begins at `from` ends.
fn find_end(v: &Vec<char>, from: usize, style: PathStyle) -> (r: usize)
    ensures
        r == part_end(v@, from as nat, style),
        r <= v@.len(),
        from <= v@.len() ==> from <= r,
{
    if from >= v.len() {
        return v.len();
    }
    let mut i: usize = from;
    while i < v.len() && !is_part(v[i], style)
        invariant
            from <= i <= v@.len(),
            part_end(v@, from as nat, style) == part_end(v@, i as nat, style),
        decreases v@.len() - i,
    {
        i += 1;
    }
    i
}

/// Where the two parts of a path that begin at `from` end.
fn find_share(v: &Vec<char>, from: usize, style: PathStyle) -> (r: usize)
    ensures
        r == share_end(v@, from as nat, style),
        r <= v@.len(),
{
    let server = find_end(v, from, style);
    if server < v.len() {
        find_end(v, server + 1, style)
    } else {
        v.len()
    }
}

/// The length of the prefix of a path.
fn find_prefix(v: &Vec<char>, style: PathStyle) -> (r: usize)
    ensures
        r == prefix_len(v@, style),
        r <= v@.len(),
{
    if style != PathStyle::Windows || v.len() < 2 {
        return 0;
    }
    if ('a' <= v[0] && v[0] <= 'z' || 'A' <= v[0] && v[0] <= 'Z') && v[1] == ':' {
        return 2;
    }
    if v.len() >= 4 && v[0] == '\\' && v[1] == '\\' && v[2] == '?' && v[3] == '\\' {
        let end = find_end(v, 4, style);
        let ghost first = v@.subrange(4, end as int);
        if end == 7 && v[4] == 'U' && v[5] == 'N' && v[6] == 'C' {
            assert(first =~= seq!['U', 'N', 'C']);
            if end < v.len() {
                return find_share(v, end + 1, style);
            }
            return v.len();
        }
        assert(first != seq!['U', 'N', 'C']) by {
            if first == seq!['U', 'N', 'C'] {
                assert(first.len() == 3);
                assert(first[0] == v@[4] && first[1] == v@[5] && first[2] == v@[6]);
            }
        }
        return end;
    }
    if v.len() >= 4 && is_part(v[0], style) && is_part(v[1], style) && v[2] == '.' && is_part(
        v[3],
        style,
    ) {
        return find_end(v, 4, style);
    }
    if is_part(v[0], style) && is_part(v[1], style) {
        let server = find_end(v, 2, style);
        let share = find_share(v, 2, style);
        if server > 2 && server < v.len() && server + 1 < share {
            return share;
        }
    }
    0
}

proof fn lemma_last_part(path: Seq<char>, style: PathStyle)
    ensures
        last_part(path, style) <= path.len(),
        last_part(path, style) == path.len() <==> path.len() == 0 || parts(path.last(), style),
        last_part(path, style) > 0 ==> parts(path[last_part(path, style) - 1], style),
        forall|i: int|
            last_part(path, style) <= i < path.len() ==> !parts(#[trigger] path[i], style),
    decreases path.len(),
{
    if path.len() > 0 && !parts(path.last(), style) {
        lemma_last_part(path.drop_last(), style);
        assert(forall|i: int|
            0 <= i < path.len() - 1 ==> #[trigger] path[i] == path.drop_last()[i]);
    }
}

/// Where the last part of the first `end` characters of a path begins.
fn find_part(v: &Vec<char>, from: usize, end: usize, style: PathStyle) -> (r: usize)
    requires
        from <= end <= v@.len(),
    ensures
        from <= r <= end,
        r - from == last_part(v@.subrange(from as int, end as int), style),
{
    let mut i: usize = end;
    let ghost all = v@.subrange(from as int, end as int);
    assert(v@.subrange(from as int, i as int) =~= all);
    while i > from && !is_part(v[i - 1], style)
        invariant
            from <= i <= end <= v@.len(),
            last_part(all, style) == last_part(v@.subrange(from as int, i as int), style),
        decreases i,
    {
        assert(v@.subrange(from as int, i as int).drop_last() =~= v@.subrange(
            from as int,
            i - 1,
        ));
        assert(v@.subrange(from as int, i as int).last() == v@[i - 1]);
        i -= 1;
    }
    assert(i > from ==> v@.subrange(from as int, i as int).last() == v@[i - 1]);
    i
}

/// The name of the file that a path leads to.
pub fn file_name(path: &str, style: PathStyle) -> (r: Option<String>)
    ensures
        r.deep_view() == file_name_of(path@, style),
{
    let v = chars_of(path);
    let from = find_prefix(&v, style);
    let mut end: usize = v.len();
    let ghost all = path@.skip(prefix_len(path@, style) as int);
    assert(v@.subrange(from as int, end as int) =~= all);
    while end > from
        invariant
            from <= end <= v@.len(),
            all == path@.skip(prefix_len(path@, style) as int),
            name_of(all, style) == name_of(v@.subrange(from as int, end as int), style),
        decreases end,
    {
        let ghost now = v@.subrange(from as int, end as int);
        let start = find_part(&v, from, end, style);
        proof {
            lemma_last_part(now, style);
            assert(now.skip(start - from) =~= v@.subrange(start as int, end as int));
            assert(now.take(start - from) =~= v@.subrange(from as int, start as int));
            assert(now.drop_last() =~= v@.subrange(from as int, end - 1));
        }
        if start == end {
            end -= 1;
        } else if end - start == 1 && v[start] == '.' {
            assert(now.skip(start - from) =~= seq!['.']);
            end = start;
        } else if end - start == 2 && v[start] == '.' && v[start + 1] == '.' {
            assert(now.skip(start - from) =~= seq!['.', '.']);
            assert(now.skip(start - from).len() == 2 && seq!['.'].len() == 1);
            return None;
        } else {
            let ghost part = now.skip(start - from);
            assert(part.len() == end - start);
            assert(part[0] == v@[start as int]);
            assert(part.len() == 2 ==> part[1] == v@[start + 1]);
            assert(part != seq!['.']) by {
                assert(part.len() == 1 ==> part[0] != seq!['.'][0]);
            }
            assert(part != seq!['.', '.']) by {
                assert(part.len() == 2 ==> part[0] != seq!['.', '.'][0] || part[1] != seq![
                    '.',
                    '.',
                ][1]);
            }
            return Some(string_of(&v, start, end));
        }
    }
    None
}

/// Two files in one directory have one path only where they have one name.
pub proof fn law_names_keep_apart(dir: Seq<u8>, a: Seq<u8>, b: Seq<u8>, style: PathStyle)
    requires
        path_join(dir, a, style) == path_join(dir, b, style),
    ensures
        a == b,
{
    let head = if dir.len() == 0 || is_separator(dir.last(), style) || is_drive(dir, style) {
        dir
    } else {
        dir.push(separator(style))
    };
    assert(path_join(dir, a, style).skip(head.len() as int) == a);
    assert(path_join(dir, b, style).skip(head.len() as int) == b);
}

/// A file in a directory has the path of the directory, then its name, with one separator between
/// them where the directory neither is nothing, nor ends with one, nor is a drive.
pub proof fn law_joins(dir: Seq<u8>, name: Seq<u8>, style: PathStyle)
    ensures
        dir.len() == 0 ==> path_join(dir, name, style) == name,
        dir.len() > 0 && dir.last() == 47 ==> path_join(dir, name, style) == dir + name,
        style == PathStyle::Unix && dir.len() > 0 && dir.last() != 47 ==> path_join(dir, name, style)
            == dir + seq![47u8] + name,
        style == PathStyle::Windows && dir.len() > 0 && dir.last() == 92 ==> path_join(dir, name, style)
            == dir + name,
        style == PathStyle::Windows && dir.len() == 2 && (65 <= dir[0] <= 90 || 97 <= dir[0] <= 122)
            && dir[1] == 58 ==> path_join(dir, name, style) == dir + name,
        style == PathStyle::Windows && dir.len() > 0 && dir.last() != 47 && dir.last() != 92 && !(
        dir.len() == 2 && (65 <= dir[0] <= 90 || 97 <= dir[0] <= 122) && dir[1] == 58) ==> path_join(
            dir,
            name,
            style,
        ) == dir + seq![92u8] + name,
{
    assert(dir.len() == 0 ==> dir + name =~= name);
    assert(dir.push(separator(style)) =~= dir + seq![separator(style)]);
}

/// A named file is joined by the bytes of its name.
pub proof fn law_files(dir: Seq<u8>, name: Seq<char>, style: PathStyle)
    ensures
        file_in(dir, name, style) == path_join(dir, encode_utf8(name), style),
{
}

/// The state directory, given what the environment names and the home directory.
pub open spec fn state_dir(
    env: Option<Seq<char>>,
    home: Option<Seq<u8>>,
    style: PathStyle,
) -> Seq<u8> {
    match (env, home) {
        (Some(dir), _) if dir.len() > 0 => encode_utf8(dir),
        (_, Some(home)) => file_in(home, ".mcpg"@, style),
        (_, None) => encode_utf8("./mcpg-state"@),
    }
}

/// The state directory is the one that the environment names, whatever the home directory is; where
/// it names none, one in the home directory; and without that one where the program runs.
pub proof fn law_state_dirs(
    env: Option<Seq<char>>,
    named: Seq<char>,
    home: Seq<u8>,
    any_home: Option<Seq<u8>>,
    style: PathStyle,
)
    requires
        named.len() > 0,
        env matches Some(e) ==> e.len() == 0,
    ensures
        state_dir(Some(named), any_home, style) == encode_utf8(named),
        state_dir(env, Some(home), style) == file_in(home, ".mcpg"@, style),
        state_dir(env, None, style) == encode_utf8("./mcpg-state"@),
{
}

/// The URL of the database in a state directory.
pub open spec fn database_url(state_dir: Seq<u8>, style: PathStyle) -> Seq<char> {
    "sqlite://"@ + utf8_lossy(file_in(state_dir, "cp-state.db"@, style)) + "?mode=rwc"@
}

/// The URL of a database has the path of the database between its scheme and its mode.
pub proof fn law_database_urls(state_dir: Seq<u8>, style: PathStyle)
    ensures
        ({
            let url = database_url(state_dir, style);
            let path = utf8_lossy(file_in(state_dir, "cp-state.db"@, style));
            &&& url.len() == 9 + path.len() + 9
            &&& url.take(9) == "sqlite://"@
            &&& url.subrange(9, 9 + path.len() as int) == path
            &&& url.skip(9 + path.len() as int) == "?mode=rwc"@
        }),
{
    reveal_strlit("sqlite://");
    reveal_strlit("?mode=rwc");
    let url = database_url(state_dir, style);
    let path = utf8_lossy(file_in(state_dir, "cp-state.db"@, style));
    assert(url.take(9) =~= "sqlite://"@);
    assert(url.subrange(9, 9 + path.len() as int) =~= path);
    assert(url.skip(9 + path.len() as int) =~= "?mode=rwc"@);
}

/// Whether a text is the name of a file: it says something, does not part a path, and leads neither
/// nowhere nor up.
pub open spec fn is_name(name: Seq<char>, style: PathStyle) -> bool {
    &&& name.len() > 0
    &&& forall|i: int| 0 <= i < name.len() ==> !parts(#[trigger] name[i], style)
    &&& name != seq!['.']
    &&& name != seq!['.', '.']
}

/// The last part of a path begins where nothing after parts it.
proof fn lemma_last_part_unique(path: Seq<char>, n: int, style: PathStyle)
    requires
        0 <= n <= path.len(),
        n > 0 ==> parts(path[n - 1], style),
        forall|i: int| n <= i < path.len() ==> !parts(#[trigger] path[i], style),
    ensures
        last_part(path, style) == n,
{
    lemma_last_part(path, style);
    let m = last_part(path, style) as int;
    if m < n {
        assert(!parts(path[n - 1], style));
    } else if n < m {
        assert(!parts(path[m - 1], style));
    }
}

/// A path leads to the file that its last part names. A separator at its end, and a part that leads
/// nowhere, change nothing; after a part that leads up it leads to no file.
pub proof fn law_last_names(head: Seq<char>, name: Seq<char>, sep: char, style: PathStyle)
    requires
        is_name(name, style),
        parts(sep, style),
    ensures
        name_of(Seq::empty(), style) is None,
        name_of(name, style) == Some(name),
        name_of(head + seq![sep] + name, style) == Some(name),
        name_of(head + seq![sep], style) == name_of(head, style),
        name_of(head + seq![sep] + seq!['.'], style) == name_of(head, style),
        name_of(head + seq![sep] + seq!['.', '.'], style) is None,
{
    lemma_last_part_unique(name, 0, style);
    assert(name.skip(0) =~= name);
    let n = head.len() + 1;
    let named = head + seq![sep] + name;
    assert(named[n - 1] == sep);
    assert forall|i: int| n <= i < named.len() implies !parts(#[trigger] named[i], style) by {
        assert(named[i] == name[i - n]);
    }
    lemma_last_part_unique(named, n as int, style);
    assert(named.skip(n as int) =~= name);
    let ended = head + seq![sep];
    assert(ended.last() == sep);
    assert(last_part(ended, style) == ended.len());
    assert(ended.drop_last() =~= head);
    let dotted = head + seq![sep] + seq!['.'];
    assert(dotted[n - 1] == sep && dotted[n as int] == '.');
    lemma_last_part_unique(dotted, n as int, style);
    assert(dotted.skip(n as int) =~= seq!['.']);
    assert(dotted.take(n as int) =~= ended);
    let up = head + seq![sep] + seq!['.', '.'];
    assert(up[n - 1] == sep && up[n as int] == '.' && up[n as int + 1] == '.');
    lemma_last_part_unique(up, n as int, style);
    assert(up.skip(n as int) =~= seq!['.', '.']);
    assert(seq!['.', '.'].len() == 2 && seq!['.'].len() == 1);
}

/// What a path leads to is the name of a file, and occurs in the path.
pub proof fn law_names_of_files(path: Seq<char>, style: PathStyle)
    ensures
        name_of(path, style) matches Some(name) ==> is_name(name, style) && exists|i: int|
            0 <= i && i + name.len() <= path.len() && #[trigger] path.subrange(i, i + name.len())
                == name,
    decreases path.len(),
{
    lemma_last_part(path, style);
    let start = last_part(path, style) as int;
    let part = path.skip(start);
    if path.len() > 0 {
        if start >= path.len() {
            lemma_within(path, path.len() - 1, style);
        } else if part == seq!['.'] {
            lemma_within(path, start, style);
        } else if part != seq!['.', '.'] {
            assert forall|i: int| 0 <= i < part.len() implies !parts(#[trigger] part[i], style) by {
                assert(part[i] == path[start + i]);
            }
            assert(path.subrange(start, start + part.len()) =~= part);
        }
    }
}

/// What the beginning of a path leads to occurs in the path.
proof fn lemma_within(path: Seq<char>, n: int, style: PathStyle)
    requires
        0 <= n < path.len(),
    ensures
        name_of(path.take(n), style) matches Some(name) ==> is_name(name, style) && exists|i: int|
            0 <= i && i + name.len() <= path.len() && #[trigger] path.subrange(i, i + name.len())
                == name,
        n == path.len() - 1 ==> path.take(n) == path.drop_last(),
    decreases path.len(), 0nat,
{
    let short = path.take(n);
    law_names_of_files(short, style);
    assert(n == path.len() - 1 ==> short =~= path.drop_last());
    if let Some(name) = name_of(short, style) {
        let i = choose|i: int|
            0 <= i && i + name.len() <= short.len() && #[trigger] short.subrange(i, i + name.len())
                == name;
        assert(path.subrange(i, i + name.len()) =~= short.subrange(i, i + name.len()));
    }
}

proof fn lemma_part_end(path: Seq<char>, from: nat, end: nat, style: PathStyle)
    requires
        from <= end <= path.len(),
        forall|i: int| from <= i < end ==> !parts(#[trigger] path[i], style),
        end < path.len() ==> parts(path[end as int], style),
    ensures
        part_end(path, from, style) == end,
    decreases path.len() - from,
{
    if from < end {
        assert(!parts(path[from as int], style));
        lemma_part_end(path, from + 1, end, style);
    }
}

/// Whether a text does not part a path.
pub open spec fn is_whole(text: Seq<char>, style: PathStyle) -> bool {
    forall|i: int| 0 <= i < text.len() ==> !parts(#[trigger] text[i], style)
}

/// Only Windows knows prefixes of paths. There a drive is one, and what a path leads to is what
/// follows it leads to; a path that begins with neither a drive nor two separators has none.
pub proof fn law_prefixes_of_paths(path: Seq<char>, drive: char, rest: Seq<char>)
    requires
        'a' <= drive <= 'z' || 'A' <= drive <= 'Z',
    ensures
        file_name_of(path, PathStyle::Unix) == name_of(path, PathStyle::Unix),
        file_name_of(seq![drive, ':'] + rest, PathStyle::Windows) == name_of(rest, PathStyle::Windows),
        path.len() < 2 || !has_drive(path) && !(parts(path[0], PathStyle::Windows) && parts(
            path[1],
            PathStyle::Windows,
        )) ==> file_name_of(path, PathStyle::Windows) == name_of(path, PathStyle::Windows),
{
    assert(path.skip(0) =~= path);
    let driven = seq![drive, ':'] + rest;
    assert(driven[0] == drive && driven[1] == ':');
    assert(driven.skip(2) =~= rest);
}

/// Where a drive begins a path, a letter and a colon do.
pub proof fn law_drives(path: Seq<char>)
    ensures
        has_drive(path) <==> path.len() >= 2 && path[1] == ':' && ('a' <= path[0] <= 'z' || 'A'
            <= path[0] <= 'Z'),
{
}

/// What a server shares is the prefix of a path on it: what the path leads to is what follows leads
/// to.
pub proof fn law_shares(server: Seq<char>, share: Seq<char>, rest: Seq<char>)
    requires
        is_whole(server, PathStyle::Windows),
        is_whole(share, PathStyle::Windows),
        server.len() > 0,
        share.len() > 0,
        server != seq!['?'],
        server != seq!['.'],
        rest.len() > 0 ==> parts(rest[0], PathStyle::Windows),
    ensures
        file_name_of(seq!['\\', '\\'] + server + seq!['\\'] + share + rest, PathStyle::Windows)
            == name_of(rest, PathStyle::Windows),
{
    let style = PathStyle::Windows;
    let path = seq!['\\', '\\'] + server + seq!['\\'] + share + rest;
    let first = 2 + server.len();
    let end = first + 1 + share.len();
    assert(path[0] == '\\' && path[1] == '\\');
    assert(path[first as int] == '\\');
    assert forall|i: int| 2 <= i < first implies !parts(#[trigger] path[i], style) by {
        assert(path[i] == server[i - 2]);
    }
    assert forall|i: int| first + 1 <= i < end implies !parts(#[trigger] path[i], style) by {
        assert(path[i] == share[i - first - 1]);
    }
    assert(end < path.len() ==> path[end as int] == rest[0]);
    lemma_part_end(path, 2, first, style);
    lemma_part_end(path, first + 1, end, style);
    assert(path[2] == server[0]);
    assert(server.len() == 1 ==> server =~= seq![server[0]]);
    assert(server.len() > 1 ==> path[3] == server[1]);
    assert(path.skip(end as int) =~= rest);
}

/// A path that is taken as it stands, and a device, have their first part for a prefix. Where that is
/// `UNC`, the server and what it shares belong to it.
pub proof fn law_verbatim_prefixes(
    name: Seq<char>,
    server: Seq<char>,
    share: Seq<char>,
    rest: Seq<char>,
)
    requires
        is_whole(name, PathStyle::Windows),
        is_whole(server, PathStyle::Windows),
        is_whole(share, PathStyle::Windows),
        rest.len() > 0 ==> parts(rest[0], PathStyle::Windows),
    ensures
        name != seq!['U', 'N', 'C'] ==> file_name_of(
            seq!['\\', '\\', '?', '\\'] + name + rest,
            PathStyle::Windows,
        ) == name_of(rest, PathStyle::Windows),
        file_name_of(seq!['\\', '\\', '.', '\\'] + name + rest, PathStyle::Windows) == name_of(
            rest,
            PathStyle::Windows,
        ),
        file_name_of(
            seq!['\\', '\\', '?', '\\', 'U', 'N', 'C', '\\'] + server + seq!['\\'] + share + rest,
            PathStyle::Windows,
        ) == name_of(rest, PathStyle::Windows),
{
    let style = PathStyle::Windows;
    let end = 4 + name.len();
    let verbatim = seq!['\\', '\\', '?', '\\'] + name + rest;
    assert(verbatim[0] == '\\' && verbatim[1] == '\\' && verbatim[2] == '?' && verbatim[3] == '\\');
    assert forall|i: int| 4 <= i < end implies !parts(#[trigger] verbatim[i], style) by {
        assert(verbatim[i] == name[i - 4]);
    }
    assert(end < verbatim.len() ==> verbatim[end as int] == rest[0]);
    lemma_part_end(verbatim, 4, end, style);
    assert(verbatim.subrange(4, end as int) =~= name);
    assert(verbatim.skip(end as int) =~= rest);
    let device = seq!['\\', '\\', '.', '\\'] + name + rest;
    assert(device[0] == '\\' && device[1] == '\\' && device[2] == '.' && device[3] == '\\');
    assert forall|i: int| 4 <= i < end implies !parts(#[trigger] device[i], style) by {
        assert(device[i] == name[i - 4]);
    }
    assert(end < device.len() ==> device[end as int] == rest[0]);
    lemma_part_end(device, 4, end, style);
    assert(device.skip(end as int) =~= rest);
    let head = seq!['\\', '\\', '?', '\\', 'U', 'N', 'C', '\\'];
    let unc = head + server + seq!['\\'] + share + rest;
    let first = 8 + server.len();
    let last = first + 1 + share.len();
    assert(forall|i: int| 0 <= i < 8 ==> #[trigger] unc[i] == head[i]);
    assert(unc[first as int] == '\\');
    assert forall|i: int| 8 <= i < first implies !parts(#[trigger] unc[i], style) by {
        assert(unc[i] == server[i - 8]);
    }
    assert forall|i: int| first + 1 <= i < last implies !parts(#[trigger] unc[i], style) by {
        assert(unc[i] == share[i - first - 1]);
    }
    assert(last < unc.len() ==> unc[last as int] == rest[0]);
    lemma_part_end(unc, 4, 7, style);
    lemma_part_end(unc, 8, first, style);
    lemma_part_end(unc, first + 1, last, style);
    assert(unc.subrange(4, 7) =~= seq!['U', 'N', 'C']);
    assert(unc.skip(last as int) =~= rest);
}

/// The path of the database in a state directory.
pub open spec fn database_file(state_dir: Seq<u8>, style: PathStyle) -> Seq<u8> {
    file_in(state_dir, "cp-state.db"@, style)
}

/// The database lies in the state directory, and its URL leads to it.
pub proof fn law_databases(state_dir: Seq<u8>, style: PathStyle)
    ensures
        database_file(state_dir, style) == path_join(state_dir, encode_utf8("cp-state.db"@), style),
        database_url(state_dir, style) == "sqlite://"@ + utf8_lossy(database_file(state_dir, style))
            + "?mode=rwc"@,
{
}

/// A slash parts a path everywhere, a backslash on Windows, and nothing else does.
pub proof fn law_separators(c: char)
    ensures
        parts(c, PathStyle::Unix) <==> c == '/',
        parts(c, PathStyle::Windows) <==> c == '/' || c == '\\',
{
}

/// A path that may be missing is seen as its bytes.
pub proof fn law_paths_are_seen_whole(path: &[u8])
    ensures
        bytes_view(Some(path)) == Some(path@),
        bytes_view(None) is None,
{
}

} // verus!
