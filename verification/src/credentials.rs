//! The stored credentials, and how their file is written.
//!
//! The file is made anew beside its place, for its owner only, and then moved there. So whatever stops
//! the writing, the file holds all of the old credentials or all of the new, and nobody else could
//! read the new ones at any time.

use vstd::prelude::*;
use vstd::slice::slice_to_vec;
use vstd::utf8::{encode_utf8, is_ascii_chars_encode_utf8};

use crate::clock::Timestamp;
use crate::files::{steps_done, stopped, Disk, FileOnDisk, FileStep, FileStepView};
use crate::paths::{file_in, join_path, law_names_keep_apart, PathStyle};

verus! {

/// The credentials that a login leaves.
#[derive(Debug)]
pub struct StoredCredentials {
    pub issuer: String,
    pub client_id: String,
    pub id_token: String,
    pub access_token: String,
    pub refresh_token: Option<String>,
    pub license_jwt: Option<String>,
    pub email: Option<String>,
    pub stored_at: Timestamp,
}

/// The credentials, with text as character sequences.
pub struct CredentialsView {
    pub issuer: Seq<char>,
    pub client_id: Seq<char>,
    pub id_token: Seq<char>,
    pub access_token: Seq<char>,
    pub refresh_token: Option<Seq<char>>,
    pub license_jwt: Option<Seq<char>>,
    pub email: Option<Seq<char>>,
    pub stored_at: Timestamp,
}

impl View for StoredCredentials {
    type V = CredentialsView;

    open spec fn view(&self) -> CredentialsView {
        CredentialsView {
            issuer: self.issuer@,
            client_id: self.client_id@,
            id_token: self.id_token@,
            access_token: self.access_token@,
            refresh_token: self.refresh_token.deep_view(),
            license_jwt: self.license_jwt.deep_view(),
            email: self.email.deep_view(),
            stored_at: self.stored_at,
        }
    }
}

/// The permissions of the file: its owner reads and writes it, nobody else does either.
pub const OWNER_ONLY: u32 = 0o600;

/// The path of the credentials in a state directory.
pub open spec fn credentials_file(state_dir: Seq<u8>, style: PathStyle) -> Seq<u8> {
    file_in(state_dir, "credentials.json"@, style)
}

/// The path beside it where the credentials are written first.
pub open spec fn temporary_file(state_dir: Seq<u8>, style: PathStyle) -> Seq<u8> {
    file_in(state_dir, "credentials.json.tmp"@, style)
}

/// The steps that write the credentials.
pub open spec fn write_steps(state_dir: Seq<u8>, bytes: Seq<u8>, style: PathStyle) -> Seq<
    FileStepView,
> {
    let tmp = temporary_file(state_dir, style);
    seq![
        FileStepView::Remove { path: tmp },
        FileStepView::Create { path: tmp, mode: OWNER_ONLY },
        FileStepView::Write { path: tmp, data: bytes },
        FileStepView::Sync { path: tmp },
        FileStepView::Rename { from: tmp, to: credentials_file(state_dir, style) },
    ]
}

/// The path of the credentials in a state directory.
pub fn credentials_path(state_dir: &[u8], style: PathStyle) -> (r: Vec<u8>)
    ensures
        r@ == credentials_file(state_dir@, style),
{
    join_path(state_dir, "credentials.json", style)
}

/// The steps that write the credentials.
pub fn write_credentials_file(state_dir: &[u8], bytes: &[u8], style: PathStyle) -> (r: Vec<FileStep>)
    ensures
        r@.map_values(|s: FileStep| s@) == write_steps(state_dir@, bytes@, style),
{
    let r = vec![
        FileStep::Remove { path: join_path(state_dir, "credentials.json.tmp", style) },
        FileStep::Create {
            path: join_path(state_dir, "credentials.json.tmp", style),
            mode: OWNER_ONLY,
        },
        FileStep::Write {
            path: join_path(state_dir, "credentials.json.tmp", style),
            data: slice_to_vec(bytes),
        },
        FileStep::Sync { path: join_path(state_dir, "credentials.json.tmp", style) },
        FileStep::Rename {
            from: join_path(state_dir, "credentials.json.tmp", style),
            to: credentials_path(state_dir, style),
        },
    ];
    assert(r@.map_values(|s: FileStep| s@) =~= write_steps(state_dir@, bytes@, style));
    r
}

proof fn lemma_paths_differ(state_dir: Seq<u8>, style: PathStyle)
    ensures
        credentials_file(state_dir, style) != temporary_file(state_dir, style),
{
    reveal_strlit("credentials.json");
    reveal_strlit("credentials.json.tmp");
    is_ascii_chars_encode_utf8("credentials.json"@);
    is_ascii_chars_encode_utf8("credentials.json.tmp"@);
    if credentials_file(state_dir, style) == temporary_file(state_dir, style) {
        law_names_keep_apart(
            state_dir,
            encode_utf8("credentials.json"@),
            encode_utf8("credentials.json.tmp"@),
            style,
        );
    }
}

/// Wherever the writing is stopped, the file of credentials is as it was or holds all of the new
/// bytes, and no file but it and the one beside it has changed.
pub proof fn law_credentials_are_never_torn(
    disk: Disk,
    state_dir: Seq<u8>,
    bytes: Seq<u8>,
    style: PathStyle,
    after: Disk,
)
    requires
        stopped(disk, write_steps(state_dir, bytes, style), after),
    ensures
        ({
            let target = credentials_file(state_dir, style);
            let tmp = temporary_file(state_dir, style);
            &&& (after.dom().contains(target) == disk.dom().contains(target) && after[target]
                == disk[target]) || (after.dom().contains(target) && after[target].data == bytes)
            &&& forall|p: Seq<u8>|
                p != target && p != tmp ==> (after.dom().contains(p) <==> disk.dom().contains(p))
                    && (disk.dom().contains(p) ==> #[trigger] after[p] == disk[p])
        }),
{
    lemma_paths_differ(state_dir, style);
    let steps = write_steps(state_dir, bytes, style);
    reveal_with_fuel(steps_done, 6);
    assert(steps.len() == 5);
    assert(Seq::<u8>::empty() + bytes == bytes);
}

/// Whatever was on disk before, when the writing is done the file of credentials is there, holds the
/// new bytes, and is for its owner only, and the file beside it is gone. Wherever the writing is
/// stopped, every file that is not as it was is for its owner only, so the new bytes are never in a
/// file that others can read.
pub proof fn law_credentials_are_private(
    disk: Disk,
    state_dir: Seq<u8>,
    bytes: Seq<u8>,
    style: PathStyle,
    after: Disk,
)
    ensures
        ({
            let done = steps_done(disk, write_steps(state_dir, bytes, style), 5);
            &&& done.dom().contains(credentials_file(state_dir, style))
            &&& done[credentials_file(state_dir, style)] == (FileOnDisk {
                mode: OWNER_ONLY,
                data: bytes,
            })
            &&& !done.dom().contains(temporary_file(state_dir, style))
        }),
        stopped(disk, write_steps(state_dir, bytes, style), after) ==> forall|p: Seq<u8>|
            after.dom().contains(p) ==> (disk.dom().contains(p) && #[trigger] after[p] == disk[p])
                || after[p].mode == OWNER_ONLY,
{
    lemma_paths_differ(state_dir, style);
    let steps = write_steps(state_dir, bytes, style);
    reveal_with_fuel(steps_done, 6);
    assert(steps.len() == 5);
    assert(Seq::<u8>::empty() + bytes == bytes);
}

/// The new bytes are on disk before their file is moved into place: each step on the file beside comes
/// before the move, the bytes are written once and whole, and nothing is written after the wait.
pub proof fn law_bytes_are_on_disk_first(state_dir: Seq<u8>, bytes: Seq<u8>, style: PathStyle)
    ensures
        ({
            let steps = write_steps(state_dir, bytes, style);
            let tmp = file_in(state_dir, "credentials.json.tmp"@, style);
            let target = file_in(state_dir, "credentials.json"@, style);
            let n = steps.len() - 1;
            &&& n >= 2
            &&& steps[n] == (FileStepView::Rename { from: tmp, to: target })
            &&& steps[n - 1] == (FileStepView::Sync { path: tmp })
            &&& steps[n - 2] == (FileStepView::Write { path: tmp, data: bytes })
            &&& forall|i: int|
                0 <= i < n - 2 ==> #[trigger] steps[i] == (FileStepView::Remove { path: tmp })
                    || steps[i] == (FileStepView::Create { path: tmp, mode: 0o600 })
        }),
{
}

/// The credentials are seen as what they hold.
pub proof fn law_credentials_are_seen_whole(creds: StoredCredentials)
    ensures
        creds@.issuer == creds.issuer@,
        creds@.client_id == creds.client_id@,
        creds@.id_token == creds.id_token@,
        creds@.access_token == creds.access_token@,
        creds@.refresh_token is Some <==> creds.refresh_token is Some,
        creds.refresh_token matches Some(t) ==> creds@.refresh_token == Some(t@),
        creds@.license_jwt is Some <==> creds.license_jwt is Some,
        creds.license_jwt matches Some(t) ==> creds@.license_jwt == Some(t@),
        creds@.email is Some <==> creds.email is Some,
        creds.email matches Some(e) ==> creds@.email == Some(e@),
        creds@.stored_at == creds.stored_at,
{
}

} // verus!
