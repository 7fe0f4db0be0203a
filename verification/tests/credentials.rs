use std::collections::HashMap;

use mcpg_cli_core::credentials::{credentials_path, write_credentials_file, OWNER_ONLY};
use mcpg_cli_core::files::FileStep;
use mcpg_cli_core::paths::PathStyle;

type Disk = HashMap<Vec<u8>, (u32, Vec<u8>)>;

const UNIX: PathStyle = PathStyle::Unix;

/// Carries a step out on a disk in memory; of the bytes to write only the first `limit`.
fn perform(disk: &mut Disk, step: &FileStep, limit: usize) {
    match step {
        FileStep::Remove { path } => {
            disk.remove(path);
        }
        FileStep::Create { path, mode } => {
            assert!(disk.insert(path.clone(), (*mode, Vec::new())).is_none());
        }
        FileStep::Write { path, data } => {
            let n = limit.min(data.len());
            disk.get_mut(path).unwrap().1.extend_from_slice(&data[..n]);
        }
        FileStep::Sync { path } => assert!(disk.contains_key(path)),
        FileStep::Rename { from, to } => {
            let file = disk.remove(from).unwrap();
            disk.insert(to.clone(), file);
        }
        FileStep::Replace { .. } => panic!("nothing is written over"),
    }
}

#[test]
fn the_file_is_made_anew_beside_its_place_and_moved() {
    let steps = write_credentials_file(b"/s", b"{}", UNIX);
    assert_eq!(steps.len(), 5);
    let tmp = b"/s/credentials.json.tmp".to_vec();
    assert!(matches!(&steps[0], FileStep::Remove { path } if *path == tmp));
    assert!(matches!(&steps[1], FileStep::Create { path, mode } if *path == tmp && *mode == 0o600));
    assert!(matches!(&steps[2], FileStep::Write { path, data } if *path == tmp && data == b"{}"));
    assert!(matches!(&steps[3], FileStep::Sync { path } if *path == tmp));
    assert!(matches!(&steps[4], FileStep::Rename { from, to }
        if *from == tmp && to == b"/s/credentials.json"));
    assert_eq!(credentials_path(b"/s", UNIX), b"/s/credentials.json");
    assert_eq!(
        std::path::Path::new("/s/credentials.json").with_extension("json.tmp"),
        std::path::Path::new("/s/credentials.json.tmp")
    );
}

/// Writes over a disk with the given files, stopped in every place, and checks what is left.
fn stop_everywhere(old: &[(&str, u32, &[u8])]) {
    let steps = write_credentials_file(b"/s", b"new credentials", UNIX);
    let target = credentials_path(b"/s", UNIX);
    for stop in 0..=steps.len() {
        for limit in 0..=15 {
            let mut disk = Disk::new();
            for (path, mode, data) in old {
                disk.insert(path.as_bytes().to_vec(), (*mode, data.to_vec()));
            }
            let before = disk.clone();
            for (i, step) in steps.iter().take(stop).enumerate() {
                perform(&mut disk, step, if i + 1 == stop { limit } else { usize::MAX });
            }
            if stop < steps.len() {
                assert_eq!(disk.get(&target), before.get(&target));
            } else {
                assert_eq!(disk[&target], (OWNER_ONLY, b"new credentials".to_vec()));
                assert!(!disk.contains_key(&b"/s/credentials.json.tmp".to_vec()));
            }
            for (path, file) in &disk {
                assert!(before.get(path) == Some(file) || file.0 == OWNER_ONLY);
            }
        }
    }
}

#[test]
fn whatever_stops_the_writing_the_credentials_are_whole() {
    stop_everywhere(&[
        ("/s/credentials.json", 0o600, b"old"),
        ("/s/context.json", 0o644, b"ctx"),
    ]);
    stop_everywhere(&[]);
}

#[test]
fn files_that_others_can_read_do_not_make_the_credentials_readable() {
    stop_everywhere(&[
        ("/s/credentials.json", 0o644, b"old"),
        ("/s/credentials.json.tmp", 0o644, b"left over"),
    ]);
}
