use cue::extract::{extract_executable, select_payload};
use cue::upgrade::UpgradeError;
use std::io::Write;

fn tar_gz(entries: &[(&str, &[u8])]) -> Vec<u8> {
    let mut builder = tar::Builder::new(Vec::new());
    for (path, data) in entries {
        let mut header = tar::Header::new_gnu();
        header.set_size(data.len() as u64);
        header.set_mode(0o755);
        header.set_cksum();
        builder.append_data(&mut header, path, *data).unwrap();
    }
    let tar_bytes = builder.into_inner().unwrap();
    let mut enc = flate2::write::GzEncoder::new(Vec::new(), flate2::Compression::default());
    enc.write_all(&tar_bytes).unwrap();
    enc.finish().unwrap()
}

#[test]
fn extracts_entry_named_cue() {
    let data = tar_gz(&[("README.md", b"read me"), ("dist/cue", b"new binary")]);
    assert_eq!(extract_executable(&data).unwrap(), b"new binary".to_vec());
}

#[test]
fn first_cue_entry_wins() {
    let data = tar_gz(&[("cue", b"first"), ("other/cue", b"second")]);
    assert_eq!(extract_executable(&data).unwrap(), b"first".to_vec());
}

#[test]
fn archive_without_cue_fails() {
    let data = tar_gz(&[("README.md", b"read me"), ("cue.txt", b"not it"), ("cue/x", b"no")]);
    assert!(matches!(extract_executable(&data), Err(UpgradeError::NoBinaryInArchive)));
}

#[test]
fn non_gzip_input_is_an_io_error() {
    assert!(matches!(extract_executable(b"plain bytes"), Err(UpgradeError::Io(_))));
}

#[test]
fn select_from_listing() {
    let entries = vec![
        ("a/b.txt".to_string(), vec![1u8]),
        ("bin/cue".to_string(), vec![2u8, 3]),
    ];
    assert_eq!(select_payload(entries, true).unwrap(), vec![2u8, 3]);
    let none = vec![("a/b.txt".to_string(), vec![1u8])];
    assert!(matches!(select_payload(none.clone(), true), Err(UpgradeError::NoBinaryInArchive)));
    assert!(matches!(select_payload(none, false), Err(UpgradeError::Io(_))));
}
