use boxrun::layers::{decode_layer, ExtractionError, FsState};

/// Builds a gzip-compressed archive holding the given files.
fn blob_of(files: &[(&str, &[u8])]) -> Vec<u8> {
    let mut tb = tar::Builder::new(Vec::new());
    for (path, data) in files {
        let mut header = tar::Header::new_gnu();
        header.set_size(data.len() as u64);
        header.set_mode(0o644);
        tb.append_data(&mut header, path, *data).unwrap();
    }
    let tar_bytes = tb.into_inner().unwrap();
    let mut gz = flate2::write::GzEncoder::new(Vec::new(), flate2::Compression::default());
    std::io::Write::write_all(&mut gz, &tar_bytes).unwrap();
    gz.finish().unwrap()
}

#[test]
fn decode_layer_lists_entries_in_archive_order() {
    let blob = blob_of(&[("a.txt", b"one"), ("b.txt", b"first")]);
    let entries = decode_layer(&blob).unwrap();
    assert_eq!(entries.len(), 2);
    assert_eq!(entries[0].path, b"a.txt".to_vec());
    assert_eq!(entries[0].data, b"one".to_vec());
    assert!(!entries[0].is_dir);
    assert_eq!(entries[0].mode, Some(0o644));
    assert_eq!(entries[1].path, b"b.txt".to_vec());
    assert_eq!(entries[1].data, b"first".to_vec());
}

#[test]
fn corrupt_blob_is_refused() {
    let garbage = vec![0u8, 1, 2, 3, 4, 5, 6, 7];
    assert_eq!(decode_layer(&garbage), Err(ExtractionError::CorruptArchive));
}

#[test]
fn truncated_gzip_is_refused() {
    let mut blob = blob_of(&[("a.txt", b"one")]);
    blob.truncate(blob.len() / 2);
    assert!(decode_layer(&blob).is_err());
}

#[test]
fn later_layer_overwrites_earlier_at_identical_paths() {
    let lower = blob_of(&[("a.txt", b"one"), ("b.txt", b"first")]);
    let upper = blob_of(&[("b.txt", b"second")]);
    let mut fs = FsState::new();
    fs.unpack_layer(&lower).unwrap();
    fs.unpack_layer(&upper).unwrap();
    assert_eq!(fs.lookup(b"a.txt").unwrap().data, b"one".to_vec());
    assert_eq!(fs.lookup(b"b.txt").unwrap().data, b"second".to_vec());
    assert!(fs.lookup(b"c.txt").is_none());
}

#[test]
fn layer_stack_equals_one_by_one_application() {
    let lower = blob_of(&[("a.txt", b"one"), ("b.txt", b"first")]);
    let upper = blob_of(&[("b.txt", b"second"), ("c.txt", b"third")]);

    let mut stacked = FsState::new();
    stacked
        .unpack_layers(&vec![lower.clone(), upper.clone()])
        .unwrap();

    let mut one_by_one = FsState::new();
    one_by_one.apply_layer(decode_layer(&lower).unwrap());
    one_by_one.apply_layer(decode_layer(&upper).unwrap());

    for path in [&b"a.txt"[..], b"b.txt", b"c.txt"] {
        let left = stacked.lookup(path).unwrap();
        let right = one_by_one.lookup(path).unwrap();
        assert_eq!(left.path, right.path);
        assert_eq!(left.data, right.data);
    }
}

#[test]
fn corrupt_layer_anywhere_refuses_the_stack() {
    let good = blob_of(&[("a.txt", b"one")]);
    let bad = vec![9u8; 16];
    let mut fs = FsState::new();
    assert_eq!(
        fs.unpack_layers(&vec![good, bad]),
        Err(ExtractionError::CorruptArchive)
    );
}

#[test]
fn rejected_blob_leaves_the_filesystem_unchanged() {
    let good = blob_of(&[("a.txt", b"one")]);
    let bad = vec![9u8; 16];
    let mut fs = FsState::new();
    fs.unpack_layer(&good).unwrap();
    assert!(fs.unpack_layer(&bad).is_err());
    assert_eq!(fs.lookup(b"a.txt").unwrap().data, b"one".to_vec());
}
