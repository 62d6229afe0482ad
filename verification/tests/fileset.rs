use ppm::fileset::{FileSet, FileSetError, SeekFrom};

/// Ten documents of ten ten-byte lines, read as one stream.
#[test]
fn file_set() {
    let mut files: Vec<Vec<u8>> = Vec::with_capacity(10);
    for i in 0..10 {
        let mut content = Vec::new();
        for _ in 0..10 {
            content.extend_from_slice(format!("file{i}0123\n").as_bytes());
        }
        files.push(content);
    }

    let mut fileset = FileSet::new(files).unwrap();
    assert_eq!(10 * 10 * 10, fileset.seek(SeekFrom::End(0)));

    assert_eq!(10 * 10 - 5, fileset.seek(SeekFrom::Start(10 * 10 - 5)));
    let buf = fileset.read(10);
    assert_eq!(10, buf.len());
    assert_eq!(b"0123\nfile1", buf.as_slice());

    assert_eq!(10 * 9, fileset.seek(SeekFrom::Current(-15)));
    let buf = fileset.read(10);
    assert_eq!(b"file00123\n", buf.as_slice());
    let buf = fileset.read(10);
    assert_eq!(b"file10123\n", buf.as_slice());
    assert_eq!(10 * 11, fileset.get_position());
    assert_eq!(10 * 19, fileset.seek(SeekFrom::Current(10 * 8)));
}

/// The stream is exactly the concatenation: two copies of one document
/// read back to back.
#[test]
fn boundaries() {
    let content = b"0123456789".to_vec();
    let mut fileset = FileSet::new(vec![content.clone(), content]).unwrap();
    let buf = fileset.read(20);
    assert_eq!(b"01234567890123456789".to_vec(), buf);
    // past the end there is nothing more
    assert_eq!(0, fileset.read(5).len());
}

/// Seeks clamp to the stream bounds; reads crossing a boundary
/// concatenate.
#[test]
fn seek_bounds() {
    let mut fileset = FileSet::new(vec![b"abc".to_vec(), b"defg".to_vec()]).unwrap();
    assert_eq!(7, fileset.total_size());
    assert_eq!(7, fileset.seek(SeekFrom::Start(100)));
    assert_eq!(0, fileset.seek(SeekFrom::End(-100)));
    assert_eq!(2, fileset.seek(SeekFrom::Start(2)));
    let buf = fileset.read(3);
    assert_eq!(b"cde".to_vec(), buf);
    assert_eq!(5, fileset.get_position());
}

#[test]
fn empty_set_refused() {
    match FileSet::new(Vec::new()) {
        Err(FileSetError::NoFiles) => {}
        _ => panic!("an empty set has no stream"),
    }
}
