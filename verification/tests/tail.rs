use ppm::tail_reader::{tail, TailError};

#[test]
fn tail_reader_basic() {
    for (input, output, lines) in [
        ("a\nb\nc", "b\nc", 2),
        ("a\nb\nc\n", "b\nc\n", 2),
        ("a\nb\nc\n", "a\nb\nc\n", 3),
        ("a\nb\nc\n", "a\nb\nc\n", 5),
        ("a\nb\nc\n", "", 0),
        ("a\nb\nc\n\n", "\n", 1),
    ] {
        let out = tail(input.as_bytes(), Some(lines)).unwrap();
        assert_eq!(
            String::from_utf8_lossy(&out),
            output,
            "failed to compare tail({input:?}, {lines}) vs {output:?}"
        );
    }
}

#[test]
fn seek_error() {
    const BUF_SIZE: usize = 2048;
    let mut data: Vec<u8> = Vec::new();
    for _ in 0..(BUF_SIZE / 10) {
        data.extend_from_slice(b"0123456789\n"); /* 11 bytes */
    }

    for n in 0..(BUF_SIZE / 10) {
        let out = tail(&data, Some(n)).unwrap();
        assert_eq!(n, out.iter().filter(|&f| f == &b'\n').count());
        assert_eq!(11 * n, out.len());
    }

    let out = tail(&data, None).unwrap();
    assert_eq!(BUF_SIZE / 10, out.iter().filter(|&f| f == &b'\n').count());
    assert_eq!(11 * (BUF_SIZE / 10), out.len());
}

/// An empty document cannot anchor a line-counted tail; without a line
/// count it is simply empty.
#[test]
fn tail_empty() {
    assert_eq!(Err(TailError::Empty), tail(b"", Some(1)));
    assert_eq!(Ok(Vec::new()), tail(b"", None));
}

/// A document without any newline is returned whole for any positive
/// count.
#[test]
fn tail_no_newline() {
    let out = tail(b"abcdef", Some(1)).unwrap();
    assert_eq!(b"abcdef".to_vec(), out);
    let out = tail(b"abcdef", Some(10)).unwrap();
    assert_eq!(b"abcdef".to_vec(), out);
}
