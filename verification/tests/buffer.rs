use ppm::buffer::Buffer;

#[test]
fn buffer() {
    let mut buffer = Buffer::default();
    buffer.write_at(0, b"test");
    assert_eq!(b"", buffer.as_slice());
    assert!(buffer.is_empty());
    buffer.set_range(0, 4);
    assert!(!buffer.is_empty());
    assert_eq!(4, buffer.len());

    {
        let mut another = buffer.clone();
        assert_eq!(another, buffer);
        another.set_range(0, 4);
        assert_eq!(another, buffer);

        another.consume(1);
        buffer.set_range(1, 4);
        assert_eq!(another, buffer);
    }

    buffer.set_range(0, 4);
    assert_eq!(b"test", buffer.as_slice());
    buffer.consume(2);

    assert_eq!(b"st", buffer.as_slice());
    buffer.consume(2);
    assert_eq!(b"", buffer.as_slice());

    buffer.set_range(0, 0);
    assert_eq!(b"", buffer.as_slice());

    buffer.set_range(buffer.capacity(), buffer.capacity());
    assert_eq!(b"", buffer.as_slice());
    assert!(buffer.is_empty());

    buffer.set_range(0, buffer.capacity());
    assert_eq!(buffer.capacity(), buffer.len());
}

/// The live range clamps to the capacity, and consuming past the end
/// empties the range without error.
#[test]
fn buffer_bounds() {
    let mut buffer = Buffer::new(8);
    assert_eq!(8, buffer.capacity());
    buffer.set_range(0, 100);
    assert_eq!(8, buffer.len());
    buffer.consume(100);
    assert!(buffer.is_empty());
    buffer.set_range(6, 3);
    assert!(buffer.is_empty());
    buffer.reset();
    assert_eq!(0, buffer.len());
}
