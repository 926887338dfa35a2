use nanopdf::Stream;

#[test]
fn test_stream_open_memory() {
    let data = b"Hello World";
    let stream = Stream::open_memory(data);
    assert_eq!(stream.tell(), 0);
    assert_eq!(stream.len(), Some(data.len() as u64));
    assert!(!stream.is_empty());
}

#[test]
fn test_stream_open_memory_empty() {
    let stream = Stream::open_memory(&[]);
    assert!(stream.is_empty());
    assert_eq!(stream.len(), Some(0));
}

#[test]
fn test_stream_read_byte() {
    let data = b"ABC";
    let mut stream = Stream::open_memory(data);

    let b1 = stream.read_byte().unwrap();
    assert_eq!(b1, Some(b'A'));

    let b2 = stream.read_byte().unwrap();
    assert_eq!(b2, Some(b'B'));

    let b3 = stream.read_byte().unwrap();
    assert_eq!(b3, Some(b'C'));

    let b4 = stream.read_byte().unwrap();
    assert_eq!(b4, None);
}

#[test]
fn test_stream_read() {
    let data = b"Hello World";
    let mut stream = Stream::open_memory(data);
    let mut buf = [0u8; 5];

    let n = stream.read(&mut buf).unwrap();
    assert_eq!(n, 5);
    assert_eq!(&buf, b"Hello");
}

#[test]
fn test_stream_read_exact() {
    let data = b"Hello World";
    let mut stream = Stream::open_memory(data);
    let mut buf = [0u8; 5];

    stream.read_exact(&mut buf).unwrap();
    assert_eq!(&buf, b"Hello");
}

#[test]
fn test_stream_read_exact_eof() {
    let data = b"Hi";
    let mut stream = Stream::open_memory(data);
    let mut buf = [0u8; 10];

    let result = stream.read_exact(&mut buf);
    assert!(result.is_err());
}

#[test]
fn test_stream_tell() {
    let data = b"Hello";
    let mut stream = Stream::open_memory(data);

    assert_eq!(stream.tell(), 0);
    stream.read_byte().unwrap();
    assert_eq!(stream.tell(), 1);
}

#[test]
fn test_stream_debug() {
    let stream = Stream::open_memory(b"test");
    let debug = format!("{:?}", stream);
    assert!(debug.contains("Stream"));
    assert!(debug.contains("pos"));
    assert!(debug.contains("eof"));
}

#[test]
fn test_stream_sequential_reads() {
    let data = b"ABCDEFGHIJ";
    let mut stream = Stream::open_memory(data);

    let mut buf = [0u8; 3];
    stream.read_exact(&mut buf).unwrap();
    assert_eq!(&buf, b"ABC");

    stream.read_exact(&mut buf).unwrap();
    assert_eq!(&buf, b"DEF");

    stream.read_exact(&mut buf).unwrap();
    assert_eq!(&buf, b"GHI");
}

#[test]
fn read_exact_moves_the_position() {
    let mut stream = Stream::open_memory(b"ABCDEF");
    let mut buf = [0u8; 4];
    stream.read_exact(&mut buf).unwrap();
    assert_eq!(stream.tell(), 4);
    assert_eq!(stream.read_byte().unwrap(), Some(b'E'));
    assert!(stream.read_exact(&mut buf).is_err());
    assert_eq!(stream.tell(), 6);
}
