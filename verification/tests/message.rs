use cyberpixie::{
    io::ExactSizeRead,
    message::{Message, PayloadReader},
    proto::RequestHeader,
};

#[test]
fn payload_reader_limits_reads() {
    let bytes = [1_u8, 2, 3, 4, 5];
    let mut payload = PayloadReader::from_bytes(&bytes[..]);
    assert_eq!(payload.len(), 5);
    assert!(!payload.is_empty());
    assert_eq!(payload.bytes_remaining(), 5);
    assert_eq!(payload.read_limit(16), 5);
    assert_eq!(payload.read_limit(2), 2);
    payload.consume(3);
    assert_eq!(payload.bytes_remaining(), 2);
    assert_eq!(payload.len(), 5);
    assert_eq!(payload.read_limit(16), 2);
    assert_eq!(*payload.inner_mut(), &bytes[..]);
    assert!(PayloadReader::new((), 0).is_empty());

    let mut other = PayloadReader::new((), 9);
    let borrowed = &mut other;
    assert_eq!(ExactSizeRead::bytes_remaining(&borrowed), 9);
    assert!(!ExactSizeRead::is_empty(&borrowed));
}

#[test]
fn message_into_parts() {
    let message = Message {
        header: RequestHeader::Debug,
        payload: Some(PayloadReader::new((), 12)),
    };
    let (header, len, payload) = message.into_parts();
    assert_eq!(header, RequestHeader::Debug);
    assert_eq!(len, 12);
    assert!(payload.is_some());

    let message: Message<(), _> = Message {
        header: RequestHeader::ClearImages,
        payload: None,
    };
    let (header, len, payload) = message.into_parts();
    assert_eq!(header, RequestHeader::ClearImages);
    assert_eq!(len, 0);
    assert!(payload.is_none());
}

#[test]
fn payload_len_kept_by_reads() {
    let bytes = [7_u8; 10];
    let mut payload = PayloadReader::from_bytes(&bytes[..]);
    for size in [3_usize, 0, 4, 8] {
        let n = payload.read_limit(size);
        payload.consume(n);
        assert_eq!(payload.len(), 10);
    }
    assert_eq!(payload.bytes_remaining(), 0);
    assert_eq!(payload.read_limit(4), 0);
}
