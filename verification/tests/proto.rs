use cyberpixie::{
    proto::{
        packet::{encode_frame, Packet, PacketHeaderBuf, PacketReadError},
        types::{DeviceInfo, DeviceRole, Hertz, ImageId, PeerInfo},
        Headers, RequestHeader, ResponseHeader,
    },
    Error,
};

#[test]
fn response_interpretation() {
    assert_eq!(ResponseHeader::Empty.empty(), Ok(()));
    assert_eq!(
        ResponseHeader::AddImage(ImageId(3)).empty(),
        Err(Error::UnexpectedResponse)
    );
    assert_eq!(
        ResponseHeader::Error(Error::ImageNotFound).empty(),
        Err(Error::ImageNotFound)
    );
    let info = PeerInfo::client();
    assert_eq!(ResponseHeader::Handshake(info).handshake(), Ok(info));
    assert_eq!(ResponseHeader::Empty.handshake(), Err(Error::UnexpectedResponse));
    assert_eq!(
        ResponseHeader::Error(Error::Network).handshake(),
        Err(Error::Network)
    );
    assert_eq!(ResponseHeader::AddImage(ImageId(7)).add_image(), Ok(ImageId(7)));
    assert_eq!(
        ResponseHeader::Handshake(info).add_image(),
        Err(Error::UnexpectedResponse)
    );
    assert_eq!(
        ResponseHeader::Error(Error::ImageRepositoryIsFull).add_image(),
        Err(Error::ImageRepositoryIsFull)
    );
}

#[test]
fn peer_and_device_info() {
    assert_eq!(
        PeerInfo::client(),
        PeerInfo {
            role: DeviceRole::Client,
            group_id: None,
            device_info: None
        }
    );
    assert_eq!(
        DeviceInfo::empty(64),
        DeviceInfo {
            strip_len: 64,
            images_count: ImageId(0),
            current_image: None,
            active: false,
        }
    );
    assert_eq!(DeviceRole::Secondary.to_string(), "secondary");
    assert_eq!(DeviceRole::Main.to_string(), "main");
    assert_eq!(DeviceRole::Client.to_string(), "client");
}

#[test]
fn headers_from() {
    assert_eq!(
        Headers::from(RequestHeader::Debug),
        Headers::Request(RequestHeader::Debug)
    );
    assert_eq!(
        Headers::from(ResponseHeader::Empty),
        Headers::Response(ResponseHeader::Empty)
    );
    assert_eq!(Hertz::from(50), Hertz(50));
}

#[test]
fn hertz_little_endian() {
    let mut bytes = [0_u8; 4];
    Hertz(0x0102_0304).encode_as_le_bytes(&mut bytes);
    assert_eq!(bytes, [4, 3, 2, 1]);
    assert_eq!(Hertz::decode_from_le_bytes(&[0x10, 0, 0, 1]), Hertz(0x0100_0010));
}

#[test]
fn packet_little_endian() {
    let packet = Packet {
        header_len: 5,
        payload_len: 0x0102,
    };
    let mut bytes = [0_u8; 8];
    packet.encode_as_le_bytes(&mut bytes);
    assert_eq!(bytes, [5, 0, 0, 0, 2, 1, 0, 0]);
    assert_eq!(Packet::decode_from_le_bytes(&bytes), packet);
    assert_eq!(packet.header_len(), 5);
    assert_eq!(packet.payload_len(), 258);
    assert!(packet.has_payload());
}

#[test]
fn packet_read() {
    assert_eq!(
        Packet::read::<()>(&[1, 0, 0]),
        Err(PacketReadError::UnexpectedEof)
    );
    assert_eq!(
        Packet::read::<()>(&[1, 0, 0, 0, 0, 0, 0, 0, 9]),
        Ok(Packet {
            header_len: 1,
            payload_len: 0
        })
    );
}

#[test]
fn frame_roundtrip() {
    let header = [7_u8, 8, 9];
    let mut buf = [0xff_u8; 40];
    let n = encode_frame(&header, 16, &mut buf);
    assert_eq!(n, 11);
    assert_eq!(&buf[0..11], &[3, 0, 0, 0, 16, 0, 0, 0, 7, 8, 9]);
    assert_eq!(buf[11], 0xff);

    let packet = Packet::read::<()>(&buf).unwrap();
    let (header_bytes, payload_len) = packet.header_frame::<()>(&buf[8..]).unwrap();
    assert_eq!(header_bytes, &header);
    assert_eq!(payload_len, 16);
}

#[test]
fn header_frame_too_short() {
    let packet = Packet {
        header_len: 4,
        payload_len: 0,
    };
    assert_eq!(
        packet.header_frame::<()>(&[1, 2]),
        Err(PacketReadError::UnexpectedEof)
    );
    assert_eq!(packet.checked_header_len(), Ok(4));
    let largest = Packet {
        header_len: 29,
        payload_len: 0,
    };
    assert_eq!(largest.checked_header_len(), Ok(29));
    let big = Packet {
        header_len: 30,
        payload_len: 0,
    };
    assert_eq!(big.checked_header_len(), Err(Error::Decode));
}

#[test]
fn packet_arrives_in_pieces() {
    let mut buf = PacketHeaderBuf::new();
    assert_eq!(buf.bytes_remaining(), 8);
    assert_eq!(buf.extend(&[2, 0, 0]), None);
    assert_eq!(buf.bytes_remaining(), 5);
    assert_eq!(
        buf.extend(&[0, 5, 0, 0, 0]),
        Some(Packet {
            header_len: 2,
            payload_len: 5
        })
    );
    assert_eq!(buf.bytes_remaining(), 8);
}

#[test]
fn hertz_from_decimal() {
    assert_eq!(Hertz::parse("50"), Ok(Hertz(50)));
    assert_eq!("4000000000".parse::<Hertz>(), Ok(Hertz(4_000_000_000)));
    assert!(Hertz::parse("abc").is_err());
    assert!(Hertz::parse("").is_err());
    assert!(Hertz::parse("5000000000").is_err());
    assert_eq!(Hertz::parse("+7"), Ok(Hertz(7)));
    assert_eq!(Hertz::parse("007"), Ok(Hertz(7)));
    assert!(Hertz::parse("+").is_err());
    assert!(Hertz::parse("-1").is_err());
    assert!(Hertz::parse(" 5").is_err());
    assert!(Hertz::parse("4294967296").is_err());
    assert_eq!(Hertz::parse("4294967295"), Ok(Hertz(u32::MAX)));
}
