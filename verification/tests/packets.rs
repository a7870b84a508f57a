use gateway_requests::errors::{
    GatewayRequestsError, MixPacketFormattingError, NymNodeRoutingAddressError,
};
use gateway_requests::packet::{MixPacket, NymNodeRoutingAddress, PacketSize, PacketType};
use gateway_requests::shared_keys::SharedKeys;
use gateway_requests::types::{BinaryRequest, Message};

fn keys() -> SharedKeys {
    let bytes: Vec<u8> = (0u8..32).collect();
    SharedKeys::try_from_bytes(&bytes).unwrap()
}

fn hop() -> NymNodeRoutingAddress {
    NymNodeRoutingAddress::V4 { ip: [10, 0, 0, 1], port: 1789 }
}

#[test]
fn packet_sizes_are_the_five_allowed_ones() {
    assert_eq!(PacketSize::AckPacket.size(), 386);
    assert_eq!(PacketSize::RegularPacket.size(), 2413);
    assert_eq!(PacketSize::ExtendedPacket8.size(), 8557);
    assert_eq!(PacketSize::ExtendedPacket16.size(), 16749);
    assert_eq!(PacketSize::ExtendedPacket32.size(), 33133);
    assert_eq!(PacketSize::RegularPacket.plaintext_size(), 2048);
    assert_eq!(PacketSize::ExtendedPacket32.plaintext_size(), 32 * 1024);
    assert_eq!(PacketSize::AckPacket.plaintext_size(), 21);
    assert_eq!(PacketSize::get_type(386), Ok(PacketSize::AckPacket));
    assert_eq!(PacketSize::get_type(2413), Ok(PacketSize::RegularPacket));
    assert_eq!(PacketSize::get_type(8557), Ok(PacketSize::ExtendedPacket8));
    assert_eq!(PacketSize::get_type(16749), Ok(PacketSize::ExtendedPacket16));
    assert_eq!(PacketSize::get_type(33133), Ok(PacketSize::ExtendedPacket32));
    assert_eq!(PacketSize::get_type(42), Err(GatewayRequestsError::RequestOfInvalidSize(42)));
    assert_eq!(PacketSize::get_type(0), Err(GatewayRequestsError::RequestOfInvalidSize(0)));
    assert_eq!(PacketSize::get_type(2414), Err(GatewayRequestsError::RequestOfInvalidSize(2414)));
}

#[test]
fn packet_types_are_three_bytes() {
    assert_eq!(PacketType::Mix.as_byte(), 0);
    assert_eq!(PacketType::Vpn.as_byte(), 1);
    assert_eq!(PacketType::Outfox.as_byte(), 2);
    assert_eq!(PacketType::try_from_byte(0), Ok(PacketType::Mix));
    assert_eq!(PacketType::try_from_byte(1), Ok(PacketType::Vpn));
    assert_eq!(PacketType::try_from_byte(2), Ok(PacketType::Outfox));
    assert_eq!(PacketType::try_from_byte(3), Err(GatewayRequestsError::InvalidPacketMode));
    assert_eq!(PacketType::try_from_byte(255), Err(GatewayRequestsError::InvalidPacketMode));
}

#[test]
fn routing_address_is_version_address_and_port() {
    let v4 = NymNodeRoutingAddress::V4 { ip: [192, 168, 1, 2], port: 0x1234 };
    assert_eq!(v4.as_bytes(), vec![4, 192, 168, 1, 2, 0x12, 0x34]);
    assert_eq!(v4.bytes_min_len(), 7);
    let ip6: [u8; 16] = [0x20, 1, 0xd, 0xb8, 0, 0, 0, 0, 0, 0, 0, 0, 0, 0, 0, 1];
    let v6 = NymNodeRoutingAddress::V6 { ip: ip6, port: 65535 };
    let mut expected = vec![6u8];
    expected.extend_from_slice(&ip6);
    expected.extend_from_slice(&[255, 255]);
    assert_eq!(v6.as_bytes(), expected);
    assert_eq!(v6.bytes_min_len(), 19);

    assert_eq!(NymNodeRoutingAddress::try_from_bytes(&v4.as_bytes()), Ok(v4));
    assert_eq!(NymNodeRoutingAddress::try_from_bytes(&v6.as_bytes()), Ok(v6));
    let mut longer = v4.as_bytes();
    longer.extend_from_slice(&[9, 9, 9]);
    assert_eq!(NymNodeRoutingAddress::try_from_bytes(&longer), Ok(v4));
}

#[test]
fn malformed_routing_addresses_are_refused() {
    assert_eq!(
        NymNodeRoutingAddress::try_from_bytes(&[]),
        Err(NymNodeRoutingAddressError::NoBytesProvided)
    );
    assert_eq!(
        NymNodeRoutingAddress::try_from_bytes(&[5, 1, 2, 3, 4, 0, 1]),
        Err(NymNodeRoutingAddressError::InvalidIpVersion(5))
    );
    assert_eq!(
        NymNodeRoutingAddress::try_from_bytes(&[4, 1, 2, 3, 4, 0]),
        Err(NymNodeRoutingAddressError::TooFewBytesProvided(6))
    );
    assert_eq!(
        NymNodeRoutingAddress::try_from_bytes(&[6; 18]),
        Err(NymNodeRoutingAddressError::TooFewBytesProvided(18))
    );
}

#[test]
fn mix_packet_comes_back_from_its_bytes() {
    let data: Vec<u8> = (0..2413).map(|i| (i % 251) as u8).collect();
    let packet = MixPacket::new(hop(), data.clone(), PacketType::Outfox);
    assert_eq!(packet.next_hop(), hop());
    assert_eq!(packet.packet_type(), PacketType::Outfox);
    assert_eq!(packet.packet(), &data);
    let bytes = packet.clone().into_bytes().unwrap();
    assert_eq!(bytes.len(), 1 + 7 + 2413);
    assert_eq!(bytes[0], 2);
    assert_eq!(&bytes[1..8], &[4, 10, 0, 0, 1, 0x06, 0xfd]);
    assert_eq!(&bytes[8..], &data[..]);
    assert_eq!(MixPacket::try_from_bytes(&bytes), Ok(packet));
}

#[test]
fn malformed_mix_packets_are_refused() {
    assert_eq!(MixPacket::try_from_bytes(&[]), Err(MixPacketFormattingError::TooFewBytesProvided));
    assert_eq!(
        MixPacket::try_from_bytes(&[9, 4, 1, 2, 3, 4, 0, 1]),
        Err(MixPacketFormattingError::InvalidPacketType(9))
    );
    assert_eq!(
        MixPacket::try_from_bytes(&[0]),
        Err(MixPacketFormattingError::InvalidAddress(NymNodeRoutingAddressError::NoBytesProvided))
    );
    assert_eq!(
        MixPacket::try_from_bytes(&[0, 7, 1]),
        Err(MixPacketFormattingError::InvalidAddress(NymNodeRoutingAddressError::InvalidIpVersion(7)))
    );
    let mut bytes = vec![0u8, 4, 1, 2, 3, 4, 0, 1];
    bytes.extend_from_slice(&[0u8; 34]);
    assert_eq!(
        MixPacket::try_from_bytes(&bytes),
        Err(MixPacketFormattingError::InvalidPacketSize(34))
    );
    assert_eq!(
        MixPacket::new(hop(), vec![0u8; 10], PacketType::Mix).into_bytes(),
        Err(MixPacketFormattingError::InvalidPacketSize(10))
    );
}

#[test]
fn forward_request_comes_back_from_its_frame() {
    let keys = keys();
    let packet = MixPacket::new(hop(), vec![7u8; 386], PacketType::Mix);
    let request = BinaryRequest::new_forward_request(packet.clone());
    let frame = request.into_encrypted_tagged_bytes(&keys);
    assert_eq!(frame.len(), 32 + 1 + 7 + 386);
    assert_eq!(frame, keys.encrypt_and_tag(&packet.clone().into_bytes().unwrap(), None));
    assert_eq!(
        BinaryRequest::try_from_encrypted_tagged_bytes(frame.clone(), &keys),
        Ok(BinaryRequest::ForwardSphinx(packet.clone()))
    );
    assert_eq!(
        BinaryRequest::new_forward_request(packet).into_ws_message(&keys),
        Message::Binary(frame)
    );
}

#[test]
fn malformed_forward_requests_are_refused() {
    let keys = keys();
    assert_eq!(
        BinaryRequest::try_from_encrypted_tagged_bytes(vec![1, 2, 3], &keys),
        Err(GatewayRequestsError::TooShortRequest)
    );
    let mut frame = keys.encrypt_and_tag(&[0u8; 400], None);
    frame[40] ^= 0x80;
    assert_eq!(
        BinaryRequest::try_from_encrypted_tagged_bytes(frame, &keys),
        Err(GatewayRequestsError::InvalidMac)
    );
    let frame = keys.encrypt_and_tag(&[3u8, 4, 0, 0, 0, 0, 0, 0], None);
    assert_eq!(
        BinaryRequest::try_from_encrypted_tagged_bytes(frame, &keys),
        Err(GatewayRequestsError::InvalidMixPacket(MixPacketFormattingError::InvalidPacketType(3)))
    );
    let frame = keys.encrypt_and_tag(&[], None);
    assert_eq!(
        BinaryRequest::try_from_encrypted_tagged_bytes(frame, &keys),
        Err(GatewayRequestsError::InvalidMixPacket(MixPacketFormattingError::TooFewBytesProvided))
    );
}
