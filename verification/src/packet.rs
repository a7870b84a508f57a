//! Mix packets as the gateway protocol sees them: a packet type, the address
//! of the first hop and the bytes of a sphinx packet, which stay opaque here
//! but for their length.

use crate::bytes::{append_bytes, array_from_seq, copy_range, lemma_array_from_own_seq, take_16};
use crate::errors::{GatewayRequestsError, MixPacketFormattingError, NymNodeRoutingAddressError};
use vstd::prelude::*;

verus! {

/// Length in bytes of a sphinx header.
pub const HEADER_SIZE: usize = 348;

/// Bytes that a sphinx payload needs beyond its content.
pub const PAYLOAD_OVERHEAD_SIZE: usize = 17;

/// Length in bytes of an acknowledgement packet.
pub const ACK_PACKET_SIZE: usize = 386;

/// Length in bytes of a regular packet.
pub const REGULAR_PACKET_SIZE: usize = 2413;

/// Length in bytes of an extended packet with 8 KiB of content.
pub const EXTENDED_PACKET_SIZE_8: usize = 8557;

/// Length in bytes of an extended packet with 16 KiB of content.
pub const EXTENDED_PACKET_SIZE_16: usize = 16749;

/// Length in bytes of an extended packet with 32 KiB of content.
pub const EXTENDED_PACKET_SIZE_32: usize = 33133;

/// The sizes a sphinx packet may have.
#[derive(Debug, Clone, Copy, PartialEq, Eq, Structural)]
pub enum PacketSize {
    RegularPacket,
    AckPacket,
    ExtendedPacket8,
    ExtendedPacket16,
    ExtendedPacket32,
}

impl PacketSize {
    /// The length in bytes of a packet of this size.
    pub open spec fn spec_size(self) -> nat {
        match self {
            PacketSize::RegularPacket => 2413,
            PacketSize::AckPacket => 386,
            PacketSize::ExtendedPacket8 => 8557,
            PacketSize::ExtendedPacket16 => 16749,
            PacketSize::ExtendedPacket32 => 33133,
        }
    }

    /// The size that has `length` bytes, if there is one.
    pub open spec fn of_length(length: nat) -> Option<PacketSize> {
        if length == 2413 {
            Some(PacketSize::RegularPacket)
        } else if length == 386 {
            Some(PacketSize::AckPacket)
        } else if length == 8557 {
            Some(PacketSize::ExtendedPacket8)
        } else if length == 16749 {
            Some(PacketSize::ExtendedPacket16)
        } else if length == 33133 {
            Some(PacketSize::ExtendedPacket32)
        } else {
            None
        }
    }

    /// The length in bytes of a packet of this size.
    pub fn size(self) -> (length: usize)
        ensures
            length == self.spec_size(),
    {
        match self {
            PacketSize::RegularPacket => REGULAR_PACKET_SIZE,
            PacketSize::AckPacket => ACK_PACKET_SIZE,
            PacketSize::ExtendedPacket8 => EXTENDED_PACKET_SIZE_8,
            PacketSize::ExtendedPacket16 => EXTENDED_PACKET_SIZE_16,
            PacketSize::ExtendedPacket32 => EXTENDED_PACKET_SIZE_32,
        }
    }

    /// The length of the content that a packet of this size carries.
    pub fn plaintext_size(self) -> (length: usize)
        ensures
            length == self.spec_size() - 348 - 17,
    {
        self.size() - HEADER_SIZE - PAYLOAD_OVERHEAD_SIZE
    }

    /// The size that has `length` bytes; a length that no size has is
    /// reported with the length.
    pub fn get_type(length: usize) -> (result: Result<PacketSize, GatewayRequestsError>)
        ensures
            match Self::of_length(length as nat) {
                Some(size) => result == Ok::<PacketSize, GatewayRequestsError>(size),
                None => result == Err::<PacketSize, GatewayRequestsError>(
                    GatewayRequestsError::RequestOfInvalidSize(length),
                ),
            },
    {
        if length == REGULAR_PACKET_SIZE {
            Ok(PacketSize::RegularPacket)
        } else if length == ACK_PACKET_SIZE {
            Ok(PacketSize::AckPacket)
        } else if length == EXTENDED_PACKET_SIZE_8 {
            Ok(PacketSize::ExtendedPacket8)
        } else if length == EXTENDED_PACKET_SIZE_16 {
            Ok(PacketSize::ExtendedPacket16)
        } else if length == EXTENDED_PACKET_SIZE_32 {
            Ok(PacketSize::ExtendedPacket32)
        } else {
            Err(GatewayRequestsError::RequestOfInvalidSize(length))
        }
    }
}

/// Every size is the size of its own length, and of no other.
pub proof fn lemma_packet_size_of_length(size: PacketSize, length: nat)
    ensures
        PacketSize::of_length(size.spec_size()) == Some(size),
        PacketSize::of_length(length) == Some(size) <==> length == size.spec_size(),
{
}

/// How a packet is to be processed.
#[derive(Debug, Clone, Copy, PartialEq, Eq, Structural)]
pub enum PacketType {
    /// An ordinary sphinx packet, delayed at every hop.
    Mix,
    /// A sphinx packet that is forwarded without delay.
    Vpn,
    /// A packet in the outfox format.
    Outfox,
}

impl PacketType {
    /// The byte that stands for this type on the wire.
    pub open spec fn spec_byte(self) -> u8 {
        match self {
            PacketType::Mix => 0u8,
            PacketType::Vpn => 1u8,
            PacketType::Outfox => 2u8,
        }
    }

    /// The type that `byte` stands for, if any.
    pub open spec fn of_byte(byte: u8) -> Option<PacketType> {
        if byte == 0 {
            Some(PacketType::Mix)
        } else if byte == 1 {
            Some(PacketType::Vpn)
        } else if byte == 2 {
            Some(PacketType::Outfox)
        } else {
            None
        }
    }

    /// The byte that stands for this type on the wire.
    pub fn as_byte(self) -> (byte: u8)
        ensures
            byte == self.spec_byte(),
            Self::of_byte(byte) == Some(self),
    {
        match self {
            PacketType::Mix => 0,
            PacketType::Vpn => 1,
            PacketType::Outfox => 2,
        }
    }

    /// The type that `byte` stands for; any other byte is an unknown mode.
    pub fn try_from_byte(byte: u8) -> (result: Result<PacketType, GatewayRequestsError>)
        ensures
            match Self::of_byte(byte) {
                Some(mode) => result == Ok::<PacketType, GatewayRequestsError>(mode),
                None => result == Err::<PacketType, GatewayRequestsError>(
                    GatewayRequestsError::InvalidPacketMode,
                ),
            },
    {
        if byte == 0 {
            Ok(PacketType::Mix)
        } else if byte == 1 {
            Ok(PacketType::Vpn)
        } else if byte == 2 {
            Ok(PacketType::Outfox)
        } else {
            Err(GatewayRequestsError::InvalidPacketMode)
        }
    }
}

/// The socket address of a node: an IPv4 or IPv6 address and a port.
#[derive(Debug, Clone, Copy, PartialEq, Eq)]
#[allow(inconsistent_fields)]
pub enum NymNodeRoutingAddress {
    V4 { ip: [u8; 4], port: u16 },
    V6 { ip: [u8; 16], port: u16 },
}

impl NymNodeRoutingAddress {
    /// The number of bytes that this address takes on the wire.
    pub open spec fn spec_len(self) -> nat {
        match self {
            NymNodeRoutingAddress::V4 { .. } => 7,
            NymNodeRoutingAddress::V6 { .. } => 19,
        }
    }

    /// The address on the wire: the IP version, the address, and the port
    /// with its high byte first.
    pub open spec fn spec_bytes(self) -> Seq<u8> {
        match self {
            NymNodeRoutingAddress::V4 { ip, port } => seq![4u8] + ip@ + seq![
                (port / 256) as u8,
                (port % 256) as u8,
            ],
            NymNodeRoutingAddress::V6 { ip, port } => seq![6u8] + ip@ + seq![
                (port / 256) as u8,
                (port % 256) as u8,
            ],
        }
    }

    /// The address that `bytes` start with.
    pub open spec fn parse(bytes: Seq<u8>) -> Result<
        NymNodeRoutingAddress,
        NymNodeRoutingAddressError,
    > {
        if bytes.len() == 0 {
            Err(NymNodeRoutingAddressError::NoBytesProvided)
        } else if bytes[0] == 4 {
            if bytes.len() < 7 {
                Err(NymNodeRoutingAddressError::TooFewBytesProvided(bytes.len() as usize))
            } else {
                Ok(
                    NymNodeRoutingAddress::V4 {
                        ip: array_from_seq::<4>(bytes.subrange(1, 5)),
                        port: (bytes[5] as u16 * 256 + bytes[6] as u16) as u16,
                    },
                )
            }
        } else if bytes[0] == 6 {
            if bytes.len() < 19 {
                Err(NymNodeRoutingAddressError::TooFewBytesProvided(bytes.len() as usize))
            } else {
                Ok(
                    NymNodeRoutingAddress::V6 {
                        ip: array_from_seq::<16>(bytes.subrange(1, 17)),
                        port: (bytes[17] as u16 * 256 + bytes[18] as u16) as u16,
                    },
                )
            }
        } else {
            Err(NymNodeRoutingAddressError::InvalidIpVersion(bytes[0]))
        }
    }

    /// The number of bytes that this address takes on the wire.
    pub fn bytes_min_len(&self) -> (length: usize)
        ensures
            length == self.spec_len(),
            length == self.spec_bytes().len(),
    {
        match self {
            NymNodeRoutingAddress::V4 { .. } => 7,
            NymNodeRoutingAddress::V6 { .. } => 19,
        }
    }

    /// The address on the wire.
    pub fn as_bytes(&self) -> (bytes: Vec<u8>)
        ensures
            bytes@ == self.spec_bytes(),
    {
        let mut out: Vec<u8> = Vec::new();
        match self {
            NymNodeRoutingAddress::V4 { ip, port } => {
                out.push(4);
                append_bytes(&mut out, ip.as_slice());
                out.push((*port / 256) as u8);
                out.push((*port % 256) as u8);
                assert(out@ =~= self.spec_bytes());
            },
            NymNodeRoutingAddress::V6 { ip, port } => {
                out.push(6);
                append_bytes(&mut out, ip.as_slice());
                out.push((*port / 256) as u8);
                out.push((*port % 256) as u8);
                assert(out@ =~= self.spec_bytes());
            },
        }
        out
    }

    /// Reads the address that `bytes` start with; what follows it is not
    /// looked at.
    pub fn try_from_bytes(bytes: &[u8]) -> (result: Result<
        NymNodeRoutingAddress,
        NymNodeRoutingAddressError,
    >)
        ensures
            result == Self::parse(bytes@),
    {
        if bytes.len() == 0 {
            return Err(NymNodeRoutingAddressError::NoBytesProvided);
        }
        let version = bytes[0];
        if version == 4 {
            if bytes.len() < 7 {
                return Err(NymNodeRoutingAddressError::TooFewBytesProvided(bytes.len()));
            }
            let mut ip = [0u8; 4];
            ip[0] = bytes[1];
            ip[1] = bytes[2];
            ip[2] = bytes[3];
            ip[3] = bytes[4];
            let port: u16 = bytes[5] as u16 * 256 + bytes[6] as u16;
            proof {
                assert(ip@ =~= bytes@.subrange(1, 5));
                lemma_array_from_own_seq::<4>(ip);
            }
            Ok(NymNodeRoutingAddress::V4 { ip, port })
        } else if version == 6 {
            if bytes.len() < 19 {
                return Err(NymNodeRoutingAddressError::TooFewBytesProvided(bytes.len()));
            }
            let ip = take_16(bytes, 1);
            let port: u16 = bytes[17] as u16 * 256 + bytes[18] as u16;
            proof {
                lemma_array_from_own_seq::<16>(ip);
            }
            Ok(NymNodeRoutingAddress::V6 { ip, port })
        } else {
            Err(NymNodeRoutingAddressError::InvalidIpVersion(version))
        }
    }
}

/// An address is read back from its bytes, whatever follows them.
pub proof fn lemma_routing_address_roundtrip(address: NymNodeRoutingAddress, rest: Seq<u8>)
    ensures
        NymNodeRoutingAddress::parse(address.spec_bytes() + rest) == Ok::<
            NymNodeRoutingAddress,
            NymNodeRoutingAddressError,
        >(address),
        address.spec_bytes().len() == address.spec_len(),
{
    let bytes = address.spec_bytes() + rest;
    match address {
        NymNodeRoutingAddress::V4 { ip, port } => {
            assert(bytes.subrange(1, 5) =~= ip@);
            lemma_array_from_own_seq::<4>(ip);
            assert(bytes[5] == (port / 256) as u8);
            assert(bytes[6] == (port % 256) as u8);
        },
        NymNodeRoutingAddress::V6 { ip, port } => {
            assert(bytes.subrange(1, 17) =~= ip@);
            lemma_array_from_own_seq::<16>(ip);
            assert(bytes[17] == (port / 256) as u8);
            assert(bytes[18] == (port % 256) as u8);
        },
    }
}

/// A packet on its way into the mix network.
#[derive(Debug, Clone, PartialEq, Eq)]
pub struct MixPacket {
    pub next_hop: NymNodeRoutingAddress,
    pub packet: Vec<u8>,
    pub packet_type: PacketType,
}

/// A mix packet as a mathematical value.
pub struct MixPacketView {
    pub next_hop: NymNodeRoutingAddress,
    pub packet: Seq<u8>,
    pub packet_type: PacketType,
}

impl View for MixPacket {
    type V = MixPacketView;

    open spec fn view(&self) -> MixPacketView {
        MixPacketView {
            next_hop: self.next_hop,
            packet: self.packet@,
            packet_type: self.packet_type,
        }
    }
}

impl MixPacketView {
    /// Whether the packet data has one of the allowed sizes.
    pub open spec fn well_formed(self) -> bool {
        PacketSize::of_length(self.packet.len()) is Some
    }

    /// The packet on the wire: its type, the first hop, then the data.
    pub open spec fn encoded(self) -> Seq<u8> {
        seq![self.packet_type.spec_byte()] + self.next_hop.spec_bytes() + self.packet
    }

    /// The packet that `bytes` are.
    pub open spec fn decoded(bytes: Seq<u8>) -> Result<MixPacketView, MixPacketFormattingError> {
        if bytes.len() == 0 {
            Err(MixPacketFormattingError::TooFewBytesProvided)
        } else {
            match PacketType::of_byte(bytes[0]) {
                None => Err(MixPacketFormattingError::InvalidPacketType(bytes[0])),
                Some(packet_type) => match NymNodeRoutingAddress::parse(bytes.skip(1)) {
                    Err(e) => Err(MixPacketFormattingError::InvalidAddress(e)),
                    Ok(next_hop) => {
                        let packet = bytes.skip(1 + next_hop.spec_len() as int);
                        if PacketSize::of_length(packet.len()) is None {
                            Err(MixPacketFormattingError::InvalidPacketSize(packet.len() as usize))
                        } else {
                            Ok(MixPacketView { next_hop, packet, packet_type })
                        }
                    },
                },
            }
        }
    }
}

impl MixPacket {
    /// A packet of `packet_type` for `next_hop`.
    pub fn new(next_hop: NymNodeRoutingAddress, packet: Vec<u8>, packet_type: PacketType) -> (mix:
        MixPacket)
        ensures
            mix@ == (MixPacketView { next_hop, packet: packet@, packet_type }),
    {
        MixPacket { next_hop, packet, packet_type }
    }

    /// The address of the first hop.
    pub fn next_hop(&self) -> (address: NymNodeRoutingAddress)
        ensures
            address == self.next_hop,
    {
        self.next_hop
    }

    /// The type of the packet.
    pub fn packet_type(&self) -> (packet_type: PacketType)
        ensures
            packet_type == self.packet_type,
    {
        self.packet_type
    }

    /// The packet data.
    pub fn packet(&self) -> (data: &Vec<u8>)
        ensures
            data@ == self.packet@,
    {
        &self.packet
    }

    /// Reads a packet from its bytes. The packet data must have one of the
    /// allowed sizes.
    pub fn try_from_bytes(bytes: &[u8]) -> (result: Result<MixPacket, MixPacketFormattingError>)
        ensures
            match result {
                Ok(mix) => MixPacketView::decoded(bytes@) == Ok::<
                    MixPacketView,
                    MixPacketFormattingError,
                >(mix@),
                Err(e) => MixPacketView::decoded(bytes@) == Err::<
                    MixPacketView,
                    MixPacketFormattingError,
                >(e),
            },
    {
        if bytes.len() == 0 {
            return Err(MixPacketFormattingError::TooFewBytesProvided);
        }
        let packet_type = match PacketType::try_from_byte(bytes[0]) {
            Ok(packet_type) => packet_type,
            Err(_) => {
                return Err(MixPacketFormattingError::InvalidPacketType(bytes[0]));
            },
        };
        let tail = copy_range(bytes, 1, bytes.len());
        assert(tail@ =~= bytes@.skip(1));
        let next_hop = match NymNodeRoutingAddress::try_from_bytes(tail.as_slice()) {
            Ok(next_hop) => next_hop,
            Err(e) => {
                return Err(MixPacketFormattingError::InvalidAddress(e));
            },
        };
        let offset = next_hop.bytes_min_len() + 1;
        let packet = copy_range(bytes, offset, bytes.len());
        assert(packet@ =~= bytes@.skip(1 + next_hop.spec_len() as int));
        if PacketSize::get_type(packet.len()).is_err() {
            return Err(MixPacketFormattingError::InvalidPacketSize(packet.len()));
        }
        Ok(MixPacket { next_hop, packet, packet_type })
    }

    /// The packet on the wire; refused where the packet data has none of the
    /// allowed sizes.
    pub fn into_bytes(self) -> (result: Result<Vec<u8>, MixPacketFormattingError>)
        ensures
            match result {
                Ok(bytes) => self@.well_formed() && bytes@ == self@.encoded(),
                Err(e) => !self@.well_formed() && e == MixPacketFormattingError::InvalidPacketSize(
                    self.packet@.len() as usize,
                ),
            },
    {
        if PacketSize::get_type(self.packet.len()).is_err() {
            return Err(MixPacketFormattingError::InvalidPacketSize(self.packet.len()));
        }
        let mut out: Vec<u8> = Vec::new();
        out.push(self.packet_type.as_byte());
        let address = self.next_hop.as_bytes();
        append_bytes(&mut out, address.as_slice());
        append_bytes(&mut out, self.packet.as_slice());
        assert(out@ =~= self@.encoded());
        Ok(out)
    }
}

/// A well-formed packet is read back from its bytes.
pub proof fn lemma_mix_packet_roundtrip(mix: MixPacketView)
    requires
        mix.well_formed(),
    ensures
        MixPacketView::decoded(mix.encoded()) == Ok::<MixPacketView, MixPacketFormattingError>(mix),
{
    let bytes = mix.encoded();
    assert(bytes[0] == mix.packet_type.spec_byte());
    assert(bytes.skip(1) =~= mix.next_hop.spec_bytes() + mix.packet);
    lemma_routing_address_roundtrip(mix.next_hop, mix.packet);
    assert(bytes.skip(1 + mix.next_hop.spec_len() as int) =~= mix.packet);
}

} // verus!
