//! Ethernet frame parsing: source and destination addresses, any number
//! of VLAN tags, and the frame type, read from the raw bytes a receive
//! ring hands over.

use vstd::prelude::*;

verus! {

/// A six-byte hardware address.
pub struct MACAddress(pub [u8; 6]);

/// The frame-type field: the one protocol the kernel knows, or the raw
/// bytes of any other.
pub enum EtherType {
    ARP(),
    Other([u8; 2]),
}

/// The parsed frame header.
pub struct FrameHeader {
    pub src_mac: MACAddress,
    pub dest_mac: MACAddress,
    /// IEEE 802.1Q tags, outermost first; usually empty.
    pub vlan_tag: Vec<[u8; 4]>,
    pub ethertype: EtherType,
}

/// A parsed frame.
pub struct Frame {
    pub header: FrameHeader,
    /// Payload bytes; left empty by the parser, which reads headers
    /// only.
    pub payload: Vec<u8>,
    /// Frame check sequence; not captured by the parser.
    pub crc: [u8; 4],
}

/// Whether two bytes form a VLAN tag protocol identifier.
pub open spec fn is_tpid(a: u8, b: u8) -> bool {
    (a == 0x81 && b == 0x00) || (a == 0x8a && b == 0x88)
}

/// Number of bytes of VLAN tags at the front of `s`: a multiple of
/// four, ending at the first pair of bytes that is no tag identifier.
/// Nothing when the bytes run out inside a tag or before the frame-type
/// field.
pub open spec fn tag_region_len(s: Seq<u8>) -> Option<int>
    decreases s.len(),
{
    if s.len() < 2 {
        None
    } else if !is_tpid(s[0], s[1]) {
        Some(0)
    } else if s.len() < 4 {
        None
    } else {
        match tag_region_len(s.skip(4)) {
            None => None,
            Some(k) => Some(k + 4),
        }
    }
}

impl Frame {
    /// Parses a frame: six bytes of source address, six of destination,
    /// the VLAN tags, and the frame type.  Succeeds exactly when the
    /// twelve address bytes are there and the bytes after them carry a
    /// well-formed tag region followed by a frame-type field; each error
    /// names the field that was cut short.
    pub fn from_bytes(frame: &Vec<u8>) -> (r: Result<Frame, &'static str>)
        ensures
            frame@.len() < 6 ==> r == Err::<Frame, &'static str>(
                "Not enough bytes for MAC source",
            ),
            6 <= frame@.len() < 12 ==> r == Err::<Frame, &'static str>(
                "Not enough bytes for MAC destination",
            ),
            frame@.len() >= 12 && tag_region_len(frame@.skip(12)) is None ==> r == Err::<
                Frame,
                &'static str,
            >("Not enough bytes for EtherType"),
            frame@.len() >= 12 && tag_region_len(frame@.skip(12)) is Some ==> r is Ok,
            r matches Ok(f) ==> ({
                let k = tag_region_len(frame@.skip(12))->Some_0;
                &&& f.header.src_mac.0@ == frame@.subrange(0, 6)
                &&& f.header.dest_mac.0@ == frame@.subrange(6, 12)
                &&& f.header.vlan_tag@.len() == k / 4
                &&& forall|j: int|
                    0 <= j < k / 4 ==> (#[trigger] f.header.vlan_tag@[j])@ == frame@.subrange(
                        12 + 4 * j,
                        16 + 4 * j,
                    )
                &&& (f.header.ethertype matches EtherType::ARP()) <==> (frame@[12 + k] == 0x8
                    && frame@[13 + k] == 0x6)
                &&& (f.header.ethertype matches EtherType::Other(b) ==> b@ == frame@.subrange(
                    12 + k,
                    14 + k,
                ))
                &&& f.payload@.len() == 0
                &&& f.crc@ == seq![0u8, 0u8, 0u8, 0u8]
            }),
    {
        let s = frame;
        if s.len() < 6 {
            return Err("Not enough bytes for MAC source");
        }
        let src_mac = MACAddress([s[0], s[1], s[2], s[3], s[4], s[5]]);
        proof {
            assert(src_mac.0@ =~= frame@.subrange(0, 6));
        }
        if s.len() < 12 {
            return Err("Not enough bytes for MAC destination");
        }
        let dest_mac = MACAddress([s[6], s[7], s[8], s[9], s[10], s[11]]);
        proof {
            assert(dest_mac.0@ =~= frame@.subrange(6, 12));
        }
        let mut pos: usize = 12;
        let mut vlan_tag: Vec<[u8; 4]> = Vec::new();
        while s.len() - pos >= 2 && ((s[pos] == 0x81 && s[pos + 1] == 0x00) || (s[pos] == 0x8a
            && s[pos + 1] == 0x88))
            invariant
                s == frame,
                12 <= pos <= s@.len(),
                s@.len() >= 12,
                (pos - 12) % 4 == 0,
                vlan_tag@.len() == (pos - 12) / 4,
                forall|j: int|
                    0 <= j < vlan_tag@.len() ==> (#[trigger] vlan_tag@[j])@ == s@.subrange(
                        12 + 4 * j,
                        16 + 4 * j,
                    ),
                tag_region_len(s@.skip(12)) == match tag_region_len(s@.skip(pos as int)) {
                    Option::None => Option::<int>::None,
                    Option::Some(k) => Option::Some(k + pos - 12),
                },
            decreases s@.len() - pos,
        {
            proof {
                assert(s@.skip(pos as int)[0] == s@[pos as int]);
                assert(s@.skip(pos as int)[1] == s@[pos as int + 1]);
            }
            if s.len() - pos < 4 {
                return Err("Not enough bytes for EtherType");
            }
            let tag: [u8; 4] = [s[pos], s[pos + 1], s[pos + 2], s[pos + 3]];
            proof {
                assert(tag@ =~= s@.subrange(pos as int, pos as int + 4));
                assert(s@.skip(pos as int).skip(4) =~= s@.skip(pos as int + 4));
            }
            vlan_tag.push(tag);
            pos = pos + 4;
        }
        proof {
            if pos < s@.len() {
                assert(s@.skip(pos as int)[0] == s@[pos as int]);
            }
            if pos + 1 < s@.len() {
                assert(s@.skip(pos as int)[1] == s@[pos as int + 1]);
            }
        }
        if s.len() - pos < 2 {
            return Err("Not enough bytes for EtherType");
        }
        let e0 = s[pos];
        let e1 = s[pos + 1];
        let ethertype = if e0 == 0x8 && e1 == 0x6 {
            EtherType::ARP()
        } else {
            EtherType::Other([e0, e1])
        };
        proof {
            assert(tag_region_len(s@.skip(pos as int)) == Option::Some(0int));
            let k = tag_region_len(frame@.skip(12))->Some_0;
            assert(k == pos - 12);
            if !(e0 == 0x8 && e1 == 0x6) {
                assert(seq![e0, e1] =~= frame@.subrange(12 + k, 14 + k));
            }
        }
        Ok(
            Frame {
                header: FrameHeader { src_mac, dest_mac, vlan_tag, ethertype },
                payload: Vec::<u8>::new(),
                crc: [0, 0, 0, 0],
            },
        )
    }
}

} // verus!
