//! The RTL8139 network device's register addressing and receive-ring
//! arithmetic: the parts of the driver that compute rather than touch
//! the bus.

use vstd::prelude::*;

verus! {

/// Size in bytes of the receive ring.
pub const RX_BUF_SIZE: usize = 8192;

/// The driver's per-device state: the interrupt vector it claimed and
/// the receive ring the device writes into.
pub struct RTL8139 {
    /// Interrupt vector delivered for this device.
    pub vector: u8,
    /// The receive ring buffer.
    pub rx_buf: Vec<u8>,
}

/// The I/O base encoded in base address register 0: bit 0 selects the
/// address space, and the low mode bits are cleared accordingly.
pub open spec fn bar_base_spec(bar_0: u32) -> u32 {
    if bar_0 & 0x1 == 0 {
        bar_0 & !0xf
    } else {
        bar_0 & !0x3
    }
}

impl RTL8139 {
    /// The I/O address of the register at `offset`: the base decoded
    /// from base address register 0 plus the offset.
    pub fn ioaddr(&self, bar_0: u32, offset: u16) -> (r: u16)
        requires
            bar_base_spec(bar_0) + offset <= u16::MAX,
        ensures
            r == bar_base_spec(bar_0) + offset,
    {
        let base = if bar_0 & 0x1 == 0 {
            // memory space
            bar_0 & !0xf
        } else {
            // I/O space
            bar_0 & !0x3
        };
        proof {
            assert(bar_base_spec(bar_0) <= 0xffff ==> (bar_base_spec(bar_0) as u16) as u32
                == bar_base_spec(bar_0)) by (bit_vector);
        }
        let base = base as u16;
        base + offset
    }
}

/// The read pointer after one frame is consumed from the receive ring:
/// past the four status bytes and the frame, rounded up to the next
/// doubleword, wrapped at the ring size.
pub open spec fn advance_capr_spec(capr: usize, frame_size: usize) -> int {
    let v = (capr + 4 + frame_size + 3) as usize;
    (v & !3usize) as int % RX_BUF_SIZE as int
}

/// Advances the ring read pointer past one received frame.
pub fn advance_capr(capr: usize, frame_size: usize) -> (r: usize)
    requires
        capr < RX_BUF_SIZE,
        frame_size <= 0xffff,
    ensures
        r == advance_capr_spec(capr, frame_size),
        r < RX_BUF_SIZE,
{
    ((capr + 4 + frame_size + 3) & !3) % RX_BUF_SIZE
}

/// One frame taken out of the receive ring: the receive status word the
/// device wrote ahead of it, and the frame bytes.
pub struct ReceivedFrame {
    pub rsr: u16,
    pub bytes: Vec<u8>,
}

/// The 16-bit little-endian value at offset `i` of the window.
pub open spec fn word_at(w: Seq<u8>, i: int) -> int {
    w[i] + w[i + 1] * 0x100
}

/// The frames packed in the unread window of the ring: each record is a
/// 2-byte receive status, a 2-byte size, and that many frame bytes.
/// Nothing comes of a window whose last record is cut short.
pub open spec fn rx_frames_spec(w: Seq<u8>, pos: int) -> Option<Seq<(int, Seq<u8>)>>
    decreases w.len() - pos when pos <= w.len()
{
    if pos == w.len() {
        Some(Seq::empty())
    } else if pos + 4 > w.len() {
        None
    } else if pos + 4 + word_at(w, pos + 2) > w.len() {
        None
    } else {
        match rx_frames_spec(w, pos + 4 + word_at(w, pos + 2)) {
            Option::None => Option::<Seq<(int, Seq<u8>)>>::None,
            Option::Some(rest) => Option::Some(
                seq![(word_at(w, pos), w.subrange(pos + 4, pos + 4 + word_at(w, pos + 2)))] + rest,
            ),
        }
    }
}

/// The status words and bytes of a run of received frames.
pub open spec fn frames_view(s: Seq<ReceivedFrame>) -> Seq<(int, Seq<u8>)> {
    s.map_values(|f: ReceivedFrame| (f.rsr as int, f.bytes@))
}

/// Walks the unread window of the receive ring and hands every frame
/// out, each with the receive status the device recorded for it.  A
/// window whose last record runs past the end — the device never writes
/// one — is rejected.
pub fn handle_receive(window: &Vec<u8>) -> (r: Result<Vec<ReceivedFrame>, &'static str>)
    ensures
        r is Ok <==> rx_frames_spec(window@, 0) is Some,
        r matches Ok(v) ==> Some(frames_view(v@)) == rx_frames_spec(window@, 0),
{
    let mut out: Vec<ReceivedFrame> = Vec::new();
    let mut pos: usize = 0;
    proof {
        assert(frames_view(out@) =~= Seq::<(int, Seq<u8>)>::empty());
    }
    while pos < window.len()
        invariant
            pos <= window@.len(),
            match rx_frames_spec(window@, pos as int) {
                Option::None => rx_frames_spec(window@, 0) is None,
                Option::Some(rest) => rx_frames_spec(window@, 0) == Some(
                    frames_view(out@) + rest,
                ),
            },
        decreases window@.len() - pos,
    {
        if window.len() - pos < 4 {
            return Err("receive ring record cut short");
        }
        // receive status and frame size, little endian
        let rsr = (window[pos] as u16) + (window[pos + 1] as u16) * 0x100;
        let size = ((window[pos + 2] as u16) + (window[pos + 3] as u16) * 0x100) as usize;
        if size > window.len() - (pos + 4) {
            return Err("receive ring record cut short");
        }
        let mut bytes: Vec<u8> = Vec::new();
        let mut j: usize = 0;
        while j < size
            invariant
                j <= size,
                pos + 4 + size <= window@.len(),
                window@.len() <= usize::MAX,
                bytes@ == window@.subrange(pos as int + 4, pos as int + 4 + j as int),
            decreases size - j,
        {
            bytes.push(window[pos + 4 + j]);
            proof {
                assert(window@.subrange(pos as int + 4, pos as int + 4 + j as int + 1)
                    =~= window@.subrange(pos as int + 4, pos as int + 4 + j as int).push(
                    window@[pos as int + 4 + j as int],
                ));
            }
            j = j + 1;
        }
        let ghost out_before = out@;
        out.push(ReceivedFrame { rsr, bytes });
        proof {
            let w = window@;
            let p = pos as int;
            let sz = size as int;
            assert(word_at(w, p + 2) == sz);
            assert(word_at(w, p) == rsr);
            let entry = (rsr as int, w.subrange(p + 4, p + 4 + sz));
            assert(frames_view(out@) =~= frames_view(out_before).push(entry));
            match rx_frames_spec(w, p + 4 + sz) {
                Option::None => {},
                Option::Some(rest2) => {
                    assert(frames_view(out_before) + (seq![entry] + rest2) =~= frames_view(out@)
                        + rest2);
                },
            }
        }
        pos = pos + 4 + size;
    }
    proof {
        assert(rx_frames_spec(window@, pos as int) == Some(Seq::<(int, Seq<u8>)>::empty()));
        assert(frames_view(out@) + Seq::<(int, Seq<u8>)>::empty() =~= frames_view(out@));
    }
    Ok(out)
}

} // verus!
