//! The memory controller: byte-addressable sparse memory with word-aligned
//! masked access, and the two built-in memory-mapped devices (keyboard and
//! text-mode framebuffer).
//!
//! The controller answers one request per clock edge. After responding it
//! is busy for one edge, so a response is consumed exactly once even when
//! the requesting state holds its enables across cycles; the request lines
//! must drop (as they do between instructions) before a new request is
//! served.

use crate::bytes::{all_known, asserted, le_val, lemma_le_val_bound, unknown_seq, Bytes};
use crate::types::{wf_byte, wf_word};
use std::collections::HashMap;
use vstd::arithmetic::power2::pow2;
use vstd::prelude::*;

verus! {

broadcast use vstd::std_specs::hash::group_hash_axioms;

/// Keyboard status port: reads 1 while the input buffer is non-empty.
pub const KB_STATUS_ADDR: u32 = 0x000A_0000;

/// Keyboard data port: destructively pops the front of the input buffer.
pub const KB_DATA_ADDR: u32 = 0x000A_0001;

/// First byte of the text-mode framebuffer.
pub const VGA_BASE_ADDR: u32 = 0x000B_8000;

pub const VGA_NUM_ROWS: usize = 25;

pub const VGA_NUM_COLS: usize = 80;

/// Two bytes per character cell: character and attribute.
pub const VGA_NUM_BYTES: usize = 25 * 80 * 2;

/// The interface of a pluggable memory-mapped device: byte reads (which
/// may mutate the device), byte writes, and reset.
pub trait MmioCtl {
    fn read(&mut self, addr: &Bytes) -> Bytes;

    fn write(&mut self, addr: &Bytes, data: &Bytes);

    fn reset(&mut self);
}

/// The keyboard device: a queue of injected scan bytes behind a status
/// port and a destructive data port.
pub struct KeyboardMmioCtl {
    /// Pending input bytes, oldest first.
    pub buffer: Vec<u8>,
}

impl View for KeyboardMmioCtl {
    type V = Seq<u8>;

    open spec fn view(&self) -> Seq<u8> {
        self.buffer@
    }
}

/// What a keyboard byte read returns and leaves behind: the status port
/// reports whether the buffer is non-empty, the data port pops its front
/// (unknown when empty), any other address reads unknown.
pub open spec fn kb_read_at(kb: Seq<u8>, a: u32) -> (Seq<u8>, Option<u8>) {
    if a == KB_STATUS_ADDR {
        (
            kb,
            Some(
                if kb.len() == 0 {
                    0u8
                } else {
                    1u8
                },
            ),
        )
    } else if a == KB_DATA_ADDR {
        if kb.len() > 0 {
            (kb.drop_first(), Some(kb[0]))
        } else {
            (kb, None)
        }
    } else {
        (kb, None)
    }
}

impl KeyboardMmioCtl {
    /// Builds the device with an empty buffer.
    pub fn new() -> (r: KeyboardMmioCtl)
        ensures
            r@ == Seq::<u8>::empty(),
    {
        let r = KeyboardMmioCtl { buffer: Vec::new() };
        proof {
            assert(r@ =~= Seq::<u8>::empty());
        }
        r
    }

    /// Queues one input byte at the back of the buffer.
    pub fn append_to_buffer(&mut self, data: u8)
        ensures
            final(self)@ == old(self)@.push(data),
    {
        self.buffer.push(data);
    }

    /// A byte read at a known address.
    pub fn read_at(&mut self, a: u32) -> (d: Option<u8>)
        ensures
            final(self)@ == kb_read_at(old(self)@, a).0,
            d == kb_read_at(old(self)@, a).1,
    {
        if a == KB_STATUS_ADDR {
            if self.buffer.len() > 0 {
                Some(1)
            } else {
                Some(0)
            }
        } else if a == KB_DATA_ADDR {
            if self.buffer.len() > 0 {
                let d = self.buffer.remove(0);
                proof {
                    assert(self@ =~= old(self)@.drop_first());
                }
                Some(d)
            } else {
                None
            }
        } else {
            None
        }
    }

    /// Empties the buffer.
    pub fn clear(&mut self)
        ensures
            final(self)@ == Seq::<u8>::empty(),
    {
        self.buffer.clear();
        proof {
            assert(self@ =~= Seq::<u8>::empty());
        }
    }
}

impl MmioCtl for KeyboardMmioCtl {
    fn read(&mut self, addr: &Bytes) -> Bytes {
        match addr.to_u32() {
            Some(a) => {
                match self.read_at(a) {
                    Some(d) => Bytes::of_byte(d),
                    None => Bytes::unknown(1),
                }
            },
            None => Bytes::unknown(1),
        }
    }

    fn write(&mut self, addr: &Bytes, data: &Bytes) {
    }

    fn reset(&mut self) {
        self.clear();
    }
}

/// The text-mode framebuffer: 25 by 80 character cells, two bytes per cell
/// (character, then attribute).
pub struct VgaMmioCtl {
    /// The cell bytes; even offsets are characters, odd offsets attributes.
    pub buffer: Vec<u8>,
}

impl View for VgaMmioCtl {
    type V = Seq<u8>;

    open spec fn view(&self) -> Seq<u8> {
        self.buffer@
    }
}

/// The reset pattern of the framebuffer: zero characters with attribute
/// `0x0F` (white on black).
pub open spec fn vga_reset_seq() -> Seq<u8> {
    Seq::new(
        VGA_NUM_BYTES as nat,
        |i: int|
            if i % 2 == 0 {
                0u8
            } else {
                0x0Fu8
            },
    )
}

/// What a framebuffer byte read at a known address returns: the byte at
/// the offset from the base, or unknown outside the buffer.
pub open spec fn vga_read_at(vga: Seq<u8>, a: u32) -> Option<u8> {
    if a >= VGA_BASE_ADDR && a - VGA_BASE_ADDR < vga.len() {
        Some(vga[a - VGA_BASE_ADDR])
    } else {
        None
    }
}

/// What the framebuffer holds after a byte write at a known address: known
/// data lands at the offset from the base; writes outside the buffer and
/// unknown data are discarded.
pub open spec fn vga_write_at(vga: Seq<u8>, a: u32, d: Option<u8>) -> Seq<u8> {
    if a >= VGA_BASE_ADDR && a - VGA_BASE_ADDR < vga.len() {
        match d {
            Some(v) => vga.update(a - VGA_BASE_ADDR, v),
            None => vga,
        }
    } else {
        vga
    }
}

impl VgaMmioCtl {
    /// Builds the framebuffer in its reset pattern.
    pub fn new() -> (r: VgaMmioCtl)
        ensures
            r@ == vga_reset_seq(),
    {
        let mut buffer: Vec<u8> = Vec::new();
        let mut i: usize = 0;
        while i < VGA_NUM_BYTES
            invariant
                i <= VGA_NUM_BYTES,
                buffer@.len() == i,
                forall|j: int| 0 <= j < i ==> buffer@[j] == vga_reset_seq()[j],
            decreases VGA_NUM_BYTES - i,
        {
            if i % 2 == 0 {
                buffer.push(0u8);
            } else {
                buffer.push(0x0Fu8);
            }
            i = i + 1;
        }
        let r = VgaMmioCtl { buffer };
        proof {
            assert(r@ =~= vga_reset_seq());
        }
        r
    }

    /// The whole cell buffer, for a front end to render.
    pub fn get_buffer(&self) -> (r: &Vec<u8>)
        ensures
            r@ == self@,
    {
        &self.buffer
    }

    /// A byte read at a known address.
    pub fn read_at(&self, a: u32) -> (d: Option<u8>)
        ensures
            d == vga_read_at(self@, a),
    {
        if a >= VGA_BASE_ADDR {
            let idx = a - VGA_BASE_ADDR;
            if (idx as usize) < self.buffer.len() {
                Some(self.buffer[idx as usize])
            } else {
                None
            }
        } else {
            None
        }
    }

    /// A byte write at a known address.
    pub fn write_at(&mut self, a: u32, d: Option<u8>)
        ensures
            final(self)@ == vga_write_at(old(self)@, a, d),
    {
        if a >= VGA_BASE_ADDR {
            let idx = a - VGA_BASE_ADDR;
            if (idx as usize) < self.buffer.len() {
                match d {
                    Some(v) => {
                        self.buffer[idx as usize] = v;
                    },
                    None => {},
                }
            }
        }
    }

    /// Restores the reset pattern.
    pub fn clear(&mut self)
        ensures
            final(self)@ == vga_reset_seq(),
    {
        *self = VgaMmioCtl::new();
    }
}

impl MmioCtl for VgaMmioCtl {
    fn read(&mut self, addr: &Bytes) -> Bytes {
        match addr.to_u32() {
            Some(a) => {
                match self.read_at(a) {
                    Some(d) => Bytes::of_byte(d),
                    None => Bytes::unknown(1),
                }
            },
            None => Bytes::unknown(1),
        }
    }

    fn write(&mut self, addr: &Bytes, data: &Bytes) {
        match addr.to_u32() {
            Some(a) => {
                match data.to_u8_checked() {
                    Some(d) => self.write_at(a, Some(d)),
                    None => {},
                }
            },
            None => {},
        }
    }

    fn reset(&mut self) {
        self.clear();
    }
}

/// The mathematical model of the memory controller: the sparse memory map
/// (absent addresses read as unknown), the symbol labels, both device
/// ranges and device states, the one-shot busy flag, and the two output
/// nets it drives.
pub struct MemView {
    pub mem: Map<u32, u8>,
    pub labels: Map<u32, Seq<char>>,
    pub kb_start: u32,
    pub kb_end: u32,
    pub kb: Seq<u8>,
    pub vga_start: u32,
    pub vga_end: u32,
    pub vga: Seq<u8>,
    pub busy: bool,
    pub rdata: Seq<Option<u8>>,
    pub resp: Seq<Option<u8>>,
}

/// One of the two built-in devices, to be installed over an address range.
pub enum MmioDevice {
    Keyboard(KeyboardMmioCtl),
    Vga(VgaMmioCtl),
}

/// The memory controller component.
pub struct MemCtl {
    /// The sparse memory map; an absent address reads as unknown.
    pub backend_mem: HashMap<u32, u8>,
    /// Symbol labels for addresses, loaded alongside a program image.
    pub label: HashMap<u32, String>,
    pub kb_start: u32,
    pub kb_end: u32,
    pub keyboard: KeyboardMmioCtl,
    pub vga_start: u32,
    pub vga_end: u32,
    pub vga: VgaMmioCtl,
    /// True for one edge after a response was issued.
    pub is_busy: bool,
    /// The read-data output net, as last driven.
    pub rdata: Bytes,
    /// The response output net, as last driven.
    pub resp: Bytes,
}

impl View for MemCtl {
    type V = MemView;

    open spec fn view(&self) -> MemView {
        MemView {
            mem: self.backend_mem@,
            labels: Map::new(
                |k: u32| self.label@.contains_key(k),
                |k: u32| self.label@[k]@,
            ),
            kb_start: self.kb_start,
            kb_end: self.kb_end,
            kb: self.keyboard@,
            vga_start: self.vga_start,
            vga_end: self.vga_end,
            vga: self.vga@,
            busy: self.is_busy,
            rdata: self.rdata@,
            resp: self.resp@,
        }
    }
}

/// What one byte-lane read returns and leaves behind: the sparse map is
/// consulted first, then the device whose installed range contains the
/// address; elsewhere the lane is unknown.
pub open spec fn lane_read(m: MemView, a: u32) -> (MemView, Option<u8>) {
    if m.mem.contains_key(a) {
        (m, Some(m.mem[a]))
    } else if m.kb_start <= a && a < m.kb_end {
        let r = kb_read_at(m.kb, a);
        (MemView { kb: r.0, ..m }, r.1)
    } else if m.vga_start <= a && a < m.vga_end {
        (m, vga_read_at(m.vga, a))
    } else {
        (m, None)
    }
}

/// What the controller holds after one byte-lane write: a device range
/// takes the byte (the keyboard discards it), elsewhere the sparse map is
/// updated — a known byte is stored, an unknown byte erases the address.
pub open spec fn lane_write(m: MemView, a: u32, d: Option<u8>) -> MemView {
    if m.kb_start <= a && a < m.kb_end {
        m
    } else if m.vga_start <= a && a < m.vga_end {
        MemView { vga: vga_write_at(m.vga, a, d), ..m }
    } else {
        match d {
            Some(v) => MemView { mem: m.mem.insert(a, v), ..m },
            None => MemView { mem: m.mem.remove(a), ..m },
        }
    }
}

/// Bit `i` of a byte mask.
pub open spec fn mask_bit(mask: u8, i: nat) -> bool {
    (mask as nat / pow2(i)) % 2 == 1
}

/// The word-aligned base of an address.
pub open spec fn aligned(a: u32) -> u32 {
    ((a as nat / 4) * 4) as u32
}

/// The controller state after a masked word write at base address `base`.
pub open spec fn write_word(m: MemView, base: u32, wdata: Seq<Option<u8>>, mask: u8) -> MemView {
    let m0 = if mask_bit(mask, 0) {
        lane_write(m, base, wdata[0])
    } else {
        m
    };
    let m1 = if mask_bit(mask, 1) {
        lane_write(m0, (base + 1) as u32, wdata[1])
    } else {
        m0
    };
    let m2 = if mask_bit(mask, 2) {
        lane_write(m1, (base + 2) as u32, wdata[2])
    } else {
        m1
    };
    if mask_bit(mask, 3) {
        lane_write(m2, (base + 3) as u32, wdata[3])
    } else {
        m2
    }
}

/// The controller state and read word after a masked word read at base
/// address `base`; lanes outside the mask stay unknown.
pub open spec fn read_word(m: MemView, base: u32, mask: u8) -> (MemView, Seq<Option<u8>>) {
    let r = unknown_seq(4);
    let s0 = if mask_bit(mask, 0) {
        let l = lane_read(m, base);
        (l.0, r.update(0, l.1))
    } else {
        (m, r)
    };
    let s1 = if mask_bit(mask, 1) {
        let l = lane_read(s0.0, (base + 1) as u32);
        (l.0, s0.1.update(1, l.1))
    } else {
        s0
    };
    let s2 = if mask_bit(mask, 2) {
        let l = lane_read(s1.0, (base + 2) as u32);
        (l.0, s1.1.update(2, l.1))
    } else {
        s1
    };
    if mask_bit(mask, 3) {
        let l = lane_read(s2.0, (base + 3) as u32);
        (l.0, s2.1.update(3, l.1))
    } else {
        s2
    }
}

/// The fully known value of a word net, if it has one.
pub open spec fn word_val(s: Seq<Option<u8>>) -> Option<u32> {
    if all_known(s) {
        Some(le_val(s) as u32)
    } else {
        None
    }
}

/// What one clock edge does to the controller. While busy it only clears
/// the response. A write request stores the masked lanes (when the mask
/// and the address are fully known) and responds; a read request drives
/// the masked lanes onto the read-data net and responds; with no request
/// the response is zero.
pub open spec fn mem_step(
    m: MemView,
    addr: Seq<Option<u8>>,
    wdata: Seq<Option<u8>>,
    read_en: Seq<Option<u8>>,
    rmask: Seq<Option<u8>>,
    write_en: Seq<Option<u8>>,
    wmask: Seq<Option<u8>>,
) -> MemView {
    if m.busy {
        MemView { busy: false, resp: seq![Some(0u8)], ..m }
    } else if asserted(write_en) {
        let m2 = match (wmask[0], word_val(addr)) {
            (Some(mask), Some(a)) => write_word(m, aligned(a), wdata, mask),
            _ => m,
        };
        MemView { resp: seq![Some(1u8)], busy: true, ..m2 }
    } else if asserted(read_en) {
        let s = match (rmask[0], word_val(addr)) {
            (Some(mask), Some(a)) => read_word(m, aligned(a), mask),
            _ => (m, unknown_seq(4)),
        };
        MemView { rdata: s.1, resp: seq![Some(1u8)], busy: true, ..s.0 }
    } else {
        MemView { resp: seq![Some(0u8)], ..m }
    }
}

impl Bytes {
    /// The first byte, or `None` when absent or unknown (a total variant of
    /// the byte conversion, for device writes of arbitrary containers).
    pub fn to_u8_checked(&self) -> (r: Option<u8>)
        ensures
            r == if self@.len() >= 1 {
                self@[0]
            } else {
                None::<u8>
            },
    {
        if self.data.len() >= 1 {
            self.data[0]
        } else {
            None
        }
    }
}

impl MemCtl {
    /// Builds the controller with empty memory, no labels and no installed
    /// device ranges; the output nets start all-unknown.
    pub fn new() -> (r: MemCtl)
        ensures
            r@.mem == Map::<u32, u8>::empty(),
            r@.labels =~= Map::<u32, Seq<char>>::empty(),
            r@.kb_start == 0 && r@.kb_end == 0,
            r@.vga_start == 0 && r@.vga_end == 0,
            r@.kb == Seq::<u8>::empty(),
            r@.vga == vga_reset_seq(),
            !r@.busy,
            r@.rdata == unknown_seq(4),
            r@.resp == unknown_seq(1),
    {
        let r = MemCtl {
            backend_mem: HashMap::new(),
            label: HashMap::new(),
            kb_start: 0,
            kb_end: 0,
            keyboard: KeyboardMmioCtl::new(),
            vga_start: 0,
            vga_end: 0,
            vga: VgaMmioCtl::new(),
            is_busy: false,
            rdata: Bytes::unknown(4),
            resp: Bytes::unknown(1),
        };
        proof {
            assert(r@.labels =~= Map::<u32, Seq<char>>::empty());
        }
        r
    }

    /// Clears memory, labels and the installed ranges, and returns the
    /// output nets to their initial unknown state. The caller re-installs
    /// the devices it wants, as the core does on reset.
    pub fn reset(&mut self)
        ensures
            final(self)@.mem == Map::<u32, u8>::empty(),
            final(self)@.labels =~= Map::<u32, Seq<char>>::empty(),
            final(self)@.kb_start == 0 && final(self)@.kb_end == 0,
            final(self)@.vga_start == 0 && final(self)@.vga_end == 0,
            final(self)@.kb == old(self)@.kb,
            final(self)@.vga == old(self)@.vga,
            !final(self)@.busy,
            final(self)@.rdata == unknown_seq(4),
            final(self)@.resp == unknown_seq(1),
    {
        self.backend_mem.clear();
        self.label.clear();
        self.kb_start = 0;
        self.kb_end = 0;
        self.vga_start = 0;
        self.vga_end = 0;
        self.is_busy = false;
        self.rdata = Bytes::unknown(4);
        self.resp = Bytes::unknown(1);
        proof {
            assert(final(self)@.labels =~= Map::<u32, Seq<char>>::empty());
        }
    }

    /// Installs a device over a half-open address range; the range of the
    /// other device must not overlap it.
    pub fn install_mmio_ctl(&mut self, start: u32, end: u32, device: MmioDevice)
        ensures
            final(self)@ == match device {
                MmioDevice::Keyboard(k) => (MemView {
                    kb_start: start,
                    kb_end: end,
                    kb: k@,
                    ..old(self)@
                }),
                MmioDevice::Vga(v) => (MemView {
                    vga_start: start,
                    vga_end: end,
                    vga: v@,
                    ..old(self)@
                }),
            },
    {
        match device {
            MmioDevice::Keyboard(k) => {
                self.kb_start = start;
                self.kb_end = end;
                self.keyboard = k;
            },
            MmioDevice::Vga(v) => {
                self.vga_start = start;
                self.vga_end = end;
                self.vga = v;
            },
        }
    }

    /// Deposits one byte of a program image.
    pub fn load_byte(&mut self, addr: u32, value: u8)
        ensures
            final(self)@ == (MemView { mem: old(self)@.mem.insert(addr, value), ..old(self)@ }),
    {
        self.backend_mem.insert(addr, value);
    }

    /// Records a symbol label for an address.
    pub fn add_label(&mut self, addr: u32, name: String)
        ensures
            final(self)@ == (MemView {
                labels: old(self)@.labels.insert(addr, name@),
                ..old(self)@
            }),
    {
        self.label.insert(addr, name);
        proof {
            assert(final(self)@.labels =~= old(self)@.labels.insert(addr, name@));
        }
    }

    /// One byte-lane read during a clocked access.
    fn read_lane(&mut self, a: u32) -> (d: Option<u8>)
        ensures
            final(self)@ == lane_read(old(self)@, a).0,
            d == lane_read(old(self)@, a).1,
    {
        match self.backend_mem.get(&a) {
            Some(v) => Some(*v),
            None => {
                if self.kb_start <= a && a < self.kb_end {
                    self.keyboard.read_at(a)
                } else if self.vga_start <= a && a < self.vga_end {
                    self.vga.read_at(a)
                } else {
                    None
                }
            },
        }
    }

    /// One byte-lane write during a clocked access.
    fn write_lane(&mut self, a: u32, d: Option<u8>)
        ensures
            final(self)@ == lane_write(old(self)@, a, d),
    {
        if self.kb_start <= a && a < self.kb_end {
        } else if self.vga_start <= a && a < self.vga_end {
            self.vga.write_at(a, d);
        } else {
            match d {
                Some(v) => {
                    self.backend_mem.insert(a, v);
                },
                None => {
                    self.backend_mem.remove(&a);
                },
            }
        }
    }

    /// One clock edge: serves at most one request and drives the read-data
    /// and response nets, per [`mem_step`].
    pub fn on_clock(
        &mut self,
        addr: &Bytes,
        wdata: &Bytes,
        read_en: &Bytes,
        rmask: &Bytes,
        write_en: &Bytes,
        wmask: &Bytes,
    )
        requires
            wf_word(addr@),
            wf_word(wdata@),
            wf_byte(read_en@),
            wf_byte(rmask@),
            wf_byte(write_en@),
            wf_byte(wmask@),
        ensures
            final(self)@ == mem_step(
                old(self)@,
                addr@,
                wdata@,
                read_en@,
                rmask@,
                write_en@,
                wmask@,
            ),
    {
        if self.is_busy {
            self.is_busy = false;
            self.resp = Bytes::of_byte(0);
            return ;
        }
        if write_en.is_something_nonzero() {
            match (wmask.to_u8(), self.word_net_value(addr)) {
                (Some(mask), Some(a)) => {
                    let base = a & 0xFFFF_FFFC;
                    proof {
                        assert(a & 0xFFFF_FFFC == (a / 4) * 4 && a & 0xFFFF_FFFC <= a)
                            by (bit_vector);
                        lemma_mask_bits(mask);
                    }
                    if (mask >> 0u8) & 1 == 1 {
                        self.write_lane(base, wdata.get(0));
                    }
                    if (mask >> 1u8) & 1 == 1 {
                        self.write_lane(base + 1, wdata.get(1));
                    }
                    if (mask >> 2u8) & 1 == 1 {
                        self.write_lane(base + 2, wdata.get(2));
                    }
                    if (mask >> 3u8) & 1 == 1 {
                        self.write_lane(base + 3, wdata.get(3));
                    }
                },
                _ => {},
            }
            self.resp = Bytes::of_byte(1);
            self.is_busy = true;
        } else if read_en.is_something_nonzero() {
            let mut r = Bytes::unknown(4);
            match (rmask.to_u8(), self.word_net_value(addr)) {
                (Some(mask), Some(a)) => {
                    let base = a & 0xFFFF_FFFC;
                    proof {
                        assert(a & 0xFFFF_FFFC == (a / 4) * 4 && a & 0xFFFF_FFFC <= a)
                            by (bit_vector);
                        lemma_mask_bits(mask);
                    }
                    if (mask >> 0u8) & 1 == 1 {
                        let d = self.read_lane(base);
                        r.set(0, d);
                    }
                    if (mask >> 1u8) & 1 == 1 {
                        let d = self.read_lane(base + 1);
                        r.set(1, d);
                    }
                    if (mask >> 2u8) & 1 == 1 {
                        let d = self.read_lane(base + 2);
                        r.set(2, d);
                    }
                    if (mask >> 3u8) & 1 == 1 {
                        let d = self.read_lane(base + 3);
                        r.set(3, d);
                    }
                },
                _ => {},
            }
            self.rdata = r;
            self.resp = Bytes::of_byte(1);
            self.is_busy = true;
        } else {
            self.resp = Bytes::of_byte(0);
        }
    }

    /// The fully known value of a word net, if it has one.
    fn word_net_value(&self, w: &Bytes) -> (r: Option<u32>)
        requires
            wf_word(w@),
        ensures
            r == word_val(w@),
    {
        proof {
            assert(w@.take(4) =~= w@);
            lemma_le_val_bound(w@);
            vstd::arithmetic::power2::lemma2_to64();
        }
        w.to_u32()
    }
}

/// The tested bits of a mask byte match the model's mask bits.
proof fn lemma_mask_bits(mask: u8)
    ensures
        ((mask >> 0u8) & 1 == 1) == mask_bit(mask, 0),
        ((mask >> 1u8) & 1 == 1) == mask_bit(mask, 1),
        ((mask >> 2u8) & 1 == 1) == mask_bit(mask, 2),
        ((mask >> 3u8) & 1 == 1) == mask_bit(mask, 3),
{
    vstd::arithmetic::power2::lemma2_to64();
    assert(((mask >> 0u8) & 1 == 1) == ((mask / 1) % 2 == 1) && ((mask >> 1u8) & 1 == 1) == ((
    mask / 2) % 2 == 1) && ((mask >> 2u8) & 1 == 1) == ((mask / 4) % 2 == 1) && ((mask >> 3u8)
        & 1 == 1) == ((mask / 8) % 2 == 1)) by (bit_vector);
}

} // verus!

verus! {

/// An address that no installed device range intercepts: accesses to it go
/// to the sparse memory map.
pub open spec fn plain_lane(m: MemView, a: u32) -> bool {
    !(m.kb_start <= a < m.kb_end) && !(m.vga_start <= a < m.vga_end)
}

/// A masked word write followed by a masked word read of the same aligned
/// address returns, on every masked lane that no device intercepts, the
/// written byte of that lane (an unknown written byte reads back unknown);
/// unmasked lanes read unknown.
#[verifier::rlimit(100)]
pub proof fn lemma_mem_write_then_read(m: MemView, base: u32, wdata: Seq<Option<u8>>, mask: u8)
    requires
        wdata.len() == 4,
        base + 3 <= u32::MAX,
        forall|i: int| 0 <= i < 4 ==> #[trigger] plain_lane(m, (base + i) as u32),
    ensures
        ({
            let m2 = write_word(m, base, wdata, mask);
            let r = read_word(m2, base, mask).1;
            forall|i: int|
                0 <= i < 4 ==> r[i] == (if mask_bit(mask, i as nat) {
                    wdata[i]
                } else {
                    None::<u8>
                })
        }),
{
    let m2 = write_word(m, base, wdata, mask);
    let s = read_word(m2, base, mask);
    assert(m2.kb_start == m.kb_start && m2.kb_end == m.kb_end && m2.vga_start == m.vga_start
        && m2.vga_end == m.vga_end);
    assert forall|i: int|
        0 <= i < 4 implies s.1[i] == (if mask_bit(mask, i as nat) {
        wdata[i]
    } else {
        None::<u8>
    }) by {
        assert(plain_lane(m, (base + i) as u32));
        if mask_bit(mask, i as nat) {
            assert(match wdata[i] {
                Some(v) => m2.mem.contains_key((base + i) as u32) && m2.mem[(base + i) as u32]
                    == v,
                None => !m2.mem.contains_key((base + i) as u32),
            });
        }
    }
}

} // verus!
