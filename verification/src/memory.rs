//! The fixed 4096-byte addressable store. Glyph bitmaps for the hex digits
//! 0-F (5 bytes each) are pre-seeded at addresses 0-79 at construction time.

use vstd::prelude::*;

use crate::Fault;
use crate::hex::{
    all_ascii, chars_of, hex2_lower, hex4_lower, ascii_to_string, push_hex2_lower,
    push_hex4_lower,
};

verus! {

/// The number of addressable bytes.
pub const MEM_SIZE: usize = 4096;

/// The pre-seeded glyph data: a 4x5 bitmap for each hex digit 0-F,
/// 5 bytes per glyph, 80 bytes in all.
pub open spec fn font() -> Seq<u8> {
    seq![
        0xF0u8, 0x90, 0x90, 0x90, 0xF0,
        0x20, 0x60, 0x20, 0x20, 0x70,
        0xF0, 0x10, 0xF0, 0x80, 0xF0,
        0xF0, 0x10, 0xF0, 0x10, 0xF0,
        0x90, 0x90, 0xF0, 0x10, 0x10,
        0xF0, 0x80, 0xF0, 0x10, 0xF0,
        0xF0, 0x80, 0xF0, 0x90, 0xF0,
        0xF0, 0x10, 0x20, 0x40, 0x40,
        0xF0, 0x90, 0xF0, 0x90, 0xF0,
        0xF0, 0x90, 0xF0, 0x10, 0xF0,
        0xF0, 0x90, 0xF0, 0x90, 0x90,
        0xE0, 0x90, 0xE0, 0x90, 0xE0,
        0xF0, 0x80, 0x80, 0x80, 0xF0,
        0xE0, 0x90, 0x90, 0x90, 0xE0,
        0xF0, 0x80, 0xF0, 0x80, 0xF0,
        0xF0, 0x80, 0xF0, 0x80, 0x80,
    ]
}

/// Memory as constructed: the glyph data, then zeroes.
pub open spec fn initial_memory() -> Seq<u8> {
    Seq::new(MEM_SIZE as nat, |i: int| if i < 80 { font()[i] } else { 0u8 })
}

/// The contents after copying `data` over the range starting at `addr`.
pub open spec fn overwrite(mem: Seq<u8>, addr: int, data: Seq<u8>) -> Seq<u8> {
    Seq::new(mem.len(), |i: int| if addr <= i < addr + data.len() { data[i - addr] } else { mem[i] })
}

pub struct Memory {
    mem: Vec<u8>,
}

impl View for Memory {
    type V = Seq<u8>;

    closed spec fn view(&self) -> Seq<u8> {
        self.mem@
    }
}

impl Memory {
    /// The store always holds exactly `MEM_SIZE` bytes.
    pub open spec fn wf(&self) -> bool {
        self@.len() == MEM_SIZE
    }

    /// A fresh memory: glyph data at 0-79, zeroes elsewhere.
    pub fn new() -> (m: Memory)
        ensures
            m.wf(),
            m@ == initial_memory(),
    {
        let mut mem: Vec<u8> = Vec::new();
        mem.push(0xF0); mem.push(0x90); mem.push(0x90); mem.push(0x90); mem.push(0xF0);
        mem.push(0x20); mem.push(0x60); mem.push(0x20); mem.push(0x20); mem.push(0x70);
        mem.push(0xF0); mem.push(0x10); mem.push(0xF0); mem.push(0x80); mem.push(0xF0);
        mem.push(0xF0); mem.push(0x10); mem.push(0xF0); mem.push(0x10); mem.push(0xF0);
        mem.push(0x90); mem.push(0x90); mem.push(0xF0); mem.push(0x10); mem.push(0x10);
        mem.push(0xF0); mem.push(0x80); mem.push(0xF0); mem.push(0x10); mem.push(0xF0);
        mem.push(0xF0); mem.push(0x80); mem.push(0xF0); mem.push(0x90); mem.push(0xF0);
        mem.push(0xF0); mem.push(0x10); mem.push(0x20); mem.push(0x40); mem.push(0x40);
        mem.push(0xF0); mem.push(0x90); mem.push(0xF0); mem.push(0x90); mem.push(0xF0);
        mem.push(0xF0); mem.push(0x90); mem.push(0xF0); mem.push(0x10); mem.push(0xF0);
        mem.push(0xF0); mem.push(0x90); mem.push(0xF0); mem.push(0x90); mem.push(0x90);
        mem.push(0xE0); mem.push(0x90); mem.push(0xE0); mem.push(0x90); mem.push(0xE0);
        mem.push(0xF0); mem.push(0x80); mem.push(0x80); mem.push(0x80); mem.push(0xF0);
        mem.push(0xE0); mem.push(0x90); mem.push(0x90); mem.push(0x90); mem.push(0xE0);
        mem.push(0xF0); mem.push(0x80); mem.push(0xF0); mem.push(0x80); mem.push(0xF0);
        mem.push(0xF0); mem.push(0x80); mem.push(0xF0); mem.push(0x80); mem.push(0x80);
        proof {
            assert(mem@ =~= font());
            assert(mem@.take(80) =~= font());
        }
        while mem.len() < MEM_SIZE
            invariant
                80 <= mem@.len() <= MEM_SIZE,
                mem@.take(80) == font(),
                forall|i: int| 80 <= i < mem@.len() ==> mem@[i] == 0u8,
            decreases MEM_SIZE - mem@.len(),
        {
            mem.push(0u8);
            proof {
                assert(mem@.take(80) =~= font());
            }
        }
        let m = Memory { mem };
        proof {
            assert(m@ =~= initial_memory());
        }
        m
    }

    /// Copies `data` into memory starting at `addr`; a request that runs past
    /// the 4096-byte capacity is refused whole as a bounds fault.
    pub fn load(&mut self, addr: u16, data: &[u8]) -> (r: Result<(), Fault>)
        requires
            old(self).wf(),
        ensures
            final(self).wf(),
            addr + data@.len() <= MEM_SIZE ==> r is Ok && final(self)@ == overwrite(old(self)@, addr as int, data@),
            addr + data@.len() > MEM_SIZE ==> r == Err::<(), Fault>(Fault::MemoryBoundsFault) && final(self)@ == old(self)@,
    {
        let n = data.len();
        if n > MEM_SIZE || (addr as usize) > MEM_SIZE - n {
            return Err(Fault::MemoryBoundsFault);
        }
        let base = addr as usize;
        let mut k: usize = 0;
        while k < n
            invariant
                self@.len() == MEM_SIZE,
                n == data@.len(),
                base + n <= MEM_SIZE,
                k <= n,
                forall|i: int| 0 <= i < k ==> self@[base + i] == data@[i],
                forall|i: int| 0 <= i < MEM_SIZE && !(base <= i < base + k) ==> self@[i] == old(self)@[i],
            decreases n - k,
        {
            self.mem[base + k] = data[k];
            k += 1;
        }
        proof {
            assert(self@ =~= overwrite(old(self)@, addr as int, data@));
        }
        Ok(())
    }

    /// Reads the byte at `addr`. An address past the capacity is a caller
    /// fault; the CPU reports it as a bounds fault before asking.
    pub fn read_byte(&self, addr: u16) -> (r: u8)
        requires
            self.wf(),
            addr < MEM_SIZE,
        ensures
            r == self@[addr as int],
    {
        self.mem[addr as usize]
    }

    /// Writes the byte at `addr`; same addressing contract as `read_byte`.
    pub fn write_byte(&mut self, addr: u16, data: u8)
        requires
            old(self).wf(),
            addr < MEM_SIZE,
        ensures
            final(self).wf(),
            final(self)@ == old(self)@.update(addr as int, data),
    {
        self.mem[addr as usize] = data;
    }

    /// The full memory rendered as text, one line per 16-byte row, framed by
    /// a header and a footer, for a host to display.
    pub fn dump(&self) -> (r: Vec<String>)
        requires
            self.wf(),
        ensures
            r@.len() == 258,
            r@[0]@ == chars_of(dump_header()),
            forall|b: int| 0 <= b < 256 ==> (#[trigger] r@[b + 1])@ == chars_of(dump_line(self@, b)),
            r@[257]@ == chars_of(dump_footer()),
    {
        let mut out: Vec<String> = Vec::new();
        out.push(header_text());
        let mut b: usize = 0;
        while b < 256
            invariant
                self.wf(),
                b <= 256,
                out@.len() == b + 1,
                out@[0]@ == chars_of(dump_header()),
                forall|j: int| 0 <= j < b ==> (#[trigger] out@[j + 1])@ == chars_of(dump_line(self@, j)),
            decreases 256 - b,
        {
            let mut line: Vec<u8> = Vec::new();
            line.push(0x30);
            line.push(0x78);
            push_hex4_lower(&mut line, (16 * b) as u16);
            line.push(0x3a);
            line.push(0x20);
            proof {
                assert(line@ =~= dump_line_prefix(b as int));
                assert(line@ + dump_cells(self@, 16 * b, 0) =~= line@);
            }
            let mut c: usize = 0;
            while c < 16
                invariant
                    self.wf(),
                    b < 256,
                    c <= 16,
                    line@ == dump_line_prefix(b as int) + dump_cells(self@, 16 * (b as int), c as int),
                decreases 16 - c,
            {
                line.push(0x30);
                line.push(0x78);
                push_hex2_lower(&mut line, self.mem[16 * b + c]);
                line.push(0x20);
                c += 1;
                proof {
                    assert(line@ =~= dump_line_prefix(b as int) + dump_cells(
                        self@,
                        16 * (b as int),
                        c as int,
                    ));
                }
            }
            proof {
                lemma_dump_line_ascii(self@, b as int);
            }
            out.push(ascii_to_string(line));
            b += 1;
        }
        out.push(footer_text());
        out
    }
}

/// The header line of a memory dump.
pub open spec fn dump_header() -> Seq<u8> {
    seq![
        0x2Du8, 0x2D, 0x2D, 0x2D, 0x20, 0x4D, 0x45, 0x4D, 0x20, 0x64, 0x75, 0x6D, 0x70, 0x20,
        0x2D, 0x2D, 0x2D, 0x2D,
    ]
}

/// The footer line of a memory dump.
pub open spec fn dump_footer() -> Seq<u8> {
    seq![
        0x2Du8, 0x2D, 0x2D, 0x2D, 0x2D, 0x2D, 0x2D, 0x2D, 0x2D, 0x2D, 0x2D, 0x2D, 0x2D, 0x2D,
        0x2D, 0x2D, 0x2D, 0x2D,
    ]
}

/// The address part of a dump line: `0x` then the row's start address.
pub open spec fn dump_line_prefix(b: int) -> Seq<u8> {
    seq![0x30u8, 0x78] + hex4_lower(16 * b) + seq![0x3Au8, 0x20]
}

/// The first `k` byte cells of a dump row, each rendered as `0x.. `.
pub open spec fn dump_cells(mem: Seq<u8>, start: int, k: int) -> Seq<u8>
    decreases k,
{
    if k <= 0 {
        Seq::empty()
    } else {
        dump_cells(mem, start, k - 1) + seq![0x30u8, 0x78] + hex2_lower(mem[start + k - 1] as int)
            + seq![0x20u8]
    }
}

/// One full dump line: the row's address, then its 16 byte cells.
pub open spec fn dump_line(mem: Seq<u8>, b: int) -> Seq<u8> {
    dump_line_prefix(b) + dump_cells(mem, 16 * b, 16)
}

proof fn lemma_dump_cells_ascii(mem: Seq<u8>, start: int, k: int)
    ensures
        all_ascii(dump_cells(mem, start, k)),
    decreases k,
{
    if k > 0 {
        lemma_dump_cells_ascii(mem, start, k - 1);
    }
}

proof fn lemma_dump_line_ascii(mem: Seq<u8>, b: int)
    ensures
        all_ascii(dump_line(mem, b)),
        all_ascii(dump_line_prefix(b) + dump_cells(mem, 16 * b, 16)),
{
    lemma_dump_cells_ascii(mem, 16 * b, 16);
}

fn header_text() -> (r: String)
    ensures
        r@ == chars_of(dump_header()),
{
    let mut v: Vec<u8> = Vec::new();
    v.push(0x2D); v.push(0x2D); v.push(0x2D); v.push(0x2D); v.push(0x20);
    v.push(0x4D); v.push(0x45); v.push(0x4D); v.push(0x20);
    v.push(0x64); v.push(0x75); v.push(0x6D); v.push(0x70); v.push(0x20);
    v.push(0x2D); v.push(0x2D); v.push(0x2D); v.push(0x2D);
    proof {
        assert(v@ =~= dump_header());
    }
    ascii_to_string(v)
}

fn footer_text() -> (r: String)
    ensures
        r@ == chars_of(dump_footer()),
{
    let mut v: Vec<u8> = Vec::new();
    let mut k: usize = 0;
    while k < 18
        invariant
            k <= 18,
            v@.len() == k,
            forall|i: int| 0 <= i < k ==> v@[i] == 0x2Du8,
        decreases 18 - k,
    {
        v.push(0x2D);
        k += 1;
    }
    proof {
        assert(v@ =~= dump_footer());
    }
    ascii_to_string(v)
}

} // verus!
