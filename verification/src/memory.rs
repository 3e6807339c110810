//! Memory: a flat 65536-word address space with bounds-free read/write and
//! the binary-image loader.
//!
//! An image is a stream of 16-bit big-endian words. If its first word falls
//! in the plausible program-origin range, it is taken as a header: the
//! remaining words are loaded starting at that origin, which is also the
//! reported start address. Otherwise the whole stream, first word included,
//! is loaded at the conventional start address 0x3000. This header heuristic
//! is a compatibility choice, not an architectural guarantee.

use vstd::prelude::*;

verus! {

/// The number of words in the address space.
pub open spec fn mem_size() -> int {
    0x10000
}

/// The conventional start address used when an image carries no header.
pub open spec fn default_origin() -> int {
    0x3000
}

/// Word `i` of a big-endian byte stream.
pub open spec fn stream_word(bytes: Seq<u8>, i: int) -> u16 {
    (bytes[2 * i] * 256 + bytes[2 * i + 1]) as u16
}

/// Whether the stream's first word is a plausible origin, so that the image
/// is read as header-prefixed.
pub open spec fn has_header(bytes: Seq<u8>) -> bool {
    0x3000 <= stream_word(bytes, 0) <= 0x9000
}

/// The address the image's code is loaded at, and the reported start
/// address: the header origin, or the conventional start address.
pub open spec fn load_origin(bytes: Seq<u8>) -> int {
    if has_header(bytes) {
        stream_word(bytes, 0) as int
    } else {
        default_origin()
    }
}

/// How many leading words of the stream are header, not code.
pub open spec fn header_words(bytes: Seq<u8>) -> int {
    if has_header(bytes) {
        1
    } else {
        0
    }
}

/// How many words of the stream are code to be loaded.
pub open spec fn code_words(bytes: Seq<u8>) -> int {
    bytes.len() / 2 - header_words(bytes)
}

/// Why an image was rejected: no bytes at all, or an odd byte count that
/// cannot form whole 16-bit words.
#[derive(Clone, Copy, PartialEq, Eq, Structural, Debug)]
pub enum LoadError {
    Empty,
    OddLength,
}

pub struct Memory {
    mem: Vec<u16>,
}

impl View for Memory {
    type V = Seq<u16>;

    closed spec fn view(&self) -> Seq<u16> {
        self.mem@
    }
}

impl Memory {
    /// Well-formedness: all 65536 cells exist.
    pub open spec fn wf(&self) -> bool {
        self@.len() == mem_size()
    }

    /// A fresh memory: every cell exists and is zero.
    pub fn new() -> (r: Memory)
        ensures
            r.wf(),
            forall|a: int| 0 <= a < mem_size() ==> r@[a] == 0,
    {
        let mut mem: Vec<u16> = Vec::new();
        let mut i: usize = 0;
        while i < 0x10000
            invariant
                i <= 0x10000,
                mem@.len() == i,
                forall|a: int| 0 <= a < i ==> mem@[a] == 0,
            decreases 0x10000 - i,
        {
            mem.push(0);
            i = i + 1;
        }
        Memory { mem }
    }

    /// Reads the word at `addr`; every 16-bit address is readable.
    pub fn read(&self, addr: u16) -> (v: u16)
        requires
            self.wf(),
        ensures
            v == self@[addr as int],
    {
        self.mem[addr as usize]
    }

    /// Writes the word at `addr`; every 16-bit address is writable.
    pub fn write(&mut self, addr: u16, val: u16)
        requires
            old(self).wf(),
        ensures
            final(self).wf(),
            final(self)@ == old(self)@.update(addr as int, val),
    {
        self.mem.set(addr as usize, val);
    }

    /// Loads a binary image and reports the resolved start address.
    ///
    /// An empty stream or one with an odd byte count is rejected and memory
    /// is untouched. Otherwise the code words land consecutively from the
    /// resolved origin (words that would fall past the top of the address
    /// space are dropped), every other cell keeps its value, and the origin
    /// is returned.
    pub fn load_program(&mut self, bytes: &[u8]) -> (r: Result<u16, LoadError>)
        requires
            old(self).wf(),
        ensures
            final(self).wf(),
            bytes@.len() == 0 ==> r == Err::<u16, LoadError>(LoadError::Empty) && final(self)@
                == old(self)@,
            bytes@.len() % 2 != 0 ==> r == Err::<u16, LoadError>(LoadError::OddLength)
                && final(self)@ == old(self)@,
            bytes@.len() > 0 && bytes@.len() % 2 == 0 ==> {
                &&& r == Ok::<u16, LoadError>(load_origin(bytes@) as u16)
                &&& forall|a: int|
                    load_origin(bytes@) <= a < load_origin(bytes@) + code_words(bytes@) && a
                        < mem_size() ==> #[trigger] final(self)@[a] == stream_word(
                        bytes@,
                        header_words(bytes@) + (a - load_origin(bytes@)),
                    )
                &&& forall|a: int|
                    0 <= a < mem_size() && !(load_origin(bytes@) <= a < load_origin(bytes@)
                        + code_words(bytes@)) ==> #[trigger] final(self)@[a] == old(self)@[a]
            },
    {
        let n = bytes.len();
        if n == 0 {
            return Err(LoadError::Empty);
        }
        if n % 2 != 0 {
            return Err(LoadError::OddLength);
        }
        let origin_word: u16 = (bytes[0] as u16) * 256 + (bytes[1] as u16);
        let header: usize = if 0x3000 <= origin_word && origin_word <= 0x9000 {
            1
        } else {
            0
        };
        let target: usize = if header == 1 {
            origin_word as usize
        } else {
            0x3000
        };
        let total_words = n / 2;
        let mut i: usize = header;
        while i < total_words
            invariant
                self.wf(),
                bytes@.len() == n,
                n > 0,
                n % 2 == 0,
                total_words == n / 2,
                header == header_words(bytes@),
                target == load_origin(bytes@),
                header <= i <= total_words,
                forall|a: int|
                    target <= a < target + (i - header) && a < mem_size() ==> #[trigger] self@[a]
                        == stream_word(bytes@, header + (a - target)),
                forall|a: int|
                    0 <= a < mem_size() && !(target <= a < target + (i - header))
                        ==> #[trigger] self@[a] == old(self)@[a],
            decreases total_words - i,
        {
            let w: u16 = (bytes[2 * i] as u16) * 256 + (bytes[2 * i + 1] as u16);
            let a = target + (i - header);
            if a < 0x10000 {
                self.mem.set(a, w);
            }
            i = i + 1;
        }
        Ok(target as u16)
    }
}

/// Loader round trip: a header-prefixed stream made of an origin in the
/// plausible range followed by code words is read as exactly that — the
/// origin is the reported start address and word `i` of the code lands at
/// `origin + i`.
pub proof fn lemma_loader_round_trip(origin: u16, ws: Seq<u16>)
    requires
        0x3000 <= origin <= 0x9000,
    ensures
        ({
            let bytes = encode_words(seq![origin] + ws);
            &&& bytes.len() == 2 * ws.len() + 2
            &&& bytes.len() % 2 == 0
            &&& has_header(bytes)
            &&& load_origin(bytes) == origin
            &&& header_words(bytes) == 1
            &&& code_words(bytes) == ws.len()
            &&& forall|i: int| 0 <= i < ws.len() ==> stream_word(bytes, 1 + i) == ws[i]
        }),
{
    let all = seq![origin] + ws;
    let bytes = encode_words(all);
    assert forall|i: int| 0 <= i < all.len() implies stream_word(bytes, i) == all[i] by {
        lemma_stream_word_of_encode(all, i);
    }
    assert(stream_word(bytes, 0) == origin);
}

/// Loader fallback: a stream whose first word is outside the plausible
/// origin range carries no header — the whole stream is code, loaded at the
/// conventional start address, which is also the reported start address.
pub proof fn lemma_loader_fallback(bytes: Seq<u8>)
    requires
        bytes.len() % 2 == 0,
        bytes.len() > 0,
        !(0x3000 <= stream_word(bytes, 0) <= 0x9000),
    ensures
        load_origin(bytes) == default_origin(),
        header_words(bytes) == 0,
        code_words(bytes) == bytes.len() / 2,
{
}

/// The big-endian byte stream that spells a word sequence.
pub open spec fn encode_words(ws: Seq<u16>) -> Seq<u8> {
    Seq::new(
        (2 * ws.len()) as nat,
        |i: int|
            if i % 2 == 0 {
                (ws[i / 2] / 256) as u8
            } else {
                (ws[i / 2] % 256) as u8
            },
    )
}

proof fn lemma_stream_word_of_encode(ws: Seq<u16>, i: int)
    requires
        0 <= i < ws.len(),
    ensures
        stream_word(encode_words(ws), i) == ws[i],
{
    let bytes = encode_words(ws);
    assert(bytes[2 * i] == (ws[i] / 256) as u8);
    assert(bytes[2 * i + 1] == (ws[i] % 256) as u8);
    assert(ws[i] / 256 * 256 + ws[i] % 256 == ws[i]) by {
        vstd::arithmetic::div_mod::lemma_fundamental_div_mod(ws[i] as int, 256);
    }
}

} // verus!
