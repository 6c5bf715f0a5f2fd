//! E820 memory-map reader.
//!
//! The BIOS leaves a table of physical memory regions in low memory: a
//! little-endian 32-bit entry count followed immediately by that many
//! packed 24-byte records, each `{base: u64, length: u64, typ: u32,
//! attr: u32}` with no padding. The reader binds a read-only view over
//! such a blob and hands the records out one by one, forward-only,
//! copying each record out by value and never reading past the declared
//! count. Region contents are opaque passthrough: nothing here validates
//! overlap, order, or type codes, which are the firmware's business.

use vstd::prelude::*;

verus! {

use vstd::arithmetic::div_mod::lemma_div_denominator;

/// Byte offset of the first record: the table follows the 4-byte count.
pub const TABLE_OFFSET: usize = 4;

/// Size in bytes of one packed record.
pub const ENTRY_SIZE: usize = 24;

/// One memory region as the firmware describes it: physical start, byte
/// count, a type code (1 usable RAM, 2 reserved, 3 ACPI reclaimable,
/// 4 ACPI NVS, others reserved), and extended attribute flags. Type and
/// attribute values are passed through unvalidated.
#[derive(Clone, Copy, PartialEq, Eq, Structural, Debug)]
pub struct E820Entry {
    pub base: u64,
    pub length: u64,
    pub typ: u32,
    pub attr: u32,
}

/// The little-endian 32-bit value spelled by four bytes starting at
/// `off`.
pub open spec fn le_u32_at(d: Seq<u8>, off: int) -> int {
    d[off] + 0x100 * d[off + 1] + 0x10000 * d[off + 2] + 0x1000000 * d[off + 3]
}

/// The little-endian 64-bit value spelled by eight bytes starting at
/// `off`.
pub open spec fn le_u64_at(d: Seq<u8>, off: int) -> int {
    d[off] + 0x100 * d[off + 1] + 0x10000 * d[off + 2] + 0x1000000 * d[off + 3] + 0x100000000 * d[
        off + 4
    ] + 0x10000000000 * d[off + 5] + 0x1000000000000 * d[off + 6] + 0x100000000000000 * d[off + 7]
}

/// The entry count a memory-map blob declares in its leading count
/// field.
pub open spec fn spec_num_entries(d: Seq<u8>) -> int {
    le_u32_at(d, 0)
}

/// The region spelled by one 24-byte record.
pub open spec fn spec_record(b: Seq<u8>) -> E820Entry {
    E820Entry {
        base: le_u64_at(b, 0) as u64,
        length: le_u64_at(b, 8) as u64,
        typ: le_u32_at(b, 16) as u32,
        attr: le_u32_at(b, 20) as u32,
    }
}

/// A well-formed memory-map blob: it holds the count field and as many
/// whole records as the count declares. The firmware guarantees this of
/// the real table; the reader never reads beyond it.
pub open spec fn wf_blob(d: Seq<u8>) -> bool {
    &&& d.len() >= TABLE_OFFSET
    &&& TABLE_OFFSET + ENTRY_SIZE * spec_num_entries(d) <= d.len()
}

/// The region at table slot `i` of a memory-map blob.
pub open spec fn spec_entry_at(d: Seq<u8>, i: int) -> E820Entry {
    spec_record(d.subrange(TABLE_OFFSET + ENTRY_SIZE * i, TABLE_OFFSET + ENTRY_SIZE * (i + 1)))
}

/// Every region a memory-map blob declares, in table order.
pub open spec fn spec_entries(d: Seq<u8>) -> Seq<E820Entry> {
    Seq::new(spec_num_entries(d) as nat, |i: int| spec_entry_at(d, i))
}

/// Reads the little-endian 32-bit value at `off`.
fn read_u32(d: &Vec<u8>, off: usize) -> (r: u32)
    requires
        off + 4 <= d@.len(),
    ensures
        r == le_u32_at(d@, off as int),
{
    // naming the length as a usize bounds the offsets below
    let _len: usize = d.len();
    d[off] as u32 + 0x100 * d[off + 1] as u32 + 0x10000 * d[off + 2] as u32 + 0x1000000 * d[off
        + 3] as u32
}

/// Reads the little-endian 64-bit value at `off`.
fn read_u64(d: &Vec<u8>, off: usize) -> (r: u64)
    requires
        off + 8 <= d@.len(),
    ensures
        r == le_u64_at(d@, off as int),
{
    // naming the length as a usize bounds the offsets below
    let _len: usize = d.len();
    d[off] as u64 + 0x100 * d[off + 1] as u64 + 0x10000 * d[off + 2] as u64 + 0x1000000 * d[off
        + 3] as u64 + 0x100000000 * d[off + 4] as u64 + 0x10000000000 * d[off + 5] as u64
        + 0x1000000000000 * d[off + 6] as u64 + 0x100000000000000 * d[off + 7] as u64
}

/// Appends the four little-endian bytes of `v`.
fn push_u32_le(out: &mut Vec<u8>, v: u32)
    ensures
        final(out)@.len() == old(out)@.len() + 4,
        forall|i: int| 0 <= i < old(out)@.len() ==> final(out)@[i] == old(out)@[i],
        le_u32_at(final(out)@, old(out)@.len() as int) == v,
{
    let b0: u8 = (v % 0x100) as u8;
    let b1: u8 = (v / 0x100 % 0x100) as u8;
    let b2: u8 = (v / 0x10000 % 0x100) as u8;
    let b3: u8 = (v / 0x1000000 % 0x100) as u8;
    out.push(b0);
    out.push(b1);
    out.push(b2);
    out.push(b3);
    proof {
        let x = v as int;
        lemma_div_denominator(x, 0x100, 0x100);
        lemma_div_denominator(x, 0x10000, 0x100);
        assert(x == x % 0x100 + 0x100 * (x / 0x100));
        assert(x / 0x100 == (x / 0x100) % 0x100 + 0x100 * (x / 0x10000));
        assert(x / 0x10000 == (x / 0x10000) % 0x100 + 0x100 * (x / 0x1000000));
        assert(x / 0x1000000 % 0x100 == x / 0x1000000);
    }
}

/// Appends the eight little-endian bytes of `v`.
fn push_u64_le(out: &mut Vec<u8>, v: u64)
    ensures
        final(out)@.len() == old(out)@.len() + 8,
        forall|i: int| 0 <= i < old(out)@.len() ==> final(out)@[i] == old(out)@[i],
        le_u64_at(final(out)@, old(out)@.len() as int) == v,
{
    let b0: u8 = (v % 0x100) as u8;
    let b1: u8 = (v / 0x100 % 0x100) as u8;
    let b2: u8 = (v / 0x10000 % 0x100) as u8;
    let b3: u8 = (v / 0x1000000 % 0x100) as u8;
    let b4: u8 = (v / 0x100000000 % 0x100) as u8;
    let b5: u8 = (v / 0x10000000000 % 0x100) as u8;
    let b6: u8 = (v / 0x1000000000000 % 0x100) as u8;
    let b7: u8 = (v / 0x100000000000000 % 0x100) as u8;
    out.push(b0);
    out.push(b1);
    out.push(b2);
    out.push(b3);
    out.push(b4);
    out.push(b5);
    out.push(b6);
    out.push(b7);
    proof {
        let x = v as int;
        lemma_div_denominator(x, 0x100, 0x100);
        lemma_div_denominator(x, 0x10000, 0x100);
        lemma_div_denominator(x, 0x1000000, 0x100);
        lemma_div_denominator(x, 0x100000000, 0x100);
        lemma_div_denominator(x, 0x10000000000, 0x100);
        lemma_div_denominator(x, 0x1000000000000, 0x100);
        assert(x == x % 0x100 + 0x100 * (x / 0x100));
        assert(x / 0x100 == (x / 0x100) % 0x100 + 0x100 * (x / 0x10000));
        assert(x / 0x10000 == (x / 0x10000) % 0x100 + 0x100 * (x / 0x1000000));
        assert(x / 0x1000000 == (x / 0x1000000) % 0x100 + 0x100 * (x / 0x100000000));
        assert(x / 0x100000000 == (x / 0x100000000) % 0x100 + 0x100 * (x / 0x10000000000));
        assert(x / 0x10000000000 == (x / 0x10000000000) % 0x100 + 0x100 * (x / 0x1000000000000));
        assert(x / 0x1000000000000 == (x / 0x1000000000000) % 0x100 + 0x100 * (x
            / 0x100000000000000));
        assert(x / 0x100000000000000 % 0x100 == x / 0x100000000000000);
    }
}

/// Encodes one region into its packed 24-byte wire form. Decoding the
/// result as a record reproduces the region's field values exactly, for
/// every region: the `spec_record` clause is the round trip.
pub fn encode_region(e: &E820Entry) -> (r: Vec<u8>)
    ensures
        r@.len() == ENTRY_SIZE,
        spec_record(r@) == *e,
{
    let mut out: Vec<u8> = Vec::new();
    push_u64_le(&mut out, e.base);
    let ghost s1 = out@;
    push_u64_le(&mut out, e.length);
    let ghost s2 = out@;
    push_u32_le(&mut out, e.typ);
    let ghost s3 = out@;
    push_u32_le(&mut out, e.attr);
    proof {
        assert(le_u64_at(out@, 0) == le_u64_at(s1, 0));
        assert(le_u64_at(out@, 8) == le_u64_at(s2, 8));
        assert(le_u32_at(out@, 16) == le_u32_at(s3, 16));
    }
    out
}

/// A forward-only reader over a memory-map blob: the blob, the declared
/// entry count, and the iteration cursor. Once exhausted it stays
/// exhausted; a fresh reader over the same blob starts over.
pub struct E820Info {
    data: Vec<u8>,
    num_entries: usize,
    idx: usize,
}

impl E820Info {
    /// Well-formedness: the blob is well formed, the cached count is the
    /// declared one, and the cursor never passes it.
    pub closed spec fn wf(self) -> bool {
        &&& wf_blob(self.data@)
        &&& self.num_entries == spec_num_entries(self.data@)
        &&& self.idx <= self.num_entries
    }

    /// The regions the reader ranges over, in table order.
    pub closed spec fn entries(self) -> Seq<E820Entry> {
        spec_entries(self.data@)
    }

    /// How many regions have been handed out so far.
    pub closed spec fn cursor(self) -> nat {
        self.idx as nat
    }

    /// A well-formed reader's cursor never passes the end of the table.
    pub proof fn lemma_cursor_in_range(self)
        requires
            self.wf(),
        ensures
            self.cursor() <= self.entries().len(),
    {
    }

    /// Binds a reader over a memory-map blob, reading the declared count
    /// from the leading count field; iteration starts at the first
    /// record.
    pub fn new(data: Vec<u8>) -> (r: E820Info)
        requires
            wf_blob(data@),
        ensures
            r.wf(),
            r.cursor() == 0,
            r.entries() == spec_entries(data@),
    {
        let n = read_u32(&data, 0);
        E820Info { num_entries: n as usize, idx: 0, data }
    }

    /// Hands out the next region by value and advances the cursor, or
    /// reports the end of the table: `None` exactly when every declared
    /// region has been handed out, and from then on forever.
    pub fn next(&mut self) -> (r: Option<E820Entry>)
        requires
            old(self).wf(),
        ensures
            final(self).wf(),
            final(self).entries() == old(self).entries(),
            old(self).cursor() < old(self).entries().len() ==> {
                &&& r == Some(old(self).entries()[old(self).cursor() as int])
                &&& final(self).cursor() == old(self).cursor() + 1
            },
            old(self).cursor() >= old(self).entries().len() ==> {
                &&& r is None
                &&& final(self).cursor() == old(self).cursor()
            },
    {
        if self.idx < self.num_entries {
            // naming the length as a usize bounds the record offset
            let _len: usize = self.data.len();
            let off = TABLE_OFFSET + ENTRY_SIZE * self.idx;
            let base = read_u64(&self.data, off);
            let length = read_u64(&self.data, off + 8);
            let typ = read_u32(&self.data, off + 16);
            let attr = read_u32(&self.data, off + 20);
            let entry = E820Entry { base, length, typ, attr };
            proof {
                let i = self.idx as int;
                let rec = self.data@.subrange(
                    TABLE_OFFSET + ENTRY_SIZE * i,
                    TABLE_OFFSET + ENTRY_SIZE * (i + 1),
                );
                assert(le_u64_at(rec, 0) == le_u64_at(self.data@, TABLE_OFFSET + ENTRY_SIZE * i));
                assert(le_u64_at(rec, 8) == le_u64_at(
                    self.data@,
                    TABLE_OFFSET + ENTRY_SIZE * i + 8,
                ));
                assert(le_u32_at(rec, 16) == le_u32_at(
                    self.data@,
                    TABLE_OFFSET + ENTRY_SIZE * i + 16,
                ));
                assert(le_u32_at(rec, 20) == le_u32_at(
                    self.data@,
                    TABLE_OFFSET + ENTRY_SIZE * i + 20,
                ));
            }
            self.idx = self.idx + 1;
            Some(entry)
        } else {
            None
        }
    }
}

} // verus!
