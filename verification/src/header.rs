//! The fixed 100-byte file header and its binary codec.
//!
//! The header sits at byte 0 of the file, inside page 1.  Its layout is
//! fixed: a 15-byte magic string, then little-endian fields at fixed
//! offsets, then a zero-filled tail up to `HEADER_SIZE`.  The codec performs
//! no validation beyond the length check; magic-byte checking is the
//! caller's job.

use vstd::bytes::*;
use vstd::prelude::*;
use vstd::slice::slice_index_get;
use vstd::slice::slice_subrange;

use crate::pager::zero_seq;
use crate::pager::HEADER_SIZE;
use crate::pager::PAGE_SIZE;
use crate::ChiError;

verus! {

/// Length of the magic string that identifies the file format.
pub const MAGIC_BYTES_SIZE: usize = 15;

/// Initial value of the header's advisory page-cache size field.
pub const PAGE_CACHE_SIZE_INITIAL: u32 = 20000;

/// The magic string, `"SQLite format 3"` as ASCII bytes.
pub open spec fn spec_magic() -> Seq<u8> {
    seq![
        0x53u8, 0x51, 0x4c, 0x69, 0x74, 0x65, 0x20, 0x66, 0x6f, 0x72, 0x6d, 0x61, 0x74, 0x20,
        0x33,
    ]
}

/// The magic string as a vector, for runtime comparison and header building.
pub fn magic_bytes_vec() -> (r: Vec<u8>)
    ensures
        r@ == spec_magic(),
{
    let mut v: Vec<u8> = Vec::new();
    v.push(0x53);
    v.push(0x51);
    v.push(0x4c);
    v.push(0x69);
    v.push(0x74);
    v.push(0x65);
    v.push(0x20);
    v.push(0x66);
    v.push(0x6f);
    v.push(0x72);
    v.push(0x6d);
    v.push(0x61);
    v.push(0x74);
    v.push(0x20);
    v.push(0x33);
    proof {
        assert(v@ =~= spec_magic());
    }
    v
}

/// The 100-byte encoding of header field values: the magic string, the
/// little-endian fields in layout order, and a zero tail.
pub open spec fn spec_header_bytes_of(
    magic: Seq<u8>,
    page_size: u16,
    file_change_counter: u32,
    schema_version: u32,
    page_cache_size: u32,
    user_cookie: u32,
) -> Seq<u8> {
    magic + spec_u16_to_le_bytes(page_size) + spec_u32_to_le_bytes(file_change_counter)
        + spec_u32_to_le_bytes(schema_version) + spec_u32_to_le_bytes(page_cache_size)
        + spec_u32_to_le_bytes(user_cookie) + zero_seq((HEADER_SIZE - 33) as nat)
}

/// File-level metadata kept in the first `HEADER_SIZE` bytes of the file.
pub struct BTreeHeader {
    /// Magic bytes of the binary file format
    pub magic_bytes: Vec<u8>,
    /// Size of a database page
    pub page_size: u16,
    /// Incremented on every modification of the database
    pub file_change_counter: u32,
    /// Incremented on every modification of the database schema
    pub schema_version: u32,
    /// Advisory pager cache size, not enforced by this engine
    pub page_cache_size: u32,
    /// Available to the user for read-write access
    pub user_cookie: u32,
}

impl BTreeHeader {
    /// A header is well formed when its magic field has the fixed length.
    pub open spec fn wf(&self) -> bool {
        self.magic_bytes@.len() == MAGIC_BYTES_SIZE
    }

    /// The encoding of this header's field values.
    pub open spec fn spec_bytes(&self) -> Seq<u8> {
        spec_header_bytes_of(
            self.magic_bytes@,
            self.page_size,
            self.file_change_counter,
            self.schema_version,
            self.page_cache_size,
            self.user_cookie,
        )
    }

    /// Serialize the header into its fixed 100-byte block.
    pub fn to_bytes(&self) -> (r: Vec<u8>)
        requires
            self.wf(),
        ensures
            r@ == self.spec_bytes(),
            r@.len() == HEADER_SIZE,
    {
        proof {
            lemma_auto_spec_u16_to_from_le_bytes();
            lemma_auto_spec_u32_to_from_le_bytes();
        }
        let mut out: Vec<u8> = Vec::new();
        let mut i: usize = 0;
        while i < self.magic_bytes.len()
            invariant
                i <= self.magic_bytes@.len(),
                out@ == self.magic_bytes@.take(i as int),
            decreases self.magic_bytes@.len() - i,
        {
            out.push(self.magic_bytes[i]);
            proof {
                assert(out@ =~= self.magic_bytes@.take(i + 1));
            }
            i = i + 1;
        }
        proof {
            assert(out@ =~= self.magic_bytes@);
        }
        let mut piece = u16_to_le_bytes(self.page_size);
        out.append(&mut piece);
        let mut piece = u32_to_le_bytes(self.file_change_counter);
        out.append(&mut piece);
        let mut piece = u32_to_le_bytes(self.schema_version);
        out.append(&mut piece);
        let mut piece = u32_to_le_bytes(self.page_cache_size);
        out.append(&mut piece);
        let mut piece = u32_to_le_bytes(self.user_cookie);
        out.append(&mut piece);
        let ghost prefix = out@;
        while out.len() < HEADER_SIZE
            invariant
                prefix.len() <= out@.len() <= HEADER_SIZE,
                out@.take(prefix.len() as int) == prefix,
                forall|j: int| prefix.len() <= j < out@.len() ==> out@[j] == 0u8,
                prefix.len() <= HEADER_SIZE,
            decreases HEADER_SIZE - out@.len(),
        {
            out.push(0);
            proof {
                assert(out@.take(prefix.len() as int) =~= prefix);
            }
        }
        proof {
            assert(out@ =~= self.spec_bytes());
        }
        out
    }

    /// Decode a header from the leading bytes of `bytes`; a buffer shorter
    /// than `HEADER_SIZE` cannot hold a header.
    pub fn from_bytes(bytes: &[u8]) -> (r: Result<BTreeHeader, ChiError>)
        ensures
            match r {
                Ok(h) => {
                    &&& bytes@.len() >= HEADER_SIZE
                    &&& h.wf()
                    &&& h.magic_bytes@ == bytes@.take(MAGIC_BYTES_SIZE as int)
                    &&& h.page_size == spec_u16_from_le_bytes(bytes@.subrange(15, 17))
                    &&& h.file_change_counter == spec_u32_from_le_bytes(bytes@.subrange(17, 21))
                    &&& h.schema_version == spec_u32_from_le_bytes(bytes@.subrange(21, 25))
                    &&& h.page_cache_size == spec_u32_from_le_bytes(bytes@.subrange(25, 29))
                    &&& h.user_cookie == spec_u32_from_le_bytes(bytes@.subrange(29, 33))
                },
                Err(e) => e == ChiError::NoHeader && bytes@.len() < HEADER_SIZE,
            },
    {
        if bytes.len() < HEADER_SIZE {
            return Err(ChiError::NoHeader);
        }
        let mut magic: Vec<u8> = Vec::new();
        let mut i: usize = 0;
        while i < MAGIC_BYTES_SIZE
            invariant
                i <= MAGIC_BYTES_SIZE,
                bytes@.len() >= HEADER_SIZE,
                magic@ == bytes@.take(i as int),
            decreases MAGIC_BYTES_SIZE - i,
        {
            magic.push(*slice_index_get(bytes, i));
            proof {
                assert(magic@ =~= bytes@.take(i + 1));
            }
            i = i + 1;
        }
        let page_size = u16_from_le_bytes(slice_subrange(bytes, 15, 17));
        let file_change_counter = u32_from_le_bytes(slice_subrange(bytes, 17, 21));
        let schema_version = u32_from_le_bytes(slice_subrange(bytes, 21, 25));
        let page_cache_size = u32_from_le_bytes(slice_subrange(bytes, 25, 29));
        let user_cookie = u32_from_le_bytes(slice_subrange(bytes, 29, 33));
        Ok(
            BTreeHeader {
                magic_bytes: magic,
                page_size,
                file_change_counter,
                schema_version,
                page_cache_size,
                user_cookie,
            },
        )
    }
}

impl Default for BTreeHeader {
    /// The header a freshly created file starts with: the magic string, the
    /// engine's page size, the initial cache-size hint, all counters zero.
    fn default() -> (r: Self)
        ensures
            r.wf(),
            r.magic_bytes@ == spec_magic(),
            r.page_size == PAGE_SIZE as u16,
            r.file_change_counter == 0,
            r.schema_version == 0,
            r.page_cache_size == PAGE_CACHE_SIZE_INITIAL,
            r.user_cookie == 0,
    {
        BTreeHeader {
            magic_bytes: magic_bytes_vec(),
            page_size: PAGE_SIZE as u16,
            file_change_counter: 0,
            schema_version: 0,
            page_cache_size: PAGE_CACHE_SIZE_INITIAL,
            user_cookie: 0,
        }
    }
}

/// Round trip of the header codec: decoding the 100-byte encoding of any
/// well-formed header recovers every field value.
pub proof fn lemma_header_bytes_round_trip(h: BTreeHeader)
    requires
        h.wf(),
    ensures
        h.spec_bytes().len() == HEADER_SIZE,
        h.spec_bytes().take(MAGIC_BYTES_SIZE as int) == h.magic_bytes@,
        spec_u16_from_le_bytes(h.spec_bytes().subrange(15, 17)) == h.page_size,
        spec_u32_from_le_bytes(h.spec_bytes().subrange(17, 21)) == h.file_change_counter,
        spec_u32_from_le_bytes(h.spec_bytes().subrange(21, 25)) == h.schema_version,
        spec_u32_from_le_bytes(h.spec_bytes().subrange(25, 29)) == h.page_cache_size,
        spec_u32_from_le_bytes(h.spec_bytes().subrange(29, 33)) == h.user_cookie,
{
    lemma_auto_spec_u16_to_from_le_bytes();
    lemma_auto_spec_u32_to_from_le_bytes();
    let b = h.spec_bytes();
    assert(b.take(MAGIC_BYTES_SIZE as int) =~= h.magic_bytes@);
    assert(b.subrange(15, 17) =~= spec_u16_to_le_bytes(h.page_size));
    assert(b.subrange(17, 21) =~= spec_u32_to_le_bytes(h.file_change_counter));
    assert(b.subrange(21, 25) =~= spec_u32_to_le_bytes(h.schema_version));
    assert(b.subrange(25, 29) =~= spec_u32_to_le_bytes(h.page_cache_size));
    assert(b.subrange(29, 33) =~= spec_u32_to_le_bytes(h.user_cookie));
}

} // verus!
