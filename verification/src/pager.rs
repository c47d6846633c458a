//! Byte-level model of the database file and the pager that owns it.
//!
//! The `Pager` holds the file's bytes in memory together with the count of
//! pages allocated so far; page numbers are 1-based and a page's bytes start
//! at `(n_page - 1) * PAGE_SIZE`.  Reads past the end of the in-memory image
//! are zero-filled: allocating a page only reserves its number, the bytes
//! come into existence when the page is first written.

use vstd::bytes::*;
use vstd::prelude::*;
use vstd::slice::slice_index_get;
use vstd::slice::slice_subrange;

use crate::ChiError;

verus! {

/// Size in bytes of every page of the file.
pub const PAGE_SIZE: usize = 16384;

/// Size in bytes of the file header at the start of page 1.
pub const HEADER_SIZE: usize = 100;

/// Largest page count the pager accepts, so that every byte offset
/// `page_start(n) + PAGE_SIZE` fits comfortably in `usize` on any machine.
pub const MAX_PAGES: u32 = 65536;

/// Largest file image the pager accepts: `MAX_PAGES * PAGE_SIZE` bytes.
pub const MAX_FILE_BYTES: usize = 0x4000_0000;

/// A run of `n` zero bytes.
pub open spec fn zero_seq(n: nat) -> Seq<u8> {
    Seq::new(n, |i: int| 0u8)
}

/// The byte of the file at position `i`, zero when `i` lies past the end.
pub open spec fn file_byte(file: Seq<u8>, i: int) -> u8 {
    if 0 <= i < file.len() {
        file[i]
    } else {
        0
    }
}

/// First byte offset of page `n_page` (pages are numbered from 1).
pub open spec fn page_start(n_page: int) -> int {
    (n_page - 1) * (PAGE_SIZE as int)
}

/// Where node-relevant bytes begin within a page: page 1 reserves its
/// leading bytes for the file header.
pub open spec fn page_offset(n_page: int) -> u16 {
    if n_page == 1 {
        HEADER_SIZE as u16
    } else {
        0u16
    }
}

/// The `PAGE_SIZE` bytes of page `n_page`, zero-filled past end-of-file.
pub open spec fn page_image(file: Seq<u8>, n_page: int) -> Seq<u8> {
    Seq::new(PAGE_SIZE as nat, |i: int| file_byte(file, page_start(n_page) + i))
}

/// The `HEADER_SIZE` bytes of the file header, zero-filled past end-of-file.
pub open spec fn header_image(file: Seq<u8>) -> Seq<u8> {
    Seq::new(HEADER_SIZE as nat, |i: int| file_byte(file, i))
}

/// The file after `data` is written at byte position `start`: the file grows
/// (zero-filled) as far as needed, bytes outside the written range keep
/// their old values.
pub open spec fn write_at(file: Seq<u8>, start: int, data: Seq<u8>) -> Seq<u8> {
    let end = start + data.len();
    let new_len = if end > file.len() {
        end
    } else {
        file.len() as int
    };
    Seq::new(new_len as nat, |i: int|
        if start <= i < end {
            data[i - start]
        } else {
            file_byte(file, i)
        }
    )
}

/// An in-memory, detached copy of one page's bytes.  All node-layer reads
/// and writes go through the region starting at `offset`; only the
/// header-writing path on page 1 touches the bytes before it.
pub struct MemPage {
    /// Number of the physical page this copy was read from
    pub n_page: u32,
    /// Offset where node-relevant bytes start within the page
    pub offset: u16,
    /// The page's bytes; read and write them through the methods below,
    /// which keep the well-formedness invariant
    pub data: Vec<u8>,
}

impl View for MemPage {
    type V = Seq<u8>;

    open spec fn view(&self) -> Seq<u8> {
        self.data@
    }
}

impl MemPage {
    /// A page copy is well formed when it holds exactly one page's bytes
    /// and its offset lies inside the page.
    pub open spec fn wf(&self) -> bool {
        &&& self@.len() == PAGE_SIZE
        &&& (self.offset as int) < PAGE_SIZE as int
    }

    /// Build a page copy from a full page's bytes.
    pub fn new(n_page: u32, raw: Vec<u8>, offset: u16) -> (r: MemPage)
        requires
            raw@.len() == PAGE_SIZE,
            (offset as int) < PAGE_SIZE as int,
        ensures
            r.wf(),
            r.n_page == n_page,
            r.offset == offset,
            r@ == raw@,
    {
        MemPage { n_page, offset, data: raw }
    }

    /// The page's bytes from `offset` onward: the node region.
    pub fn data(&self) -> (r: &[u8])
        requires
            self.wf(),
        ensures
            r@ == self@.skip(self.offset as int),
    {
        let r = slice_subrange(self.data.as_slice(), self.offset as usize, self.data.len());
        proof {
            assert(r@ =~= self@.skip(self.offset as int));
        }
        r
    }

    /// The full, untruncated page buffer.
    pub fn raw(&self) -> (r: &[u8])
        ensures
            r@ == self@,
    {
        self.data.as_slice()
    }

    /// Replace everything from `offset` onward with `raw`, leaving the bytes
    /// before `offset` untouched.  The replacement must cover the whole node
    /// region; a mismatched length would silently corrupt cell offsets.
    pub fn set_data(&mut self, raw: &[u8])
        requires
            old(self).wf(),
            raw@.len() == PAGE_SIZE - old(self).offset,
        ensures
            final(self).wf(),
            final(self).n_page == old(self).n_page,
            final(self).offset == old(self).offset,
            final(self)@ == old(self)@.take(old(self).offset as int) + raw@,
    {
        let mut i: usize = 0;
        let off = self.offset as usize;
        while i < raw.len()
            invariant
                off == old(self).offset as int,
                raw@.len() == PAGE_SIZE - off,
                i <= raw@.len(),
                self.n_page == old(self).n_page,
                self.offset == old(self).offset,
                self@.len() == PAGE_SIZE,
                forall|j: int| 0 <= j < off ==> self@[j] == old(self)@[j],
                forall|j: int| 0 <= j < i ==> self@[off + j] == raw@[j],
                forall|j: int| off + i <= j < PAGE_SIZE ==> self@[j] == old(self)@[j],
            decreases raw@.len() - i,
        {
            self.data.set(off + i, *slice_index_get(raw, i));
            i = i + 1;
        }
        proof {
            assert(final(self)@ =~= old(self)@.take(old(self).offset as int) + raw@);
        }
    }

    /// Read the byte at offset `i` of the node region.
    pub fn read_rel_u8(&self, i: usize) -> (r: u8)
        requires
            self.wf(),
            self.offset + i < PAGE_SIZE,
        ensures
            r == self@[self.offset + i],
    {
        self.data[self.offset as usize + i]
    }

    /// Write the byte at offset `i` of the node region.
    pub fn write_rel_u8(&mut self, i: usize, v: u8)
        requires
            old(self).wf(),
            old(self).offset + i < PAGE_SIZE,
        ensures
            final(self).wf(),
            final(self).n_page == old(self).n_page,
            final(self).offset == old(self).offset,
            final(self)@ == old(self)@.update(old(self).offset + i, v),
    {
        self.data.set(self.offset as usize + i, v);
    }

    /// Read the little-endian `u16` at offset `i` of the node region.
    pub fn read_rel_u16(&self, i: usize) -> (r: u16)
        requires
            self.wf(),
            self.offset + i + 2 <= PAGE_SIZE,
        ensures
            r == spec_u16_from_le_bytes(
                self@.subrange(self.offset + i, self.offset + i + 2),
            ),
    {
        let b0 = self.read_rel_u8(i);
        let b1 = self.read_rel_u8(i + 1);
        let mut pair: Vec<u8> = Vec::new();
        pair.push(b0);
        pair.push(b1);
        proof {
            assert(pair@ =~= self@.subrange(self.offset + i, self.offset + i + 2));
        }
        u16_from_le_bytes(pair.as_slice())
    }

    /// Write `v` as a little-endian `u16` at offset `i` of the node region.
    pub fn write_rel_u16(&mut self, i: usize, v: u16)
        requires
            old(self).wf(),
            old(self).offset + i + 2 <= PAGE_SIZE,
        ensures
            final(self).wf(),
            final(self).n_page == old(self).n_page,
            final(self).offset == old(self).offset,
            final(self)@ == old(self)@.update(
                old(self).offset + i,
                spec_u16_to_le_bytes(v)[0],
            ).update(old(self).offset + i + 1, spec_u16_to_le_bytes(v)[1]),
    {
        let le = u16_to_le_bytes(v);
        self.write_rel_u8(i, le[0]);
        self.write_rel_u8(i + 1, le[1]);
    }
}

/// How many pages a file of `len` bytes covers (the last page may be
/// partial on disk; its missing bytes read as zero).
pub open spec fn pages_covering(len: int) -> int {
    (len + PAGE_SIZE - 1) / (PAGE_SIZE as int)
}

/// Owner of the file image: translates page numbers to byte offsets,
/// allocates page numbers, and reads and writes whole pages.
pub struct Pager {
    file: Vec<u8>,
    total_pages: u32,
}

impl Pager {
    /// The bytes of the file image.
    pub closed spec fn file_bytes(&self) -> Seq<u8> {
        self.file@
    }

    /// How many pages have been allocated (or found in the opened file).
    pub closed spec fn num_pages(&self) -> u32 {
        self.total_pages
    }

    /// The pager stays within the machine limits on file size.
    pub closed spec fn wf(&self) -> bool {
        &&& self.total_pages <= MAX_PAGES
        &&& self.file@.len() <= MAX_FILE_BYTES
    }

    /// Open a file image for paged access.  Pages already covered by the
    /// image count as allocated, so an existing file's pages can be read
    /// back; a fresh (empty) file starts with no pages.
    pub fn open(contents: Vec<u8>) -> (r: Pager)
        requires
            contents@.len() <= MAX_FILE_BYTES,
        ensures
            r.wf(),
            r.file_bytes() == contents@,
            r.num_pages() as int == pages_covering(contents@.len() as int),
    {
        let total_pages = ((contents.len() + (PAGE_SIZE - 1)) / PAGE_SIZE) as u32;
        Pager { file: contents, total_pages }
    }

    /// True iff the file image holds no bytes at all.
    pub fn is_empty(&self) -> (r: bool)
        ensures
            r == (self.file_bytes().len() == 0),
    {
        self.file.len() == 0
    }

    /// The full file image, for the shell that persists it to disk.
    pub fn contents(&self) -> (r: &Vec<u8>)
        ensures
            r@ == self.file_bytes(),
    {
        &self.file
    }

    /// How many pages have been allocated (or found in the opened file).
    pub fn page_count(&self) -> (r: u32)
        ensures
            r == self.num_pages(),
    {
        self.total_pages
    }

    /// Reserve the next page number.  Page numbers grow one by one and are
    /// never reused; no bytes are written until the page itself is.
    pub fn allocate_page(&mut self) -> (r: u32)
        requires
            old(self).wf(),
            old(self).num_pages() < MAX_PAGES,
        ensures
            final(self).wf(),
            final(self).file_bytes() == old(self).file_bytes(),
            final(self).num_pages() == old(self).num_pages() + 1,
            r == final(self).num_pages(),
    {
        self.total_pages = self.total_pages + 1;
        self.total_pages
    }

    /// Read the `HEADER_SIZE` leading bytes of the file, zero-filled when
    /// the file is shorter.  The header is readable even before any page
    /// has been allocated.
    pub fn read_header(&mut self) -> (r: Result<Vec<u8>, ChiError>)
        requires
            old(self).wf(),
        ensures
            final(self).wf(),
            final(self).file_bytes() == old(self).file_bytes(),
            final(self).num_pages() == old(self).num_pages(),
            match r {
                Ok(h) => h@ == header_image(old(self).file_bytes()),
                Err(_) => false,
            },
    {
        let mut out: Vec<u8> = Vec::new();
        let mut i: usize = 0;
        while i < HEADER_SIZE
            invariant
                i <= HEADER_SIZE,
                out@.len() == i,
                forall|j: int| 0 <= j < i ==> out@[j] == file_byte(self.file@, j),
                self == old(self),
            decreases HEADER_SIZE - i,
        {
            if i < self.file.len() {
                out.push(self.file[i]);
            } else {
                out.push(0);
            }
            i = i + 1;
        }
        proof {
            assert(out@ =~= header_image(self.file@));
        }
        Ok(out)
    }

    /// Overwrite the `HEADER_SIZE` leading bytes of the file, extending the
    /// file when it is shorter than a header.
    pub fn write_header(&mut self, header: &[u8]) -> (r: Result<(), ChiError>)
        requires
            old(self).wf(),
            header@.len() == HEADER_SIZE,
        ensures
            final(self).wf(),
            final(self).num_pages() == old(self).num_pages(),
            match r {
                Ok(()) => final(self).file_bytes() == write_at(old(self).file_bytes(), 0, header@),
                Err(_) => false,
            },
    {
        self.write_bytes_at(0, header);
        Ok(())
    }

    /// Read page `n_page` as a detached in-memory copy; bytes the file does
    /// not hold yet read as zero.  Page numbers outside `1..=num_pages` are
    /// refused, never clamped.
    pub fn read_page(&mut self, n_page: u32) -> (r: Result<MemPage, ChiError>)
        requires
            old(self).wf(),
        ensures
            final(self).wf(),
            final(self).file_bytes() == old(self).file_bytes(),
            final(self).num_pages() == old(self).num_pages(),
            match r {
                Ok(page) => {
                    &&& 1 <= n_page <= old(self).num_pages()
                    &&& page.wf()
                    &&& page.n_page == n_page
                    &&& page.offset == page_offset(n_page as int)
                    &&& page@ == page_image(old(self).file_bytes(), n_page as int)
                },
                Err(e) => {
                    &&& e == ChiError::EPageNo
                    &&& (n_page == 0 || n_page > old(self).num_pages())
                },
            },
    {
        if n_page == 0 || n_page > self.total_pages {
            return Err(ChiError::EPageNo);
        }
        let start = ((n_page - 1) as usize) * PAGE_SIZE;
        let mut data: Vec<u8> = Vec::new();
        let mut i: usize = 0;
        while i < PAGE_SIZE
            invariant
                i <= PAGE_SIZE,
                data@.len() == i,
                1 <= n_page <= MAX_PAGES,
                start == (n_page - 1) as int * PAGE_SIZE as int,
                forall|j: int| 0 <= j < i ==> data@[j] == file_byte(self.file@, start + j),
                self == old(self),
            decreases PAGE_SIZE - i,
        {
            let src = start + i;
            if src < self.file.len() {
                data.push(self.file[src]);
            } else {
                data.push(0);
            }
            i = i + 1;
        }
        let offset: u16 = if n_page == 1 {
            HEADER_SIZE as u16
        } else {
            0
        };
        proof {
            assert(data@ =~= page_image(self.file@, n_page as int));
        }
        Ok(MemPage::new(n_page, data, offset))
    }

    /// Write a page copy back to the file, the full buffer at the page's
    /// byte offset, extending the file (zero-filled) as far as needed.  The
    /// same page numbers are refused as on the read path.
    pub fn write_page(&mut self, page: &MemPage) -> (r: Result<(), ChiError>)
        requires
            old(self).wf(),
            page.wf(),
        ensures
            final(self).wf(),
            final(self).num_pages() == old(self).num_pages(),
            match r {
                Ok(()) => {
                    &&& 1 <= page.n_page <= old(self).num_pages()
                    &&& final(self).file_bytes() == write_at(
                        old(self).file_bytes(),
                        page_start(page.n_page as int),
                        page@,
                    )
                },
                Err(e) => {
                    &&& e == ChiError::EPageNo
                    &&& (page.n_page == 0 || page.n_page > old(self).num_pages())
                    &&& final(self).file_bytes() == old(self).file_bytes()
                },
            },
    {
        if page.n_page == 0 || page.n_page > self.total_pages {
            return Err(ChiError::EPageNo);
        }
        let start = ((page.n_page - 1) as usize) * PAGE_SIZE;
        assert(start + PAGE_SIZE <= MAX_FILE_BYTES);
        self.write_bytes_at(start, page.raw());
        Ok(())
    }

    /// Overwrite `data.len()` bytes at byte position `start`, extending the
    /// file with zeros first when it is shorter than `start + data.len()`.
    fn write_bytes_at(&mut self, start: usize, data: &[u8])
        requires
            old(self).wf(),
            start + data@.len() <= MAX_FILE_BYTES,
        ensures
            final(self).wf(),
            final(self).num_pages() == old(self).num_pages(),
            final(self).file_bytes() == write_at(old(self).file_bytes(), start as int, data@),
    {
        let end = start + data.len();
        let ghost orig = self.file@;
        let ghost tp = self.total_pages;
        proof {
            assert(self.file@.take(orig.len() as int) =~= orig);
        }
        while self.file.len() < end
            invariant
                end == start + data@.len(),
                end <= MAX_FILE_BYTES,
                self.total_pages == tp,
                orig.len() <= self.file@.len(),
                self.file@.len() <= if orig.len() > end {
                    orig.len() as int
                } else {
                    end as int
                },
                self.file@.take(orig.len() as int) == orig,
                forall|j: int| orig.len() <= j < self.file@.len() ==> self.file@[j] == 0u8,
            decreases end - self.file@.len(),
        {
            self.file.push(0);
            proof {
                assert(self.file@.take(orig.len() as int) =~= orig);
            }
        }
        let mut i: usize = 0;
        let ghost grown = self.file@;
        while i < data.len()
            invariant
                i <= data@.len(),
                end == start + data@.len(),
                end <= grown.len(),
                self.total_pages == tp,
                self.file@.len() == grown.len(),
                forall|j: int| 0 <= j < i ==> self.file@[start + j] == data@[j],
                forall|j: int|
                    0 <= j < self.file@.len() && !(start <= j < start + i) ==> self.file@[j]
                        == grown[j],
            decreases data@.len() - i,
        {
            self.file.set(start + i, *slice_index_get(data, i));
            i = i + 1;
        }
        proof {
            let w = write_at(orig, start as int, data@);
            assert forall|j: int| 0 <= j < self.file@.len() implies self.file@[j] == w[j] by {
                if start <= j < end {
                    assert(self.file@[start + (j - start)] == data@[j - start]);
                } else {
                    assert(self.file@[j] == grown[j]);
                    if j < orig.len() {
                        assert(grown.take(orig.len() as int)[j] == grown[j]);
                    }
                }
            }
            assert(self.file@ =~= w);
        }
    }
}

} // verus!
