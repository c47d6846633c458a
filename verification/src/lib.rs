//! A paged file storage engine for a SQLite-style on-disk B-Tree format.
//!
//! The file is an ordered run of fixed-size pages; page 1 opens with a
//! 100-byte header carrying a magic string and bookkeeping counters, and any
//! page may hold a B-Tree node: a small fixed header followed by a
//! cell-offset array and a cell area.  The engine here works on an in-memory
//! image of the file's bytes; reading the image from disk and writing it back
//! is left to a thin unverified shell around this crate.

use vstd::prelude::*;

pub mod header;
pub mod node;
pub mod pager;

pub use header::BTreeHeader;
pub use header::MAGIC_BYTES_SIZE;
pub use header::PAGE_CACHE_SIZE_INITIAL;
pub use node::BTreeNode;
pub use node::BTreeNodeType;
pub use node::PAGE_HEADER_SIZE;
pub use pager::HEADER_SIZE;
pub use pager::MemPage;
pub use pager::Pager;
pub use pager::MAX_FILE_BYTES;
pub use pager::MAX_PAGES;
pub use pager::PAGE_SIZE;

verus! {

/// Declares `std::io::ErrorKind` to the verifier, as an opaque value, so
/// that the error surface can carry the OS error kind verbatim.  Nothing is
/// assumed about it.
#[verifier::external_type_specification]
#[verifier::external_body]
pub struct ExIoErrorKind(std::io::ErrorKind);

/// The error surface of the engine.
#[derive(Debug, Clone, Copy, PartialEq, Eq)]
pub enum ChiError {
    /// The page has an incorrect page number
    EPageNo,
    /// The buffer is too short to hold a file header
    NoHeader,
    /// Database file contains an invalid header
    Ecorruptheader,
    /// Could not allocate memory
    Enomem,
    /// A node's type byte matches none of the defined node kinds
    UnrecognizedNodeType,
    /// An I/O error, reported by the shell that touches the disk
    IO(std::io::ErrorKind),
}

impl ChiError {
    /// A short description of the error, one fixed line per kind.
    pub fn message(&self) -> (r: &'static str)
        ensures
            match self {
                ChiError::EPageNo => r@ == "page has an incorrect page number"@,
                ChiError::NoHeader => r@ == "file does not have a header"@,
                ChiError::Ecorruptheader => r@ == "invalid database header"@,
                ChiError::Enomem => r@ == "could not allocate memory"@,
                ChiError::UnrecognizedNodeType => r@ == "unrecognized node type byte"@,
                ChiError::IO(_) => r@ == "an i/o error occurred"@,
            },
    {
        match self {
            ChiError::EPageNo => "page has an incorrect page number",
            ChiError::NoHeader => "file does not have a header",
            ChiError::Ecorruptheader => "invalid database header",
            ChiError::Enomem => "could not allocate memory",
            ChiError::UnrecognizedNodeType => "unrecognized node type byte",
            ChiError::IO(_) => "an i/o error occurred",
        }
    }
}

/// The header bytes a freshly created file starts with: the default header,
/// encoded.
pub open spec fn spec_fresh_header_bytes() -> Seq<u8> {
    header::spec_header_bytes_of(
        header::spec_magic(),
        PAGE_SIZE as u16,
        0,
        0,
        PAGE_CACHE_SIZE_INITIAL,
        0,
    )
}

/// The bytes of page `n_page` after an empty node of kind `typ` is
/// initialized on it: the page's leading bytes (the file header, on page 1)
/// kept, then the initial node header, then a zeroed region.
pub open spec fn fresh_page_image(file: Seq<u8>, n_page: int, typ: BTreeNodeType) -> Seq<u8> {
    pager::page_image(file, n_page).take(pager::page_offset(n_page) as int)
        + node::spec_node_header_bytes(typ, 0, 0, PAGE_SIZE as u16, 0) + pager::zero_seq(
        (PAGE_SIZE - pager::page_offset(n_page) - PAGE_HEADER_SIZE) as nat,
    )
}

/// The whole file as `open` leaves it for a path that did not exist yet:
/// the default header, then an empty table-leaf node on page 1.
pub open spec fn spec_fresh_file() -> Seq<u8> {
    spec_fresh_header_bytes() + node::spec_node_header_bytes(
        BTreeNodeType::LeafTable,
        0,
        0,
        PAGE_SIZE as u16,
        0,
    ) + pager::zero_seq((PAGE_SIZE - HEADER_SIZE - PAGE_HEADER_SIZE) as nat)
}

/// The B-Tree file façade: opens and validates (or initializes) the file,
/// and mediates node creation, loading and writeback through its pager.
pub struct BTree {
    pager: Pager,
}

impl BTree {
    /// The bytes of the file image this tree works on.
    pub closed spec fn file_bytes(&self) -> Seq<u8> {
        self.pager.file_bytes()
    }

    /// How many pages the file holds or has reserved.
    pub closed spec fn num_pages(&self) -> u32 {
        self.pager.num_pages()
    }

    /// The tree is well formed when its pager is.
    pub closed spec fn wf(&self) -> bool {
        self.pager.wf()
    }

    /// Open a B-Tree file image.
    ///
    /// An empty image (a file that did not exist yet) is initialized: the
    /// default header is written and an empty table-leaf node is created on
    /// page 1.  A nonempty image must carry the magic string at its start;
    /// any other content there, whatever the file's length, means a corrupt
    /// header and the file is refused.
    pub fn open(contents: Vec<u8>) -> (r: Result<BTree, ChiError>)
        requires
            contents@.len() <= MAX_FILE_BYTES,
        ensures
            match r {
                Ok(bt) => {
                    &&& bt.wf()
                    &&& if contents@.len() == 0 {
                        bt.file_bytes() == spec_fresh_file() && bt.num_pages() == 1
                    } else {
                        &&& pager::header_image(contents@).take(MAGIC_BYTES_SIZE as int)
                            == header::spec_magic()
                        &&& bt.file_bytes() == contents@
                        &&& bt.num_pages() as int == pager::pages_covering(contents@.len() as int)
                    }
                },
                Err(e) => {
                    &&& e == ChiError::Ecorruptheader
                    &&& contents@.len() != 0
                    &&& pager::header_image(contents@).take(MAGIC_BYTES_SIZE as int)
                        != header::spec_magic()
                },
            },
    {
        let pager = Pager::open(contents);
        if pager.is_empty() {
            let mut btree = BTree { pager };
            match btree.initialize_header() {
                Ok(()) => {},
                Err(e) => {
                    return Err(e);
                },
            }
            match btree.initialize_empty_table_leaf() {
                Ok(()) => {},
                Err(e) => {
                    return Err(e);
                },
            }
            proof {
                lemma_fresh_file_layout();
                assert(btree.file_bytes() =~= spec_fresh_file());
            }
            Ok(btree)
        } else {
            let mut btree = BTree { pager };
            match btree.validate_header() {
                Ok(()) => Ok(btree),
                Err(e) => Err(e),
            }
        }
    }

    /// Load the node stored on page `n_page` as a detached in-memory copy;
    /// changes to it reach the file only through `write_node`.
    pub fn get_node_by_page(&mut self, n_page: u32) -> (r: Result<BTreeNode, ChiError>)
        requires
            old(self).wf(),
        ensures
            final(self).wf(),
            final(self).file_bytes() == old(self).file_bytes(),
            final(self).num_pages() == old(self).num_pages(),
            match r {
                Ok(node) => {
                    &&& 1 <= n_page <= old(self).num_pages()
                    &&& node.wf()
                    &&& node.page.n_page == n_page
                    &&& node.page.offset == pager::page_offset(n_page as int)
                    &&& node.page@ == pager::page_image(old(self).file_bytes(), n_page as int)
                    &&& {
                        let region_at = pager::page_offset(n_page as int) as int;
                        let image = pager::page_image(old(self).file_bytes(), n_page as int);
                        &&& node::valid_type_byte(image[region_at])
                        &&& node.typ.spec_value() == image[region_at]
                        &&& node.free_offset == vstd::bytes::spec_u16_from_le_bytes(
                            image.subrange(region_at + 1, region_at + 3),
                        )
                        &&& node.n_cells == vstd::bytes::spec_u16_from_le_bytes(
                            image.subrange(region_at + 3, region_at + 5),
                        )
                        &&& node.cells_offset == vstd::bytes::spec_u16_from_le_bytes(
                            image.subrange(region_at + 5, region_at + 7),
                        )
                        &&& node.right_page == vstd::bytes::spec_u16_from_le_bytes(
                            image.subrange(region_at + 7, region_at + 9),
                        )
                        &&& node.celloffset_array == PAGE_HEADER_SIZE
                    }
                },
                Err(e) => {
                    ||| {
                        &&& e == ChiError::EPageNo
                        &&& (n_page == 0 || n_page > old(self).num_pages())
                    }
                    ||| {
                        &&& e == ChiError::UnrecognizedNodeType
                        &&& 1 <= n_page <= old(self).num_pages()
                        &&& !node::valid_type_byte(
                            pager::page_image(old(self).file_bytes(), n_page as int)[pager::page_offset(n_page as int) as int],
                        )
                    }
                },
            },
    {
        let page = match self.pager.read_page(n_page) {
            Ok(p) => p,
            Err(e) => {
                return Err(e);
            },
        };
        assert(page.offset + PAGE_HEADER_SIZE <= PAGE_SIZE);
        BTreeNode::load_from_page(page)
    }

    /// Allocate a fresh page and initialize it as an empty node of kind
    /// `typ`.  The new node always lands on a page number never used
    /// before.
    pub fn new_node(&mut self, typ: BTreeNodeType) -> (r: Result<BTreeNode, ChiError>)
        requires
            old(self).wf(),
            old(self).num_pages() < MAX_PAGES,
        ensures
            final(self).wf(),
            final(self).num_pages() == old(self).num_pages() + 1,
            match r {
                Ok(node) => {
                    &&& node.wf()
                    &&& node.page.n_page == old(self).num_pages() + 1
                    &&& node.page.offset == pager::page_offset(node.page.n_page as int)
                    &&& node.typ == typ
                    &&& node.free_offset == 0
                    &&& node.n_cells == 0
                    &&& node.cells_offset == PAGE_SIZE as u16
                    &&& node.right_page == 0
                    &&& node.celloffset_array == PAGE_HEADER_SIZE
                    &&& node.page@ == fresh_page_image(
                        old(self).file_bytes(),
                        node.page.n_page as int,
                        typ,
                    )
                    &&& final(self).file_bytes() == pager::write_at(
                        old(self).file_bytes(),
                        pager::page_start(node.page.n_page as int),
                        node.page@,
                    )
                },
                Err(_) => false,
            },
    {
        let n_page = self.pager.allocate_page();
        let page = match self.pager.read_page(n_page) {
            Ok(p) => p,
            Err(e) => {
                proof {
                    assert(false);
                }
                return Err(e);
            },
        };
        let node = match BTreeNode::create(page, typ) {
            Ok(n) => n,
            Err(e) => {
                proof {
                    assert(false);
                }
                return Err(e);
            },
        };
        match self.pager.write_page(&node.page) {
            Ok(()) => {},
            Err(e) => {
                proof {
                    assert(false);
                }
                return Err(e);
            },
        }
        Ok(node)
    }

    /// Write an in-memory node back to the file: re-serialize exactly the
    /// scalar header fields into the page region (cell bytes, mutated
    /// directly on the page, are carried along unchanged) and write the
    /// whole page out.  Writing the node on page 1 never alters the file
    /// header bytes, which the page copy carries in front of its region.
    pub fn write_node(&mut self, node: &mut BTreeNode) -> (r: Result<(), ChiError>)
        requires
            old(self).wf(),
            old(node).wf(),
        ensures
            final(self).wf(),
            final(self).num_pages() == old(self).num_pages(),
            final(node).wf(),
            final(node).typ == old(node).typ,
            final(node).free_offset == old(node).free_offset,
            final(node).n_cells == old(node).n_cells,
            final(node).cells_offset == old(node).cells_offset,
            final(node).right_page == old(node).right_page,
            final(node).celloffset_array == old(node).celloffset_array,
            final(node).page.n_page == old(node).page.n_page,
            final(node).page.offset == old(node).page.offset,
            final(node).page@ == old(node).page@.take(old(node).page.offset as int) + old(
                node,
            ).spec_header_bytes() + old(node).page@.skip(
                old(node).page.offset + PAGE_HEADER_SIZE,
            ),
            match r {
                Ok(()) => {
                    &&& 1 <= old(node).page.n_page <= old(self).num_pages()
                    &&& final(self).file_bytes() == pager::write_at(
                        old(self).file_bytes(),
                        pager::page_start(old(node).page.n_page as int),
                        final(node).page@,
                    )
                },
                Err(e) => {
                    &&& e == ChiError::EPageNo
                    &&& (old(node).page.n_page == 0 || old(node).page.n_page > old(
                        self,
                    ).num_pages())
                    &&& final(self).file_bytes() == old(self).file_bytes()
                },
            },
            (r is Ok && old(node).page.n_page == 1 && old(node).page.offset == HEADER_SIZE as u16
                && old(node).page@.take(HEADER_SIZE as int) == pager::header_image(
                old(self).file_bytes(),
            )) ==> pager::header_image(final(self).file_bytes()) == pager::header_image(
                old(self).file_bytes(),
            ),
    {
        proof {
            vstd::bytes::lemma_auto_spec_u16_to_from_le_bytes();
        }
        let type_byte = node.typ.value();
        node.page.write_rel_u8(0, type_byte);
        node.page.write_rel_u16(1, node.free_offset);
        node.page.write_rel_u16(3, node.n_cells);
        node.page.write_rel_u16(5, node.cells_offset);
        node.page.write_rel_u16(7, node.right_page);
        proof {
            assert(node.page@ =~= old(node).page@.take(old(node).page.offset as int) + old(
                node,
            ).spec_header_bytes() + old(node).page@.skip(
                old(node).page.offset + PAGE_HEADER_SIZE,
            ));
        }
        let result = self.pager.write_page(&node.page);
        proof {
            if result is Ok && node.page.n_page == 1 && node.page.offset == HEADER_SIZE as u16
                && old(node).page@.take(HEADER_SIZE as int) == pager::header_image(
                old(self).file_bytes(),
            ) {
                assert(pager::header_image(self.file_bytes()) =~= pager::header_image(
                    old(self).file_bytes(),
                ));
            }
        }
        result
    }

    /// The full file image, for the shell that persists it to disk.
    pub fn contents(&self) -> (r: &Vec<u8>)
        ensures
            r@ == self.file_bytes(),
    {
        self.pager.contents()
    }

    /// How many pages the file holds or has reserved.
    pub fn page_count(&self) -> (r: u32)
        ensures
            r == self.num_pages(),
    {
        self.pager.page_count()
    }

    fn validate_header(&mut self) -> (r: Result<(), ChiError>)
        requires
            old(self).wf(),
        ensures
            final(self).wf(),
            final(self).file_bytes() == old(self).file_bytes(),
            final(self).num_pages() == old(self).num_pages(),
            match r {
                Ok(()) => pager::header_image(old(self).file_bytes()).take(MAGIC_BYTES_SIZE as int)
                    == header::spec_magic(),
                Err(e) => {
                    &&& e == ChiError::Ecorruptheader
                    &&& pager::header_image(old(self).file_bytes()).take(MAGIC_BYTES_SIZE as int)
                        != header::spec_magic()
                },
            },
    {
        let header = match self.read_header() {
            Ok(h) => h,
            Err(e) => {
                proof {
                    assert(false);
                }
                return Err(e);
            },
        };
        let magic = header::magic_bytes_vec();
        if bytes_equal(header.magic_bytes.as_slice(), magic.as_slice()) {
            Ok(())
        } else {
            Err(ChiError::Ecorruptheader)
        }
    }

    fn initialize_empty_table_leaf(&mut self) -> (r: Result<(), ChiError>)
        requires
            old(self).wf(),
            old(self).num_pages() < MAX_PAGES,
        ensures
            final(self).wf(),
            final(self).num_pages() == old(self).num_pages() + 1,
            match r {
                Ok(()) => final(self).file_bytes() == pager::write_at(
                    old(self).file_bytes(),
                    pager::page_start(old(self).num_pages() + 1),
                    fresh_page_image(
                        old(self).file_bytes(),
                        old(self).num_pages() + 1,
                        BTreeNodeType::LeafTable,
                    ),
                ),
                Err(_) => false,
            },
    {
        let n_page = self.pager.allocate_page();
        let page = match self.pager.read_page(n_page) {
            Ok(p) => p,
            Err(e) => {
                proof {
                    assert(false);
                }
                return Err(e);
            },
        };
        let node = match BTreeNode::create(page, BTreeNodeType::LeafTable) {
            Ok(n) => n,
            Err(e) => {
                proof {
                    assert(false);
                }
                return Err(e);
            },
        };
        match self.pager.write_page(&node.page) {
            Ok(()) => {},
            Err(e) => {
                proof {
                    assert(false);
                }
                return Err(e);
            },
        }
        Ok(())
    }

    fn initialize_header(&mut self) -> (r: Result<(), ChiError>)
        requires
            old(self).wf(),
        ensures
            final(self).wf(),
            final(self).num_pages() == old(self).num_pages(),
            match r {
                Ok(()) => final(self).file_bytes() == pager::write_at(
                    old(self).file_bytes(),
                    0,
                    spec_fresh_header_bytes(),
                ),
                Err(_) => false,
            },
    {
        let header = BTreeHeader::default();
        let bytes = header.to_bytes();
        match self.pager.write_header(bytes.as_slice()) {
            Ok(()) => Ok(()),
            Err(e) => {
                proof {
                    assert(false);
                }
                Err(e)
            },
        }
    }

    fn read_header(&mut self) -> (r: Result<BTreeHeader, ChiError>)
        requires
            old(self).wf(),
        ensures
            final(self).wf(),
            final(self).file_bytes() == old(self).file_bytes(),
            final(self).num_pages() == old(self).num_pages(),
            match r {
                Ok(h) => {
                    let image = pager::header_image(old(self).file_bytes());
                    &&& h.wf()
                    &&& h.magic_bytes@ == image.take(MAGIC_BYTES_SIZE as int)
                    &&& h.page_size == vstd::bytes::spec_u16_from_le_bytes(
                        image.subrange(15, 17),
                    )
                    &&& h.file_change_counter == vstd::bytes::spec_u32_from_le_bytes(
                        image.subrange(17, 21),
                    )
                    &&& h.schema_version == vstd::bytes::spec_u32_from_le_bytes(
                        image.subrange(21, 25),
                    )
                    &&& h.page_cache_size == vstd::bytes::spec_u32_from_le_bytes(
                        image.subrange(25, 29),
                    )
                    &&& h.user_cookie == vstd::bytes::spec_u32_from_le_bytes(
                        image.subrange(29, 33),
                    )
                },
                Err(_) => false,
            },
    {
        let header_bytes = match self.pager.read_header() {
            Ok(b) => b,
            Err(e) => {
                proof {
                    assert(false);
                }
                return Err(e);
            },
        };
        match BTreeHeader::from_bytes(header_bytes.as_slice()) {
            Ok(h) => Ok(h),
            Err(e) => {
                proof {
                    assert(false);
                }
                Err(e)
            },
        }
    }
}

/// True iff two byte slices hold the same bytes.
fn bytes_equal(a: &[u8], b: &[u8]) -> (r: bool)
    ensures
        r == (a@ == b@),
{
    if a.len() != b.len() {
        proof {
            assert(a@ != b@);
        }
        return false;
    }
    let mut i: usize = 0;
    while i < a.len()
        invariant
            i <= a@.len(),
            a@.len() == b@.len(),
            forall|j: int| 0 <= j < i ==> a@[j] == b@[j],
        decreases a@.len() - i,
    {
        if *vstd::slice::slice_index_get(a, i) != *vstd::slice::slice_index_get(b, i) {
            proof {
                assert(a@[i as int] != b@[i as int]);
            }
            return false;
        }
        i = i + 1;
    }
    proof {
        assert(a@ =~= b@);
    }
    true
}

/// Layout of the file `open` builds for a fresh path: it is exactly one
/// page long, its header region is the default header (so its magic
/// validates, and reopening the file succeeds without modifying it), and
/// page 1 decodes as an empty table-leaf node.
pub proof fn lemma_fresh_file_layout()
    ensures
        spec_fresh_file().len() == PAGE_SIZE,
        pager::header_image(spec_fresh_file()) == spec_fresh_header_bytes(),
        pager::header_image(spec_fresh_file()).take(MAGIC_BYTES_SIZE as int)
            == header::spec_magic(),
        pager::page_image(spec_fresh_file(), 1).subrange(
            HEADER_SIZE as int,
            HEADER_SIZE + PAGE_HEADER_SIZE,
        ) == node::spec_node_header_bytes(BTreeNodeType::LeafTable, 0, 0, PAGE_SIZE as u16, 0),
{
    vstd::bytes::lemma_auto_spec_u16_to_from_le_bytes();
    vstd::bytes::lemma_auto_spec_u32_to_from_le_bytes();
    assert(spec_fresh_header_bytes().len() == HEADER_SIZE);
    assert(spec_fresh_file().len() == PAGE_SIZE);
    assert(pager::header_image(spec_fresh_file()) =~= spec_fresh_header_bytes());
    assert(pager::header_image(spec_fresh_file()).take(MAGIC_BYTES_SIZE as int)
        =~= header::spec_magic());
    assert(pager::page_image(spec_fresh_file(), 1).subrange(
        HEADER_SIZE as int,
        HEADER_SIZE + PAGE_HEADER_SIZE,
    ) =~= node::spec_node_header_bytes(BTreeNodeType::LeafTable, 0, 0, PAGE_SIZE as u16, 0));
}

} // verus!
