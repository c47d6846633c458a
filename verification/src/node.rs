//! B-Tree nodes: the four node kinds, the fixed node header codec, and the
//! in-memory decoded view of a page's node.
//!
//! A node lives in the region of its page that starts at the page's
//! `offset`.  Its fixed header is `PAGE_HEADER_SIZE` bytes: the type byte,
//! then `free_offset`, `n_cells`, `cells_offset` and `right_page` as
//! little-endian `u16` fields; the cell-offset array follows immediately.
//! Cell bytes are left opaque here: collaborators mutate them directly on
//! the page, and only the scalar header fields are cached off-page.

use vstd::bytes::*;
use vstd::prelude::*;

use crate::pager::zero_seq;
use crate::pager::MemPage;
use crate::pager::PAGE_SIZE;
use crate::ChiError;

verus! {

/// Size in bytes of the fixed node header at the start of a node region;
/// the cell-offset array begins right after it.
pub const PAGE_HEADER_SIZE: u8 = 9;

/// The four node kinds of the format.  Any other type byte marks a corrupt
/// or foreign file and is rejected, never defaulted.
#[derive(Debug, PartialEq, Eq, Structural, Clone, Copy)]
pub enum BTreeNodeType {
    InternalTable,
    LeafTable,
    InternalIndex,
    LeafIndex,
}

/// True iff `b` is the type byte of one of the four node kinds.
pub open spec fn valid_type_byte(b: u8) -> bool {
    b == 0x05 || b == 0x0D || b == 0x02 || b == 0x0A
}

impl BTreeNodeType {
    /// The type byte this kind is stored as; the values are fixed by the
    /// format and not reassignable.
    pub open spec fn spec_value(self) -> u8 {
        match self {
            BTreeNodeType::InternalTable => 0x05,
            BTreeNodeType::LeafTable => 0x0D,
            BTreeNodeType::InternalIndex => 0x02,
            BTreeNodeType::LeafIndex => 0x0A,
        }
    }

    /// The type byte this kind is stored as.
    pub fn value(&self) -> (r: u8)
        ensures
            r == self.spec_value(),
            valid_type_byte(r),
    {
        match self {
            BTreeNodeType::InternalTable => 0x05,
            BTreeNodeType::LeafTable => 0x0D,
            BTreeNodeType::InternalIndex => 0x02,
            BTreeNodeType::LeafIndex => 0x0A,
        }
    }

    /// Decode a type byte; a byte that matches none of the defined kinds is
    /// conclusive evidence of corruption and is reported, never defaulted.
    pub fn from_byte(b: u8) -> (r: Result<BTreeNodeType, ChiError>)
        ensures
            match r {
                Ok(t) => valid_type_byte(b) && t.spec_value() == b,
                Err(e) => e == ChiError::UnrecognizedNodeType && !valid_type_byte(b),
            },
    {
        match b {
            0x05 => Ok(BTreeNodeType::InternalTable),
            0x0D => Ok(BTreeNodeType::LeafTable),
            0x02 => Ok(BTreeNodeType::InternalIndex),
            0x0A => Ok(BTreeNodeType::LeafIndex),
            _ => Err(ChiError::UnrecognizedNodeType),
        }
    }
}

/// The `PAGE_HEADER_SIZE` bytes that encode a node's scalar header fields.
pub open spec fn spec_node_header_bytes(
    typ: BTreeNodeType,
    free_offset: u16,
    n_cells: u16,
    cells_offset: u16,
    right_page: u16,
) -> Seq<u8> {
    seq![typ.spec_value()] + spec_u16_to_le_bytes(free_offset) + spec_u16_to_le_bytes(n_cells)
        + spec_u16_to_le_bytes(cells_offset) + spec_u16_to_le_bytes(right_page)
}

/// An in-memory decoded view of one page's node.  The scalar header fields
/// here are copies of what the page region holds; mutate them freely, the
/// page and the file learn of the change only through an explicit
/// `write_node`.  The cell-offset array and the cells are read and written
/// directly on the page.
pub struct BTreeNode {
    /// In-memory page returned by the Pager
    pub page: MemPage,
    /// The node kind
    pub typ: BTreeNodeType,
    /// Byte offset (within the node region) where free space starts; must
    /// be kept up to date every time the cell offset array grows
    pub free_offset: u16,
    /// Number of cells stored in this node
    pub n_cells: u16,
    /// Byte offset where the cell area starts; `PAGE_SIZE` when the node
    /// holds no cells, and must be kept up to date every time a cell is
    /// added
    pub cells_offset: u16,
    /// Right-sibling page (internal nodes only); 0 for leaves
    pub right_page: u16,
    /// Offset of the start of the cell-offset array within the node region,
    /// immediately after the fixed node header
    pub celloffset_array: u8,
}

impl BTreeNode {
    /// A node is well formed when its page is, and the page region is large
    /// enough for the fixed node header.
    pub open spec fn wf(&self) -> bool {
        &&& self.page.wf()
        &&& self.page.offset + PAGE_HEADER_SIZE <= PAGE_SIZE
    }

    /// The encoding of this node's current scalar header fields.
    pub open spec fn spec_header_bytes(&self) -> Seq<u8> {
        spec_node_header_bytes(
            self.typ,
            self.free_offset,
            self.n_cells,
            self.cells_offset,
            self.right_page,
        )
    }

    /// Runtime check of well-formedness, for unverified callers that must
    /// establish it before handing a node back to the engine.
    pub fn is_well_formed(&self) -> (r: bool)
        ensures
            r == self.wf(),
    {
        self.page.data.len() == PAGE_SIZE && (self.page.offset as usize) + (PAGE_HEADER_SIZE
            as usize) <= PAGE_SIZE
    }

    /// A detached node over `page` with the initial field values of an
    /// empty node; nothing is written to the page.
    pub fn new(page: MemPage, typ: BTreeNodeType) -> (r: BTreeNode)
        ensures
            r.page == page,
            r.typ == typ,
            r.free_offset == 0,
            r.n_cells == 0,
            r.cells_offset == PAGE_SIZE as u16,
            r.right_page == 0,
            r.celloffset_array == 0,
    {
        BTreeNode {
            page,
            typ,
            free_offset: 0,
            n_cells: 0,
            cells_offset: PAGE_SIZE as u16,
            right_page: 0,
            celloffset_array: 0,
        }
    }

    /// Initialize an empty node of kind `typ` on a freshly allocated page:
    /// write the initial node header into the page region and zero the rest
    /// of the region.  A page region too small for the fixed header is a
    /// defensive failure that cannot arise for pager-produced pages.
    pub fn create(page: MemPage, typ: BTreeNodeType) -> (r: Result<BTreeNode, ChiError>)
        requires
            page.wf(),
        ensures
            match r {
                Ok(node) => {
                    &&& page.offset + PAGE_HEADER_SIZE <= PAGE_SIZE
                    &&& node.wf()
                    &&& node.typ == typ
                    &&& node.free_offset == 0
                    &&& node.n_cells == 0
                    &&& node.cells_offset == PAGE_SIZE as u16
                    &&& node.right_page == 0
                    &&& node.celloffset_array == PAGE_HEADER_SIZE
                    &&& node.page.n_page == page.n_page
                    &&& node.page.offset == page.offset
                    &&& node.page@ == page@.take(page.offset as int) + spec_node_header_bytes(
                        typ,
                        0,
                        0,
                        PAGE_SIZE as u16,
                        0,
                    ) + zero_seq((PAGE_SIZE - page.offset - PAGE_HEADER_SIZE) as nat)
                },
                Err(e) => {
                    &&& e == ChiError::Enomem
                    &&& page.offset + PAGE_HEADER_SIZE > PAGE_SIZE
                },
            },
    {
        proof {
            lemma_auto_spec_u16_to_from_le_bytes();
        }
        if PAGE_SIZE - (page.offset as usize) < PAGE_HEADER_SIZE as usize {
            return Err(ChiError::Enomem);
        }
        let mut node = BTreeNode::new(page, typ);
        node.celloffset_array = PAGE_HEADER_SIZE;

        let mut region: Vec<u8> = Vec::new();
        region.push(node.typ.value());
        let mut piece = u16_to_le_bytes(node.free_offset);
        region.append(&mut piece);
        let mut piece = u16_to_le_bytes(node.n_cells);
        region.append(&mut piece);
        let mut piece = u16_to_le_bytes(node.cells_offset);
        region.append(&mut piece);
        let mut piece = u16_to_le_bytes(node.right_page);
        region.append(&mut piece);
        let ghost prefix = region@;
        let target = PAGE_SIZE - (node.page.offset as usize);
        while region.len() < target
            invariant
                prefix.len() <= region@.len() <= target,
                prefix.len() <= target,
                region@.take(prefix.len() as int) == prefix,
                forall|j: int| prefix.len() <= j < region@.len() ==> region@[j] == 0u8,
            decreases target - region@.len(),
        {
            region.push(0);
            proof {
                assert(region@.take(prefix.len() as int) =~= prefix);
            }
        }
        node.page.set_data(region.as_slice());
        proof {
            assert(node.page@ =~= page@.take(page.offset as int) + spec_node_header_bytes(
                typ,
                0,
                0,
                PAGE_SIZE as u16,
                0,
            ) + zero_seq((PAGE_SIZE - page.offset - PAGE_HEADER_SIZE) as nat));
        }
        Ok(node)
    }

    /// Decode the fixed node header from the region of an existing page.
    /// An unrecognized type byte is a corrupt-format failure; a page region
    /// too small for the fixed header is the same defensive failure as in
    /// `create`.
    pub fn load_from_page(page: MemPage) -> (r: Result<BTreeNode, ChiError>)
        requires
            page.wf(),
        ensures
            match r {
                Ok(node) => {
                    &&& page.offset + PAGE_HEADER_SIZE <= PAGE_SIZE
                    &&& valid_type_byte(page@[page.offset as int])
                    &&& node.wf()
                    &&& node.typ.spec_value() == page@[page.offset as int]
                    &&& node.free_offset == spec_u16_from_le_bytes(
                        page@.subrange(page.offset + 1, page.offset + 3),
                    )
                    &&& node.n_cells == spec_u16_from_le_bytes(
                        page@.subrange(page.offset + 3, page.offset + 5),
                    )
                    &&& node.cells_offset == spec_u16_from_le_bytes(
                        page@.subrange(page.offset + 5, page.offset + 7),
                    )
                    &&& node.right_page == spec_u16_from_le_bytes(
                        page@.subrange(page.offset + 7, page.offset + 9),
                    )
                    &&& node.celloffset_array == PAGE_HEADER_SIZE
                    &&& node.page.n_page == page.n_page
                    &&& node.page.offset == page.offset
                    &&& node.page@ == page@
                },
                Err(e) => {
                    ||| {
                        &&& e == ChiError::Enomem
                        &&& page.offset + PAGE_HEADER_SIZE > PAGE_SIZE
                    }
                    ||| {
                        &&& e == ChiError::UnrecognizedNodeType
                        &&& page.offset + PAGE_HEADER_SIZE <= PAGE_SIZE
                        &&& !valid_type_byte(page@[page.offset as int])
                    }
                },
            },
    {
        if PAGE_SIZE - (page.offset as usize) < PAGE_HEADER_SIZE as usize {
            return Err(ChiError::Enomem);
        }
        let type_byte = page.read_rel_u8(0);
        let typ = match BTreeNodeType::from_byte(type_byte) {
            Ok(t) => t,
            Err(e) => {
                return Err(e);
            },
        };
        let free_offset = page.read_rel_u16(1);
        let n_cells = page.read_rel_u16(3);
        let cells_offset = page.read_rel_u16(5);
        let right_page = page.read_rel_u16(7);
        Ok(
            BTreeNode {
                page,
                typ,
                free_offset,
                n_cells,
                cells_offset,
                right_page,
                celloffset_array: PAGE_HEADER_SIZE,
            },
        )
    }
}

/// Round trip of the node header codec: decoding the encoding of any
/// combination of scalar header fields recovers the type byte and every
/// field value.
pub proof fn lemma_node_header_round_trip(
    typ: BTreeNodeType,
    free_offset: u16,
    n_cells: u16,
    cells_offset: u16,
    right_page: u16,
)
    ensures
        spec_node_header_bytes(typ, free_offset, n_cells, cells_offset, right_page).len()
            == PAGE_HEADER_SIZE,
        spec_node_header_bytes(typ, free_offset, n_cells, cells_offset, right_page)[0]
            == typ.spec_value(),
        valid_type_byte(typ.spec_value()),
        spec_u16_from_le_bytes(
            spec_node_header_bytes(typ, free_offset, n_cells, cells_offset, right_page).subrange(
                1,
                3,
            ),
        ) == free_offset,
        spec_u16_from_le_bytes(
            spec_node_header_bytes(typ, free_offset, n_cells, cells_offset, right_page).subrange(
                3,
                5,
            ),
        ) == n_cells,
        spec_u16_from_le_bytes(
            spec_node_header_bytes(typ, free_offset, n_cells, cells_offset, right_page).subrange(
                5,
                7,
            ),
        ) == cells_offset,
        spec_u16_from_le_bytes(
            spec_node_header_bytes(typ, free_offset, n_cells, cells_offset, right_page).subrange(
                7,
                9,
            ),
        ) == right_page,
{
    lemma_auto_spec_u16_to_from_le_bytes();
    let b = spec_node_header_bytes(typ, free_offset, n_cells, cells_offset, right_page);
    assert(b.subrange(1, 3) =~= spec_u16_to_le_bytes(free_offset));
    assert(b.subrange(3, 5) =~= spec_u16_to_le_bytes(n_cells));
    assert(b.subrange(5, 7) =~= spec_u16_to_le_bytes(cells_offset));
    assert(b.subrange(7, 9) =~= spec_u16_to_le_bytes(right_page));
}

/// Round trip of a node header embedded in a page: in any page whose node
/// region opens with the encoding of some scalar header fields (as `create`
/// and `write_node` leave it, with `prefix` the bytes before the region),
/// the decode positions that `load_from_page` reads yield exactly those
/// fields.
pub proof fn lemma_node_in_page_round_trip(
    prefix: Seq<u8>,
    suffix: Seq<u8>,
    typ: BTreeNodeType,
    free_offset: u16,
    n_cells: u16,
    cells_offset: u16,
    right_page: u16,
)
    ensures
        ({
            let page = prefix + spec_node_header_bytes(
                typ,
                free_offset,
                n_cells,
                cells_offset,
                right_page,
            ) + suffix;
            let at = prefix.len() as int;
            &&& page[at] == typ.spec_value()
            &&& spec_u16_from_le_bytes(page.subrange(at + 1, at + 3)) == free_offset
            &&& spec_u16_from_le_bytes(page.subrange(at + 3, at + 5)) == n_cells
            &&& spec_u16_from_le_bytes(page.subrange(at + 5, at + 7)) == cells_offset
            &&& spec_u16_from_le_bytes(page.subrange(at + 7, at + 9)) == right_page
        }),
{
    lemma_auto_spec_u16_to_from_le_bytes();
    lemma_node_header_round_trip(typ, free_offset, n_cells, cells_offset, right_page);
    let b = spec_node_header_bytes(typ, free_offset, n_cells, cells_offset, right_page);
    let page = prefix + b + suffix;
    let at = prefix.len() as int;
    assert(page.subrange(at + 1, at + 3) =~= b.subrange(1, 3));
    assert(page.subrange(at + 3, at + 5) =~= b.subrange(3, 5));
    assert(page.subrange(at + 5, at + 7) =~= b.subrange(5, 7));
    assert(page.subrange(at + 7, at + 9) =~= b.subrange(7, 9));
}

} // verus!
