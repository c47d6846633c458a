use chidb::BTree;
use chidb::BTreeNodeType;
use chidb::ChiError;
use chidb::HEADER_SIZE;
use chidb::PAGE_HEADER_SIZE;
use chidb::PAGE_SIZE;

#[test]
fn test_write_first_node_not_override_file_header() -> Result<(), ChiError> {
    let mut btree = BTree::open(Vec::new())?;
    let mut node = btree.get_node_by_page(1)?;
    node.free_offset += 1;
    btree.write_node(&mut node)?;

    let updated_node = btree.get_node_by_page(node.page.n_page)?;
    assert_eq!(
        updated_node.free_offset, node.free_offset,
        "Expected values updated after write first node"
    );

    Ok(())
}

#[test]
fn test_write_node() -> Result<(), ChiError> {
    let mut btree = BTree::open(Vec::new())?;
    let mut node = btree.new_node(BTreeNodeType::InternalTable)?;
    node.free_offset += 1;
    btree.write_node(&mut node)?;

    let updated_node = btree.get_node_by_page(node.page.n_page)?;
    assert_eq!(
        updated_node.free_offset, node.free_offset,
        "Expected values updated after write node"
    );

    Ok(())
}

#[test]
fn test_create_new_node() -> Result<(), ChiError> {
    let mut btree = BTree::open(Vec::new())?;
    let node = btree.new_node(BTreeNodeType::InternalTable)?;

    assert_eq!(node.page.n_page, 2);
    assert_eq!(node.typ, BTreeNodeType::InternalTable);
    assert_eq!(node.free_offset, 0);
    assert_eq!(node.n_cells, 0);
    assert_eq!(node.cells_offset, PAGE_SIZE as u16);
    assert_eq!(node.right_page, 0);
    assert_eq!(node.celloffset_array, PAGE_HEADER_SIZE);

    // Assert that we can read the node correctly
    let new_node = btree.get_node_by_page(node.page.n_page)?;
    assert_eq!(
        node.page.n_page, new_node.page.n_page,
        "Expected equals n_page"
    );
    assert_eq!(node.typ, new_node.typ, "Expect equal types");
    assert_eq!(
        node.free_offset, new_node.free_offset,
        "Expected equal free_offset"
    );
    assert_eq!(node.n_cells, new_node.n_cells, "Expetec equals n_cells");
    assert_eq!(
        node.cells_offset, new_node.cells_offset,
        "Expected equal cells_offset"
    );
    assert_eq!(
        node.right_page, new_node.right_page,
        "Expected equal righ_page"
    );
    assert_eq!(
        node.celloffset_array, new_node.celloffset_array,
        "Expected equal celloffset_array"
    );

    Ok(())
}

#[test]
fn test_first_node_page_leaf_table() -> Result<(), ChiError> {
    let mut btree = BTree::open(Vec::new())?;

    let node = btree.get_node_by_page(1)?;

    assert_eq!(node.page.n_page, 1);
    assert_eq!(node.typ, BTreeNodeType::LeafTable);

    Ok(())
}

#[test]
fn test_create_empty_btree() -> Result<(), ChiError> {
    let _ = BTree::open(Vec::new())?;

    Ok(())
}

#[test]
fn test_open_valid_btree() -> Result<(), ChiError> {
    // Assert create empty btree
    let btree = BTree::open(Vec::new())?;
    let saved = btree.contents().clone();

    // Assert open existed btree
    let _ = BTree::open(saved)?;

    Ok(())
}

#[test]
fn test_open_invalid_btree() -> Result<(), ChiError> {
    let invalid_header = vec![0u8; HEADER_SIZE];

    let result = BTree::open(invalid_header);
    assert_eq!(result.err(), Some(ChiError::Ecorruptheader));

    Ok(())
}

#[test]
fn open_rejects_garbage_of_any_length() {
    // Corruption is detected whatever the file's length: shorter than a
    // header, exactly a header, and a whole page of non-magic bytes.
    let result = BTree::open(vec![0xAAu8; 3]);
    assert_eq!(result.err(), Some(ChiError::Ecorruptheader));

    let result = BTree::open(vec![0u8; HEADER_SIZE]);
    assert_eq!(result.err(), Some(ChiError::Ecorruptheader));

    let result = BTree::open(vec![0xAAu8; PAGE_SIZE]);
    assert_eq!(result.err(), Some(ChiError::Ecorruptheader));
}

#[test]
fn reopen_preserves_header_and_layout() -> Result<(), ChiError> {
    let btree = BTree::open(Vec::new())?;
    let first = btree.contents().clone();

    let reopened = BTree::open(first.clone())?;
    assert_eq!(reopened.contents(), &first);
    assert_eq!(&first[0..15], b"SQLite format 3");

    Ok(())
}

#[test]
fn write_node_keeps_header_bytes() -> Result<(), ChiError> {
    let mut btree = BTree::open(Vec::new())?;
    let header_before = btree.contents()[0..HEADER_SIZE].to_vec();

    let mut node = btree.get_node_by_page(1)?;
    node.free_offset = 42;
    node.n_cells = 3;
    btree.write_node(&mut node)?;

    let header_after = &btree.contents()[0..HEADER_SIZE];
    assert_eq!(header_after, &header_before[..]);

    Ok(())
}

#[test]
fn get_node_by_page_checks_bounds() -> Result<(), ChiError> {
    let mut btree = BTree::open(Vec::new())?;

    let result = btree.get_node_by_page(0);
    assert_eq!(result.err(), Some(ChiError::EPageNo));

    let result = btree.get_node_by_page(2);
    assert_eq!(result.err(), Some(ChiError::EPageNo));

    Ok(())
}

#[test]
fn get_node_rejects_unrecognized_type_byte() -> Result<(), ChiError> {
    let btree = BTree::open(Vec::new())?;
    let mut corrupted = btree.contents().clone();
    // The node type byte of page 1 sits right after the file header.
    corrupted[HEADER_SIZE] = 0x99;

    let mut reopened = BTree::open(corrupted)?;
    let result = reopened.get_node_by_page(1);
    assert_eq!(result.err(), Some(ChiError::UnrecognizedNodeType));

    Ok(())
}

#[test]
fn scenario_fresh_file_and_two_nodes() -> Result<(), ChiError> {
    // Open a fresh path: the file must hold the header and page 1.
    let mut btree = BTree::open(Vec::new())?;
    assert!(btree.contents().len() >= HEADER_SIZE + PAGE_HEADER_SIZE as usize);
    assert_eq!(&btree.contents()[0..15], b"SQLite format 3");

    let first = btree.get_node_by_page(1)?;
    assert_eq!(first.typ, BTreeNodeType::LeafTable);
    assert_eq!(first.n_cells, 0);

    // Allocate a new internal-table node: it lands on page 2, empty.
    let mut node = btree.new_node(BTreeNodeType::InternalTable)?;
    assert_eq!(node.page.n_page, 2);
    assert_eq!(node.cells_offset, PAGE_SIZE as u16);
    assert_eq!(node.right_page, 0);
    assert!(btree.contents().len() >= HEADER_SIZE + PAGE_SIZE);

    let page_one_before = btree.contents()[0..PAGE_SIZE].to_vec();

    // Mutate its free_offset and write it back.
    node.free_offset = 1;
    btree.write_node(&mut node)?;

    let reread = btree.get_node_by_page(2)?;
    assert_eq!(reread.free_offset, 1);

    // Page 1 (header and node alike) is byte-identical to before.
    assert_eq!(&btree.contents()[0..PAGE_SIZE], &page_one_before[..]);

    Ok(())
}
