use chidb::header::magic_bytes_vec;
use chidb::node::BTreeNode;
use chidb::BTreeHeader;
use chidb::BTreeNodeType;
use chidb::ChiError;
use chidb::MemPage;
use chidb::Pager;
use chidb::HEADER_SIZE;
use chidb::PAGE_CACHE_SIZE_INITIAL;
use chidb::PAGE_HEADER_SIZE;
use chidb::PAGE_SIZE;

#[test]
fn header_round_trips_field_for_field() -> Result<(), ChiError> {
    let header = BTreeHeader {
        magic_bytes: magic_bytes_vec(),
        page_size: 513,
        file_change_counter: 7,
        schema_version: 0x01020304,
        page_cache_size: 20001,
        user_cookie: 0xDEADBEEF,
    };
    let bytes = header.to_bytes();
    let decoded = BTreeHeader::from_bytes(&bytes)?;

    assert_eq!(decoded.magic_bytes, header.magic_bytes);
    assert_eq!(decoded.page_size, header.page_size);
    assert_eq!(decoded.file_change_counter, header.file_change_counter);
    assert_eq!(decoded.schema_version, header.schema_version);
    assert_eq!(decoded.page_cache_size, header.page_cache_size);
    assert_eq!(decoded.user_cookie, header.user_cookie);

    Ok(())
}

#[test]
fn default_header_encodes_exact_bytes() {
    let bytes = BTreeHeader::default().to_bytes();

    assert_eq!(bytes.len(), HEADER_SIZE);
    assert_eq!(&bytes[0..15], b"SQLite format 3");
    // page_size 16384 = 0x4000, little endian
    assert_eq!(&bytes[15..17], &[0x00, 0x40]);
    // file_change_counter and schema_version start at zero
    assert_eq!(&bytes[17..25], &[0u8; 8]);
    // page_cache_size 20000 = 0x4E20, little endian
    assert_eq!(&bytes[25..29], &[0x20, 0x4E, 0x00, 0x00]);
    // user_cookie zero, then the zero-filled tail
    assert_eq!(&bytes[29..HEADER_SIZE], &[0u8; 71]);
}

#[test]
fn short_buffer_has_no_header() {
    let result = BTreeHeader::from_bytes(&[0u8; 99]);
    assert_eq!(result.err(), Some(ChiError::NoHeader));

    let result = BTreeHeader::from_bytes(&[]);
    assert_eq!(result.err(), Some(ChiError::NoHeader));
}

#[test]
fn node_header_round_trips_scalar_fields() -> Result<(), ChiError> {
    let page = MemPage::new(2, vec![0u8; PAGE_SIZE], 0);
    let node = BTreeNode::create(page, BTreeNodeType::InternalIndex)?;

    assert_eq!(node.celloffset_array, PAGE_HEADER_SIZE);

    let loaded = BTreeNode::load_from_page(node.page)?;
    assert_eq!(loaded.typ, BTreeNodeType::InternalIndex);
    assert_eq!(loaded.free_offset, 0);
    assert_eq!(loaded.n_cells, 0);
    assert_eq!(loaded.cells_offset, PAGE_SIZE as u16);
    assert_eq!(loaded.right_page, 0);
    assert_eq!(loaded.celloffset_array, PAGE_HEADER_SIZE);

    Ok(())
}

#[test]
fn node_type_bytes_round_trip() -> Result<(), ChiError> {
    let kinds = [
        BTreeNodeType::InternalTable,
        BTreeNodeType::LeafTable,
        BTreeNodeType::InternalIndex,
        BTreeNodeType::LeafIndex,
    ];
    for kind in kinds {
        assert_eq!(BTreeNodeType::from_byte(kind.value())?, kind);
    }
    assert_eq!(BTreeNodeType::InternalTable.value(), 0x05);
    assert_eq!(BTreeNodeType::LeafTable.value(), 0x0D);
    assert_eq!(BTreeNodeType::InternalIndex.value(), 0x02);
    assert_eq!(BTreeNodeType::LeafIndex.value(), 0x0A);

    Ok(())
}

#[test]
fn unknown_type_bytes_are_rejected() {
    for b in [0x00u8, 0x01, 0x03, 0x0B, 0xFF] {
        let result = BTreeNodeType::from_byte(b);
        assert_eq!(result.err(), Some(ChiError::UnrecognizedNodeType));
    }
}

#[test]
fn create_fails_on_region_too_small() {
    let page = MemPage::new(1, vec![0u8; PAGE_SIZE], (PAGE_SIZE - 1) as u16);
    let result = BTreeNode::create(page, BTreeNodeType::LeafTable);
    assert_eq!(result.err(), Some(ChiError::Enomem));
}

#[test]
fn set_data_preserves_bytes_before_offset() {
    let mut raw = vec![0u8; PAGE_SIZE];
    raw[0] = 1;
    raw[1] = 2;
    raw[2] = 3;
    raw[3] = 4;
    let mut page = MemPage::new(1, raw, 4);

    let replacement = vec![9u8; PAGE_SIZE - 4];
    page.set_data(&replacement);

    assert_eq!(&page.raw()[0..4], &[1, 2, 3, 4]);
    assert_eq!(page.data(), &replacement[..]);
}

#[test]
fn allocate_page_counts_up_from_one() {
    let mut pager = Pager::open(Vec::new());
    assert_eq!(pager.allocate_page(), 1);
    assert_eq!(pager.allocate_page(), 2);
    assert_eq!(pager.allocate_page(), 3);
    assert_eq!(pager.allocate_page(), 4);
}

#[test]
fn read_page_checks_bounds() -> Result<(), ChiError> {
    let mut pager = Pager::open(Vec::new());
    pager.allocate_page();
    pager.allocate_page();

    assert_eq!(pager.read_page(0).err(), Some(ChiError::EPageNo));
    assert_eq!(pager.read_page(3).err(), Some(ChiError::EPageNo));

    let page = pager.read_page(2)?;
    assert_eq!(page.n_page, 2);
    assert_eq!(page.offset, 0);

    Ok(())
}

#[test]
fn write_page_checks_bounds() {
    let mut pager = Pager::open(Vec::new());
    pager.allocate_page();

    let page = MemPage::new(2, vec![0u8; PAGE_SIZE], 0);
    assert_eq!(pager.write_page(&page).err(), Some(ChiError::EPageNo));
}

#[test]
fn pages_survive_a_pager_round_trip() -> Result<(), ChiError> {
    let mut pager = Pager::open(Vec::new());
    let n = pager.allocate_page();

    let mut raw = vec![0u8; PAGE_SIZE];
    for (i, b) in raw.iter_mut().enumerate() {
        *b = (i % 251) as u8;
    }
    let page = MemPage::new(n, raw.clone(), 0);
    pager.write_page(&page)?;

    let read_back = pager.read_page(n)?;
    assert_eq!(read_back.raw(), &raw[..]);

    Ok(())
}

#[test]
fn header_write_and_read_through_pager() -> Result<(), ChiError> {
    let mut pager = Pager::open(Vec::new());
    let header = BTreeHeader::default().to_bytes();
    pager.write_header(&header)?;

    let read_back = pager.read_header()?;
    assert_eq!(read_back, header);

    Ok(())
}

#[test]
fn never_written_page_reads_as_zeros() -> Result<(), ChiError> {
    let mut pager = Pager::open(Vec::new());
    let n = pager.allocate_page();

    let page = pager.read_page(n)?;
    assert!(page.raw().iter().all(|b| *b == 0));

    Ok(())
}

#[test]
fn error_messages_name_their_kind() {
    assert_eq!(
        ChiError::EPageNo.message(),
        "page has an incorrect page number"
    );
    assert_eq!(ChiError::NoHeader.message(), "file does not have a header");
    assert_eq!(
        ChiError::Ecorruptheader.message(),
        "invalid database header"
    );
    assert_eq!(ChiError::Enomem.message(), "could not allocate memory");
    assert_eq!(
        ChiError::UnrecognizedNodeType.message(),
        "unrecognized node type byte"
    );
    assert_eq!(
        ChiError::IO(std::io::ErrorKind::NotFound).message(),
        "an i/o error occurred"
    );
}
