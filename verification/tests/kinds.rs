use markfs::metadata::INodeKind;

#[test]
fn kind_codes_round_trip() {
    assert_eq!(INodeKind::from_i32(0), Some(INodeKind::Directory));
    assert_eq!(INodeKind::from_i32(1), Some(INodeKind::RegularFile));
    assert_eq!(INodeKind::from_i32(2), None);
    assert_eq!(INodeKind::from_i32(-1), None);
    assert_eq!(INodeKind::Directory.to_i32(), 0);
    assert_eq!(INodeKind::RegularFile.to_i32(), 1);
    assert!(INodeKind::Directory.is_directory());
    assert!(!INodeKind::Directory.is_regular_file());
    assert!(INodeKind::RegularFile.is_regular_file());
    assert!(!INodeKind::RegularFile.is_directory());
}
