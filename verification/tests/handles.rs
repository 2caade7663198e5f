use markfs::file::FileHandle;
use markfs::file::OpenFile;
use markfs::file_handle::cut_to_size;
use markfs::file_handle::HandleTable;
use markfs::types::action::ErrorKind;

struct Fixed {
    data: Vec<u8>,
    fail: bool,
}

impl FileHandle for Fixed {
    fn read(&mut self, offset: u64, size: u32) -> Result<Vec<u8>, ()> {
        if self.fail {
            return Err(());
        }
        let start = (offset as usize).min(self.data.len());
        Ok(self.data[start..].to_vec())
    }
}

fn file(text: &str) -> Fixed {
    Fixed { data: text.as_bytes().to_vec(), fail: false }
}

#[test]
fn identifiers_grow_and_are_not_handed_out_again() {
    let mut table: HandleTable<Fixed> = HandleTable::new();
    assert_eq!(table.last_fh(), 0);
    assert_eq!(table.insert(file("a")).unwrap(), 1);
    assert_eq!(table.insert(file("b")).unwrap(), 2);
    assert_eq!(table.len(), 2);
    assert!(table.is_open(1) && table.is_open(2));
    assert!(table.release(1).is_ok());
    assert!(!table.is_open(1));
    assert!(table.is_open(2));
    assert_eq!(table.insert(file("c")).unwrap(), 3);
    assert_eq!(table.len(), 2);
    assert!(!table.is_open(1) && table.is_open(2) && table.is_open(3));
    assert!(table.release(3).is_ok());
    assert!(table.release(2).is_ok());
    // Empty again, and still the numbers go on.
    assert_eq!(table.insert(file("d")).unwrap(), 4);
    assert_eq!(table.last_fh(), 4);
    assert_eq!(table.len(), 1);
    assert!(table.is_open(4));
    assert!(!table.is_open(1) && !table.is_open(2) && !table.is_open(3));
}

#[test]
fn release_hands_the_backing_file_back() {
    let mut table: HandleTable<Fixed> = HandleTable::new();
    table.insert(file("first")).unwrap();
    table.insert(file("second")).unwrap();
    let back = table.release(2).unwrap();
    assert_eq!(back.data, b"second".to_vec());
}

#[test]
fn release_of_a_closed_identifier_is_no_entry() {
    let mut table: HandleTable<Fixed> = HandleTable::new();
    assert_eq!(table.release(1).err().unwrap().get_kind(), ErrorKind::NoEntry);
    table.insert(file("a")).unwrap();
    assert_eq!(table.release(0).err().unwrap().get_kind(), ErrorKind::NoEntry);
    assert_eq!(table.release(2).err().unwrap().get_kind(), ErrorKind::NoEntry);
    assert!(table.release(1).is_ok());
    assert_eq!(table.release(1).err().unwrap().get_kind(), ErrorKind::NoEntry);
    assert_eq!(table.last_fh(), 1);
}

#[test]
fn read_cuts_what_exceeds_the_size_asked_for() {
    let mut table: HandleTable<Fixed> = HandleTable::new();
    let fh = table.insert(file("Hello, world!")).unwrap();
    assert_eq!(table.read(fh, 0, 5).unwrap(), b"Hello".to_vec());
    assert_eq!(table.read(fh, 7, 100).unwrap(), b"world!".to_vec());
    assert_eq!(table.read(fh, 13, 4).unwrap(), Vec::<u8>::new());
    assert_eq!(table.read(fh, 0, 0).unwrap(), Vec::<u8>::new());
    assert_eq!(table.len(), 1);
    assert!(table.is_open(fh));
}

#[test]
fn read_fails_on_a_closed_identifier_and_on_a_failing_file() {
    let mut table: HandleTable<Fixed> = HandleTable::new();
    assert_eq!(table.read(1, 0, 5).err().unwrap().get_kind(), ErrorKind::NotImplemented);
    let fh = table.insert(Fixed { data: Vec::new(), fail: true }).unwrap();
    assert_eq!(table.read(fh, 0, 5).err().unwrap().get_kind(), ErrorKind::NotImplemented);
    assert!(table.is_open(fh));
    table.release(fh).unwrap();
    assert_eq!(table.read(fh, 0, 5).err().unwrap().get_kind(), ErrorKind::NotImplemented);
}

#[test]
fn answers_of_a_backing_file_are_cut_to_size() {
    assert_eq!(cut_to_size(Ok(b"Hello".to_vec()), 3).unwrap(), b"Hel".to_vec());
    assert_eq!(cut_to_size(Ok(b"Hello".to_vec()), 5).unwrap(), b"Hello".to_vec());
    assert_eq!(cut_to_size(Ok(b"Hello".to_vec()), 9).unwrap(), b"Hello".to_vec());
    assert_eq!(cut_to_size(Ok(b"Hello".to_vec()), 0).unwrap(), Vec::<u8>::new());
    assert_eq!(cut_to_size(Ok(Vec::new()), 4).unwrap(), Vec::<u8>::new());
    assert_eq!(cut_to_size(Err(()), 4).err().unwrap().get_kind(), ErrorKind::NotImplemented);
}

#[test]
fn an_open_file_hands_reads_on_as_they_come() {
    let mut open = OpenFile::new(file("Hello, world!"));
    // The backing file of this test hands out all that follows the offset:
    // the cut to the size asked for is the table's, not the open file's.
    assert_eq!(open.read(7, 2).unwrap(), b"world!".to_vec());
    assert_eq!(open.read(0, 0).unwrap(), b"Hello, world!".to_vec());
    assert_eq!(open.into_handle().data, b"Hello, world!".to_vec());
    let mut failing = OpenFile::new(Fixed { data: Vec::new(), fail: true });
    assert!(failing.read(0, 1).is_err());
}
