use markfs::types::action::ActionError;
use markfs::types::action::ErrnoTable;
use markfs::types::action::ErrorKind;

fn all() -> Vec<ActionError> {
    vec![
        ActionError::Conflict("two at once".to_string()),
        ActionError::NoEntry,
        ActionError::FileExists,
        ActionError::NotADirectory,
        ActionError::IsADirectory,
        ActionError::NoSpaceLeftOnDevice,
        ActionError::NotImplemented,
    ]
}

#[test]
fn every_error_has_its_kind() {
    let kinds: Vec<ErrorKind> = all().iter().map(|e| e.get_kind()).collect();
    assert_eq!(
        kinds,
        vec![
            ErrorKind::Conflict,
            ErrorKind::NoEntry,
            ErrorKind::FileExists,
            ErrorKind::NotADirectory,
            ErrorKind::IsADirectory,
            ErrorKind::NoSpaceLeftOnDevice,
            ErrorKind::NotImplemented,
        ]
    );
}

#[test]
fn errors_map_to_the_numbers_of_a_table() {
    let table = ErrnoTable {
        no_entry: 2,
        file_exists: 17,
        not_a_directory: 20,
        is_a_directory: 21,
        no_space: 28,
        not_implemented: 38,
    };
    let codes: Vec<i32> = all().iter().map(|e| e.errno_in(&table)).collect();
    assert_eq!(codes, vec![2, 2, 17, 20, 21, 28, 38]);
}

#[test]
fn errors_map_to_the_numbers_of_the_platform() {
    let table = ActionError::errno_table();
    let codes: Vec<i32> = all().iter().map(|e| e.errno_in(&table)).collect();
    assert_eq!(
        codes,
        vec![
            libc::ENOENT,
            libc::ENOENT,
            libc::EEXIST,
            libc::ENOTDIR,
            libc::EISDIR,
            libc::ENOSPC,
            libc::ENOSYS,
        ]
    );
    assert!(codes.iter().all(|code| *code != 0));
}

#[test]
fn a_copy_of_an_error_is_the_same_error() {
    for error in all() {
        let copy = error.clone();
        assert_eq!(copy.get_kind(), error.get_kind());
        if let (ActionError::Conflict(a), ActionError::Conflict(b)) = (&error, &copy) {
            assert_eq!(a, b);
        }
    }
}

#[test]
fn the_platform_table_tells_the_kinds_apart() {
    let table = ActionError::errno_table();
    let numbers = [
        table.no_entry,
        table.file_exists,
        table.not_a_directory,
        table.is_a_directory,
        table.no_space,
        table.not_implemented,
    ];
    for (i, a) in numbers.iter().enumerate() {
        assert_ne!(*a, 0);
        for b in numbers.iter().skip(i + 1) {
            assert_ne!(a, b);
        }
    }
    assert_eq!(table.no_entry, libc::ENOENT);
    assert_eq!(table.not_implemented, libc::ENOSYS);
    assert_eq!(table.file_exists, libc::EEXIST);
    assert_eq!(table.not_a_directory, libc::ENOTDIR);
    assert_eq!(table.is_a_directory, libc::EISDIR);
    assert_eq!(table.no_space, libc::ENOSPC);
}
