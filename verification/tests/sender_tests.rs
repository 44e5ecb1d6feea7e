use rust_volleyball::sender::AddressBook;

#[test]
fn test_set_and_get_address() {
    let mut book: AddressBook<(u8, u8, u8, u8, u16)> = AddressBook::new();
    assert_eq!(book.get_address(1), None);
    book.set_address(1, (10, 0, 0, 1, 4000));
    book.set_address(2, (10, 0, 0, 2, 4000));
    assert_eq!(book.get_address(1), Some((10, 0, 0, 1, 4000)));
    assert_eq!(book.get_address(2), Some((10, 0, 0, 2, 4000)));
    assert_eq!(book.get_address(3), None);
}

#[test]
fn test_set_address_refreshes() {
    let mut book: AddressBook<u64> = AddressBook::new();
    book.set_address(1, 100);
    book.set_address(1, 200);
    assert_eq!(book.get_address(1), Some(200));
    assert_eq!(book.entries.len(), 1);
}

#[test]
fn test_forget_address() {
    let mut book: AddressBook<u64> = AddressBook::new();
    book.set_address(1, 100);
    book.set_address(2, 200);
    book.forget(1);
    assert_eq!(book.get_address(1), None);
    assert_eq!(book.get_address(2), Some(200));
    book.forget(3);
    assert_eq!(book.get_address(2), Some(200));
}
