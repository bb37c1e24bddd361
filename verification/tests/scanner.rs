use gattii::scanner::contains_name;
use gattii::scanner::copy_names;
use gattii::scanner::name_le_exec;
use gattii::scanner::same_names;
use gattii::scanner::sort_names;

fn names(list: &[&str]) -> Vec<String> {
    list.iter().map(|s| s.to_string()).collect()
}

#[test]
fn names_compare_byte_by_byte() {
    let le = |a: &str, b: &str| name_le_exec(&a.to_string(), &b.to_string());
    assert!(le("", ""));
    assert!(le("", "a"));
    assert!(!le("a", ""));
    assert!(le("COM1", "COM1"));
    assert!(le("COM1", "COM10"));
    assert!(!le("COM10", "COM1"));
    assert!(le("COM10", "COM2"));
    assert!(le("COM3", "com3"));
    assert!(!le("ttyUSB1", "ttyUSB0"));
    assert!(le("z", "\u{e9}"));
    assert!(le("\u{e9}", "\u{4e2d}"));
    assert!(le("\u{ffff}", "\u{10000}"));
}

#[test]
fn sort_puts_names_in_order() {
    assert_eq!(
        sort_names(names(&["/dev/ttyUSB1", "/dev/ttyACM0", "/dev/ttyUSB0", "/dev/ttyS0"])),
        names(&["/dev/ttyACM0", "/dev/ttyS0", "/dev/ttyUSB0", "/dev/ttyUSB1"])
    );
    assert_eq!(sort_names(names(&[])), names(&[]));
    assert_eq!(sort_names(names(&["COM7"])), names(&["COM7"]));
}

#[test]
fn sort_keeps_repeated_names() {
    assert_eq!(sort_names(names(&["b", "a", "b", "a"])), names(&["a", "a", "b", "b"]));
}

#[test]
fn sort_agrees_with_the_standard_order() {
    let mixed = names(&[
        "COM10", "COM2", "COM1", "", "com1", "\u{e9}t\u{e9}", "zz", "\u{10000}", "\u{ffff}",
        "/dev/cu.usbserial", "/dev/tty.usbserial", "COM", "COM1 ", "z",
    ]);
    let mut expected = mixed.clone();
    expected.sort();
    assert_eq!(sort_names(mixed.clone()), expected);
    let mut reversed = mixed;
    reversed.reverse();
    assert_eq!(sort_names(reversed), expected);
}

#[test]
fn contains_looks_for_the_whole_name() {
    let list = names(&["COM1", "COM10"]);
    assert!(contains_name(&list, &"COM1".to_string()));
    assert!(contains_name(&list, &"COM10".to_string()));
    assert!(!contains_name(&list, &"COM".to_string()));
    assert!(!contains_name(&list, &"com1".to_string()));
    assert!(!contains_name(&names(&[]), &"".to_string()));
}

#[test]
fn same_names_compares_element_by_element() {
    assert!(same_names(&names(&[]), &names(&[])));
    assert!(same_names(&names(&["a", "b"]), &names(&["a", "b"])));
    assert!(!same_names(&names(&["a", "b"]), &names(&["b", "a"])));
    assert!(!same_names(&names(&["a", "b"]), &names(&["a", "c"])));
    assert!(!same_names(&names(&["a"]), &names(&["a", "a"])));
    assert!(!same_names(&names(&["a", "a"]), &names(&["a"])));
}

#[test]
fn copy_names_copies_every_name() {
    let list = names(&["x", "", "y"]);
    assert_eq!(copy_names(&list), list);
}
