use serial_relay::select_ports;

#[test]
fn selects_listed_ports_in_order() {
    assert_eq!(select_ports("1,3", 3), vec![0, 2]);
    assert_eq!(select_ports("3,1,3", 3), vec![2, 0, 2]);
}

#[test]
fn trims_and_skips_bad_fields() {
    assert_eq!(select_ports(" 2 , x, 4,+1\n", 3), vec![1, 0]);
    assert_eq!(select_ports("\u{3000}2\t", 3), vec![1]);
    assert_eq!(select_ports("1 2", 3), Vec::<usize>::new());
}

#[test]
fn rejects_zero_empty_sign_and_overflow() {
    assert_eq!(select_ports("", 3), Vec::<usize>::new());
    assert_eq!(select_ports("0", 3), Vec::<usize>::new());
    assert_eq!(select_ports("+", 3), Vec::<usize>::new());
    assert_eq!(select_ports("-1", 3), Vec::<usize>::new());
    assert_eq!(select_ports(",,", 3), Vec::<usize>::new());
    assert_eq!(select_ports("99999999999999999999999", usize::MAX), Vec::<usize>::new());
    assert_eq!(select_ports("18446744073709551615", usize::MAX), vec![usize::MAX - 1]);
}
