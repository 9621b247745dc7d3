use container_expl::scan::ScanRequest;

fn request(start: u16, end: u16) -> ScanRequest {
    ScanRequest::new(String::from("127.0.0.1"), start, end).unwrap()
}

#[test]
fn empty_range_is_refused() {
    assert!(ScanRequest::new(String::from("localhost"), 81, 80).is_none());
}

#[test]
fn ports_cover_the_range_in_order() {
    assert_eq!(request(80, 84).ports(), vec![80, 81, 82, 83, 84]);
    assert_eq!(request(7, 7).ports(), vec![7]);
    assert_eq!(request(65534, 65535).ports(), vec![65534, 65535]);
    assert_eq!(request(0, 2).ports(), vec![0, 1, 2]);
}

#[test]
fn open_ports_are_the_accepted_ones_ascending() {
    let r = request(100, 107);
    let accepted = vec![false, true, true, false, false, true, false, true];
    assert_eq!(r.open_ports(&accepted), vec![101, 102, 105, 107]);
}

#[test]
fn open_ports_stay_in_range_and_ascend() {
    let r = request(65530, 65535);
    let open = r.open_ports(&vec![true; 6]);
    assert_eq!(open, vec![65530, 65531, 65532, 65533, 65534, 65535]);
    for w in open.windows(2) {
        assert!(w[0] < w[1]);
    }
}

#[test]
fn no_listener_gives_empty_result() {
    let r = request(2000, 2010);
    assert_eq!(r.open_ports(&vec![false; 11]), Vec::<u16>::new());
}

#[test]
fn one_listener_gives_that_port() {
    let r = request(8000, 8009);
    let mut accepted = vec![false; 10];
    accepted[4] = true;
    assert_eq!(r.open_ports(&accepted), vec![8004]);
}

#[test]
fn range_exactly_on_listener_and_one_above() {
    let port: u16 = 43210;
    assert_eq!(request(port, port).open_ports(&vec![true]), vec![port]);
    assert_eq!(request(port + 1, port + 1).open_ports(&vec![false]), Vec::<u16>::new());
}
