use round_robin::backend::Backend;
use round_robin::distributor::{ConfigurationError, Distributor};

fn backends3() -> Vec<Backend> {
    vec![
        Backend::new(String::from("B0"), 7000),
        Backend::new(String::from("B1"), 7001),
        Backend::new(String::from("B2"), 7002),
    ]
}

#[test]
fn empty_backend_set_is_refused() {
    let r = Distributor::new(Vec::new());
    match r {
        Ok(_) => panic!("an empty backend set must be refused"),
        Err(e) => assert_eq!(e, ConfigurationError::EmptyBackendSet),
    }
}

#[test]
fn empty_backend_set_is_refused_with_start() {
    let r = Distributor::with_start(Vec::new(), 5);
    match r {
        Ok(_) => panic!("an empty backend set must be refused"),
        Err(e) => assert_eq!(e, ConfigurationError::EmptyBackendSet),
    }
}

#[test]
fn first_call_selects_index_one() {
    let mut d = Distributor::new(backends3()).unwrap();
    let b = d.next();
    assert_eq!(b.host, "B1");
    assert_eq!(b.port, 7001);
}

#[test]
fn end_to_end_redirect_locations() {
    let mut d = Distributor::new(backends3()).unwrap();
    assert_eq!(d.next_location(), "http://B1:7001/");
    assert_eq!(d.next_location(), "http://B2:7002/");
    assert_eq!(d.next_location(), "http://B0:7000/");
    assert_eq!(d.next_location(), "http://B1:7001/");
}

#[test]
fn one_cycle_covers_every_backend_once() {
    let mut d = Distributor::new(backends3()).unwrap();
    let mut seen = vec![0usize; 3];
    for _ in 0..3 {
        let b = d.next();
        let i = (b.port - 7000) as usize;
        seen[i] += 1;
    }
    assert_eq!(seen, vec![1, 1, 1]);
}

#[test]
fn rotation_has_period_len() {
    let mut d = Distributor::new(backends3()).unwrap();
    let first_cycle: Vec<u16> = (0..3).map(|_| d.next().port).collect();
    let second_cycle: Vec<u16> = (0..3).map(|_| d.next().port).collect();
    let third_cycle: Vec<u16> = (0..3).map(|_| d.next().port).collect();
    assert_eq!(first_cycle, second_cycle);
    assert_eq!(first_cycle, third_cycle);
}

#[test]
fn every_result_is_a_member_of_the_set() {
    let mut d = Distributor::new(backends3()).unwrap();
    for _ in 0..10 {
        let b = d.next();
        assert!(b.port == 7000 || b.port == 7001 || b.port == 7002);
        assert!(b.host == "B0" || b.host == "B1" || b.host == "B2");
    }
}

#[test]
fn single_backend_always_selected() {
    let one = vec![Backend::new(String::from("only"), 9000)];
    let mut d = Distributor::new(one).unwrap();
    for _ in 0..5 {
        let b = d.next();
        assert_eq!(b.host, "only");
        assert_eq!(b.port, 9000);
    }
    assert_eq!(d.next_location(), "http://only:9000/");
}

#[test]
fn with_start_offsets_the_rotation() {
    let mut d = Distributor::with_start(backends3(), 2).unwrap();
    assert_eq!(d.next().port, 7000);
    assert_eq!(d.next().port, 7001);
}

#[test]
fn with_start_wraps_modulo_len() {
    let mut d = Distributor::with_start(backends3(), 5).unwrap();
    let mut e = Distributor::with_start(backends3(), 2).unwrap();
    for _ in 0..4 {
        assert_eq!(d.next().port, e.next().port);
    }
}

#[test]
fn len_reports_backend_count() {
    let d = Distributor::new(backends3()).unwrap();
    assert_eq!(d.len(), 3);
}
