use round_robin::backend::Backend;
use round_robin::location::location;

#[test]
fn location_formats_host_and_port() {
    let b = Backend::new(String::from("localhost"), 7000);
    assert_eq!(location(&b), "http://localhost:7000/");
}

#[test]
fn location_single_digit_port() {
    let b = Backend::new(String::from("h"), 7);
    assert_eq!(location(&b), "http://h:7/");
}

#[test]
fn location_port_zero() {
    let b = Backend::new(String::from("h"), 0);
    assert_eq!(location(&b), "http://h:0/");
}

#[test]
fn location_port_ten() {
    let b = Backend::new(String::from("h"), 10);
    assert_eq!(location(&b), "http://h:10/");
}

#[test]
fn location_largest_port() {
    let b = Backend::new(String::from("h"), 65535);
    assert_eq!(location(&b), "http://h:65535/");
}

#[test]
fn location_empty_host() {
    let b = Backend::new(String::new(), 80);
    assert_eq!(location(&b), "http://:80/");
}

#[test]
fn backend_clone_preserves_fields() {
    let b = Backend::new(String::from("B2"), 7002);
    let c = b.clone();
    assert_eq!(c.host, "B2");
    assert_eq!(c.port, 7002);
}
