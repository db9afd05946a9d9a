use vbus_logger::error::{Error, IntoError};

#[test]
fn errors_from_string_keeps_the_message() {
    let e = Error::from(String::from("store unreachable"));
    assert_eq!("store unreachable", e.message());
}

#[test]
fn errors_into_error_from_str_and_string() {
    let e1 = "bus gone".into_error();
    assert_eq!("bus gone", e1.message());
    let e2 = String::from("bad frame").into_error();
    assert_eq!("bad frame", e2.message());
}
