//! The alternative output interface: optional values carry an explicit
//! wrapper.

use choices::serializer::ChoicesOutput;

#[test]
fn serializer_optional_output() {
    let some: Option<u16> = Some(56);
    let none: Option<u16> = None;
    assert_eq!(ChoicesOutput::body_string(&some), "Some(56)");
    assert_eq!(ChoicesOutput::body_string(&none), "None");
    assert_eq!(ChoicesOutput::body_string(&true), "true");
    assert_eq!(ChoicesOutput::body_string(&'a'), "a");
    assert_eq!(ChoicesOutput::body_string(&String::from("x")), "x");
    assert_eq!(ChoicesOutput::body_string(&-4i64), "-4");
}
