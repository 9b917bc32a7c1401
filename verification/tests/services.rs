use std::sync::Arc;
use tarpc_bench::hello::{DataType, HelloServer, Preserialized};
use tarpc_bench::service::{Doubler, Srv};
use tarpc_bench::timing::dur_to_ns;

#[test]
fn inner_answers_request_then_foobar() {
    let s = HelloServer;
    let r = s.inner(DataType::Number(5)).unwrap();
    assert_eq!(r.len(), 1);
    assert_eq!(r[0].len(), 2);
    assert!(matches!(r[0][0], DataType::Number(5)));
    match &r[0][1] {
        DataType::Text(t) => assert_eq!(t.as_str(), "foobar"),
        _ => panic!("second value is not text"),
    }
}

#[test]
fn test_keeps_text_and_empty_requests() {
    let s = HelloServer;
    let r = s.test(DataType::Text(Arc::new("hi".to_owned()))).unwrap();
    match &r[0][0] {
        DataType::Text(t) => assert_eq!(t.as_str(), "hi"),
        _ => panic!("request not echoed"),
    }
    let r = s.test(DataType::Empty).unwrap();
    assert!(matches!(r[0][0], DataType::Empty));
}

#[test]
fn preserialized_answers_stored_bytes() {
    let p = Preserialized { bytes: vec![1, 2, 3] };
    assert_eq!(p.test(vec![9, 9, 9, 9]).unwrap(), vec![1, 2, 3]);
    assert_eq!(p.test(Vec::new()).unwrap(), vec![1, 2, 3]);
}

#[test]
fn doublers_double() {
    assert_eq!(Doubler.call(1), 2);
    assert_eq!(Doubler.call(u64::MAX / 2), u64::MAX - 1);
    assert_eq!(Doubler.double(-7).unwrap(), -14);
    assert_eq!(Doubler.double(i32::MIN / 2).unwrap(), i32::MIN);
    assert_eq!(Srv.test(99_999).unwrap(), 199_998);
    assert_eq!(Srv.test(0).unwrap(), 0);
}

#[test]
fn duration_in_nanoseconds() {
    assert_eq!(dur_to_ns(0, 0), 0);
    assert_eq!(dur_to_ns(3, 250), 3_000_000_250);
    let d = std::time::Duration::new(12, 999_999_999);
    assert_eq!(dur_to_ns(d.as_secs(), d.subsec_nanos()), d.as_nanos() as u64);
}
