use cnova::trace::TraceExt;

#[test]
fn trace_test_ok_trace() {
    let res: Result<u64, u64> = Ok(69);
    assert_eq!("\"69\"", res.trace().to_text());
}

#[test]
fn trace_test_err_trace() {
    let res: Result<u64, u64> = Err(42);
    assert_eq!("Err(\"42\")", res.trace().to_text());
}

#[test]
fn trace_test_some_trace() {
    assert_eq!("\"69\"", Some(69u64).trace().to_text());
}

#[test]
fn trace_test_none_trace() {
    let opt: Option<u64> = None;
    assert_eq!("None", opt.trace().to_text());
}
