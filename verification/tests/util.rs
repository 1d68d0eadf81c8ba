use cnova::util::OptionExt;
use cnova::util::ResultExt;

#[test]
fn util_result_trace_is_unquoted() {
    let ok: Result<u64, u64> = Ok(7);
    assert_eq!("7", ok.trace().to_text());
    let err: Result<u64, u64> = Err(8);
    assert_eq!("Err(8)", err.trace().to_text());
}

#[test]
fn util_option_trace_is_unquoted() {
    assert_eq!("7", Some(7u64).trace().to_text());
    let none: Option<u64> = None;
    assert_eq!("None", none.trace().to_text());
}
