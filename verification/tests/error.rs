use abc::{AbcResult, Error};

#[test]
fn error_describes_an_abnormal_worker_termination() {
    let error = Error;
    assert_eq!(error.description(), "One of the hive's workers panicked.");
}

#[test]
fn error_results_compare_by_variant() {
    let failed: AbcResult<u32> = Err(Error);
    assert_eq!(failed, Err(Error));
    let fine: AbcResult<u32> = Ok(3);
    assert_eq!(fine.unwrap(), 3);
}
