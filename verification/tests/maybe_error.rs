use pagoda_runtime::error::PagodaError;
use pagoda_runtime::protocols::maybe_error::MaybeError;

struct TestError {
    error: Option<PagodaError>,
}

impl MaybeError for TestError {
    fn from_err(err: PagodaError) -> Self {
        TestError { error: Some(err) }
    }

    fn err(&self) -> Option<PagodaError> {
        self.error.clone()
    }
}

#[test]
fn test_maybe_error_default_implementations() {
    let pagoda_err = PagodaError::msg("Test error".to_string());
    let err = TestError::from_err(pagoda_err);
    assert!(err.err().unwrap().to_string().contains("Test error"));
    assert!(!err.is_ok());
    assert!(err.is_err());
}

#[test]
fn test_from_std_error() {
    let std_err = std::io::Error::other("io failure");
    let test_err = TestError::from_err(PagodaError::msg(std_err.to_string()));

    assert!(test_err.is_err());
    assert!(test_err.err().unwrap().to_string().contains("io failure"));
}

#[test]
fn test_not_error() {
    let test = TestError { error: None };
    assert!(test.is_ok());
    assert!(!test.is_err());
    assert!(test.err().is_none());
}

#[test]
fn test_default_helpers_follow_err_contract() {
    let success = TestError { error: None };
    let failure = TestError {
        error: Some(PagodaError::msg("boom".to_string())),
    };

    assert!(success.is_ok());
    assert!(!success.is_err());
    assert!(!failure.is_ok());
    assert!(failure.is_err());
}
