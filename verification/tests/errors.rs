use project_finder::error::AppError;
use std::io::{Error, ErrorKind};

#[test]
fn io_error_is_wrapped_as_it_is() {
    let error = AppError::from(Error::new(ErrorKind::PermissionDenied, "no entry"));
    match error {
        AppError::IOError(inner) => {
            assert_eq!(inner.kind(), ErrorKind::PermissionDenied);
            assert_eq!(format!("{}", inner), "no entry");
        }
        AppError::ArgNotFoundError => panic!("the wrong variant"),
    }
}

fn failing() -> Result<(), AppError> {
    Err(Error::new(ErrorKind::NotFound, "gone"))?;
    Ok(())
}

#[test]
fn question_mark_converts_an_io_error() {
    assert!(matches!(failing(), Err(AppError::IOError(_))));
}

#[test]
fn errors_can_be_shown_for_debugging() {
    assert_eq!(format!("{:?}", AppError::ArgNotFoundError), "ArgNotFoundError");
    let shown = format!("{:?}", AppError::from(Error::new(ErrorKind::Other, "broken")));
    assert!(shown.starts_with("IOError("));
}
