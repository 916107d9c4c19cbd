use bare_runtime::sys::{decode, SysError};

#[test]
fn decode_success_passes_value_through() {
    assert_eq!(decode(0), Ok(0));
    assert_eq!(decode(4096), Ok(4096));
    assert_eq!(decode(usize::MAX - 4095), Ok(usize::MAX - 4095));
}

#[test]
fn decode_error_window() {
    assert_eq!(decode(usize::MAX), Err(SysError { code: 1 }));
    assert_eq!(decode(usize::MAX - 1), Err(SysError { code: 2 }));
    assert_eq!(decode(usize::MAX - 4094), Err(SysError { code: 4095 }));
}
