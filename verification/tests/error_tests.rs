use bitstask::error::{
    check_hresult, check_nonnull_no_error_code, check_nonzero, Error, ErrorCode, FileLine,
    LabelErrorDWord, LabelErrorHResult, LabelErrorMessage, LabelErrorNone,
};

#[test]
fn check_hresult_classifies_by_sign() {
    assert_eq!(check_hresult(0), Ok(0));
    assert_eq!(check_hresult(1), Ok(1));
    assert_eq!(check_hresult(-2147024894), Err(-2147024894));
}

#[test]
fn check_nonzero_pairs_failure_with_the_reported_code() {
    assert_eq!(check_nonzero(1, 5), Ok(1));
    assert_eq!(check_nonzero(-1, 5), Ok(-1));
    assert_eq!(check_nonzero(0, 5), Err(5));
}

#[test]
fn check_nonnull_classifies_presence() {
    let x = 7u32;
    assert_eq!(check_nonnull_no_error_code(Some(&x)), Ok(&x));
    assert_eq!(check_nonnull_no_error_code::<u32>(None), Err(()));
}

#[test]
fn map_message_labels_failures_only() {
    let ok: Result<u32, u32> = Ok(3);
    assert!(matches!(ok.map_message("boom".to_string()), Ok(3)));

    let err: Result<u32, u32> = Err(9);
    match err.map_message("boom".to_string()) {
        Err(Error::Message(m)) => assert_eq!(m, "boom"),
        _ => panic!("expected a message label"),
    }
}

#[test]
fn map_api_labels_with_name_and_position() {
    let err: Result<u32, ()> = Err(());
    match err.map_api("CreateNamedPipeW") {
        Err(Error::Api("CreateNamedPipeW", ErrorCode::NoCode, None)) => {}
        _ => panic!("expected an api label"),
    }

    let err: Result<u32, ()> = Err(());
    match err.map_api_file_line("ConnectNamedPipe", "pipe.rs", 42) {
        Err(Error::Api("ConnectNamedPipe", ErrorCode::NoCode, Some(FileLine("pipe.rs", 42)))) => {}
        _ => panic!("expected an api label with a position"),
    }
}

#[test]
fn map_api_rc_carries_the_dword_code() {
    let ok: Result<u32, u32> = Ok(1);
    assert!(matches!(ok.map_api_rc("ReadFile"), Ok(1)));

    let err: Result<u32, u32> = Err(232);
    match err.map_api_rc("ReadFile") {
        Err(Error::Api("ReadFile", ErrorCode::DWord(232), None)) => {}
        _ => panic!("expected a dword label"),
    }

    let err: Result<u32, u32> = Err(109);
    match err.map_api_rc_file_line("WriteFile", "pipe.rs", 7) {
        Err(Error::Api("WriteFile", ErrorCode::DWord(109), Some(FileLine("pipe.rs", 7)))) => {}
        _ => panic!("expected a dword label with a position"),
    }
}

#[test]
fn map_api_hr_carries_the_hresult_code() {
    let err: Result<u32, i32> = Err(-2147024894);
    match err.map_api_hr("CoCreateInstance") {
        Err(Error::Api("CoCreateInstance", ErrorCode::HResult(-2147024894), None)) => {}
        _ => panic!("expected an hresult label"),
    }

    let err: Result<u32, i32> = Err(-1);
    match err.map_api_hr_file_line("GetJob", "bits.rs", 50) {
        Err(Error::Api("GetJob", ErrorCode::HResult(-1), Some(FileLine("bits.rs", 50)))) => {}
        _ => panic!("expected an hresult label with a position"),
    }
}
