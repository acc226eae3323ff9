use life::error::Error;

#[test]
fn io_error_converts() {
    let ioe = std::io::Error::new(std::io::ErrorKind::Other, "probe failed");
    let e = Error::from(ioe);
    match e {
        Error::IO(inner) => assert_eq!(inner.kind(), std::io::ErrorKind::Other),
        Error::Options(_) => panic!(),
    }
}

#[test]
fn options_error_keeps_message() {
    let e = Error::Options("--zap: unexpected argument".to_string());
    match e {
        Error::Options(s) => assert_eq!(s, "--zap: unexpected argument"),
        Error::IO(_) => panic!(),
    }
}
