use usopp_send::Error;

#[test]
fn it_works() {
    assert_eq!(2 + 2, 4);
}

#[test]
fn error_variants_compare() {
    assert_eq!(Error::NoRpcUrls, Error::NoRpcUrls);
    assert_ne!(Error::NoRpcUrls, Error::InsufficientRpcUrls);
}
