use stl_generator::errors::{APIResult, APIResultCode};

#[test]
fn result_codes() {
    assert_eq!(APIResultCode::user().code(), 0x2000_0001);
    assert_eq!(APIResultCode::new(5).code(), 5);
    assert_eq!(APIResultCode::default().code(), 0);
    let r: APIResult<u8> = Err(APIResultCode::new(87));
    assert_eq!(r.err().map(|c| c.code()), Some(87));
}
