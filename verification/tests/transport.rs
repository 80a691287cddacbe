use firerunner::transport::frame_request;
use firerunner::transport::response_len;
use firerunner::transport::vm_id_from_announcement;

#[test]
fn frame_appends_newline() {
    let payload: Vec<u8> = vec![0x7b, 0x7d];
    let framed = frame_request(&payload);
    assert_eq!(framed, vec![0x7b, 0x7d, 0x0a]);
    let empty: Vec<u8> = Vec::new();
    assert_eq!(frame_request(&empty), vec![0x0a]);
}

#[test]
fn response_len_is_big_endian() {
    assert_eq!(response_len(&[0, 0, 0, 0]), 0);
    assert_eq!(response_len(&[0, 0, 1, 2]), 258);
    assert_eq!(response_len(&[0x12, 0x34, 0x56, 0x78]), 0x12345678);
    assert_eq!(response_len(&[0xff, 0xff, 0xff, 0xff]), u32::MAX);
}

#[test]
fn vm_id_is_little_endian() {
    assert_eq!(vm_id_from_announcement(&[3, 0, 0, 0]), 3);
    assert_eq!(vm_id_from_announcement(&[0x78, 0x56, 0x34, 0x12]), 0x12345678);
}
