use http_lib::version::{Malformed, Version};

#[test]
fn version_from_bytes() {
    let version_1 = bytes::Bytes::copy_from_slice(b"HTTP/1");
    let version_1_1 = bytes::Bytes::copy_from_slice(b"HTTP/1.1");
    let version_1_ = bytes::Bytes::copy_from_slice(b"HTTP/1 ");
    let just_1_1 = bytes::Bytes::copy_from_slice(b"1.1");

    assert_eq!(Version::from_bytes(&mut version_1.clone()).unwrap(), Version(1, 0));
    assert_eq!(Version::from_bytes(&mut version_1_1.clone()).unwrap(), Version(1, 1));
    assert_eq!(Version::from_bytes(&mut version_1_.clone()).unwrap(), Version(1, 0));
    assert_eq!(Version::from_bytes(&mut just_1_1.clone()).unwrap_err(), Malformed);
}

#[test]
fn version_digits_are_ascii_only() {
    // bytes that merely look like digits under a bit mask are rejected
    let mut masked = bytes::Bytes::copy_from_slice(&[b'H', b'T', b'T', b'P', b'/', 0x12]);
    assert_eq!(Version::from_bytes(&mut masked).unwrap_err(), Malformed);
    let mut space = bytes::Bytes::copy_from_slice(b"HTTP/ 1");
    assert_eq!(Version::from_bytes(&mut space).unwrap_err(), Malformed);
}

#[test]
fn version_to_buffer() {
    assert_eq!(Version(0, 9).to_buffer().as_slice(), b"HTTP/0.9");
    assert_eq!(Version(1, 0).to_buffer().as_slice(), b"HTTP/1");
    assert_eq!(Version(1, 1).to_buffer().as_slice(), b"HTTP/1.1");
}
