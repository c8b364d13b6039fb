use bazelfe_core::bazel_query::{from_binary_path, BazelQueryBinaryImpl};

#[test]
fn decode_str_handles_empty_and_invalid_bytes() {
    assert_eq!(BazelQueryBinaryImpl::decode_str(&Vec::new()), String::new());
    assert_eq!(
        BazelQueryBinaryImpl::decode_str(&vec![0xffu8, 0xfe, 0xfd]),
        String::from("Unable to decode content")
    );
}

#[test]
fn decode_str_decodes_utf8() {
    let bytes = String::from("bazel says hi").into_bytes();
    assert_eq!(
        BazelQueryBinaryImpl::decode_str(&bytes),
        String::from("bazel says hi")
    );
}

#[test]
fn from_binary_path_keeps_the_path() {
    let q = from_binary_path("/usr/bin/bazel");
    assert_eq!(q.bazel_executable_path, String::from("/usr/bin/bazel"));
}
