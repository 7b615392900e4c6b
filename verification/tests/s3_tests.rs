use crossscp::s3::{capabilities, split_endpoint_bucket};

#[test]
fn s3_splits_endpoint_and_bucket() {
    let (endpoint, bucket) = split_endpoint_bucket("https://s3.example.com/my-bucket").expect("split");
    assert_eq!(endpoint, "https://s3.example.com");
    assert_eq!(bucket, "my-bucket");
    assert!(capabilities().uses_object_prefixes);
}
