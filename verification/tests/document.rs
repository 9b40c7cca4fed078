use cargo_near::docjson::stamp_document;
use cargo_near::errors::PipelineError;
use cargo_near::metadata::AbiMetadata;

fn bv(s: &str) -> Vec<u8> {
    s.as_bytes().to_vec()
}

fn meta() -> AbiMetadata {
    AbiMetadata {
        name: Some(bv("contract")),
        version: Some(bv("0.1.0")),
        authors: vec![bv("a <a@x>"), bv("b <b@x>")],
    }
}

#[test]
fn stamping_overwrites_metadata() {
    let captured = bv("{\"body\":[{\"f\":1},{\"f\":2}],\"metadata\":{\"name\":null}}");
    let out = stamp_document(&captured, &meta()).unwrap();
    let doc: serde_json::Value = serde_json::from_slice(&out).unwrap();
    assert_eq!(doc["metadata"]["name"], serde_json::Value::String("contract".into()));
    assert_eq!(doc["metadata"]["version"], serde_json::Value::String("0.1.0".into()));
    assert_eq!(doc["metadata"]["authors"].as_array().unwrap().len(), 2);
    assert_eq!(doc["body"].as_array().unwrap().len(), 2);
}

#[test]
fn restamping_written_document_is_byte_identical() {
    let captured = bv("{\"body\":[{\"f\":1}],\"metadata\":{}}");
    let written = stamp_document(&captured, &meta()).unwrap();
    let rewritten = stamp_document(&written, &meta()).unwrap();
    assert_eq!(written, rewritten);
}

#[test]
fn non_document_bytes_are_a_parse_failure() {
    let r = stamp_document(&bv("not json"), &meta());
    assert!(matches!(r, Err(PipelineError::DocumentParse)));
}

#[test]
fn non_object_document_is_a_parse_failure() {
    let r = stamp_document(&bv("[1,2,3]"), &meta());
    assert!(matches!(r, Err(PipelineError::DocumentParse)));
}
