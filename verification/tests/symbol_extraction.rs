use cargo_near::symbols::{filter_abi_symbols, object_symbol_names};
use cargo_near::errors::PipelineError;

fn abi_elf() -> Vec<u8> {
    vec![127,69,76,70,2,1,1,0,0,0,0,0,0,0,0,0,3,0,62,0,1,0,0,0,0,0,0,0,0,0,0,0,0,0,0,0,0,0,0,0,64,0,0,0,0,0,0,0,0,0,0,0,64,0,0,0,0,0,64,0,5,0,4,0,0,0,0,0,0,0,0,0,0,0,0,0,0,0,0,0,0,0,0,0,0,0,0,0,0,0,0,0,0,0,0,0,0,0,0,0,0,0,0,0,0,0,0,0,0,0,0,0,0,0,0,0,0,0,0,0,0,0,0,0,0,0,0,0,1,0,0,0,1,0,0,0,6,0,0,0,0,0,0,0,0,0,0,0,0,0,0,0,128,1,0,0,0,0,0,0,0,0,0,0,0,0,0,0,0,0,0,0,0,0,0,0,16,0,0,0,0,0,0,0,0,0,0,0,0,0,0,0,7,0,0,0,2,0,0,0,0,0,0,0,0,0,0,0,0,0,0,0,0,0,0,0,128,1,0,0,0,0,0,0,144,0,0,0,0,0,0,0,3,0,0,0,1,0,0,0,8,0,0,0,0,0,0,0,24,0,0,0,0,0,0,0,15,0,0,0,3,0,0,0,0,0,0,0,0,0,0,0,0,0,0,0,0,0,0,0,16,2,0,0,0,0,0,0,66,0,0,0,0,0,0,0,0,0,0,0,0,0,0,0,1,0,0,0,0,0,0,0,0,0,0,0,0,0,0,0,23,0,0,0,3,0,0,0,0,0,0,0,0,0,0,0,0,0,0,0,0,0,0,0,82,2,0,0,0,0,0,0,33,0,0,0,0,0,0,0,0,0,0,0,0,0,0,0,1,0,0,0,0,0,0,0,0,0,0,0,0,0,0,0,0,0,0,0,0,0,0,0,0,0,0,0,0,0,0,0,0,0,0,0,0,0,0,0,1,0,0,0,18,0,1,0,0,0,0,0,0,0,0,0,0,0,0,0,0,0,0,0,16,0,0,0,18,0,1,0,0,0,0,0,0,0,0,0,0,0,0,0,0,0,0,0,31,0,0,0,18,0,1,0,0,0,0,0,0,0,0,0,0,0,0,0,0,0,0,0,39,0,0,0,18,0,1,0,0,0,0,0,0,0,0,0,0,0,0,0,0,0,0,0,54,0,0,0,18,0,1,0,0,0,0,0,0,0,0,0,0,0,0,0,0,0,0,0,0,95,95,110,101,97,114,95,97,98,105,95,102,111,111,0,95,95,110,101,97,114,95,97,98,105,95,98,97,114,0,110,111,116,95,97,98,105,0,95,95,110,101,97,114,95,97,98,105,95,102,111,111,0,122,122,95,110,101,97,114,95,97,98,105,0,0,46,116,101,120,116,0,46,115,121,109,116,97,98,0,46,115,116,114,116,97,98,0,46,115,104,115,116,114,116,97,98,0]
}

fn plain_elf() -> Vec<u8> {
    vec![127,69,76,70,2,1,1,0,0,0,0,0,0,0,0,0,3,0,62,0,1,0,0,0,0,0,0,0,0,0,0,0,0,0,0,0,0,0,0,0,64,0,0,0,0,0,0,0,0,0,0,0,64,0,0,0,0,0,64,0,5,0,4,0,0,0,0,0,0,0,0,0,0,0,0,0,0,0,0,0,0,0,0,0,0,0,0,0,0,0,0,0,0,0,0,0,0,0,0,0,0,0,0,0,0,0,0,0,0,0,0,0,0,0,0,0,0,0,0,0,0,0,0,0,0,0,0,0,1,0,0,0,1,0,0,0,6,0,0,0,0,0,0,0,0,0,0,0,0,0,0,0,128,1,0,0,0,0,0,0,0,0,0,0,0,0,0,0,0,0,0,0,0,0,0,0,16,0,0,0,0,0,0,0,0,0,0,0,0,0,0,0,7,0,0,0,2,0,0,0,0,0,0,0,0,0,0,0,0,0,0,0,0,0,0,0,128,1,0,0,0,0,0,0,72,0,0,0,0,0,0,0,3,0,0,0,1,0,0,0,8,0,0,0,0,0,0,0,24,0,0,0,0,0,0,0,15,0,0,0,3,0,0,0,0,0,0,0,0,0,0,0,0,0,0,0,0,0,0,0,200,1,0,0,0,0,0,0,19,0,0,0,0,0,0,0,0,0,0,0,0,0,0,0,1,0,0,0,0,0,0,0,0,0,0,0,0,0,0,0,23,0,0,0,3,0,0,0,0,0,0,0,0,0,0,0,0,0,0,0,0,0,0,0,219,1,0,0,0,0,0,0,33,0,0,0,0,0,0,0,0,0,0,0,0,0,0,0,1,0,0,0,0,0,0,0,0,0,0,0,0,0,0,0,0,0,0,0,0,0,0,0,0,0,0,0,0,0,0,0,0,0,0,0,0,0,0,0,1,0,0,0,18,0,1,0,0,0,0,0,0,0,0,0,0,0,0,0,0,0,0,0,10,0,0,0,18,0,1,0,0,0,0,0,0,0,0,0,0,0,0,0,0,0,0,0,0,112,108,97,105,110,95,102,110,0,111,116,104,101,114,95,102,110,0,0,46,116,101,120,116,0,46,115,121,109,116,97,98,0,46,115,116,114,116,97,98,0,46,115,104,115,116,114,116,97,98,0]
}

fn bv(s: &str) -> Vec<u8> {
    s.as_bytes().to_vec()
}

#[test]
fn extracts_symbols_from_object() {
    let names = object_symbol_names(&abi_elf()).unwrap();
    assert!(names.contains(&bv("__near_abi_foo")));
    assert!(names.contains(&bv("__near_abi_bar")));
    assert!(names.contains(&bv("not_abi")));
}

#[test]
fn garbage_is_unrecognized_binary() {
    let r = object_symbol_names(&bv("not an object file"));
    assert!(matches!(r, Err(PipelineError::UnrecognizedBinaryFormat)));
}

#[test]
fn filter_sorts_and_dedups() {
    let names = object_symbol_names(&abi_elf()).unwrap();
    let filtered = filter_abi_symbols(&names);
    assert_eq!(filtered, vec![bv("__near_abi_bar"), bv("__near_abi_foo")]);
}

#[test]
fn filter_is_order_independent() {
    let a = vec![bv("__near_abi_b"), bv("__near_abi_a"), bv("other")];
    let b = vec![bv("__near_abi_a"), bv("other"), bv("__near_abi_b"), bv("__near_abi_a")];
    assert_eq!(filter_abi_symbols(&a), filter_abi_symbols(&b));
}

#[test]
fn filter_of_no_matches_is_empty() {
    let names = object_symbol_names(&plain_elf()).unwrap();
    let filtered = filter_abi_symbols(&names);
    assert!(filtered.is_empty());
}

#[test]
fn extraction_is_deterministic() {
    let one = object_symbol_names(&abi_elf()).unwrap();
    let two = object_symbol_names(&abi_elf()).unwrap();
    assert_eq!(one, two);
}
