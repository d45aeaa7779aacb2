//! Tests of the storage-native encodings and the statement parameters.

use graph_mirror::encode::{encode_i32_list, encode_props, encode_string_list, encode_u32_list};
use graph_mirror::gateway::{client_args, link_args, node_args, Arg};
use graph_mirror::model::{Client, Link, Node, ObjectId, PropertyBag};

fn bag(entries: &[(&str, &str)]) -> PropertyBag {
    let mut b = PropertyBag::new();
    for (k, v) in entries {
        b.push(k.to_string(), v.to_string());
    }
    b
}

#[test]
fn encode_props_single_entry() {
    let b = bag(&[("app", "Test")]);
    assert_eq!(encode_props(&b), "{\"app\":\"Test\"}");
}

#[test]
fn encode_props_empty_bag() {
    let b = bag(&[]);
    assert_eq!(encode_props(&b), "{}");
}

#[test]
fn encode_props_keeps_order_and_escapes() {
    let b = bag(&[("a", "x\"y"), ("b", "line\nbreak")]);
    assert_eq!(encode_props(&b), "{\"a\":\"x\\\"y\",\"b\":\"line\\nbreak\"}");
}

#[test]
fn encode_u32_list_exact() {
    assert_eq!(encode_u32_list(&vec![]), "[]");
    assert_eq!(encode_u32_list(&vec![0]), "[0]");
    assert_eq!(encode_u32_list(&vec![1, 20, 300]), "[1,20,300]");
    assert_eq!(encode_u32_list(&vec![u32::MAX]), "[4294967295]");
}

#[test]
fn encode_u32_list_holds_float_bits() {
    let bits = vec![0.5f32.to_bits(), 1.0f32.to_bits()];
    assert_eq!(encode_u32_list(&bits), "[1056964608,1065353216]");
    assert_eq!(f32::from_bits(1056964608), 0.5f32);
}

#[test]
fn encode_i32_list_exact() {
    assert_eq!(encode_i32_list(&vec![]), "[]");
    assert_eq!(encode_i32_list(&vec![-1, 0, 7]), "[-1,0,7]");
    assert_eq!(encode_i32_list(&vec![i32::MIN, i32::MAX]), "[-2147483648,2147483647]");
}

#[test]
fn encode_string_list_exact() {
    assert_eq!(encode_string_list(&vec![]), "[]");
    assert_eq!(encode_string_list(&vec!["FL".to_string(), "FR".to_string()]), "[\"FL\",\"FR\"]");
    assert_eq!(encode_string_list(&vec!["x\"y".to_string()]), "[\"x\\\"y\"]");
}

#[test]
fn client_args_hold_id_and_encoded_props() {
    let c = Client { object_id: ObjectId::from_raw_id(42), props: bag(&[("app", "Test")]) };
    let args = client_args(&c);
    assert_eq!(args.len(), 2);
    assert!(matches!(args[0], Arg::Int(42)));
    assert!(matches!(args[1], Arg::Text(ref t) if t == "{\"app\":\"Test\"}"));
}

#[test]
fn node_args_distinguish_absent_from_empty() {
    let n = Node {
        object_id: ObjectId::from_raw_id(7),
        props: bag(&[]),
        volumes: Some(vec![]),
        mute: None,
        peaks: None,
        rate: Some(48000),
        positions: None,
    };
    let args = node_args(&n);
    assert_eq!(args.len(), 7);
    assert!(matches!(args[2], Arg::Text(ref t) if t == "[]"));
    assert!(matches!(args[3], Arg::Null));
    assert!(matches!(args[4], Arg::Null));
    assert!(matches!(args[5], Arg::Int(48000)));
    assert!(matches!(args[6], Arg::Null));
}

#[test]
fn link_args_hold_all_three_ids() {
    let l = Link { output_id: ObjectId::from_raw_id(5), input_id: ObjectId::from_raw_id(6) };
    let args = link_args(ObjectId::from_raw_id(4), &l);
    assert_eq!(args.len(), 3);
    assert!(matches!(args[0], Arg::Int(4)));
    assert!(matches!(args[1], Arg::Int(5)));
    assert!(matches!(args[2], Arg::Int(6)));
}

#[test]
fn object_id_round_trip() {
    let id = ObjectId::from_raw_id(123);
    assert_eq!(id.raw_id(), 123);
    assert_eq!(id, ObjectId::from_raw_id(123));
}

#[test]
fn property_bag_set_replaces_in_place_and_appends() {
    let mut b = bag(&[("a", "1"), ("b", "2")]);
    b.set("a".to_string(), "9".to_string());
    b.set("c".to_string(), "3".to_string());
    assert_eq!(encode_props(&b), "{\"a\":\"9\",\"b\":\"2\",\"c\":\"3\"}");
    assert_eq!(b.len(), 3);
}
