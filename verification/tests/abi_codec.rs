use evm_codec::evm::abi::abi_item::AbiItem;
use evm_codec::evm::abi::codec::{first_of, DecodedEvent};
use evm_codec::evm::abi::error::AbiError;
use evm_codec::evm::abi::event::Event;
use evm_codec::evm::abi::function::Function;
use evm_codec::evm::abi::json_encoding::{
    encode_call, encode_event, encode_values, write_key_value, write_key_value_str,
    write_object_key, write_value, write_values_as_array, write_values_as_object,
    CompactFormatterExt,
};
use evm_codec::evm::abi::codec::Param;
use evm_codec::evm::abi::signature::{event_full_signature, function_full_signature, signature};
use evm_codec::evm::abi::value::DecodedValue;
use evm_codec::evm::decoded_event_ext::{DecodedEventExt, EventJSONExt};

fn word(low: &[u8]) -> [u8; 32] {
    let mut w = [0u8; 32];
    w[32 - low.len()..].copy_from_slice(low);
    w
}

fn text(value: &DecodedValue) -> String {
    let mut w = Vec::new();
    write_value(&mut w, value);
    String::from_utf8(w).unwrap()
}

fn json(bytes: &[u8]) -> Vec<u8> {
    bytes.to_vec()
}

fn transfer_payload() -> Vec<u8> {
    let mut data = vec![0xa9, 0x05, 0x9c, 0xbb];
    data.extend_from_slice(&[0u8; 12]);
    data.extend_from_slice(&[0xab; 20]);
    data.extend_from_slice(&word(&[0x03, 0xe8]));
    data
}

#[test]
fn transfer_call_decodes_to_the_documented_report() {
    let item = AbiItem::parse("function transfer(address,uint256)").unwrap();
    let AbiItem::Function(func) = item else { panic!("a function was declared") };
    assert_eq!(func.sig(), "transfer(address,uint256)");
    assert_eq!(func.name(), "transfer");
    assert_eq!(func.selector(), [0xa9, 0x05, 0x9c, 0xbb]);
    assert_eq!(func.inputs().len(), 2);
    assert_eq!(func.inputs()[0].ty, "address");
    assert_eq!(func.outputs().len(), 0);
    let payload = transfer_payload();
    let inputs = func.abi_decode_input(&payload[4..]).unwrap();
    let report = encode_call(&func, &inputs, None);
    let expected = "{\"value\":{\"signature\":\"transfer(address,uint256)\",\"fullsig\":\"function transfer(address,uint256)\",\"inputs\":{\"arg0\":\"0xabababababababababababababababababababab\",\"arg1\":1000}}}";
    assert_eq!(String::from_utf8(report).unwrap(), expected);
    assert_eq!(func.fullsig(), "function transfer(address,uint256)");
}

#[test]
fn call_report_numbers_outputs_from_zero_again() {
    let func = Function::parse("function balanceOf(address owner) view returns (uint256, bool)").unwrap();
    let inputs = vec![DecodedValue::Address([0x11; 20])];
    let outputs = vec![DecodedValue::Uint(word(&[7]), 256), DecodedValue::Bool(true)];
    let report = encode_call(&func, &inputs, Some(&outputs));
    let expected = format!(
        "{{\"value\":{{\"signature\":\"balanceOf(address)\",\"fullsig\":\"function balanceOf(address owner) view returns (uint256,bool)\",\"inputs\":{{\"arg0\":\"0x{}\"}},\"outputs\":{{\"arg0\":7,\"arg1\":true}}}}}}",
        "11".repeat(20)
    );
    assert_eq!(String::from_utf8(report).unwrap(), expected);
}

#[test]
fn decoded_inputs_encode_back_to_the_payload() {
    let func = Function::parse("transfer(address,uint256)").unwrap();
    let payload = transfer_payload();
    let inputs = func.abi_decode_input(&payload[4..]).unwrap();
    assert_eq!(func.abi_encode_input(&inputs).unwrap(), payload);
}

#[test]
fn composite_arguments_survive_decoding_and_encoding() {
    let func = Function::parse(
        "function f(uint8[] a, (bool,string)[2] b, bytes c, int128 d, bytes4 e, string s)",
    )
    .unwrap();
    let args = vec![
        json(b"[1,2,3]"),
        json(b"[[true,\"x\"],[false,\"a longer string that does not fit into one word of 32 bytes\"]]"),
        json(b"\"0x0102030405\""),
        json(b"\"-170141183460469231731687303715884105728\""),
        json(b"\"0xdeadbeef\""),
        json(b"\"h\\\"i\""),
    ];
    let values = func.coerce_inputs(&args).unwrap();
    let payload = func.abi_encode_input(&values).unwrap();
    assert_eq!(payload[..4], func.selector());
    let decoded = func.abi_decode_input(&payload[4..]).unwrap();
    assert_eq!(func.abi_encode_input(&decoded).unwrap(), payload);
    let report = String::from_utf8(encode_call(&func, &decoded, None)).unwrap();
    assert!(report.ends_with(
        "\"inputs\":{\"arg0\":[1,2,3],\"arg1\":[{\"arg0\":true,\"arg1\":\"x\"},{\"arg0\":false,\"arg1\":\"a longer string that does not fit into one word of 32 bytes\"}],\"arg2\":\"0x0102030405\",\"arg3\":\"-170141183460469231731687303715884105728\",\"arg4\":\"0xdeadbeef00000000000000000000000000000000000000000000000000000000\",\"arg5\":\"h\\\"i\"}}}"
    ));
}

#[test]
fn decoding_fails_on_bytes_that_are_too_short() {
    let func = Function::parse("transfer(address,uint256)").unwrap();
    assert!(matches!(func.abi_decode_input(&[0u8; 31]), Err(AbiError::Decode(_))));
    assert!(matches!(func.abi_decode_output(&[0u8; 31]), Ok(values) if values.is_empty()));
}

#[test]
fn encoding_fails_on_values_of_other_types() {
    let func = Function::parse("transfer(address,uint256)").unwrap();
    let values = vec![DecodedValue::Bool(true), DecodedValue::Uint(word(&[1]), 256)];
    assert!(matches!(func.abi_encode_input(&values), Err(AbiError::Encode(_))));
    let too_few = vec![DecodedValue::Address([0; 20])];
    assert!(matches!(func.abi_encode_input(&too_few), Err(AbiError::Encode(_))));
}

#[test]
fn coercion_wants_one_argument_for_each_input() {
    let func = Function::parse("transfer(address,uint256)").unwrap();
    let one = vec![json(b"\"0x0000000000000000000000000000000000000001\"")];
    assert!(matches!(func.coerce_inputs(&one), Err(AbiError::Coercion(_))));
    let three = vec![
        json(b"\"0x0000000000000000000000000000000000000001\""),
        json(b"1"),
        json(b"2"),
    ];
    assert!(matches!(func.coerce_inputs(&three), Err(AbiError::Coercion(_))));
}

#[test]
fn coercion_refuses_what_does_not_fit_the_type() {
    let func = Function::parse("f(bytes,uint8[2])").unwrap();
    let not_hex = vec![json(b"\"zz\""), json(b"[1,2]")];
    assert!(matches!(func.coerce_inputs(&not_hex), Err(AbiError::Coercion(_))));
    let wrong_arity = vec![json(b"\"0x00\""), json(b"[1,2,3]")];
    assert!(matches!(func.coerce_inputs(&wrong_arity), Err(AbiError::Coercion(_))));
    let fine = vec![json(b"\"0x00\""), json(b"[1,2]")];
    let values = func.coerce_inputs(&fine).unwrap();
    assert_eq!(values.len(), 2);
    assert!(matches!(&values[0], DecodedValue::Bytes(b) if b == &vec![0u8]));
    assert!(matches!(&values[1], DecodedValue::FixedArray(items) if items.len() == 2));
}

#[test]
fn parsing_reports_what_is_no_declaration() {
    assert!(matches!(AbiItem::parse("transfer(address,uint256)"), Err(AbiError::Parse(_))));
    assert!(matches!(AbiItem::parse("function f(notatype)"), Err(AbiError::Unresolved(_))));
    assert!(matches!(Function::parse("f(uint7)"), Err(AbiError::Unresolved(_))));
    assert!(matches!(Event::parse("E(bytes33 indexed x)"), Err(AbiError::Unresolved(_))));
    assert!(matches!(AbiItem::parse("error Oops(uint256)"), Err(AbiError::NotFunctionOrEvent)));
    assert!(matches!(AbiItem::parse("constructor(uint256)"), Err(AbiError::NotFunctionOrEvent)));
    assert!(matches!(Function::parse("event(("), Err(AbiError::Parse(_))));
    assert!(matches!(Event::parse("Transfer(address indexed,uint256"), Err(AbiError::Parse(_))));
    assert!(matches!(Function::new("{}"), Err(AbiError::InvalidDescriptor)));
    assert!(matches!(Event::new("not json"), Err(AbiError::InvalidDescriptor)));
}

#[test]
fn descriptors_build_the_same_items_as_declarations() {
    let parsed = Function::parse("function transfer(address to, uint256 amount) returns (bool)").unwrap();
    let rebuilt = Function::new(parsed.descriptor()).unwrap();
    assert_eq!(rebuilt.sig(), parsed.sig());
    assert_eq!(rebuilt.fullsig(), parsed.fullsig());
    assert_eq!(rebuilt.selector(), parsed.selector());
    assert_eq!(rebuilt.inputs()[1].name, "amount");
    assert_eq!(rebuilt.outputs()[0].ty, "bool");
    assert!(matches!(Event::new(parsed.descriptor()), Err(AbiError::InvalidDescriptor)));
}

fn transfer_event() -> Event {
    Event::parse("event Transfer(address indexed from, address indexed to, uint256 value)").unwrap()
}

fn transfer_topics(event: &Event) -> Vec<[u8; 32]> {
    vec![event.selector(), word(&[0x11; 20]), word(&[0x22; 20])]
}

#[test]
fn event_selector_is_the_hash_of_the_signature() {
    let event = transfer_event();
    assert_eq!(event.sig(), "Transfer(address,address,uint256)");
    assert_eq!(event.name(), "Transfer");
    assert!(!event.anonymous());
    assert_eq!(event.inputs().len(), 3);
    assert!(event.inputs()[0].indexed);
    assert!(!event.inputs()[2].indexed);
    let expected = [
        0xdd, 0xf2, 0x52, 0xad, 0x1b, 0xe2, 0xc8, 0x9b, 0x69, 0xc2, 0xb0, 0x68, 0xfc, 0x37, 0x8d,
        0xaa, 0x95, 0x2b, 0xa7, 0xf1, 0x63, 0xc4, 0xa1, 0x16, 0x28, 0xf5, 0x5a, 0x4d, 0xf5, 0x23,
        0xb3, 0xef,
    ];
    assert_eq!(event.selector(), expected);
}

#[test]
fn log_with_one_topic_per_indexed_parameter_decodes() {
    let event = transfer_event();
    let topics = transfer_topics(&event);
    let decoded = event.decode_log_parts(&topics, &word(&[0x01, 0x00, 0x00, 0x00, 0x00])).unwrap();
    assert_eq!(decoded.indexed.len(), 2);
    assert_eq!(decoded.body.len(), 1);
    let report = String::from_utf8(encode_event(&event, &decoded).unwrap()).unwrap();
    let expected = format!(
        "{{\"value\":{{\"signature\":\"Transfer(address,address,uint256)\",\"fullsig\":\"event Transfer(address indexed from,address indexed to,uint256 value)\",\"inputs\":{{\"arg0\":\"0x{}\",\"arg1\":\"0x{}\",\"arg2\":\"4294967296\"}}}}}}",
        "11".repeat(20),
        "22".repeat(20)
    );
    assert_eq!(report, expected);
}

#[test]
fn log_with_a_topic_too_few_or_too_many_has_the_wrong_shape() {
    let event = transfer_event();
    let data = word(&[1]);
    let mut topics = transfer_topics(&event);
    topics.pop();
    assert!(matches!(
        event.decode_log_parts(&topics, &data),
        Err(AbiError::LogShape { expected: 2, actual: 1 })
    ));
    let mut topics = transfer_topics(&event);
    topics.push(word(&[0x33]));
    assert!(matches!(
        event.decode_log_parts(&topics, &data),
        Err(AbiError::LogShape { expected: 2, actual: 3 })
    ));
    assert!(matches!(
        event.decode_log_parts(&Vec::new(), &data),
        Err(AbiError::LogShape { expected: 2, actual: 0 })
    ));
}

#[test]
fn log_of_another_event_is_refused() {
    let event = transfer_event();
    let mut topics = transfer_topics(&event);
    topics[0] = [0u8; 32];
    assert!(matches!(
        event.decode_log_parts(&topics, &word(&[1])),
        Err(AbiError::SignatureMismatch)
    ));
}

#[test]
fn log_with_short_data_does_not_decode() {
    let event = transfer_event();
    let topics = transfer_topics(&event);
    assert!(matches!(event.decode_log_parts(&topics, &[0u8; 5]), Err(AbiError::Decode(_))));
}

#[test]
fn anonymous_event_has_no_selector_topic() {
    let event = Event::parse("event Ping(uint256 indexed id) anonymous").unwrap();
    assert!(event.anonymous());
    let decoded = event.decode_log_parts(&vec![word(&[9])], &[]).unwrap();
    assert_eq!(decoded.selector, None);
    let report = String::from_utf8(encode_event(&event, &decoded).unwrap()).unwrap();
    assert!(report.ends_with("\"inputs\":{\"arg0\":9}}}"));
    assert!(matches!(
        event.decode_log_parts(&vec![word(&[9]), word(&[9])], &[]),
        Err(AbiError::LogShape { expected: 1, actual: 2 })
    ));
}

#[test]
fn event_report_needs_a_value_for_every_parameter() {
    let event = transfer_event();
    let short_indexed = DecodedEvent {
        selector: None,
        indexed: vec![DecodedValue::Address([1; 20])],
        body: vec![DecodedValue::Uint(word(&[1]), 256)],
    };
    assert!(matches!(encode_event(&event, &short_indexed), Err(AbiError::NotEnoughIndexed)));
    let short_body = DecodedEvent {
        selector: None,
        indexed: vec![DecodedValue::Address([1; 20]), DecodedValue::Address([2; 20])],
        body: vec![],
    };
    assert!(matches!(encode_event(&event, &short_body), Err(AbiError::NotEnoughUnindexed)));
}

#[test]
fn event_values_keep_the_order_of_the_declaration() {
    let event = Event::parse("event Mixed(uint8 a, uint8 indexed b, uint8 c, uint8 indexed d)").unwrap();
    let decoded = DecodedEvent {
        selector: None,
        indexed: vec![DecodedValue::Uint(word(&[2]), 8), DecodedValue::Uint(word(&[4]), 8)],
        body: vec![DecodedValue::Uint(word(&[1]), 8), DecodedValue::Uint(word(&[3]), 8)],
    };
    let report = String::from_utf8(encode_event(&event, &decoded).unwrap()).unwrap();
    assert!(report.ends_with("\"inputs\":{\"arg0\":1,\"arg1\":2,\"arg2\":3,\"arg3\":4}}}"));
}

#[test]
fn booleans_strings_and_bytes() {
    assert_eq!(text(&DecodedValue::Bool(true)), "true");
    assert_eq!(text(&DecodedValue::Bool(false)), "false");
    assert_eq!(text(&DecodedValue::String("a\"b\\\u{7}\u{e9}".to_string())), "\"a\\\"b\\\\\\u0007\u{e9}\"");
    assert_eq!(text(&DecodedValue::Bytes(vec![])), "\"0x\"");
    assert_eq!(text(&DecodedValue::Bytes(vec![0, 0xff, 0x1a])), "\"0x00ff1a\"");
    assert_eq!(text(&DecodedValue::Address([0xAB; 20])), format!("\"0x{}\"", "ab".repeat(20)));
    assert_eq!(text(&DecodedValue::Function([0xcd; 24])), format!("\"0x{}\"", "cd".repeat(24)));
    let mut four = [0u8; 32];
    four[..4].copy_from_slice(&[1, 2, 3, 4]);
    assert_eq!(
        text(&DecodedValue::FixedBytes(four, 4)),
        format!("\"0x01020304{}\"", "00".repeat(28))
    );
}

#[test]
fn unsigned_integers_up_to_32_bits_are_numbers() {
    assert_eq!(text(&DecodedValue::Uint(word(&[]), 256)), "0");
    assert_eq!(text(&DecodedValue::Uint(word(&[0xff, 0xff, 0xff, 0xff]), 256)), "4294967295");
    assert_eq!(text(&DecodedValue::Uint(word(&[1, 0, 0, 0, 0]), 64)), "\"4294967296\"");
    assert_eq!(
        text(&DecodedValue::Uint([0xff; 32], 256)),
        "\"115792089237316195423570985008687907853269984665640564039457584007913129639935\""
    );
}

#[test]
fn signed_integers_of_types_up_to_32_bits_are_numbers() {
    assert_eq!(text(&DecodedValue::Int([0xff; 32], 8)), "-1");
    assert_eq!(text(&DecodedValue::Int(word(&[0x7f, 0xff, 0xff, 0xff]), 32)), "2147483647");
    let mut min = [0xff; 32];
    min[28..].copy_from_slice(&[0x80, 0, 0, 0]);
    assert_eq!(text(&DecodedValue::Int(min, 32)), "-2147483648");
    assert_eq!(text(&DecodedValue::Int([0xff; 32], 40)), "\"-1\"");
    assert_eq!(text(&DecodedValue::Int(word(&[5]), 256)), "\"5\"");
    let mut lowest = [0u8; 32];
    lowest[0] = 0x80;
    assert_eq!(
        text(&DecodedValue::Int(lowest, 256)),
        "\"-57896044618658097711785492504343953926634992332820282019728792003956564819968\""
    );
}

#[test]
fn arrays_tuples_and_structs() {
    let items = vec![DecodedValue::Bool(true), DecodedValue::Uint(word(&[2]), 8)];
    assert_eq!(text(&DecodedValue::Array(vec![])), "[]");
    assert_eq!(text(&DecodedValue::Tuple(vec![])), "{}");
    assert_eq!(
        text(&DecodedValue::FixedArray(vec![DecodedValue::Bool(false), DecodedValue::Bool(true)])),
        "[false,true]"
    );
    assert_eq!(text(&DecodedValue::Tuple(items)), "{\"arg0\":true,\"arg1\":2}");
    let eleven: Vec<DecodedValue> = (0..11u8).map(|i| DecodedValue::Uint(word(&[i]), 8)).collect();
    assert!(text(&DecodedValue::Tuple(eleven)).ends_with(",\"arg9\":9,\"arg10\":10}"));
    let point = DecodedValue::CustomStruct {
        name: "Point".to_string(),
        fields: vec![
            ("x".to_string(), DecodedValue::Uint(word(&[1]), 256)),
            ("y".to_string(), DecodedValue::Array(vec![DecodedValue::Tuple(vec![])])),
        ],
    };
    assert_eq!(text(&point), "{\"x\":1,\"y\":[{}]}");
}

#[test]
fn writers_of_members_put_commas_between_them() {
    let mut w = Vec::new();
    write_object_key(&mut w, b"a", true);
    write_object_key(&mut w, b"b", false);
    assert_eq!(w, b"\"a\":,\"b\":".to_vec());
    let mut w = Vec::new();
    write_key_value(&mut w, b"k", &DecodedValue::Bool(true), true);
    write_key_value_str(&mut w, b"s", "q\"", false);
    assert_eq!(w, b"\"k\":true,\"s\":\"q\\\"\"".to_vec());
    let mut w = Vec::new();
    write_values_as_array(&mut w, &vec![DecodedValue::Bool(true), DecodedValue::Bool(false)]);
    write_values_as_object(&mut w, &vec![DecodedValue::Bool(true)]);
    assert_eq!(w, b"[true,false]{\"arg0\":true}".to_vec());
}

#[test]
fn values_are_reported_under_their_names() {
    let values = vec![
        ("first".to_string(), DecodedValue::Bool(true)),
        ("second".to_string(), DecodedValue::String("x".to_string())),
    ];
    assert_eq!(encode_values(&values), b"{\"value\":{\"first\":true,\"second\":\"x\"}}".to_vec());
    assert_eq!(encode_values(&vec![]), b"{\"value\":{}}".to_vec());
}

#[test]
fn buffer_writes_json_piece_by_piece() {
    let mut w: Vec<u8> = Vec::new();
    CompactFormatterExt::write_object_key(&mut w, b"a", true);
    CompactFormatterExt::write_single_fragment_string(&mut w, b"x\"y");
    CompactFormatterExt::write_object_key(&mut w, b"b", false);
    CompactFormatterExt::write_string(&mut w, b"x\"y");
    CompactFormatterExt::write_key_value(&mut w, b"c", &DecodedValue::Bool(false), false);
    CompactFormatterExt::write_key_value_str(&mut w, b"d", "\n", false);
    CompactFormatterExt::write_value(&mut w, &DecodedValue::Uint(word(&[1]), 8));
    CompactFormatterExt::write_values_as_array(&mut w, &vec![DecodedValue::Bool(true)]);
    CompactFormatterExt::write_values_as_object(&mut w, &vec![DecodedValue::Bool(true)]);
    assert_eq!(
        String::from_utf8(w).unwrap(),
        "\"a\":\"x\"y\",\"b\":\"x\\\"y\",\"c\":false,\"d\":\"\\n\"1[true]{\"arg0\":true}"
    );
}

#[test]
fn decoded_log_formats_as_the_report_of_its_event() {
    let event = transfer_event();
    let topics = transfer_topics(&event);
    let data = word(&[7]);
    let decoded = event.decode_log_parts(&topics, &data).unwrap();
    let mut w = b"x".to_vec();
    decoded.format_as_json(&event, &mut w).unwrap();
    let report = encode_event(&event, &decoded).unwrap();
    assert_eq!(w[1..], report[..]);
    assert_eq!(event.decode_log_parts_to_json_value(&topics, &data).unwrap(), report);
    assert!(matches!(
        event.decode_log_parts_to_json_value(&topics[..2].to_vec(), &data),
        Err(AbiError::LogShape { .. })
    ));
    let short = DecodedEvent { selector: None, indexed: vec![], body: vec![] };
    let mut untouched = b"x".to_vec();
    assert!(matches!(short.format_as_json(&event, &mut untouched), Err(AbiError::NotEnoughIndexed)));
    assert_eq!(untouched, b"x".to_vec());
}

#[test]
fn first_result_that_is_there_is_chosen() {
    assert_eq!(first_of(Some(1), Some(2), 3), 1);
    assert_eq!(first_of(Some(1), None, 3), 1);
    assert_eq!(first_of(None, Some(2), 3), 2);
    assert_eq!(first_of(None::<u8>, None, 3), 3);
}

#[test]
fn every_kind_of_value_crosses_to_alloy_and_back() {
    let func = Function::parse(
        "f(bool,int8,uint256,bytes3,address,function,bytes,string,uint8[],bool[2],(uint8,string))",
    )
    .unwrap();
    let mut three = [0u8; 32];
    three[..3].copy_from_slice(&[1, 2, 3]);
    let values = vec![
        DecodedValue::Bool(true),
        DecodedValue::Int([0xff; 32], 8),
        DecodedValue::Uint(word(&[1, 0, 0, 0, 0]), 256),
        DecodedValue::FixedBytes(three, 3),
        DecodedValue::Address([0x11; 20]),
        DecodedValue::Function([0x5a; 24]),
        DecodedValue::Bytes(vec![9, 8, 7]),
        DecodedValue::String("text".to_string()),
        DecodedValue::Array(vec![DecodedValue::Uint(word(&[4]), 8)]),
        DecodedValue::FixedArray(vec![DecodedValue::Bool(false), DecodedValue::Bool(true)]),
        DecodedValue::Tuple(vec![
            DecodedValue::Uint(word(&[5]), 8),
            DecodedValue::String("in".to_string()),
        ]),
    ];
    let payload = func.abi_encode_input(&values).unwrap();
    let decoded = func.abi_decode_input(&payload[4..]).unwrap();
    assert_eq!(func.abi_encode_input(&decoded).unwrap(), payload);
    let report = String::from_utf8(encode_call(&func, &decoded, None)).unwrap();
    let expected = format!(
        "\"inputs\":{{\"arg0\":true,\"arg1\":-1,\"arg2\":\"4294967296\",\"arg3\":\"0x010203{}\",\"arg4\":\"0x{}\",\"arg5\":\"0x{}\",\"arg6\":\"0x090807\",\"arg7\":\"text\",\"arg8\":[4],\"arg9\":[false,true],\"arg10\":{{\"arg0\":5,\"arg1\":\"in\"}}}}}}}}",
        "00".repeat(29),
        "11".repeat(20),
        "5a".repeat(24)
    );
    assert!(report.ends_with(&expected), "{}", report);
}

fn param(ty: &str, name: &str, indexed: bool) -> Param {
    Param { name: name.to_string(), ty: ty.to_string(), indexed }
}

#[test]
fn signatures_are_written_without_spaces_after_commas() {
    let inputs = vec![param("address", "", false), param("uint256", "", false)];
    assert_eq!(signature("transfer", &inputs), "transfer(address,uint256)");
    assert_eq!(signature("f", &vec![]), "f()");
    assert_eq!(
        function_full_signature("transfer", &inputs, &vec![], &None),
        "function transfer(address,uint256)"
    );
    let named = vec![param("address", "to", false), param("(uint8,bool)[]", "", false)];
    let outputs = vec![param("bool", "", false), param("uint8", "n", false)];
    assert_eq!(
        function_full_signature("g", &named, &outputs, &Some("payable".to_string())),
        "function g(address to,(uint8,bool)[]) payable returns (bool,uint8 n)"
    );
    assert_eq!(function_full_signature("h", &vec![], &vec![], &None), "function h()");
    let event = vec![param("address", "from", true), param("uint256", "", true), param("bytes", "data", false)];
    assert_eq!(
        event_full_signature("E", &event, false),
        "event E(address indexed from,uint256 indexed,bytes data)"
    );
    assert_eq!(event_full_signature("E", &vec![], true), "event E() anonymous");
}

#[test]
fn signatures_of_parsed_items() {
    let json = r#"{"type":"function","name":"f","inputs":[{"name":"pairs","type":"tuple[]","components":[{"name":"a","type":"uint256"},{"name":"b","type":"bool"}]},{"name":"s","type":"string"}],"outputs":[{"name":"","type":"bytes"}],"stateMutability":"pure"}"#;
    let func = Function::new(json).unwrap();
    assert_eq!(func.sig(), "f((uint256,bool)[],string)");
    assert_eq!(func.fullsig(), "function f((uint256,bool)[] pairs,string s) pure returns (bytes)");
    assert_eq!(func.inputs()[0].ty, "(uint256,bool)[]");
    let event = Event::parse("event Ping(uint256 indexed id) anonymous").unwrap();
    assert_eq!(event.sig(), "Ping(uint256)");
    assert_eq!(event.fullsig(), "event Ping(uint256 indexed id) anonymous");
}

#[test]
fn call_data_begin_with_the_selector_and_hold_a_value_for_each_input() {
    let func = Function::parse("transfer(address,uint256)").unwrap();
    let values = vec![DecodedValue::Address([0x11; 20]), DecodedValue::Uint(word(&[5]), 256)];
    let payload = func.abi_encode_input(&values).unwrap();
    assert_eq!(payload[..4], func.selector());
    assert_eq!(payload[..4], [0xa9, 0x05, 0x9c, 0xbb]);
    assert_eq!(payload.len(), 68);
    assert_eq!(func.abi_decode_input(&payload[4..]).unwrap().len(), func.inputs().len());
    let outputs = Function::parse("f() returns (bool, bool, bool)").unwrap();
    assert_eq!(outputs.abi_decode_output(&[0u8; 96]).unwrap().len(), 3);
    assert!(matches!(outputs.abi_encode_input(&values), Err(AbiError::Encode(_))));
}

#[test]
fn decoded_log_holds_a_value_for_every_parameter() {
    let event = Event::parse("event Transfer(address indexed from, address indexed to, uint256 value)").unwrap();
    let mut word = [0u8; 32];
    word[31] = 9;
    let topics = vec![event.selector(), word, word];
    let decoded = event.decode_log_parts(&topics, &word).unwrap();
    assert_eq!(decoded.indexed.len(), 2);
    assert_eq!(decoded.body.len(), 1);
    assert!(matches!(event.decode_log_parts(&topics, &[]), Err(AbiError::Decode(_))));
    assert!(matches!(
        event.decode_log_parts(&topics[..2].to_vec(), &word),
        Err(AbiError::LogShape { expected: 2, actual: 1 })
    ));
    let four = vec![event.selector(), word, word, word];
    assert!(matches!(
        event.decode_log_parts(&four, &word),
        Err(AbiError::LogShape { expected: 2, actual: 3 })
    ));
}
