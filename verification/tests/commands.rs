use evm_codec::cli::function::convert_format::{ConvertFormatCommand, Format};
use evm_codec::cli::function::ethereum_decode_tx::EthereumDecodeTxCommand;
use evm_codec::cli::function::ethereum_rpc::{EthereumRPCCommand, RpcInputError};
use evm_codec::cli::function::ethereum_rpc_call::{
    block_json, call_object_json, to_block_number_or_tag, BlockNumberOrTag, EthereumRPCCallCommand,
    RpcCallError,
};
use evm_codec::cli::function::evm_descriptor_from_fullsig::{
    write_error_report, write_value_report, EVMDescriptorFromFullsigCommand,
};
use evm_codec::cli::function::keccak256::Keccak256Command;
use evm_codec::cli::function::FunctionCommand;
use evm_codec::evm::abi::error::AbiError;
use evm_codec::evm::abi::function::Function;
use evm_codec::evm::rpc::rpc_client::RpcResult;

fn some(bytes: &[u8]) -> Option<Vec<u8>> {
    Some(bytes.to_vec())
}

#[test]
fn block_numbers_and_tags() {
    assert_eq!(to_block_number_or_tag(-4).unwrap(), BlockNumberOrTag::Safe);
    assert_eq!(to_block_number_or_tag(-3).unwrap(), BlockNumberOrTag::Finalized);
    assert_eq!(to_block_number_or_tag(-2).unwrap(), BlockNumberOrTag::Latest);
    assert_eq!(to_block_number_or_tag(-1).unwrap(), BlockNumberOrTag::Pending);
    assert_eq!(to_block_number_or_tag(0).unwrap(), BlockNumberOrTag::Earliest);
    assert_eq!(to_block_number_or_tag(1).unwrap(), BlockNumberOrTag::Number(1));
    assert_eq!(
        to_block_number_or_tag(i64::MAX).unwrap(),
        BlockNumberOrTag::Number(i64::MAX as u64)
    );
    assert!(matches!(to_block_number_or_tag(-5), Err(RpcCallError::BlockNumber)));
    assert!(matches!(to_block_number_or_tag(i64::MIN), Err(RpcCallError::BlockNumber)));
}

#[test]
fn block_names() {
    assert_eq!(block_json(BlockNumberOrTag::Latest), b"\"latest\"".to_vec());
    assert_eq!(block_json(BlockNumberOrTag::Finalized), b"\"finalized\"".to_vec());
    assert_eq!(block_json(BlockNumberOrTag::Safe), b"\"safe\"".to_vec());
    assert_eq!(block_json(BlockNumberOrTag::Earliest), b"\"earliest\"".to_vec());
    assert_eq!(block_json(BlockNumberOrTag::Pending), b"\"pending\"".to_vec());
    assert_eq!(block_json(BlockNumberOrTag::Number(0)), b"\"0x0\"".to_vec());
    assert_eq!(block_json(BlockNumberOrTag::Number(255)), b"\"0xff\"".to_vec());
    assert_eq!(block_json(BlockNumberOrTag::Number(0x1234abcd)), b"\"0x1234abcd\"".to_vec());
    assert_eq!(block_json(BlockNumberOrTag::Number(u64::MAX)), b"\"0xffffffffffffffff\"".to_vec());
}

#[test]
fn call_object_holds_the_call_data_and_the_address() {
    assert_eq!(
        call_object_json(b"0xabc", &[0, 1, 255]),
        b"{\"data\":[0,1,255],\"to\":\"0xabc\"}".to_vec()
    );
    assert_eq!(call_object_json(b"a\"b", &[]), b"{\"data\":[],\"to\":\"a\\\"b\"}".to_vec());
}

#[test]
fn eth_call_of_a_row() {
    let func = Function::parse("balanceOf(address) returns (uint256)").unwrap();
    let call = EthereumRPCCallCommand::build_call(
        &func,
        b"0x00000000000000000000000000000000000000aa",
        b"[\"0x00000000000000000000000000000000000000bb\"]",
        -2,
    )
    .unwrap();
    assert_eq!(call.method, "eth_call");
    assert_eq!(call.params.len(), 2);
    let mut numbers = vec!["112", "160", "130", "49"];
    numbers.extend(std::iter::repeat("0").take(31));
    numbers.push("187");
    let expected = format!(
        "{{\"data\":[{}],\"to\":\"0x00000000000000000000000000000000000000aa\"}}",
        numbers.join(",")
    );
    assert_eq!(String::from_utf8(call.params[0].clone()).unwrap(), expected);
    assert_eq!(call.params[1], b"\"latest\"".to_vec());
    let numbered = EthereumRPCCallCommand::build_call(
        &func,
        b"x",
        b"[\"0x00000000000000000000000000000000000000bb\"]",
        4096,
    )
    .unwrap();
    assert_eq!(numbered.params[1], b"\"0x1000\"".to_vec());
}

#[test]
fn eth_call_refuses_rows_that_do_not_fit() {
    let func = Function::parse("balanceOf(address) returns (uint256)").unwrap();
    let to: &[u8] = b"0x00000000000000000000000000000000000000aa";
    let args: &[u8] = b"[\"0x00000000000000000000000000000000000000bb\"]";
    assert!(matches!(
        EthereumRPCCallCommand::build_call(&func, to, &[0xff], 0),
        Err(RpcCallError::InvalidUtf8)
    ));
    assert!(matches!(
        EthereumRPCCallCommand::build_call(&func, &[0xff], args, 0),
        Err(RpcCallError::InvalidUtf8)
    ));
    assert!(matches!(
        EthereumRPCCallCommand::build_call(&func, to, b"[1,", 0),
        Err(RpcCallError::InvalidJson(_))
    ));
    assert!(matches!(
        EthereumRPCCallCommand::build_call(&func, to, b"{\"a\":1}", 0),
        Err(RpcCallError::DataNotArray)
    ));
    assert!(matches!(
        EthereumRPCCallCommand::build_call(&func, to, args, -7),
        Err(RpcCallError::BlockNumber)
    ));
    assert!(matches!(
        EthereumRPCCallCommand::build_call(&func, to, b"[]", 0),
        Err(RpcCallError::Abi(AbiError::Coercion(_)))
    ));
    assert!(matches!(
        EthereumRPCCallCommand::build_call(&func, to, b"[true]", 0),
        Err(RpcCallError::Abi(AbiError::Coercion(_)))
    ));
}

#[test]
fn result_of_an_eth_call() {
    let func = Function::parse("f() returns (uint256, string)").unwrap();
    let mut data = "0x".to_string();
    data.push_str(&"00".repeat(31));
    data.push_str("07");
    data.push_str(&"00".repeat(31));
    data.push_str("40");
    data.push_str(&"00".repeat(31));
    data.push_str("02");
    data.push_str("6869");
    data.push_str(&"00".repeat(30));
    let value = RpcResult::Value(format!("\"{}\"", data).into_bytes());
    assert_eq!(
        EthereumRPCCallCommand::decode_result(&func, &value).unwrap(),
        b"{\"value\":{\"arg0\":7,\"arg1\":\"hi\"}}".to_vec()
    );
    let error = RpcResult::Error("execution \"reverted\"".to_string());
    assert_eq!(
        EthereumRPCCallCommand::decode_result(&func, &error).unwrap(),
        b"{\"error\":\"execution \\\"reverted\\\"\"}".to_vec()
    );
    let number = RpcResult::Value(b"17".to_vec());
    assert_eq!(
        EthereumRPCCallCommand::decode_result(&func, &number).unwrap(),
        b"{\"error\":\"failed to decode result data\"}".to_vec()
    );
    let null = RpcResult::Value(b"null".to_vec());
    assert_eq!(
        EthereumRPCCallCommand::decode_result(&func, &null).unwrap(),
        b"{\"error\":\"failed to decode result data\"}".to_vec()
    );
    let not_hex = RpcResult::Value(b"\"0xzz\"".to_vec());
    assert!(matches!(
        EthereumRPCCallCommand::decode_result(&func, &not_hex),
        Err(RpcCallError::Hex(_))
    ));
    let short = RpcResult::Value(b"\"0x00\"".to_vec());
    assert!(matches!(
        EthereumRPCCallCommand::decode_result(&func, &short),
        Err(RpcCallError::Abi(AbiError::Decode(_)))
    ));
}

#[test]
fn parameters_are_json_unless_they_start_with_0x() {
    assert_eq!(EthereumRPCCommand::param_json(&some(b"0xabc")).unwrap(), b"\"0xabc\"".to_vec());
    assert_eq!(EthereumRPCCommand::param_json(&some(b"[1, 2]")).unwrap(), b"[1,2]".to_vec());
    assert_eq!(
        EthereumRPCCommand::param_json(&some(b" { \"a\" : true } ")).unwrap(),
        b"{\"a\":true}".to_vec()
    );
    assert_eq!(EthereumRPCCommand::param_json(&some(b"\"latest\"")).unwrap(), b"\"latest\"".to_vec());
    assert!(matches!(
        EthereumRPCCommand::param_json(&some(b"latest")),
        Err(RpcInputError::InvalidJson(_))
    ));
    assert!(matches!(
        EthereumRPCCommand::param_json(&some(b"0x\"")),
        Err(RpcInputError::InvalidJson(_))
    ));
    assert!(matches!(
        EthereumRPCCommand::param_json(&some(&[0x30, 0x78, 0xff])),
        Err(RpcInputError::InvalidUtf8)
    ));
    assert!(matches!(EthereumRPCCommand::param_json(&None), Err(RpcInputError::MissingParam)));
}

#[test]
fn call_of_a_row() {
    let call = EthereumRPCCommand::build_call(
        b"eth_getBalance",
        &vec![some(b"0x00000000000000000000000000000000000000aa"), some(b"\"latest\"")],
    )
    .unwrap();
    assert_eq!(call.method, "eth_getBalance");
    assert_eq!(
        call.params,
        vec![
            b"\"0x00000000000000000000000000000000000000aa\"".to_vec(),
            b"\"latest\"".to_vec()
        ]
    );
    assert!(matches!(
        EthereumRPCCommand::build_call(&[0xff], &vec![]),
        Err(RpcInputError::InvalidUtf8)
    ));
    assert!(matches!(
        EthereumRPCCommand::build_call(b"m", &vec![some(b"1"), None, some(b"oops")]),
        Err(RpcInputError::MissingParam)
    ));
    assert!(matches!(
        EthereumRPCCommand::build_call(b"m", &vec![some(b"1"), some(b"oops"), None]),
        Err(RpcInputError::InvalidJson(_))
    ));
}

#[test]
fn endpoint_of_a_block_is_constant() {
    assert!(EthereumRPCCommand::check_endpoint(&vec![]).is_ok());
    assert!(EthereumRPCCommand::check_endpoint(&vec![some(b"http://a"), some(b"http://a")]).is_ok());
    assert!(matches!(
        EthereumRPCCommand::check_endpoint(&vec![some(b"http://a"), some(b"http://b")]),
        Err(RpcInputError::EndpointNotConstant)
    ));
    assert!(matches!(
        EthereumRPCCommand::check_endpoint(&vec![some(b"http://a"), None]),
        Err(RpcInputError::EndpointNotConstant)
    ));
    assert!(matches!(
        EthereumRPCCommand::check_endpoint(&vec![None]),
        Err(RpcInputError::EndpointNotConstant)
    ));
}

#[test]
fn result_rows() {
    assert_eq!(
        EthereumRPCCommand::format_result(&RpcResult::Value(b"{\"a\":[1,null]}".to_vec())),
        b"{\"value\":{\"a\":[1,null]}}".to_vec()
    );
    assert_eq!(
        EthereumRPCCommand::format_result(&RpcResult::Error("no \"such\" method\n".to_string())),
        b"{\"error\":\"no \\\"such\\\" method\\n\"}".to_vec()
    );
}

#[test]
fn descriptor_of_a_declaration() {
    let row = EVMDescriptorFromFullsigCommand::describe(b"function f(uint256 a) view returns (bool)");
    let text = String::from_utf8(row).unwrap();
    assert!(text.starts_with("{\"value\":{"), "{}", text);
    assert!(text.contains("\"type\":\"function\""));
    assert!(text.contains("\"name\":\"f\""));
    assert!(text.contains("\"stateMutability\":\"view\""));
    let error = EVMDescriptorFromFullsigCommand::describe(b"error Oops(uint256 code)");
    assert!(String::from_utf8(error).unwrap().contains("\"type\":\"error\""));
    assert_eq!(
        EVMDescriptorFromFullsigCommand::describe(&[0xff]),
        b"{\"error\":\"invalid UTF-8\"}".to_vec()
    );
    let refused = String::from_utf8(EVMDescriptorFromFullsigCommand::describe(b"f(uint256)")).unwrap();
    assert!(refused.starts_with("{\"error\":\""), "{}", refused);
    assert_eq!(write_value_report(b"[1]"), b"{\"value\":[1]}".to_vec());
    assert_eq!(write_error_report(b"a\tb"), b"{\"error\":\"a\\tb\"}".to_vec());
}

#[test]
fn keccak_of_known_inputs() {
    let empty = [
        0xc5, 0xd2, 0x46, 0x01, 0x86, 0xf7, 0x23, 0x3c, 0x92, 0x7e, 0x7d, 0xb2, 0xdc, 0xc7, 0x03,
        0xc0, 0xe5, 0x00, 0xb6, 0x53, 0xca, 0x82, 0x27, 0x3b, 0x7b, 0xfa, 0xd8, 0x04, 0x5d, 0x85,
        0xa4, 0x70,
    ];
    assert_eq!(Keccak256Command::hash(b""), empty);
    assert_eq!(Keccak256Command::hash(b"transfer(address,uint256)")[..4], [0xa9, 0x05, 0x9c, 0xbb]);
}

#[test]
fn transaction_rows() {
    assert_eq!(
        EthereumDecodeTxCommand::report(&Ok(b"{\"type\":\"0x2\"}".to_vec())),
        b"{\"value\":{\"type\":\"0x2\"}}".to_vec()
    );
    assert_eq!(
        EthereumDecodeTxCommand::report(&Err("input too short".to_string())),
        b"{\"error\":\"input too short\"}".to_vec()
    );
}

#[test]
fn formats_by_name() {
    assert_eq!(ConvertFormatCommand::format(b"json"), Some(Format::Json));
    assert_eq!(ConvertFormatCommand::format(b"Yaml"), Some(Format::Yaml));
    assert_eq!(ConvertFormatCommand::format(b"TOML"), Some(Format::Toml));
    assert_eq!(ConvertFormatCommand::format(b"xml"), None);
    assert_eq!(ConvertFormatCommand::format(b"jsonl"), None);
    assert_eq!(ConvertFormatCommand::format(b""), None);
    assert_eq!(ConvertFormatCommand::conversion(b"json", b"YAML"), Some((Format::Json, Format::Yaml)));
    assert_eq!(ConvertFormatCommand::conversion(b"toml", b"json"), Some((Format::Toml, Format::Json)));
    assert_eq!(ConvertFormatCommand::conversion(b"json", b"json"), None);
    assert_eq!(ConvertFormatCommand::conversion(b"json", b"csv"), None);
}

#[test]
fn commands_are_told_apart() {
    let command = FunctionCommand::Keccak256(Keccak256Command {
        input_file: String::new(),
        output_file: "out".to_string(),
    });
    assert!(matches!(command, FunctionCommand::Keccak256(c) if c.output_file == "out"));
}

#[test]
fn result_text_is_hexadecimal_in_either_case() {
    let func = Function::parse("f() returns (uint256)").unwrap();
    let report = |text: String| {
        EthereumRPCCallCommand::decode_result(&func, &RpcResult::Value(format!("\"{}\"", text).into_bytes()))
    };
    let expected = b"{\"value\":{\"arg0\":43981}}".to_vec();
    assert_eq!(report(format!("0x{}abcd", "00".repeat(30))).unwrap(), expected);
    assert_eq!(report(format!("0X{}ABCD", "00".repeat(30))).unwrap(), expected);
    assert_eq!(report(format!("{}aBcD", "00".repeat(30))).unwrap(), expected);
    assert!(matches!(report(format!("0x{}abc", "00".repeat(30))), Err(RpcCallError::Hex(_))));
    assert!(matches!(report(format!("0x{}abcg", "00".repeat(30))), Err(RpcCallError::Hex(_))));
    assert!(matches!(report(format!("0x0x{}", "00".repeat(32))), Err(RpcCallError::Hex(_))));
    assert!(matches!(report("0x".to_string()), Err(RpcCallError::Abi(AbiError::Decode(_)))));
    let nothing = Function::parse("g()").unwrap();
    let empty = RpcResult::Value(b"\"0x\"".to_vec());
    assert_eq!(
        EthereumRPCCallCommand::decode_result(&nothing, &empty).unwrap(),
        b"{\"value\":{}}".to_vec()
    );
}
