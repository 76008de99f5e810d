use evm_codec::evm::abi::abi_item::AbiItem;
use evm_codec::evm::abi::abi_item_provider::{AbiItemProvider, AbiItemProviderFactory, Provider};
use evm_codec::evm::abi::error::AbiError;
use evm_codec::evm::abi::file_abi_item_provider::FileAbiItemProvider;
use evm_codec::evm::abi::fullsig_abi_item_provider::FullsigAbiItemProvider;
use evm_codec::evm::abi::json_encoding::encode_call;

const DOCUMENT: &str = r#"[
  {"type":"constructor","inputs":[],"stateMutability":"nonpayable"},
  {"type":"function","name":"move","inputs":[{"name":"p","type":"tuple","internalType":"struct Point","components":[{"name":"x","type":"uint256"},{"name":"y","type":"int32"}]}],"outputs":[],"stateMutability":"nonpayable"},
  {"type":"function","name":"transfer","inputs":[{"name":"first","type":"address"},{"name":"amount","type":"uint256"}],"outputs":[],"stateMutability":"nonpayable"},
  {"type":"event","name":"Transfer","inputs":[{"name":"from","type":"address","indexed":true},{"name":"to","type":"address","indexed":true},{"name":"value","type":"uint256","indexed":false}],"anonymous":false},
  {"type":"function","name":"transfer","inputs":[{"name":"second","type":"address"},{"name":"amount","type":"uint256"}],"outputs":[{"name":"","type":"bool"}],"stateMutability":"nonpayable"},
  {"type":"error","name":"Oops","inputs":[]}
]"#;

const TRANSFER: [u8; 4] = [0xa9, 0x05, 0x9c, 0xbb];

#[test]
fn single_item_provider_answers_its_own_selector_only() {
    let provider = FullsigAbiItemProvider::new("function transfer(address,uint256)").unwrap();
    assert!(matches!(provider.get_abi_item(&TRANSFER), Ok(AbiItem::Function(_))));
    assert!(matches!(provider.get_function(&TRANSFER), Ok(f) if f.sig() == "transfer(address,uint256)"));
    assert!(matches!(provider.get_event(&TRANSFER), Err(AbiError::WrongKind)));
    assert!(matches!(provider.get_abi_item(&[0, 0, 0, 0]), Err(AbiError::SelectorMismatch)));
    assert!(matches!(provider.get_function(&[0xa9, 0x05, 0x9c]), Err(AbiError::SelectorMismatch)));
    assert!(matches!(provider.get_event(&[]), Err(AbiError::SelectorMismatch)));
}

#[test]
fn single_item_provider_of_an_event() {
    let provider = FullsigAbiItemProvider::new("event Ping(uint256 indexed id)").unwrap();
    let AbiItem::Event(event) = provider.item() else { panic!("an event was declared") };
    let selector = event.selector();
    assert!(matches!(provider.get_event(&selector), Ok(e) if e.sig() == "Ping(uint256)"));
    assert!(matches!(provider.get_function(&selector), Err(AbiError::WrongKind)));
}

#[test]
fn single_item_provider_needs_a_function_or_an_event() {
    assert!(matches!(FullsigAbiItemProvider::new("error Oops()"), Err(AbiError::NotFunctionOrEvent)));
    assert!(matches!(FullsigAbiItemProvider::new("nonsense"), Err(AbiError::Parse(_))));
}

#[test]
fn document_provider_holds_functions_and_events() {
    let provider = FileAbiItemProvider::new(DOCUMENT.as_bytes()).unwrap();
    let event_selector = [
        0xdd, 0xf2, 0x52, 0xad, 0x1b, 0xe2, 0xc8, 0x9b, 0x69, 0xc2, 0xb0, 0x68, 0xfc, 0x37, 0x8d,
        0xaa, 0x95, 0x2b, 0xa7, 0xf1, 0x63, 0xc4, 0xa1, 0x16, 0x28, 0xf5, 0x5a, 0x4d, 0xf5, 0x23,
        0xb3, 0xef,
    ];
    assert!(matches!(provider.get_event(&event_selector), Ok(e) if e.name() == "Transfer"));
    assert!(matches!(provider.get_function(&event_selector), Err(AbiError::WrongKind)));
    assert!(matches!(provider.get_abi_item(&[1, 2, 3, 4]), Err(AbiError::NotFound)));
    assert!(matches!(provider.get_event(&[1, 2, 3, 4]), Err(AbiError::NotFound)));
}

#[test]
fn later_entry_wins_where_two_have_the_same_selector() {
    let provider = FileAbiItemProvider::new(DOCUMENT.as_bytes()).unwrap();
    let func = provider.get_function(&TRANSFER).unwrap();
    assert_eq!(func.inputs()[0].name, "second");
    assert_eq!(func.outputs().len(), 1);
}

#[test]
fn document_provider_decodes_structs_with_their_field_names() {
    let provider = FileAbiItemProvider::new(DOCUMENT.as_bytes()).unwrap();
    let declared = FullsigAbiItemProvider::new("function move((uint256,int32) p)").unwrap();
    let AbiItem::Function(by_signature) = declared.item() else { panic!("a function") };
    let func = provider.get_function(&by_signature.selector()).unwrap();
    let mut data = vec![0u8; 64];
    data[31] = 5;
    for b in &mut data[32..] {
        *b = 0xff;
    }
    let values = func.abi_decode_input(&data).unwrap();
    let report = String::from_utf8(encode_call(func, &values, None)).unwrap();
    assert!(report.ends_with("\"inputs\":{\"arg0\":{\"x\":5,\"y\":-1}}}}"), "{}", report);
    let plain = by_signature.abi_decode_input(&data).unwrap();
    let report = String::from_utf8(encode_call(by_signature, &plain, None)).unwrap();
    assert!(report.ends_with("\"inputs\":{\"arg0\":{\"arg0\":5,\"arg1\":-1}}}}"), "{}", report);
    assert_eq!(func.abi_encode_input(&values).unwrap()[4..], data[..]);
}

#[test]
fn document_provider_refuses_what_is_no_document() {
    assert!(matches!(FileAbiItemProvider::new(&[0xff, 0xfe]), Err(AbiError::InvalidUtf8)));
    assert!(matches!(FileAbiItemProvider::new(b"{\"a\":1}"), Err(AbiError::Parse(_))));
    assert!(matches!(FileAbiItemProvider::new(b"[{\"type\":\"function\"}]"), Err(AbiError::Parse(_))));
    let unresolved = br#"[{"type":"function","name":"f","inputs":[{"name":"a","type":"uint7"}],"outputs":[],"stateMutability":"view"}]"#;
    assert!(matches!(FileAbiItemProvider::new(unresolved), Err(AbiError::Unresolved(_))));
    let empty = FileAbiItemProvider::new(b"[]").unwrap();
    assert!(matches!(empty.get_abi_item(&TRANSFER), Err(AbiError::NotFound)));
}

#[test]
fn factory_tells_documents_from_declarations() {
    assert!(AbiItemProviderFactory::is_document_source(b"http://host/abi.json"));
    assert!(AbiItemProviderFactory::is_document_source(b"https://host/abi.json"));
    assert!(AbiItemProviderFactory::is_document_source(b"file:///tmp/abi.json"));
    assert!(AbiItemProviderFactory::is_document_source(b"file://"));
    assert!(!AbiItemProviderFactory::is_document_source(b"file:/"));
    assert!(!AbiItemProviderFactory::is_document_source(b"HTTP://host"));
    assert!(!AbiItemProviderFactory::is_document_source(b"ftp://host"));
    assert!(!AbiItemProviderFactory::is_document_source(b"function http://()"));
    assert!(!AbiItemProviderFactory::is_document_source(b""));
}

#[test]
fn factory_builds_the_provider_that_fits_the_source() {
    let declared = AbiItemProviderFactory::create(b"function transfer(address,uint256)", None);
    assert!(matches!(declared, Ok(Provider::Fullsig(_))));
    let ignored = AbiItemProviderFactory::create(b"function transfer(address,uint256)", Some(b"[]"));
    assert!(matches!(ignored, Ok(Provider::Fullsig(_))));
    let fetched = AbiItemProviderFactory::create(b"https://host/abi.json", Some(DOCUMENT.as_bytes()));
    let Ok(provider) = fetched else { panic!("the document is well formed") };
    assert!(matches!(provider, Provider::File(_)));
    assert!(matches!(provider.get_function(&TRANSFER), Ok(_)));
    assert!(matches!(provider.get_abi_item(&[0; 4]), Err(AbiError::NotFound)));
}

#[test]
fn factory_reports_what_it_cannot_build() {
    assert!(matches!(
        AbiItemProviderFactory::create(b"https://host/abi.json", None),
        Err(AbiError::DocumentMissing)
    ));
    assert!(matches!(
        AbiItemProviderFactory::create(b"file:///abi.json", Some(b"oops")),
        Err(AbiError::Parse(_))
    ));
    assert!(matches!(AbiItemProviderFactory::create(&[0xc3, 0x28], None), Err(AbiError::InvalidUtf8)));
    assert!(matches!(AbiItemProviderFactory::create(b"transfer()", None), Err(AbiError::Parse(_))));
    assert!(matches!(
        AbiItemProviderFactory::create(b"error Oops()", None),
        Err(AbiError::NotFunctionOrEvent)
    ));
}

#[test]
fn later_entry_in_the_order_of_the_document_wins() {
    let first = r#"{"type":"function","name":"transfer","inputs":[{"name":"to","type":"address"},{"name":"amount","type":"uint256"}],"outputs":[],"stateMutability":"nonpayable"}"#;
    let second = r#"{"type":"function","name":"many_msg_babbage","inputs":[{"name":"","type":"bytes1"}],"outputs":[],"stateMutability":"nonpayable"}"#;
    let provider = FileAbiItemProvider::new(format!("[{first},{second}]").as_bytes()).unwrap();
    match provider.get_abi_item(&TRANSFER).unwrap() {
        AbiItem::Function(f) => assert_eq!(f.sig(), "many_msg_babbage(bytes1)"),
        AbiItem::Event(_) => panic!("a function was asked for"),
    }
    let provider = FileAbiItemProvider::new(format!("[{second},{first}]").as_bytes()).unwrap();
    match provider.get_abi_item(&TRANSFER).unwrap() {
        AbiItem::Function(f) => assert_eq!(f.sig(), "transfer(address,uint256)"),
        AbiItem::Event(_) => panic!("a function was asked for"),
    }
}

#[test]
fn document_with_two_constructors_is_no_document() {
    let twice = br#"[{"type":"constructor","inputs":[],"stateMutability":"nonpayable"},{"type":"constructor","inputs":[],"stateMutability":"nonpayable"}]"#;
    assert!(matches!(FileAbiItemProvider::new(twice), Err(AbiError::Parse(_))));
    let once = br#"[{"type":"constructor","inputs":[],"stateMutability":"nonpayable"}]"#;
    let provider = FileAbiItemProvider::new(once).unwrap();
    assert!(matches!(provider.get_abi_item(&TRANSFER), Err(AbiError::NotFound)));
}
