use muta_service::account::{
    AccountService, GenerateAccountPayload, GetAccountPayload, MemorySDK, PayloadAccount, ServiceSDK,
};
use muta_service::account_calls::account_service_code;
use muta_service::binding::{Genesis, Hooks};
use muta_service::json::Json;
use muta_service::service::{finish, ExecutorParams, GenesisError, Phase, Service};
use muta_service::table::{MethodTable, ServiceCode};
use muta_service::types::{Address, ServiceContext, ServiceResponse};

fn address(byte: u8) -> Address {
    Address::from_vec(vec![byte; 20]).unwrap()
}

fn tx_hash(byte: u8) -> muta_service::types::Hash {
    muta_service::types::Hash::from_vec(vec![byte; 32]).unwrap()
}

fn context(method: &str, payload: &str, hash: Option<u8>) -> ServiceContext {
    ServiceContext::new(
        "account".to_string(),
        method.to_string(),
        payload.to_string(),
        hash.map(tx_hash),
        address(9),
        1_000_000,
    )
}

fn ready_service() -> Service<AccountService<MemorySDK>> {
    let mut service = Service::new(account_service_code(), AccountService::new(MemorySDK::new()));
    assert_eq!(service.current_phase(), Phase::Constructed);
    assert!(service.genesis_(String::new()).is_ok());
    assert_eq!(service.current_phase(), Phase::Ready);
    service
}

fn expect_error(response: ServiceResponse<String>, code: u16, message: &str) {
    match response {
        ServiceResponse::Error { code: got, error_message } => {
            assert_eq!(got, code);
            assert_eq!(error_message, message);
        }
        ServiceResponse::Succeed(data) => panic!("expected an error, got {}", data),
    }
}

fn expect_data(response: ServiceResponse<String>) -> String {
    match response {
        ServiceResponse::Succeed(data) => data,
        ServiceResponse::Error { code, error_message } => panic!("error {}: {}", code, error_message),
    }
}

const ONE_ACCOUNT: &str =
    "{\"accounts\":[{\"address\":\"0x0101010101010101010101010101010101010101\",\"weight\":1}],\"threshold\":1}";

// keccak256 of 32 zero bytes starts with these 20 bytes.
const ZERO_HASH_ADDRESS: &str = "0x290decd9548b62a8d60345a988386fc84ba6bc95";

#[test]
fn unknown_method_is_code_2_for_read_and_write() {
    let mut service = ready_service();
    expect_error(
        service.read_(&context("nope", "{}", None)),
        2,
        "not found method:nope of service:account",
    );
    expect_error(
        service.write_(context("nope", "not even json", Some(0))),
        2,
        "not found method:nope of service:account",
    );
}

#[test]
fn method_of_the_other_bucket_is_code_2() {
    let mut service = ready_service();
    expect_error(
        service.read_(&context("generate_account", ONE_ACCOUNT, Some(0))),
        2,
        "not found method:generate_account of service:account",
    );
    expect_error(
        service.write_(context("get_account_from_address", "{\"user\":\"0x00\"}", Some(0))),
        2,
        "not found method:get_account_from_address of service:account",
    );
}

#[test]
fn undecodable_payload_is_code_1_and_runs_no_handler() {
    let mut service = ready_service();
    expect_error(
        service.write_(context("generate_account", "not json", Some(0))),
        1,
        "decode service payload failed",
    );
    expect_error(
        service.write_(context("generate_account", "{\"accounts\":3,\"threshold\":1}", Some(0))),
        1,
        "decode service payload failed",
    );
    expect_error(
        service.write_(context(
            "generate_account",
            "{\"accounts\":[{\"address\":\"0x01\",\"weight\":1}],\"threshold\":1}",
            Some(0),
        )),
        1,
        "decode service payload failed",
    );
    expect_error(
        service.write_(context(
            "generate_account",
            "{\"accounts\":[{\"address\":\"0x0101010101010101010101010101010101010101\",\"weight\":-1}],\"threshold\":1}",
            Some(0),
        )),
        1,
        "decode service payload failed",
    );
    expect_error(
        service.read_(&context("get_account_from_address", "{\"user\":7}", None)),
        1,
        "decode service payload failed",
    );
    // Nothing was stored under the address that the call would have generated.
    let query = format!("{{\"user\":\"{}\"}}", ZERO_HASH_ADDRESS);
    expect_error(
        service.read_(&context("get_account_from_address", &query, None)),
        110,
        "account not existed",
    );
}

#[test]
fn null_data_leaves_as_empty_text() {
    let null = finish(ServiceResponse::Succeed(Json::Null));
    assert_eq!(expect_data(null), "");
    let zero = finish(ServiceResponse::Succeed(Json::Number(Some(0))));
    assert_eq!(expect_data(zero), "0");
    let empty_object = finish(ServiceResponse::Succeed(Json::Object(Vec::new())));
    assert_eq!(expect_data(empty_object), "{}");
    let text = finish(ServiceResponse::Succeed(Json::Text("null".to_string())));
    assert_eq!(expect_data(text), "\"null\"");
}

#[test]
fn handler_errors_pass_through_unchanged() {
    let response = finish(ServiceResponse::Error { code: 110, error_message: "account not existed".to_string() });
    expect_error(response, 110, "account not existed");
}

#[test]
fn generate_account_rejects_an_empty_accounts_list() {
    let mut service = ready_service();
    expect_error(
        service.write_(context("generate_account", "{\"accounts\":[],\"threshold\":1}", Some(0))),
        110,
        "accounts length must be [1,16]",
    );
}

#[test]
fn generate_account_rejects_more_than_16_accounts() {
    let mut accounts = AccountService::new(MemorySDK::new());
    let payload = GenerateAccountPayload {
        accounts: (0..17).map(|i| PayloadAccount { address: address(i), weight: 1 }).collect(),
        threshold: 1,
    };
    let response = accounts.generate_account(&context("generate_account", "", Some(0)), payload);
    match response {
        ServiceResponse::Error { code, error_message } => {
            assert_eq!(code, 110);
            assert_eq!(error_message, "accounts length must be [1,16]");
        }
        ServiceResponse::Succeed(_) => panic!("17 accounts were accepted"),
    }
}

#[test]
fn generate_account_rejects_weights_below_the_threshold() {
    let mut service = ready_service();
    let payload = "{\"accounts\":[{\"address\":\"0x0101010101010101010101010101010101010101\",\"weight\":2},{\"address\":\"0x0202020202020202020202020202020202020202\",\"weight\":3}],\"threshold\":10}";
    expect_error(
        service.write_(context("generate_account", payload, Some(0))),
        110,
        "accounts weight or threshold not valid",
    );
}

#[test]
fn generate_account_rejects_a_zero_threshold() {
    let mut service = ready_service();
    let payload = "{\"accounts\":[{\"address\":\"0x0101010101010101010101010101010101010101\",\"weight\":2}],\"threshold\":0}";
    expect_error(
        service.write_(context("generate_account", payload, Some(0))),
        110,
        "accounts weight or threshold not valid",
    );
}

#[test]
fn generate_account_accepts_16_accounts_whose_weights_just_reach_the_threshold() {
    let mut accounts = AccountService::new(MemorySDK::new());
    let payload = GenerateAccountPayload {
        accounts: (0..16).map(|i| PayloadAccount { address: address(i), weight: 2 }).collect(),
        threshold: 32,
    };
    let response = accounts.generate_account(&context("generate_account", "", Some(0)), payload);
    assert!(!response.is_error());
    let payload = GenerateAccountPayload {
        accounts: (0..16).map(|i| PayloadAccount { address: address(i), weight: 2 }).collect(),
        threshold: 33,
    };
    let response = accounts.generate_account(&context("generate_account", "", Some(1)), payload);
    assert_eq!(response.code(), 110);
}

#[test]
fn the_memory_store_keeps_the_last_value_of_a_place() {
    let mut sdk = MemorySDK::new();
    let permission = |threshold: u32| muta_service::account::Permission { accounts: Vec::new(), threshold };
    assert!(sdk.get_account_value(&address(1), &0).is_none());
    sdk.set_account_value(&address(1), 0, permission(1));
    sdk.set_account_value(&address(2), 0, permission(2));
    sdk.set_account_value(&address(1), 1, permission(3));
    sdk.set_account_value(&address(1), 0, permission(4));
    assert_eq!(sdk.get_account_value(&address(1), &0).unwrap().threshold, 4);
    assert_eq!(sdk.get_account_value(&address(2), &0).unwrap().threshold, 2);
    assert_eq!(sdk.get_account_value(&address(1), &1).unwrap().threshold, 3);
    assert!(sdk.get_account_value(&address(2), &1).is_none());
}

#[test]
fn generate_account_sums_weights_without_wrapping() {
    let mut accounts = AccountService::new(MemorySDK::new());
    let payload = GenerateAccountPayload {
        accounts: vec![
            PayloadAccount { address: address(1), weight: u32::MAX },
            PayloadAccount { address: address(2), weight: 2 },
        ],
        threshold: 5,
    };
    let response = accounts.generate_account(&context("generate_account", "", Some(0)), payload);
    assert!(!response.is_error());
}

#[test]
fn generate_account_needs_a_transaction_hash() {
    let mut service = ready_service();
    expect_error(
        service.write_(context("generate_account", ONE_ACCOUNT, None)),
        111,
        "generate addr_hash from tx_hash failed",
    );
}

#[test]
fn generate_then_get_account_end_to_end() {
    let mut service = ready_service();
    let generated = expect_data(service.write_(context("generate_account", ONE_ACCOUNT, Some(0))));
    let expected = format!(
        "{{\"accounts\":[{{\"address\":\"0x0101010101010101010101010101010101010101\",\"weight\":1}}],\"address\":\"{}\",\"threshold\":1}}",
        ZERO_HASH_ADDRESS
    );
    assert_eq!(generated, expected);

    let query = format!("{{\"user\":\"{}\"}}", ZERO_HASH_ADDRESS);
    let found = expect_data(service.read_(&context("get_account_from_address", &query, None)));
    assert_eq!(found, expected);
}

#[test]
fn generated_address_depends_on_the_transaction_hash_alone() {
    let mut first = ready_service();
    let mut second = ready_service();
    let a = expect_data(first.write_(context("generate_account", ONE_ACCOUNT, Some(7))));
    let b = expect_data(second.write_(context("generate_account", ONE_ACCOUNT, Some(7))));
    let c = expect_data(second.write_(context("generate_account", ONE_ACCOUNT, Some(8))));
    assert_eq!(a, b);
    assert_ne!(a, c);
}

#[test]
fn get_account_of_an_address_never_generated_is_an_error() {
    let service = ready_service();
    expect_error(
        service.read_(&context(
            "get_account_from_address",
            "{\"user\":\"0x0303030303030303030303030303030303030303\"}",
            None,
        )),
        110,
        "account not existed",
    );
}

#[test]
fn typed_generate_and_get_agree() {
    let mut accounts = AccountService::new(MemorySDK::new());
    let payload = GenerateAccountPayload {
        accounts: vec![PayloadAccount { address: address(1), weight: 1 }],
        threshold: 1,
    };
    let ctx = context("generate_account", "", Some(0));
    let generated = match accounts.generate_account(&ctx, payload) {
        ServiceResponse::Succeed(data) => data,
        ServiceResponse::Error { code, error_message } => panic!("error {}: {}", code, error_message),
    };
    assert_eq!(generated.address.as_hex(), ZERO_HASH_ADDRESS);
    assert_eq!(generated.threshold, 1);
    assert_eq!(generated.accounts.len(), 1);

    let stored = accounts.sdk().get_account_value(&generated.address, &0).unwrap();
    assert_eq!(stored.threshold, 1);
    assert_eq!(stored.accounts.len(), 1);
    assert_eq!(stored.accounts[0].account_type, 0);
    assert_eq!(stored.accounts[0].permission_id, 0);
    assert_eq!(stored.accounts[0].weight, 1);
    assert!(stored.accounts[0].address.same(&address(1)));

    let found = accounts.get_account_from_address(&ctx, GetAccountPayload { user: generated.address.clone() });
    match found {
        ServiceResponse::Succeed(data) => {
            assert!(data.address.same(&generated.address));
            assert_eq!(data.threshold, 1);
            assert_eq!(data.accounts.len(), 1);
            assert!(data.accounts[0].address.same(&address(1)));
            assert_eq!(data.accounts[0].weight, 1);
        }
        ServiceResponse::Error { code, error_message } => panic!("error {}: {}", code, error_message),
    }
}

#[test]
fn reading_twice_gives_the_same_answer() {
    let mut service = ready_service();
    expect_data(service.write_(context("generate_account", ONE_ACCOUNT, Some(0))));
    let query = format!("{{\"user\":\"{}\"}}", ZERO_HASH_ADDRESS);
    let first = expect_data(service.read_(&context("get_account_from_address", &query, None)));
    let second = expect_data(service.read_(&context("get_account_from_address", &query, None)));
    assert_eq!(first, second);
}

#[test]
fn a_service_without_hooks_does_nothing_at_the_hook_points() {
    let mut service = ready_service();
    let params = ExecutorParams { state_root: tx_hash(0), height: 1, timestamp: 2, cycles_limit: 3 };
    service.hook_before_(&params);
    assert!(service.hook_after_(&params, &[]).is_none());
    service.tx_hook_before_(context("generate_account", ONE_ACCOUNT, Some(0)));
    service.tx_hook_after_(context("generate_account", ONE_ACCOUNT, Some(0)));
    let query = format!("{{\"user\":\"{}\"}}", ZERO_HASH_ADDRESS);
    expect_error(
        service.read_(&context("get_account_from_address", &query, None)),
        110,
        "account not existed",
    );
}

#[test]
fn a_service_of_a_running_chain_is_ready_without_genesis() {
    let mut accounts = AccountService::new(MemorySDK::new());
    let payload = GenerateAccountPayload {
        accounts: vec![PayloadAccount { address: address(1), weight: 1 }],
        threshold: 1,
    };
    assert!(!accounts.generate_account(&context("generate_account", "", Some(0)), payload).is_error());
    let service = Service::resume(account_service_code(), accounts);
    assert_eq!(service.current_phase(), Phase::Ready);
    let query = format!("{{\"user\":\"{}\"}}", ZERO_HASH_ADDRESS);
    let found = expect_data(service.read_(&context("get_account_from_address", &query, None)));
    assert!(found.contains(ZERO_HASH_ADDRESS));
}

fn service_with_genesis(genesis: Genesis) -> Service<AccountService<MemorySDK>> {
    let hooks = Hooks {
        before: Some("open_block".to_string()),
        after: Some("close_block".to_string()),
        tx_before: None,
        tx_after: None,
    };
    let code = ServiceCode::new("AccountService".to_string(), None, genesis, hooks, &MethodTable::new());
    Service::new(code, AccountService::new(MemorySDK::new()))
}

#[test]
fn genesis_with_an_undecodable_payload_fails_and_leaves_the_service_unready() {
    let genesis = || Genesis::WithPayload { method: "init".to_string(), payload_type: "GetAccountPayload".to_string() };
    let mut service = service_with_genesis(genesis());
    assert_eq!(service.genesis_("not json".to_string()), Err(GenesisError::DecodePayload));
    assert_eq!(service.current_phase(), Phase::Constructed);
    assert_eq!(service.genesis_("{\"user\":1}".to_string()), Err(GenesisError::DecodePayload));
    assert_eq!(service.current_phase(), Phase::Constructed);
    assert_eq!(GenesisError::DecodePayload.message(), "decode genesis payload failed");

    assert!(service.genesis_("{\"user\":\"0x0101010101010101010101010101010101010101\"}".to_string()).is_ok());
    assert_eq!(service.current_phase(), Phase::Ready);
}

#[test]
fn genesis_without_a_payload_ignores_the_payload_text() {
    let mut service = service_with_genesis(Genesis::Plain { method: "init".to_string() });
    assert!(service.genesis_("not json".to_string()).is_ok());
    assert_eq!(service.current_phase(), Phase::Ready);
}

#[test]
fn registered_hooks_are_called_with_their_names() {
    let mut service = service_with_genesis(Genesis::Absent);
    assert!(service.genesis_(String::new()).is_ok());
    let params = ExecutorParams { state_root: tx_hash(0), height: 1, timestamp: 2, cycles_limit: 3 };
    service.hook_before_(&params);
    assert!(service.hook_after_(&params, &[]).is_none());
    assert_eq!(service.table().hooks().before.as_deref(), Some("open_block"));
    assert_eq!(service.table().hooks().after.as_deref(), Some("close_block"));
    // The table holds no method: every call is answered "not found".
    expect_error(
        service.write_(context("generate_account", ONE_ACCOUNT, Some(0))),
        2,
        "not found method:generate_account of service:account",
    );
}

#[test]
fn metadata_is_the_same_on_every_query() {
    let service = ready_service();
    let first = service.meta_();
    let second = service.meta_();
    assert_eq!(format!("{:?}", first), format!("{:?}", second));

    assert_eq!(first.methods.len(), 2);
    assert_eq!(first.methods[0].method_name, "get_account_from_address");
    assert_eq!(first.methods[0].payload_type.as_deref(), Some("GetAccountPayload"));
    assert!(first.methods[0].readonly);
    assert_eq!(first.methods[0].res_type.as_deref(), Some("GenerateAccountResponse"));
    assert_eq!(first.methods[1].method_name, "generate_account");
    assert!(!first.methods[1].readonly);

    let names: Vec<&str> = first.method_params.entries().iter().map(|meta| meta.name.as_str()).collect();
    assert_eq!(
        names,
        vec!["GenerateAccountPayload", "GenerateAccountResponse", "GetAccountPayload", "PayloadAccount"]
    );
    assert!(first.events.is_empty());
    assert_eq!(first.event_structs.len(), 0);
}

#[test]
fn verify_through_the_trait_accepts_and_leaves_the_service_as_it_is() {
    let mut accounts = AccountService::new(MemorySDK::new());
    let payload = GenerateAccountPayload {
        accounts: vec![PayloadAccount { address: address(1), weight: 1 }],
        threshold: 1,
    };
    let generated = match accounts.generate_account(&context("generate_account", "", Some(0)), payload) {
        ServiceResponse::Succeed(data) => data,
        ServiceResponse::Error { code, error_message } => panic!("error {}: {}", code, error_message),
    };
    assert!(muta_service::account::SigVerify::verify(&mut accounts, bytes::Bytes::from(vec![9u8; 4])));
    assert!(muta_service::account::SigVerify::verify(&mut accounts, bytes::Bytes::new()));
    let stored = accounts.sdk().get_account_value(&generated.address, &0).unwrap();
    assert_eq!(stored.threshold, 1);
    assert_eq!(stored.accounts.len(), 1);
}

#[test]
fn verify_accepts_every_witness() {
    let accounts = AccountService::new(MemorySDK::new());
    assert!(accounts.verify(bytes::Bytes::from(vec![1u8, 2, 3])));
    let witness = AccountService::<MemorySDK>::from_witness_bytes(bytes::Bytes::from(vec![1u8, 2, 3]));
    assert_eq!(witness.signature_type, 0);
    assert_eq!(witness.raw, vec![1u8, 2, 3]);
    assert!(AccountService::<MemorySDK>::check_valid(&witness));
}
