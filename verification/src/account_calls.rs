//! The account service as it is called: its method table, the documents that
//! its payloads are decoded from and its responses are written as, and the
//! schemas of these types.

use crate::account::{
    generate_outcome, generate_store, get_account_outcome, typed_outcome, AccountService, AccountStore,
    GenerateAccountPayload, GenerateAccountPayloadView, GenerateAccountResponse, GenerateAccountResponseView,
    GetAccountPayload, PayloadAccount, ServiceSDK,
};
use crate::binding::{Genesis, GenesisView, Hooks, HooksView};
use crate::json::{lemma_array_view, lemma_member_absent, lemma_member_at, Json, JsonView};
use crate::schema::{views, DataMeta, DataMetaView, FieldMeta, MethodMetaView, Registry};
use crate::service::{
    doc_outcome, not_found_message, view_opt, Event, ExecutorParams, Receipt, ServiceHandlers, CODE_NOT_FOUND,
};
use crate::table::{MethodTable, ServiceCode, ServiceCodeView};
use crate::text::str_same;
use crate::types::{address_hex, address_of_hex, Address, Outcome, ServiceContext, ServiceContextView, ServiceResponse};
use vstd::prelude::*;
use vstd::string::*;

verus! {

/// A decoded payload of the account service.
#[derive(Debug)]
pub enum AccountPayload {
    GetAccount(GetAccountPayload),
    GenerateAccount(GenerateAccountPayload),
}

/// The mathematical value of an `AccountPayload`.
pub enum AccountPayloadView {
    GetAccount(Seq<u8>),
    GenerateAccount(GenerateAccountPayloadView),
}

impl View for AccountPayload {
    type V = AccountPayloadView;

    open spec fn view(&self) -> AccountPayloadView {
        match self {
            AccountPayload::GetAccount(payload) => AccountPayloadView::GetAccount(payload@),
            AccountPayload::GenerateAccount(payload) => AccountPayloadView::GenerateAccount(payload@),
        }
    }
}

/// The address that the member of the given name holds as text.
pub open spec fn address_member(doc: JsonView, name: Seq<char>) -> Option<Seq<u8>> {
    match doc.member(name) {
        Some(JsonView::Text(text)) => address_of_hex(text),
        _ => None,
    }
}

/// The number of at most 32 bits that the member of the given name holds.
pub open spec fn number_member(doc: JsonView, name: Seq<char>) -> Option<u32> {
    match doc.member(name) {
        Some(JsonView::Number(Some(n))) => if n <= u32::MAX {
            Some(n as u32)
        } else {
            None
        },
        _ => None,
    }
}

/// The account that a document holds: an object with an `address` and a
/// `weight`.
pub open spec fn decoded_account(doc: JsonView) -> Option<(Seq<u8>, u32)> {
    match (address_member(doc, "address"@), number_member(doc, "weight"@)) {
        (Some(address), Some(weight)) => Some((address, weight)),
        _ => None,
    }
}

/// The accounts that a sequence of documents holds, where each holds one.
pub open spec fn decoded_accounts(items: Seq<JsonView>) -> Option<Seq<(Seq<u8>, u32)>>
    decreases items.len(),
{
    if items.len() == 0 {
        Some(Seq::empty())
    } else {
        match (decoded_accounts(items.drop_last()), decoded_account(items.last())) {
            (Some(front), Some(account)) => Some(front.push(account)),
            _ => None,
        }
    }
}

/// The payload of `generate_account` that a document holds: an object with
/// an array `accounts` and a number `threshold`.
pub open spec fn decoded_generate(doc: JsonView) -> Option<GenerateAccountPayloadView> {
    match (doc.member("accounts"@), number_member(doc, "threshold"@)) {
        (Some(JsonView::Array(items)), Some(threshold)) => match decoded_accounts(items) {
            Some(accounts) => Some(GenerateAccountPayloadView { accounts, threshold }),
            None => None,
        },
        _ => None,
    }
}

/// The payload of `get_account_from_address` that a document holds: an
/// object with an address `user`.
pub open spec fn decoded_get(doc: JsonView) -> Option<Seq<u8>> {
    address_member(doc, "user"@)
}

/// Where a part of the documents from the start holds no accounts, the whole
/// holds none.
pub proof fn lemma_decoded_accounts_prefix(items: Seq<JsonView>, upto: int)
    requires
        0 <= upto <= items.len(),
        decoded_accounts(items.take(upto)) is None,
    ensures
        decoded_accounts(items) is None,
    decreases items.len(),
{
    if upto < items.len() {
        assert(items.drop_last().take(upto) =~= items.take(upto));
        lemma_decoded_accounts_prefix(items.drop_last(), upto);
    } else {
        assert(items.take(upto) =~= items);
    }
}

/// Decodes the address that the member of the given name holds as text.
pub fn decode_address_member(doc: &Json, name: &str) -> (r: Option<Address>)
    ensures
        view_opt(r) == address_member(doc@, name@),
{
    match doc.get(name) {
        Some(member) => match member.as_text() {
            Some(text) => match Address::from_hex(text.as_str()) {
                Ok(address) => Some(address),
                Err(_) => None,
            },
            None => None,
        },
        None => None,
    }
}

/// Decodes the number of at most 32 bits that the member of the given name
/// holds.
pub fn decode_number_member(doc: &Json, name: &str) -> (r: Option<u32>)
    ensures
        r == number_member(doc@, name@),
{
    match doc.get(name) {
        Some(member) => match member.as_u64() {
            Some(n) => if n <= u32::MAX as u64 {
                Some(n as u32)
            } else {
                None
            },
            None => None,
        },
        None => None,
    }
}

/// Decodes the payload of `get_account_from_address`.
pub fn decode_get_account(doc: &Json) -> (r: Option<GetAccountPayload>)
    ensures
        view_opt(r) == decoded_get(doc@),
{
    match decode_address_member(doc, "user") {
        Some(user) => Some(GetAccountPayload { user }),
        None => None,
    }
}

/// Decodes the payload of `generate_account`.
pub fn decode_generate_account(doc: &Json) -> (r: Option<GenerateAccountPayload>)
    ensures
        view_opt(r) == decoded_generate(doc@),
{
    let threshold = decode_number_member(doc, "threshold");
    let items = match doc.get("accounts") {
        Some(member) => match member.as_array() {
            Some(items) => items,
            None => {
                return None;
            },
        },
        None => {
            return None;
        },
    };
    let ghost docs = Seq::new(items@.len(), |i: int| items@[i]@);
    let threshold = match threshold {
        Some(threshold) => threshold,
        None => {
            return None;
        },
    };
    let mut accounts: Vec<PayloadAccount> = Vec::new();
    let mut i: usize = 0;
    assert(docs.take(0) =~= Seq::<JsonView>::empty());
    assert(views(accounts@) =~= Seq::<(Seq<u8>, u32)>::empty());
    while i < items.len()
        invariant
            i <= items.len(),
            docs == Seq::new(items@.len(), |i: int| items@[i]@),
            doc@.member("accounts"@) == Some(JsonView::Array(docs)),
            decoded_accounts(docs.take(i as int)) == Some(views(accounts@)),
        decreases items.len() - i,
    {
        assert(docs.take(i + 1).drop_last() =~= docs.take(i as int));
        assert(docs.take(i + 1).last() == items@[i as int]@);
        let address = decode_address_member(&items[i], "address");
        let weight = decode_number_member(&items[i], "weight");
        match (address, weight) {
            (Some(address), Some(weight)) => {
                let ghost before = accounts@;
                let account = PayloadAccount { address, weight };
                accounts.push(account);
                assert(views(accounts@) =~= views(before).push(account@));
            },
            _ => {
                proof {
                    lemma_decoded_accounts_prefix(docs, i + 1);
                }
                return None;
            },
        }
        i += 1;
    }
    assert(docs.take(items.len() as int) =~= docs);
    Some(GenerateAccountPayload { accounts, threshold })
}

/// The document of an account: its address as text and its weight.
pub open spec fn account_doc(account: (Seq<u8>, u32)) -> JsonView {
    JsonView::Object(
        map![
            "address"@ => JsonView::Text(address_hex(account.0)),
            "weight"@ => JsonView::Number(Some(account.1 as u64)),
        ],
    )
}

/// The document of a response: its accounts, its threshold, and its address
/// as text.
pub open spec fn response_doc(response: GenerateAccountResponseView) -> JsonView {
    JsonView::Object(
        map![
            "accounts"@ => JsonView::Array(response.accounts.map_values(|a: (Seq<u8>, u32)| account_doc(a))),
            "threshold"@ => JsonView::Number(Some(response.threshold as u64)),
            "address"@ => JsonView::Text(address_hex(response.address)),
        ],
    )
}

/// The response of a handler with its data as a document.
pub open spec fn encoded(outcome: Outcome<GenerateAccountResponseView>) -> Outcome<JsonView> {
    match outcome {
        Outcome::Succeed(data) => Outcome::Succeed(response_doc(data)),
        Outcome::Error { code, message } => Outcome::Error { code, message },
    }
}

/// Writes an account as a document.
pub fn encode_account(account: &PayloadAccount) -> (r: Json)
    ensures
        r@ == account_doc(account@),
        r@.is_plain(),
{
    let mut members: Vec<(String, Json)> = Vec::new();
    members.push((String::from_str("address"), Json::Text(account.address.as_hex())));
    members.push((String::from_str("weight"), Json::Number(Some(account.weight as u64))));
    let ghost listed = members;
    let doc = Json::Object(members);
    proof {
        reveal_strlit("address");
        reveal_strlit("weight");
        assert("address"@.len() == 7 && "weight"@.len() == 6);
        assert(listed@[0].0@ == "address"@ && listed@[1].0@ == "weight"@);
        lemma_member_at(listed, 0);
        lemma_member_at(listed, 1);
        assert forall|k: Seq<char>| k != "address"@ && k != "weight"@ implies !doc@->Object_0.contains_key(k) by {
            lemma_member_absent(listed, k);
        }
        assert(doc@->Object_0 =~= account_doc(account@)->Object_0);
        assert forall|k: Seq<char>| doc@->Object_0.contains_key(k) implies (#[trigger] doc@->Object_0[k]).is_plain() by {
            assert(k == "address"@ || k == "weight"@);
        }
    }
    doc
}

/// Writes a response as a document.
pub fn encode_response(response: &GenerateAccountResponse) -> (r: Json)
    ensures
        r@ == response_doc(response@),
        r@.is_plain(),
{
    let ghost given = views(response.accounts@);
    let mut items: Vec<Json> = Vec::new();
    let mut i: usize = 0;
    while i < response.accounts.len()
        invariant
            i <= response.accounts.len(),
            given == views(response.accounts@),
            items@.len() == i,
            forall|k: int| 0 <= k < i ==> (#[trigger] items@[k])@ == account_doc(given[k]) && items@[k]@.is_plain(),
        decreases response.accounts.len() - i,
    {
        items.push(encode_account(&response.accounts[i]));
        i += 1;
    }
    let ghost docs = items;
    let accounts = Json::Array(items);
    proof {
        lemma_array_view(docs);
        assert(docs@.map_values(|item: Json| item@) =~= given.map_values(|a: (Seq<u8>, u32)| account_doc(a)));
        assert(accounts@.is_plain());
    }
    let mut members: Vec<(String, Json)> = Vec::new();
    members.push((String::from_str("accounts"), accounts));
    members.push((String::from_str("threshold"), Json::Number(Some(response.threshold as u64))));
    members.push((String::from_str("address"), Json::Text(response.address.as_hex())));
    let ghost listed = members;
    let doc = Json::Object(members);
    proof {
        reveal_strlit("accounts");
        reveal_strlit("threshold");
        reveal_strlit("address");
        assert("accounts"@.len() == 8 && "threshold"@.len() == 9 && "address"@.len() == 7);
        assert(listed@[0].0@ == "accounts"@ && listed@[1].0@ == "threshold"@ && listed@[2].0@ == "address"@);
        lemma_member_at(listed, 0);
        lemma_member_at(listed, 1);
        lemma_member_at(listed, 2);
        assert forall|k: Seq<char>| k != "accounts"@ && k != "threshold"@ && k != "address"@ implies !doc@->Object_0.contains_key(
            k,
        ) by {
            lemma_member_absent(listed, k);
        }
        assert(doc@->Object_0 =~= response_doc(response@)->Object_0);
        assert forall|k: Seq<char>| doc@->Object_0.contains_key(k) implies (#[trigger] doc@->Object_0[k]).is_plain() by {
            assert(k == "accounts"@ || k == "threshold"@ || k == "address"@);
        }
    }
    doc
}

/// Writes the response of a handler with its data as a document.
pub fn encode_outcome(response: ServiceResponse<GenerateAccountResponse>) -> (r: ServiceResponse<Json>)
    ensures
        doc_outcome(r) == encoded(typed_outcome(response)),
        doc_outcome(r) matches Outcome::Succeed(doc) ==> doc.is_plain(),
{
    match response {
        ServiceResponse::Succeed(data) => ServiceResponse::Succeed(encode_response(&data)),
        ServiceResponse::Error { code, error_message } => ServiceResponse::Error { code, error_message },
    }
}

/// The name of the method that reads the permission of an address.
pub const GET_ACCOUNT_METHOD: &'static str = "get_account_from_address";

/// The name of the method that generates an account.
pub const GENERATE_ACCOUNT_METHOD: &'static str = "generate_account";

/// The name of the payload type of `get_account_from_address`.
pub const GET_ACCOUNT_PAYLOAD: &'static str = "GetAccountPayload";

/// The name of the payload type of `generate_account`.
pub const GENERATE_ACCOUNT_PAYLOAD: &'static str = "GenerateAccountPayload";

/// The name of the data type of both responses.
pub const GENERATE_ACCOUNT_RESPONSE: &'static str = "GenerateAccountResponse";

/// The name of the type of an account in a payload or a response.
pub const PAYLOAD_ACCOUNT: &'static str = "PayloadAccount";

/// The name of the type that implements the service.
pub const ACCOUNT_SERVICE: &'static str = "AccountService";

/// The payload of the named type that a document decodes to.
pub open spec fn payload_decoded(payload_type: Seq<char>, doc: JsonView) -> Option<AccountPayloadView> {
    if payload_type == GET_ACCOUNT_PAYLOAD@ {
        match decoded_get(doc) {
            Some(user) => Some(AccountPayloadView::GetAccount(user)),
            None => None,
        }
    } else if payload_type == GENERATE_ACCOUNT_PAYLOAD@ {
        match decoded_generate(doc) {
            Some(payload) => Some(AccountPayloadView::GenerateAccount(payload)),
            None => None,
        }
    } else {
        None
    }
}

/// The response to a call that names no method of the service, or brings a
/// payload of another method.
pub open spec fn unknown_call(method: Seq<char>, ctx: ServiceContextView) -> Outcome<JsonView> {
    Outcome::Error { code: CODE_NOT_FOUND, message: not_found_message(method, ctx.service_name) }
}

/// The response to a call that names no method of the service.
pub fn unknown_call_response(method: &str, ctx: &ServiceContext) -> (r: ServiceResponse<Json>)
    ensures
        doc_outcome(r) == unknown_call(method@, ctx@),
{
    let mut message = String::from_str("not found method:");
    message.append(method);
    message.append(" of service:");
    message.append(ctx.get_service_name());
    ServiceResponse::Error { code: CODE_NOT_FOUND, error_message: message }
}

/// The schema of `PayloadAccount`.
pub open spec fn payload_account_schema() -> DataMetaView {
    DataMetaView { name: PAYLOAD_ACCOUNT@, fields: seq![("address"@, "Address"@), ("weight"@, "u32"@)] }
}

/// The schema of `GetAccountPayload`.
pub open spec fn get_account_payload_schema() -> DataMetaView {
    DataMetaView { name: GET_ACCOUNT_PAYLOAD@, fields: seq![("user"@, "Address"@)] }
}

/// The schema of `GenerateAccountPayload`.
pub open spec fn generate_account_payload_schema() -> DataMetaView {
    DataMetaView {
        name: GENERATE_ACCOUNT_PAYLOAD@,
        fields: seq![("accounts"@, "Vec<PayloadAccount>"@), ("threshold"@, "u32"@)],
    }
}

/// The schema of `GenerateAccountResponse`.
pub open spec fn generate_account_response_schema() -> DataMetaView {
    DataMetaView {
        name: GENERATE_ACCOUNT_RESPONSE@,
        fields: seq![("accounts"@, "Vec<PayloadAccount>"@), ("threshold"@, "u32"@), ("address"@, "Address"@)],
    }
}

/// The schemas that a type of the account service registers: its own, and
/// after it that of the accounts it holds.
pub open spec fn account_schemas(name: Seq<char>) -> Seq<DataMetaView> {
    if name == GET_ACCOUNT_PAYLOAD@ {
        seq![get_account_payload_schema()]
    } else if name == GENERATE_ACCOUNT_PAYLOAD@ {
        seq![generate_account_payload_schema(), payload_account_schema()]
    } else if name == GENERATE_ACCOUNT_RESPONSE@ {
        seq![generate_account_response_schema(), payload_account_schema()]
    } else {
        Seq::empty()
    }
}

/// A field of a schema.
fn field(name: &str, field_type: &str) -> (r: FieldMeta)
    ensures
        r@ == (name@, field_type@),
{
    FieldMeta { name: String::from_str(name), field_type: String::from_str(field_type) }
}

/// The schema of `PayloadAccount`.
pub fn payload_account_meta() -> (r: DataMeta)
    ensures
        r@ == payload_account_schema(),
{
    let mut fields: Vec<FieldMeta> = Vec::new();
    fields.push(field("address", "Address"));
    fields.push(field("weight", "u32"));
    assert(views(fields@) =~= payload_account_schema().fields);
    DataMeta { name: String::from_str(PAYLOAD_ACCOUNT), fields }
}

/// The schema of `GetAccountPayload`.
pub fn get_account_payload_meta() -> (r: DataMeta)
    ensures
        r@ == get_account_payload_schema(),
{
    let mut fields: Vec<FieldMeta> = Vec::new();
    fields.push(field("user", "Address"));
    assert(views(fields@) =~= get_account_payload_schema().fields);
    DataMeta { name: String::from_str(GET_ACCOUNT_PAYLOAD), fields }
}

/// The schema of `GenerateAccountPayload`.
pub fn generate_account_payload_meta() -> (r: DataMeta)
    ensures
        r@ == generate_account_payload_schema(),
{
    let mut fields: Vec<FieldMeta> = Vec::new();
    fields.push(field("accounts", "Vec<PayloadAccount>"));
    fields.push(field("threshold", "u32"));
    assert(views(fields@) =~= generate_account_payload_schema().fields);
    DataMeta { name: String::from_str(GENERATE_ACCOUNT_PAYLOAD), fields }
}

/// The schema of `GenerateAccountResponse`.
pub fn generate_account_response_meta() -> (r: DataMeta)
    ensures
        r@ == generate_account_response_schema(),
{
    let mut fields: Vec<FieldMeta> = Vec::new();
    fields.push(field("accounts", "Vec<PayloadAccount>"));
    fields.push(field("threshold", "u32"));
    fields.push(field("address", "Address"));
    assert(views(fields@) =~= generate_account_response_schema().fields);
    DataMeta { name: String::from_str(GENERATE_ACCOUNT_RESPONSE), fields }
}

impl<SDK: ServiceSDK> ServiceHandlers for AccountService<SDK> {
    type Payload = AccountPayload;

    type State = AccountStore;

    open spec fn state(&self) -> AccountStore {
        self.store()
    }

    open spec fn decoded(payload_type: Seq<char>, doc: JsonView) -> Option<AccountPayloadView> {
        payload_decoded(payload_type, doc)
    }

    open spec fn read_outcome(
        state: AccountStore,
        method: Seq<char>,
        ctx: ServiceContextView,
        payload: Option<AccountPayloadView>,
    ) -> Outcome<JsonView> {
        if method == GET_ACCOUNT_METHOD@ && payload matches Some(AccountPayloadView::GetAccount(user)) {
            encoded(get_account_outcome(state, payload->Some_0->GetAccount_0))
        } else {
            unknown_call(method, ctx)
        }
    }

    open spec fn write_outcome(
        state: AccountStore,
        method: Seq<char>,
        ctx: ServiceContextView,
        payload: Option<AccountPayloadView>,
    ) -> Outcome<JsonView> {
        if method == GENERATE_ACCOUNT_METHOD@ && payload matches Some(AccountPayloadView::GenerateAccount(given)) {
            encoded(generate_outcome(ctx.tx_hash, payload->Some_0->GenerateAccount_0))
        } else {
            unknown_call(method, ctx)
        }
    }

    open spec fn write_state(
        state: AccountStore,
        method: Seq<char>,
        ctx: ServiceContextView,
        payload: Option<AccountPayloadView>,
    ) -> AccountStore {
        if method == GENERATE_ACCOUNT_METHOD@ && payload matches Some(AccountPayloadView::GenerateAccount(given)) {
            generate_store(state, ctx.tx_hash, payload->Some_0->GenerateAccount_0)
        } else {
            state
        }
    }

    open spec fn genesis_state(state: AccountStore, method: Seq<char>, payload: Option<AccountPayloadView>) -> AccountStore {
        state
    }

    open spec fn hook_before_state(state: AccountStore, method: Seq<char>, params: ExecutorParams) -> AccountStore {
        state
    }

    open spec fn hook_after_state(
        state: AccountStore,
        method: Seq<char>,
        params: ExecutorParams,
        receipts: Seq<Receipt>,
    ) -> AccountStore {
        state
    }

    open spec fn hook_after_events(
        state: AccountStore,
        method: Seq<char>,
        params: ExecutorParams,
        receipts: Seq<Receipt>,
    ) -> Option<Seq<Event>> {
        None
    }

    open spec fn tx_hook_before_state(state: AccountStore, method: Seq<char>, ctx: ServiceContextView) -> AccountStore {
        state
    }

    open spec fn tx_hook_after_state(state: AccountStore, method: Seq<char>, ctx: ServiceContextView) -> AccountStore {
        state
    }

    open spec fn schemas_of(name: Seq<char>) -> Seq<DataMetaView> {
        account_schemas(name)
    }

    open spec fn event_names() -> Seq<Seq<char>> {
        Seq::empty()
    }

    open spec fn event_schemas() -> Seq<DataMetaView> {
        Seq::empty()
    }

    fn genesis(&mut self, method: &str, payload: Option<AccountPayload>) {
    }

    fn hook_before(&mut self, method: &str, params: &ExecutorParams) {
    }

    fn hook_after(&mut self, method: &str, params: &ExecutorParams, receipts: &[Receipt]) -> (r: Option<Vec<Event>>) {
        None
    }

    fn tx_hook_before(&mut self, method: &str, ctx: ServiceContext) {
    }

    fn tx_hook_after(&mut self, method: &str, ctx: ServiceContext) {
    }

    fn register_meta(&self, name: &str, register: &mut Registry) {
        let mut metas: Vec<DataMeta> = Vec::new();
        if str_same(name, GET_ACCOUNT_PAYLOAD) {
            metas.push(get_account_payload_meta());
        } else if str_same(name, GENERATE_ACCOUNT_PAYLOAD) {
            metas.push(generate_account_payload_meta());
            metas.push(payload_account_meta());
        } else if str_same(name, GENERATE_ACCOUNT_RESPONSE) {
            metas.push(generate_account_response_meta());
            metas.push(payload_account_meta());
        }
        assert(views(metas@) =~= account_schemas(name@));
        register.register_all(&metas);
    }

    fn event_meta(&self) -> (r: (Vec<String>, Registry)) {
        let events: Vec<String> = Vec::new();
        assert(views(events@) =~= Seq::<Seq<char>>::empty());
        (events, Registry::new())
    }

    fn decode_payload(&self, payload_type: &str, doc: &Json) -> (r: Option<AccountPayload>) {
        if str_same(payload_type, GET_ACCOUNT_PAYLOAD) {
            match decode_get_account(doc) {
                Some(payload) => Some(AccountPayload::GetAccount(payload)),
                None => None,
            }
        } else if str_same(payload_type, GENERATE_ACCOUNT_PAYLOAD) {
            match decode_generate_account(doc) {
                Some(payload) => Some(AccountPayload::GenerateAccount(payload)),
                None => None,
            }
        } else {
            None
        }
    }

    fn call_read(&self, method: &str, ctx: &ServiceContext, payload: Option<AccountPayload>) -> (r: ServiceResponse<
        Json,
    >) {
        if str_same(method, GET_ACCOUNT_METHOD) {
            if let Some(AccountPayload::GetAccount(given)) = payload {
                return encode_outcome(self.get_account_from_address(ctx, given));
            }
        }
        unknown_call_response(method, ctx)
    }

    fn call_write(&mut self, method: &str, ctx: ServiceContext, payload: Option<AccountPayload>) -> (r:
        ServiceResponse<Json>) {
        if str_same(method, GENERATE_ACCOUNT_METHOD) {
            if let Some(AccountPayload::GenerateAccount(given)) = payload {
                return encode_outcome(self.generate_account(&ctx, given));
            }
        }
        unknown_call_response(method, &ctx)
    }
}

/// The table of the account service.
pub open spec fn account_code() -> ServiceCodeView {
    ServiceCodeView {
        service: ACCOUNT_SERVICE@,
        event: None,
        genesis: GenesisView::Absent,
        hooks: HooksView { before: None, after: None, tx_before: None, tx_after: None },
        methods: seq![
            MethodMetaView {
                method_name: GET_ACCOUNT_METHOD@,
                payload_type: Some(GET_ACCOUNT_PAYLOAD@),
                readonly: true,
                res_type: Some(GENERATE_ACCOUNT_RESPONSE@),
            },
            MethodMetaView {
                method_name: GENERATE_ACCOUNT_METHOD@,
                payload_type: Some(GENERATE_ACCOUNT_PAYLOAD@),
                readonly: false,
                res_type: Some(GENERATE_ACCOUNT_RESPONSE@),
            },
        ],
    }
}

/// The table of the account service: one method that reads and one that
/// writes, each with a payload; no genesis method, no hooks, no events.
pub fn account_service_code() -> (r: ServiceCode)
    ensures
        r@ == account_code(),
{
    let mut table = MethodTable::new();
    proof {
        reveal_strlit("get_account_from_address");
        reveal_strlit("generate_account");
        assert(GET_ACCOUNT_METHOD@.len() == 24 && GENERATE_ACCOUNT_METHOD@.len() == 16);
    }
    let first = table.register_method(
        String::from_str(GET_ACCOUNT_METHOD),
        true,
        Some(String::from_str(GET_ACCOUNT_PAYLOAD)),
        Some(String::from_str(GENERATE_ACCOUNT_RESPONSE)),
    );
    let second = table.register_method(
        String::from_str(GENERATE_ACCOUNT_METHOD),
        false,
        Some(String::from_str(GENERATE_ACCOUNT_PAYLOAD)),
        Some(String::from_str(GENERATE_ACCOUNT_RESPONSE)),
    );
    assert(table@ =~= account_code().methods);
    let hooks = Hooks { before: None, after: None, tx_before: None, tx_after: None };
    ServiceCode::new(String::from_str(ACCOUNT_SERVICE), None, Genesis::Absent, hooks, &table)
}

} // verus!
