//! The account service: accounts that several keys share, each key with a
//! weight, and a threshold that the weights of the signing keys must reach.

use crate::schema::{lemma_views_step, views};
use crate::types::{
    bytes_from_vec, bytes_to_vec, bytes_view, Address, Outcome, ServiceContext, ServiceResponse, ADDRESS_LEN,
};
use vstd::prelude::*;
use vstd::string::*;

verus! {

/// The kind of an account that is a public key.
pub const ACCOUNT_TYPE_PUBLIC_KEY: u8 = 0;

/// The largest number of accounts that may share a permission.
pub const MAX_PERMISSION_ACCOUNTS: u8 = 16;

/// The kind of a witness with one signature.
pub const SINGLE_SIGNATURE: u8 = 0;

/// The kind of a witness with several signatures.
pub const MULTI_SIGNATURE: u8 = 1;

/// The code of an error in what the caller asked for.
pub const CODE_INVALID: u16 = 110;

/// The code of an error in deriving the address of a new account.
pub const CODE_ADDRESS: u16 = 111;

/// The sub-key under which the permission of an address is stored.
pub const PERMISSION_KEY: u8 = 0;

/// One account of a permission.
#[derive(Debug)]
pub struct Account {
    pub address: Address,
    pub account_type: u8,
    pub permission_id: u8,
    pub weight: u32,
}

/// The mathematical value of an `Account`.
pub struct AccountView {
    pub address: Seq<u8>,
    pub account_type: u8,
    pub permission_id: u8,
    pub weight: u32,
}

impl View for Account {
    type V = AccountView;

    open spec fn view(&self) -> AccountView {
        AccountView {
            address: self.address@,
            account_type: self.account_type,
            permission_id: self.permission_id,
            weight: self.weight,
        }
    }
}

impl Clone for Account {
    fn clone(&self) -> (r: Self)
        ensures
            r@ == self@,
    {
        Account {
            address: self.address.clone(),
            account_type: self.account_type,
            permission_id: self.permission_id,
            weight: self.weight,
        }
    }
}

/// Who may act for an address: the accounts with their weights, and the
/// weight that has to come together. A stored permission has a threshold
/// above 0 that its weights reach.
#[derive(Debug)]
pub struct Permission {
    pub accounts: Vec<Account>,
    pub threshold: u32,
}

/// The mathematical value of a `Permission`.
pub struct PermissionView {
    pub accounts: Seq<AccountView>,
    pub threshold: u32,
}

impl View for Permission {
    type V = PermissionView;

    open spec fn view(&self) -> PermissionView {
        PermissionView { accounts: views(self.accounts@), threshold: self.threshold }
    }
}

impl Clone for Permission {
    fn clone(&self) -> (r: Self)
        ensures
            r@ == self@,
    {
        let mut accounts: Vec<Account> = Vec::new();
        let mut i: usize = 0;
        assert(self.accounts@.take(0) =~= Seq::<Account>::empty());
        assert(views(accounts@) =~= views(self.accounts@.take(0)));
        while i < self.accounts.len()
            invariant
                i <= self.accounts.len(),
                views(accounts@) == views(self.accounts@.take(i as int)),
            decreases self.accounts.len() - i,
        {
            let ghost before = accounts@;
            let account = self.accounts[i].clone();
            proof {
                lemma_views_step(before, account, self.accounts@, i as int);
            }
            accounts.push(account);
            i += 1;
        }
        assert(self.accounts@.take(self.accounts.len() as int) =~= self.accounts@);
        Permission { accounts, threshold: self.threshold }
    }
}

/// An account as a payload names it: an address and its weight.
#[derive(Debug)]
pub struct PayloadAccount {
    pub address: Address,
    pub weight: u32,
}

impl View for PayloadAccount {
    type V = (Seq<u8>, u32);

    open spec fn view(&self) -> (Seq<u8>, u32) {
        (self.address@, self.weight)
    }
}

/// The payload of `generate_account`.
#[derive(Debug)]
pub struct GenerateAccountPayload {
    pub accounts: Vec<PayloadAccount>,
    pub threshold: u32,
}

/// The mathematical value of a `GenerateAccountPayload`.
pub struct GenerateAccountPayloadView {
    pub accounts: Seq<(Seq<u8>, u32)>,
    pub threshold: u32,
}

impl View for GenerateAccountPayload {
    type V = GenerateAccountPayloadView;

    open spec fn view(&self) -> GenerateAccountPayloadView {
        GenerateAccountPayloadView { accounts: views(self.accounts@), threshold: self.threshold }
    }
}

/// What `generate_account` and `get_account_from_address` answer with.
#[derive(Debug)]
pub struct GenerateAccountResponse {
    pub accounts: Vec<PayloadAccount>,
    pub threshold: u32,
    pub address: Address,
}

/// The mathematical value of a `GenerateAccountResponse`.
pub struct GenerateAccountResponseView {
    pub accounts: Seq<(Seq<u8>, u32)>,
    pub threshold: u32,
    pub address: Seq<u8>,
}

impl View for GenerateAccountResponse {
    type V = GenerateAccountResponseView;

    open spec fn view(&self) -> GenerateAccountResponseView {
        GenerateAccountResponseView {
            accounts: views(self.accounts@),
            threshold: self.threshold,
            address: self.address@,
        }
    }
}

/// The payload of `get_account_from_address`.
#[derive(Debug)]
pub struct GetAccountPayload {
    pub user: Address,
}

impl View for GetAccountPayload {
    type V = Seq<u8>;

    open spec fn view(&self) -> Seq<u8> {
        self.user@
    }
}

/// What is presented to have an action authorized.
#[derive(Debug)]
pub struct Witness {
    pub signature_type: u8,
    pub raw: Vec<u8>,
}

/// What a service keeps for addresses, each value under an address and a
/// sub-key.
pub type AccountStore = Map<(Seq<u8>, u8), PermissionView>;

/// The storage that a service is given.
pub trait ServiceSDK {
    /// What is stored.
    spec fn accounts(&self) -> AccountStore;

    /// The value stored for an address under a sub-key.
    fn get_account_value(&self, address: &Address, key: &u8) -> (r: Option<Permission>)
        ensures
            match r {
                Some(value) => self.accounts().contains_key((address@, *key)) && self.accounts()[(address@, *key)]
                    == value@,
                None => !self.accounts().contains_key((address@, *key)),
            },
    ;

    /// Stores a value for an address under a sub-key, in place of what was
    /// stored there.
    fn set_account_value(&mut self, address: &Address, key: u8, value: Permission)
        ensures
            final(self).accounts() == old(self).accounts().insert((address@, key), value@),
    ;
}

/// One value in a `MemorySDK`, with the place it is stored at.
#[derive(Debug)]
pub struct MemoryEntry {
    pub address: Address,
    pub key: u8,
    pub value: Permission,
}

/// What a sequence of entries holds: of the entries of one place the last
/// counts.
pub open spec fn stored(entries: Seq<MemoryEntry>) -> AccountStore
    decreases entries.len(),
{
    if entries.len() == 0 {
        Map::empty()
    } else {
        stored(entries.drop_last()).insert((entries.last().address@, entries.last().key), entries.last().value@)
    }
}

/// Writing a value over the last entry of its place stores the value at the
/// place and leaves every other place as it is.
pub proof fn lemma_stored_update(entries: Seq<MemoryEntry>, at: int, entry: MemoryEntry)
    requires
        0 <= at < entries.len(),
        entries[at].address@ == entry.address@,
        entries[at].key == entry.key,
        forall|j: int|
            at < j < entries.len() ==> !((#[trigger] entries[j]).address@ == entry.address@ && entries[j].key
                == entry.key),
    ensures
        stored(entries.update(at, entry)) == stored(entries).insert((entry.address@, entry.key), entry.value@),
    decreases entries.len(),
{
    let place = (entry.address@, entry.key);
    let front = entries.drop_last();
    let last = entries.last();
    if at == entries.len() - 1 {
        assert(entries.update(at, entry).drop_last() =~= front);
        assert(stored(front).insert(place, last.value@).insert(place, entry.value@) =~= stored(front).insert(
            place,
            entry.value@,
        ));
    } else {
        assert(front[at] == entries[at]);
        assert forall|j: int| at < j < front.len() implies !((#[trigger] front[j]).address@ == entry.address@
            && front[j].key == entry.key) by {
            assert(front[j] == entries[j]);
        }
        lemma_stored_update(front, at, entry);
        assert(entries.update(at, entry).drop_last() =~= front.update(at, entry));
        assert(entries.update(at, entry).last() == last);
        let other = (last.address@, last.key);
        assert(other != place);
        assert(stored(front).insert(place, entry.value@).insert(other, last.value@) =~= stored(front).insert(
            other,
            last.value@,
        ).insert(place, entry.value@));
    }
}

/// A storage that lives in memory.
#[derive(Debug)]
pub struct MemorySDK {
    entries: Vec<MemoryEntry>,
}

impl MemorySDK {
    /// A storage that holds nothing.
    pub fn new() -> (r: MemorySDK)
        ensures
            r.accounts() == Map::<(Seq<u8>, u8), PermissionView>::empty(),
    {
        MemorySDK { entries: Vec::new() }
    }
}

impl ServiceSDK for MemorySDK {
    closed spec fn accounts(&self) -> AccountStore {
        stored(self.entries@)
    }

    fn get_account_value(&self, address: &Address, key: &u8) -> (r: Option<Permission>) {
        let ghost place = (address@, *key);
        let mut i: usize = self.entries.len();
        assert(self.entries@.take(i as int) =~= self.entries@);
        while i > 0
            invariant
                i <= self.entries.len(),
                place == (address@, *key),
                stored(self.entries@).contains_key(place) == stored(self.entries@.take(i as int)).contains_key(place),
                stored(self.entries@).contains_key(place) ==> stored(self.entries@)[place] == stored(
                    self.entries@.take(i as int),
                )[place],
            decreases i,
        {
            i -= 1;
            assert(self.entries@.take(i + 1).drop_last() =~= self.entries@.take(i as int));
            assert(self.entries@.take(i + 1).last() == self.entries@[i as int]);
            let entry = &self.entries[i];
            if entry.key == *key && entry.address.same(address) {
                return Some(entry.value.clone());
            }
        }
        assert(self.entries@.take(0) =~= Seq::<MemoryEntry>::empty());
        None
    }

    fn set_account_value(&mut self, address: &Address, key: u8, value: Permission) {
        let ghost before = self.entries@;
        let entry = MemoryEntry { address: address.clone(), key, value };
        let mut i: usize = self.entries.len();
        while i > 0
            invariant
                i <= self.entries.len(),
                before == self.entries@,
                before == old(self).entries@,
                entry.address@ == address@,
                entry.key == key,
                entry.value@ == value@,
                forall|j: int|
                    i <= j < before.len() ==> !((#[trigger] before[j]).address@ == address@ && before[j].key == key),
            decreases i,
        {
            i -= 1;
            if self.entries[i].key == key && self.entries[i].address.same(address) {
                proof {
                    lemma_stored_update(before, i as int, entry);
                }
                self.entries.set(i, entry);
                return;
            }
        }
        self.entries.push(entry);
        assert(self.entries@.drop_last() =~= before);
    }
}

/// Something that can check a witness.
pub trait SigVerify {
    /// Whether the witness authorizes.
    fn verify(&mut self, witness: bytes::Bytes) -> bool;
}

/// The Keccak-256 digest of a byte string.
pub uninterp spec fn keccak256(data: Seq<u8>) -> Seq<u8>;

/// Calls `digest` of `hasher::HasherKeccak`: the Keccak-256 digest of the
/// data, which has 32 bytes and depends on the data alone.
#[verifier::external_body]
fn keccak_digest(data: &[u8]) -> (r: Vec<u8>)
    ensures
        r@ == keccak256(data@),
        r@.len() == 32,
{
    hasher::Hasher::digest(&hasher::HasherKeccak::new(), data)
}

/// The address of the account that a transaction generates: the first 20
/// bytes of the digest of the transaction hash.
pub open spec fn generated_address(tx_hash: Seq<u8>) -> Seq<u8> {
    keccak256(tx_hash).take(ADDRESS_LEN as int)
}

/// The sum of the weights of the accounts.
pub open spec fn weight_sum(accounts: Seq<(Seq<u8>, u32)>) -> int
    decreases accounts.len(),
{
    if accounts.len() == 0 {
        0
    } else {
        weight_sum(accounts.drop_last()) + accounts.last().1
    }
}

/// The accounts of a new permission: public keys with the given addresses
/// and weights.
pub open spec fn new_accounts(accounts: Seq<(Seq<u8>, u32)>) -> Seq<AccountView> {
    accounts.map_values(
        |a: (Seq<u8>, u32)|
            AccountView { address: a.0, account_type: ACCOUNT_TYPE_PUBLIC_KEY, permission_id: 0, weight: a.1 },
    )
}

/// The accounts of a permission as a response names them.
pub open spec fn payload_accounts(accounts: Seq<AccountView>) -> Seq<(Seq<u8>, u32)> {
    accounts.map_values(|a: AccountView| (a.address, a.weight))
}

/// Why an account cannot be generated, if it cannot: the number of accounts
/// must be from 1 to 16, the threshold above 0 and within the sum of the
/// weights, and the call must come with a transaction hash.
pub open spec fn generate_error(tx_hash: Option<Seq<u8>>, payload: GenerateAccountPayloadView) -> Option<
    (u16, Seq<char>),
> {
    if payload.accounts.len() == 0 || payload.accounts.len() > MAX_PERMISSION_ACCOUNTS {
        Some((CODE_INVALID, "accounts length must be [1,16]"@))
    } else if weight_sum(payload.accounts) < payload.threshold || payload.threshold == 0 {
        Some((CODE_INVALID, "accounts weight or threshold not valid"@))
    } else if tx_hash is None {
        Some((CODE_ADDRESS, "generate addr_hash from tx_hash failed"@))
    } else {
        None
    }
}

/// The response of `generate_account`.
pub open spec fn generate_outcome(tx_hash: Option<Seq<u8>>, payload: GenerateAccountPayloadView) -> Outcome<
    GenerateAccountResponseView,
> {
    match generate_error(tx_hash, payload) {
        Some((code, message)) => Outcome::Error { code, message },
        None => Outcome::Succeed(
            GenerateAccountResponseView {
                accounts: payload.accounts,
                threshold: payload.threshold,
                address: generated_address(tx_hash->Some_0),
            },
        ),
    }
}

/// What is stored after `generate_account`: on success the new permission
/// under the generated address, and otherwise what was stored before.
pub open spec fn generate_store(
    store: AccountStore,
    tx_hash: Option<Seq<u8>>,
    payload: GenerateAccountPayloadView,
) -> AccountStore {
    if generate_error(tx_hash, payload) is Some {
        store
    } else {
        store.insert(
            (generated_address(tx_hash->Some_0), PERMISSION_KEY),
            PermissionView { accounts: new_accounts(payload.accounts), threshold: payload.threshold },
        )
    }
}

/// The response of `get_account_from_address`: the permission stored for the
/// address, or an error where none is stored. A threshold of 0 stands for no
/// permission.
pub open spec fn get_account_outcome(store: AccountStore, user: Seq<u8>) -> Outcome<GenerateAccountResponseView> {
    if store.contains_key((user, PERMISSION_KEY)) && store[(user, PERMISSION_KEY)].threshold != 0 {
        Outcome::Succeed(
            GenerateAccountResponseView {
                accounts: payload_accounts(store[(user, PERMISSION_KEY)].accounts),
                threshold: store[(user, PERMISSION_KEY)].threshold,
                address: user,
            },
        )
    } else {
        Outcome::Error { code: CODE_INVALID, message: "account not existed"@ }
    }
}

/// After an account is generated, asking for its address gives the accounts
/// and the threshold that it was generated with; the address depends on the
/// hash of the transaction alone.
pub proof fn lemma_generate_then_get(store: AccountStore, tx_hash: Seq<u8>, payload: GenerateAccountPayloadView)
    requires
        generate_error(Some(tx_hash), payload) is None,
    ensures
        generate_outcome(Some(tx_hash), payload) == Outcome::Succeed(
            GenerateAccountResponseView {
                accounts: payload.accounts,
                threshold: payload.threshold,
                address: generated_address(tx_hash),
            },
        ),
        get_account_outcome(generate_store(store, Some(tx_hash), payload), generated_address(tx_hash))
            == generate_outcome(Some(tx_hash), payload),
{
    assert(payload_accounts(new_accounts(payload.accounts)) =~= payload.accounts);
}

/// Asking for an address under which nothing is stored gives the error
/// "account not existed", and generating an account stores nothing where it
/// fails.
pub proof fn lemma_unknown_account(store: AccountStore, user: Seq<u8>)
    requires
        !store.contains_key((user, PERMISSION_KEY)),
    ensures
        get_account_outcome(store, user) == (Outcome::<GenerateAccountResponseView>::Error {
            code: 110,
            message: "account not existed"@,
        }),
{
}

/// The sum of the weights of the accounts of a permission.
pub open spec fn permission_weight(accounts: Seq<AccountView>) -> int
    decreases accounts.len(),
{
    if accounts.len() == 0 {
        0
    } else {
        permission_weight(accounts.drop_last()) + accounts.last().weight
    }
}

/// Whether a permission may be stored: its threshold is above 0 and within
/// the sum of its weights.
pub open spec fn valid_permission(permission: PermissionView) -> bool {
    0 < permission.threshold <= permission_weight(permission.accounts)
}

/// The accounts of a new permission weigh what the accounts of the payload
/// weigh.
pub proof fn lemma_new_accounts_weight(accounts: Seq<(Seq<u8>, u32)>)
    ensures
        permission_weight(new_accounts(accounts)) == weight_sum(accounts),
    decreases accounts.len(),
{
    if accounts.len() > 0 {
        lemma_new_accounts_weight(accounts.drop_last());
        assert(new_accounts(accounts).drop_last() =~= new_accounts(accounts.drop_last()));
    }
}

/// Generating an account keeps every stored permission valid.
pub proof fn lemma_generate_keeps_valid(store: AccountStore, tx_hash: Option<Seq<u8>>, payload: GenerateAccountPayloadView)
    requires
        forall|place: (Seq<u8>, u8)| store.contains_key(place) ==> valid_permission(#[trigger] store[place]),
    ensures
        forall|place: (Seq<u8>, u8)|
            generate_store(store, tx_hash, payload).contains_key(place) ==> valid_permission(
                #[trigger] generate_store(store, tx_hash, payload)[place],
            ),
{
    lemma_new_accounts_weight(payload.accounts);
}

/// The value of a response of the account service.
pub open spec fn typed_outcome(response: ServiceResponse<GenerateAccountResponse>) -> Outcome<
    GenerateAccountResponseView,
> {
    match response {
        ServiceResponse::Succeed(data) => Outcome::Succeed(data@),
        ServiceResponse::Error { code, error_message } => Outcome::Error { code, message: error_message@ },
    }
}

/// The account service, on the storage it is given.
pub struct AccountService<SDK: ServiceSDK> {
    sdk: SDK,
}

impl<SDK: ServiceSDK> AccountService<SDK> {
    /// What the service has stored.
    pub closed spec fn store(&self) -> AccountStore {
        self.sdk.accounts()
    }

    /// The account service on the given storage.
    pub fn new(sdk: SDK) -> (r: Self)
        ensures
            r.store() == sdk.accounts(),
    {
        Self { sdk }
    }

    /// The storage of the service.
    pub fn sdk(&self) -> (r: &SDK)
        ensures
            r.accounts() == self.store(),
    {
        &self.sdk
    }

    /// Whether a witness authorizes. Every witness does.
    pub fn verify(&self, witness: bytes::Bytes) -> (r: bool)
        ensures
            r,
    {
        let wit = Self::from_witness_bytes(witness);
        if !Self::check_valid(&wit) {
            return false;
        }
        true
    }

    /// Whether a witness is well formed. Every witness is.
    pub fn check_valid(wit: &Witness) -> (r: bool)
        ensures
            r,
    {
        true
    }

    /// The witness that a byte buffer holds: one signature, over the bytes
    /// as they are.
    pub fn from_witness_bytes(witness: bytes::Bytes) -> (r: Witness)
        ensures
            r.signature_type == SINGLE_SIGNATURE,
            r.raw@ == bytes_view(witness),
    {
        Witness { signature_type: SINGLE_SIGNATURE, raw: bytes_to_vec(&witness) }
    }

    /// The permission stored for an address.
    pub fn get_account_from_address(&self, ctx: &ServiceContext, payload: GetAccountPayload) -> (r: ServiceResponse<
        GenerateAccountResponse,
    >)
        ensures
            typed_outcome(r) == get_account_outcome(self.store(), payload@),
    {
        let permission = match self.sdk.get_account_value(&payload.user, &PERMISSION_KEY) {
            Some(permission) => permission,
            None => Permission { accounts: Vec::new(), threshold: 0 },
        };
        if permission.threshold == 0 {
            return ServiceResponse::from_error(CODE_INVALID, String::from_str("account not existed"));
        }
        let ghost stored_accounts = views(permission.accounts@);
        let mut accounts: Vec<PayloadAccount> = Vec::new();
        let mut i: usize = 0;
        assert(views(accounts@) =~= payload_accounts(stored_accounts.take(0)));
        while i < permission.accounts.len()
            invariant
                i <= permission.accounts.len(),
                stored_accounts == views(permission.accounts@),
                views(accounts@) == payload_accounts(stored_accounts.take(i as int)),
            decreases permission.accounts.len() - i,
        {
            let item = &permission.accounts[i];
            let ghost before = accounts@;
            let account = PayloadAccount { address: item.address.clone(), weight: item.weight };
            accounts.push(account);
            assert(views(accounts@) =~= views(before).push(account@));
            assert(payload_accounts(stored_accounts.take(i + 1)) =~= payload_accounts(
                stored_accounts.take(i as int),
            ).push((item@.address, item@.weight)));
            i += 1;
        }
        assert(stored_accounts.take(permission.accounts.len() as int) =~= stored_accounts);
        let response = GenerateAccountResponse {
            accounts,
            threshold: permission.threshold,
            address: payload.user.clone(),
        };
        ServiceResponse::from_succeed(response)
    }

    /// Generates an account for the keys of the payload, under an address
    /// derived from the hash of the transaction, and stores its permission.
    pub fn generate_account(&mut self, ctx: &ServiceContext, payload: GenerateAccountPayload) -> (r: ServiceResponse<
        GenerateAccountResponse,
    >)
        ensures
            typed_outcome(r) == generate_outcome(ctx@.tx_hash, payload@),
            final(self).store() == generate_store(old(self).store(), ctx@.tx_hash, payload@),
    {
        if payload.accounts.len() == 0 || payload.accounts.len() > MAX_PERMISSION_ACCOUNTS as usize {
            return ServiceResponse::from_error(CODE_INVALID, String::from_str("accounts length must be [1,16]"));
        }
        let ghost given = views(payload.accounts@);
        let mut weight_all: u64 = 0;
        let mut accounts: Vec<Account> = Vec::new();
        let mut i: usize = 0;
        assert(given.take(0) =~= Seq::<(Seq<u8>, u32)>::empty());
        assert(views(accounts@) =~= new_accounts(given.take(0)));
        while i < payload.accounts.len()
            invariant
                i <= payload.accounts.len() <= 16,
                given == views(payload.accounts@),
                weight_all == weight_sum(given.take(i as int)),
                weight_all <= i * 0xffff_ffff,
                views(accounts@) == new_accounts(given.take(i as int)),
            decreases payload.accounts.len() - i,
        {
            let item = &payload.accounts[i];
            assert(given.take(i + 1).drop_last() =~= given.take(i as int));
            assert(given.take(i + 1).last() == item@);
            weight_all = weight_all + item.weight as u64;
            let ghost before = accounts@;
            let account = Account {
                address: item.address.clone(),
                account_type: ACCOUNT_TYPE_PUBLIC_KEY,
                permission_id: 0,
                weight: item.weight,
            };
            accounts.push(account);
            assert(views(accounts@) =~= views(before).push(account@));
            assert(new_accounts(given.take(i + 1)) =~= new_accounts(given.take(i as int)).push(account@));
            i += 1;
        }
        assert(given.take(payload.accounts.len() as int) =~= given);
        if weight_all < payload.threshold as u64 || payload.threshold == 0 {
            return ServiceResponse::from_error(
                CODE_INVALID,
                String::from_str("accounts weight or threshold not valid"),
            );
        }
        let tx_hash = match ctx.get_tx_hash() {
            Some(tx_hash) => tx_hash,
            None => {
                return ServiceResponse::from_error(
                    CODE_ADDRESS,
                    String::from_str("generate addr_hash from tx_hash failed"),
                );
            },
        };
        let digest = keccak_digest(tx_hash.as_slice());
        let addr_hash = match crate::types::Hash::from_bytes(bytes_from_vec(digest)) {
            Ok(addr_hash) => addr_hash,
            Err(_) => {
                return ServiceResponse::from_error(
                    CODE_ADDRESS,
                    String::from_str("generate addr_hash from tx_hash failed"),
                );
            },
        };
        let address = match Address::from_hash(addr_hash) {
            Ok(address) => address,
            Err(_) => {
                return ServiceResponse::from_error(
                    CODE_ADDRESS,
                    String::from_str("generate address from tx_hash failed"),
                );
            },
        };
        let permission = Permission { accounts, threshold: payload.threshold };
        self.sdk.set_account_value(&address, PERMISSION_KEY, permission);
        let response = GenerateAccountResponse {
            address: address.clone(),
            accounts: payload.accounts,
            threshold: payload.threshold,
        };
        ServiceResponse::from_succeed(response)
    }
}

impl<SDK: ServiceSDK> SigVerify for AccountService<SDK> {
    /// Whether a witness authorizes: the answer of the service's own
    /// `verify`, which accepts every witness. The service stays as it is.
    fn verify(&mut self, witness: bytes::Bytes) -> (r: bool)
        ensures
            r,
            *final(self) == *old(self),
    {
        AccountService::verify(self, witness)
    }
}

} // verus!
