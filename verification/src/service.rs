//! Running a service: genesis, the hooks around blocks and transactions, the
//! two dispatch entry points, and the metadata query.

use crate::binding::{Genesis, GenesisView};
use crate::json::{json_parse, json_render, Json, JsonView};
use crate::schema::{
    ascending, clone_methods, registered_all, views, DataMetaView, Registry, ServiceMeta, ServiceMetaView,
};
use crate::table::{
    lemma_route_absent, registrations, route_of, Route, RouteView, ServiceCode, ServiceCodeView,
};
use crate::text::str_same;
use crate::types::{text_outcome, Outcome, ServiceContext, ServiceContextView, ServiceResponse};
use vstd::prelude::*;
use vstd::string::*;

verus! {

/// The code of the error for a payload that cannot be decoded.
pub const CODE_DECODE_FAILED: u16 = 1;

/// The code of the error for a method that the bucket does not hold.
pub const CODE_NOT_FOUND: u16 = 2;

/// The value of something that may be absent.
pub open spec fn view_opt<T: View>(value: Option<T>) -> Option<T::V> {
    match value {
        Some(v) => Some(v@),
        None => None,
    }
}

/// The value of a response whose data is a document.
pub open spec fn doc_outcome(response: ServiceResponse<Json>) -> Outcome<JsonView> {
    match response {
        ServiceResponse::Succeed(doc) => Outcome::Succeed(doc@),
        ServiceResponse::Error { code, error_message } => Outcome::Error { code, message: error_message@ },
    }
}

/// Whether the data of a response, where it has data, can be written as text.
pub open spec fn plain_outcome(outcome: Outcome<JsonView>) -> bool {
    outcome matches Outcome::Succeed(doc) ==> doc.is_plain()
}

/// What the executor hands to the hooks around a block.
#[derive(Debug)]
pub struct ExecutorParams {
    pub state_root: crate::types::Hash,
    pub height: u64,
    pub timestamp: u64,
    pub cycles_limit: u64,
}

/// An event that a service emits.
#[derive(Debug)]
pub struct Event {
    pub service: String,
    pub data: String,
}

/// The record of one executed transaction.
#[derive(Debug)]
pub struct Receipt {
    pub state_root: crate::types::Hash,
    pub height: u64,
    pub tx_hash: crate::types::Hash,
    pub cycles_used: u64,
    pub events: Vec<Event>,
    pub service_name: String,
    pub method: String,
    pub code: u16,
}

/// The events of a list that may be absent.
pub open spec fn events_view(events: Option<Vec<Event>>) -> Option<Seq<Event>> {
    match events {
        Some(list) => Some(list@),
        None => None,
    }
}

/// What the handlers of a service do, written by the author of the service.
///
/// `State` stands for what the service has persisted. Every handler is a
/// function of that state and of what it is called with.
pub trait ServiceHandlers {
    /// A decoded payload.
    type Payload: View;

    /// What the service has persisted.
    type State;

    /// The persisted state of the service.
    spec fn state(&self) -> Self::State;

    /// The payload of the named type that a document decodes to.
    spec fn decoded(payload_type: Seq<char>, doc: JsonView) -> Option<<Self::Payload as View>::V>;

    /// The response of a reading method.
    spec fn read_outcome(
        state: Self::State,
        method: Seq<char>,
        ctx: ServiceContextView,
        payload: Option<<Self::Payload as View>::V>,
    ) -> Outcome<JsonView>;

    /// The response of a writing method.
    spec fn write_outcome(
        state: Self::State,
        method: Seq<char>,
        ctx: ServiceContextView,
        payload: Option<<Self::Payload as View>::V>,
    ) -> Outcome<JsonView>;

    /// The state that a writing method leaves.
    spec fn write_state(
        state: Self::State,
        method: Seq<char>,
        ctx: ServiceContextView,
        payload: Option<<Self::Payload as View>::V>,
    ) -> Self::State;

    /// The state that the genesis method leaves.
    spec fn genesis_state(
        state: Self::State,
        method: Seq<char>,
        payload: Option<<Self::Payload as View>::V>,
    ) -> Self::State;

    /// The state that the method before a block leaves.
    spec fn hook_before_state(state: Self::State, method: Seq<char>, params: ExecutorParams) -> Self::State;

    /// The state that the method after a block leaves.
    spec fn hook_after_state(
        state: Self::State,
        method: Seq<char>,
        params: ExecutorParams,
        receipts: Seq<Receipt>,
    ) -> Self::State;

    /// The events that the method after a block gives.
    spec fn hook_after_events(
        state: Self::State,
        method: Seq<char>,
        params: ExecutorParams,
        receipts: Seq<Receipt>,
    ) -> Option<Seq<Event>>;

    /// The state that the method before a transaction leaves.
    spec fn tx_hook_before_state(state: Self::State, method: Seq<char>, ctx: ServiceContextView) -> Self::State;

    /// The state that the method after a transaction leaves.
    spec fn tx_hook_after_state(state: Self::State, method: Seq<char>, ctx: ServiceContextView) -> Self::State;

    /// The schemas that the named type registers: its own, and those of the
    /// types that it is made of.
    spec fn schemas_of(name: Seq<char>) -> Seq<DataMetaView>;

    /// The names of the events of the service.
    spec fn event_names() -> Seq<Seq<char>>;

    /// The schemas of the data of the events.
    spec fn event_schemas() -> Seq<DataMetaView>;

    /// Calls the genesis method of the given name.
    fn genesis(&mut self, method: &str, payload: Option<Self::Payload>)
        ensures
            final(self).state() == Self::genesis_state(old(self).state(), method@, view_opt(payload)),
    ;

    /// Calls the method of the given name before a block.
    fn hook_before(&mut self, method: &str, params: &ExecutorParams)
        ensures
            final(self).state() == Self::hook_before_state(old(self).state(), method@, *params),
    ;

    /// Calls the method of the given name after a block.
    fn hook_after(&mut self, method: &str, params: &ExecutorParams, receipts: &[Receipt]) -> (r: Option<Vec<Event>>)
        ensures
            final(self).state() == Self::hook_after_state(old(self).state(), method@, *params, receipts@),
            events_view(r) == Self::hook_after_events(old(self).state(), method@, *params, receipts@),
    ;

    /// Calls the method of the given name before a transaction.
    fn tx_hook_before(&mut self, method: &str, ctx: ServiceContext)
        ensures
            final(self).state() == Self::tx_hook_before_state(old(self).state(), method@, ctx@),
    ;

    /// Calls the method of the given name after a transaction.
    fn tx_hook_after(&mut self, method: &str, ctx: ServiceContext)
        ensures
            final(self).state() == Self::tx_hook_after_state(old(self).state(), method@, ctx@),
    ;

    /// Has the named type register its schemas.
    fn register_meta(&self, name: &str, register: &mut Registry)
        ensures
            final(register)@ == registered_all(old(register)@, Self::schemas_of(name@)),
    ;

    /// The names of the events of the service, and the schemas of their data.
    fn event_meta(&self) -> (r: (Vec<String>, Registry))
        ensures
            views(r.0@) == Self::event_names(),
            r.1@ == registered_all(Seq::empty(), Self::event_schemas()),
    ;

    /// Decodes a document into a payload of the named type.
    fn decode_payload(&self, payload_type: &str, doc: &Json) -> (r: Option<Self::Payload>)
        ensures
            view_opt(r) == Self::decoded(payload_type@, doc@),
    ;

    /// Calls the reading method of the given name.
    fn call_read(&self, method: &str, ctx: &ServiceContext, payload: Option<Self::Payload>) -> (r: ServiceResponse<
        Json,
    >)
        ensures
            doc_outcome(r) == Self::read_outcome(self.state(), method@, ctx@, view_opt(payload)),
            plain_outcome(doc_outcome(r)),
    ;

    /// Calls the writing method of the given name.
    fn call_write(&mut self, method: &str, ctx: ServiceContext, payload: Option<Self::Payload>) -> (r:
        ServiceResponse<Json>)
        ensures
            doc_outcome(r) == Self::write_outcome(old(self).state(), method@, ctx@, view_opt(payload)),
            final(self).state() == Self::write_state(old(self).state(), method@, ctx@, view_opt(payload)),
            plain_outcome(doc_outcome(r)),
    ;
}

/// The text of a document, with the text of the null document replaced by
/// the empty text: a success without data carries no text at all.
pub open spec fn normalized(text: Seq<char>) -> Seq<char> {
    if text == "null"@ {
        Seq::empty()
    } else {
        text
    }
}

/// The response that leaves the service for the response of a handler: the
/// data of a success written as text, an error as it is.
pub open spec fn finished(outcome: Outcome<JsonView>) -> Outcome<Seq<char>> {
    match outcome {
        Outcome::Succeed(doc) => Outcome::Succeed(normalized(json_render(doc))),
        Outcome::Error { code, message } => Outcome::Error { code, message },
    }
}

/// The message of the error for a method that the bucket does not hold.
pub open spec fn not_found_message(method: Seq<char>, service: Seq<char>) -> Seq<char> {
    "not found method:"@ + method + " of service:"@ + service
}

/// The error for a payload that cannot be decoded.
pub open spec fn decode_failed() -> Outcome<Seq<char>> {
    Outcome::Error { code: CODE_DECODE_FAILED, message: "decode service payload failed"@ }
}

/// The error for a method that the bucket does not hold.
pub open spec fn not_found(ctx: ServiceContextView) -> Outcome<Seq<char>> {
    Outcome::Error { code: CODE_NOT_FOUND, message: not_found_message(ctx.service_method, ctx.service_name) }
}

/// The payload that a call brings to a method that takes one: the payload
/// text must be JSON, and the document must decode to the payload type.
pub open spec fn call_payload<H: ServiceHandlers>(payload_type: Seq<char>, text: Seq<char>) -> Option<
    <H::Payload as View>::V,
> {
    match json_parse(text) {
        Some(doc) => H::decoded(payload_type, doc),
        None => None,
    }
}

/// The response to a reading call.
pub open spec fn read_response<H: ServiceHandlers>(
    code: ServiceCodeView,
    state: H::State,
    ctx: ServiceContextView,
) -> Outcome<Seq<char>> {
    match route_of(code.methods, true, ctx.service_method) {
        RouteView::NotFound => not_found(ctx),
        RouteView::Plain => finished(H::read_outcome(state, ctx.service_method, ctx, None)),
        RouteView::WithPayload { payload_type } => match call_payload::<H>(payload_type, ctx.payload) {
            Some(payload) => finished(H::read_outcome(state, ctx.service_method, ctx, Some(payload))),
            None => decode_failed(),
        },
    }
}

/// The response to a writing call.
pub open spec fn write_response<H: ServiceHandlers>(
    code: ServiceCodeView,
    state: H::State,
    ctx: ServiceContextView,
) -> Outcome<Seq<char>> {
    match route_of(code.methods, false, ctx.service_method) {
        RouteView::NotFound => not_found(ctx),
        RouteView::Plain => finished(H::write_outcome(state, ctx.service_method, ctx, None)),
        RouteView::WithPayload { payload_type } => match call_payload::<H>(payload_type, ctx.payload) {
            Some(payload) => finished(H::write_outcome(state, ctx.service_method, ctx, Some(payload))),
            None => decode_failed(),
        },
    }
}

/// The state that a writing call leaves: that which the handler leaves where
/// one is called, and the state before the call where none is.
pub open spec fn write_effect<H: ServiceHandlers>(
    code: ServiceCodeView,
    state: H::State,
    ctx: ServiceContextView,
) -> H::State {
    match route_of(code.methods, false, ctx.service_method) {
        RouteView::NotFound => state,
        RouteView::Plain => H::write_state(state, ctx.service_method, ctx, None),
        RouteView::WithPayload { payload_type } => match call_payload::<H>(payload_type, ctx.payload) {
            Some(payload) => H::write_state(state, ctx.service_method, ctx, Some(payload)),
            None => state,
        },
    }
}

/// A reading call of a name that no reading method has is answered with code
/// 2, whatever its payload.
pub proof fn lemma_read_not_found<H: ServiceHandlers>(code: ServiceCodeView, state: H::State, ctx: ServiceContextView)
    requires
        forall|i: int|
            0 <= i < code.methods.len() ==> !((#[trigger] code.methods[i]).method_name == ctx.service_method
                && code.methods[i].readonly),
    ensures
        read_response::<H>(code, state, ctx) == not_found(ctx),
        read_response::<H>(code, state, ctx) matches Outcome::Error { code: number, .. } && number == 2,
{
    lemma_route_absent(code.methods, true, ctx.service_method);
}

/// A writing call of a name that no writing method has is answered with code
/// 2, whatever its payload, and leaves the state as it is.
pub proof fn lemma_write_not_found<H: ServiceHandlers>(code: ServiceCodeView, state: H::State, ctx: ServiceContextView)
    requires
        forall|i: int|
            0 <= i < code.methods.len() ==> !((#[trigger] code.methods[i]).method_name == ctx.service_method
                && !code.methods[i].readonly),
    ensures
        write_response::<H>(code, state, ctx) == not_found(ctx),
        write_response::<H>(code, state, ctx) matches Outcome::Error { code: number, .. } && number == 2,
        write_effect::<H>(code, state, ctx) == state,
{
    lemma_route_absent(code.methods, false, ctx.service_method);
}

/// A call of a method that takes a payload, with a payload that cannot be
/// decoded, is answered with code 1. No handler is called: a writing call
/// leaves the state as it is.
pub proof fn lemma_decode_failure<H: ServiceHandlers>(
    code: ServiceCodeView,
    state: H::State,
    ctx: ServiceContextView,
    readonly: bool,
)
    requires
        route_of(code.methods, readonly, ctx.service_method) matches RouteView::WithPayload { payload_type }
            && call_payload::<H>(payload_type, ctx.payload) is None,
    ensures
        readonly ==> read_response::<H>(code, state, ctx) == decode_failed(),
        !readonly ==> write_response::<H>(code, state, ctx) == decode_failed(),
        !readonly ==> write_effect::<H>(code, state, ctx) == state,
        decode_failed() matches Outcome::Error { code: number, .. } && number == 1,
{
}

/// Two answers to the same reading call of a service in the same state are
/// the same answer.
pub proof fn lemma_read_repeatable<H: ServiceHandlers>(
    service: Service<H>,
    ctx: ServiceContext,
    first: ServiceResponse<String>,
    second: ServiceResponse<String>,
)
    requires
        text_outcome(first) == read_response::<H>(service.code(), service.state(), ctx@),
        text_outcome(second) == read_response::<H>(service.code(), service.state(), ctx@),
    ensures
        text_outcome(first) == text_outcome(second),
{
}

/// Two answers of a service to the metadata query hold the same methods and
/// the same schemas.
pub proof fn lemma_meta_repeatable<H: ServiceHandlers>(service: Service<H>, first: ServiceMeta, second: ServiceMeta)
    requires
        first@ == meta_of::<H>(service.code()),
        second@ == meta_of::<H>(service.code()),
    ensures
        first@.methods == second@.methods,
        first@.method_params == second@.method_params,
{
}

/// In the answer to the metadata query the schemas stand in strictly
/// ascending order of their names, so that a type that several methods share
/// appears once.
pub proof fn lemma_params_once<H: ServiceHandlers>(names: Seq<Seq<char>>)
    ensures
        ascending(params_of::<H>(names)),
        forall|name: Seq<char>| crate::schema::occurrences(params_of::<H>(names), name) <= 1,
    decreases names.len(),
{
    if names.len() > 0 {
        lemma_params_once::<H>(names.drop_last());
        crate::schema::lemma_registered_all_ascending(params_of::<H>(names.drop_last()), H::schemas_of(names.last()));
    } else {
        crate::schema::lemma_registered_all_ascending(Seq::empty(), Seq::empty());
    }
}

/// A success whose data is written as `null` leaves as a success without
/// text; every other success leaves with the text of its data, `0` and `{}`
/// among them.
pub proof fn lemma_null_is_no_data(doc: JsonView)
    ensures
        json_render(doc) == "null"@ ==> finished(Outcome::Succeed(doc)) == Outcome::Succeed(Seq::<char>::empty()),
        json_render(doc) != "null"@ ==> finished(Outcome::Succeed(doc)) == Outcome::Succeed(json_render(doc)),
        normalized("0"@) == "0"@ && normalized("0"@).len() == 1,
        normalized("{}"@) == "{}"@ && normalized("{}"@).len() == 2,
        normalized("null"@).len() == 0,
{
    reveal_strlit("null");
    reveal_strlit("0");
    reveal_strlit("{}");
    assert("null"@.len() == 4 && "0"@.len() == 1 && "{}"@.len() == 2);
}

/// The response that leaves the service for the response of a handler.
pub fn finish(response: ServiceResponse<Json>) -> (r: ServiceResponse<String>)
    requires
        plain_outcome(doc_outcome(response)),
    ensures
        text_outcome(r) == finished(doc_outcome(response)),
{
    match response {
        ServiceResponse::Succeed(doc) => {
            let data_json = doc.render();
            if str_same(data_json.as_str(), "null") {
                ServiceResponse::Succeed(String::new())
            } else {
                ServiceResponse::Succeed(data_json)
            }
        },
        ServiceResponse::Error { code, error_message } => ServiceResponse::Error { code, error_message },
    }
}

/// The error response for a payload that cannot be decoded.
pub fn decode_failed_response() -> (r: ServiceResponse<String>)
    ensures
        text_outcome(r) == decode_failed(),
{
    ServiceResponse::Error { code: CODE_DECODE_FAILED, error_message: String::from_str("decode service payload failed") }
}

/// The error response for a method that the bucket does not hold.
pub fn not_found_response(ctx: &ServiceContext) -> (r: ServiceResponse<String>)
    ensures
        text_outcome(r) == not_found(ctx@),
{
    let mut message = String::from_str("not found method:");
    message.append(ctx.get_service_method());
    message.append(" of service:");
    message.append(ctx.get_service_name());
    ServiceResponse::Error { code: CODE_NOT_FOUND, error_message: message }
}

/// Routes a reading call to its handler and gives the response.
pub fn dispatch_read<H: ServiceHandlers>(code: &ServiceCode, handlers: &H, ctx: &ServiceContext) -> (r:
    ServiceResponse<String>)
    ensures
        text_outcome(r) == read_response::<H>(code@, handlers.state(), ctx@),
{
    let method = ctx.get_service_method();
    match code.route(true, method) {
        Route::NotFound => not_found_response(ctx),
        Route::Plain => finish(handlers.call_read(method, ctx, None)),
        Route::WithPayload { payload_type } => {
            let doc = match Json::parse(ctx.get_payload()) {
                Some(doc) => doc,
                None => {
                    return decode_failed_response();
                },
            };
            match handlers.decode_payload(payload_type.as_str(), &doc) {
                Some(payload) => finish(handlers.call_read(method, ctx, Some(payload))),
                None => decode_failed_response(),
            }
        },
    }
}

/// Routes a writing call to its handler and gives the response. Where no
/// handler is called, the state of the service stays as it is.
pub fn dispatch_write<H: ServiceHandlers>(code: &ServiceCode, handlers: &mut H, ctx: ServiceContext) -> (r:
    ServiceResponse<String>)
    ensures
        text_outcome(r) == write_response::<H>(code@, old(handlers).state(), ctx@),
        final(handlers).state() == write_effect::<H>(code@, old(handlers).state(), ctx@),
{
    match code.route(false, ctx.get_service_method()) {
        Route::NotFound => not_found_response(&ctx),
        Route::Plain => {
            let method = String::from_str(ctx.get_service_method());
            finish(handlers.call_write(method.as_str(), ctx, None))
        },
        Route::WithPayload { payload_type } => {
            let doc = match Json::parse(ctx.get_payload()) {
                Some(doc) => doc,
                None => {
                    return decode_failed_response();
                },
            };
            match handlers.decode_payload(payload_type.as_str(), &doc) {
                Some(payload) => {
                    let method = String::from_str(ctx.get_service_method());
                    finish(handlers.call_write(method.as_str(), ctx, Some(payload)))
                },
                None => decode_failed_response(),
            }
        },
    }
}

/// Where a service stands in its life.
#[derive(Clone, Copy, Debug, PartialEq, Eq, Structural)]
pub enum Phase {
    /// Assembled; genesis has not run.
    Constructed,
    /// Genesis has run; calls and hooks may come.
    Ready,
}

/// Why genesis failed.
#[derive(Debug, PartialEq, Eq)]
pub enum GenesisError {
    /// The payload text does not decode to the payload type of the genesis
    /// method.
    DecodePayload,
}

impl GenesisError {
    /// The text shown for the error.
    pub fn message(&self) -> (r: String)
        ensures
            r@ == "decode genesis payload failed"@,
    {
        String::from_str("decode genesis payload failed")
    }
}

/// The state that genesis leaves, or the error with which it fails. A
/// service without a genesis method stays as it is.
pub open spec fn genesis_effect<H: ServiceHandlers>(
    code: ServiceCodeView,
    state: H::State,
    payload: Seq<char>,
) -> Result<H::State, GenesisError> {
    match code.genesis {
        GenesisView::Absent => Ok(state),
        GenesisView::Plain { method } => Ok(H::genesis_state(state, method, None)),
        GenesisView::WithPayload { method, payload_type } => match call_payload::<H>(payload_type, payload) {
            Some(decoded) => Ok(H::genesis_state(state, method, Some(decoded))),
            None => Err(GenesisError::DecodePayload),
        },
    }
}

/// The schemas that the named types register, one type after the other.
pub open spec fn params_of<H: ServiceHandlers>(names: Seq<Seq<char>>) -> Seq<DataMetaView>
    decreases names.len(),
{
    if names.len() == 0 {
        Seq::empty()
    } else {
        registered_all(params_of::<H>(names.drop_last()), H::schemas_of(names.last()))
    }
}

/// What a service tells about itself.
pub open spec fn meta_of<H: ServiceHandlers>(code: ServiceCodeView) -> ServiceMetaView {
    ServiceMetaView {
        methods: code.methods,
        method_params: params_of::<H>(registrations(code.methods)),
        events: if code.event is Some {
            H::event_names()
        } else {
            Seq::empty()
        },
        event_structs: if code.event is Some {
            registered_all(Seq::empty(), H::event_schemas())
        } else {
            Seq::empty()
        },
    }
}

/// A service: its table, its handlers, and where it stands in its life.
pub struct Service<H: ServiceHandlers> {
    code: ServiceCode,
    handlers: H,
    phase: Phase,
}

impl<H: ServiceHandlers> Service<H> {
    /// The table of the service.
    pub closed spec fn code(&self) -> ServiceCodeView {
        self.code@
    }

    /// The persisted state of the service.
    pub closed spec fn state(&self) -> H::State {
        self.handlers.state()
    }

    /// Where the service stands in its life.
    pub closed spec fn phase(&self) -> Phase {
        self.phase
    }

    /// A service that has been assembled and not yet run.
    pub fn new(code: ServiceCode, handlers: H) -> (r: Self)
        ensures
            r.code() == code@,
            r.state() == handlers.state(),
            r.phase() == Phase::Constructed,
    {
        Service { code, handlers, phase: Phase::Constructed }
    }

    /// A service of a chain whose genesis has run before: it is ready as it
    /// is assembled.
    pub fn resume(code: ServiceCode, handlers: H) -> (r: Self)
        ensures
            r.code() == code@,
            r.state() == handlers.state(),
            r.phase() == Phase::Ready,
    {
        Service { code, handlers, phase: Phase::Ready }
    }

    /// Where the service stands in its life.
    pub fn current_phase(&self) -> (r: Phase)
        ensures
            r == self.phase(),
    {
        self.phase
    }

    /// The handlers of the service.
    pub fn handlers(&self) -> (r: &H)
        ensures
            r.state() == self.state(),
    {
        &self.handlers
    }

    /// The table of the service.
    pub fn table(&self) -> (r: &ServiceCode)
        ensures
            r@ == self.code(),
    {
        &self.code
    }

    /// Runs genesis, once, with the payload text that the chain was given
    /// for this service. Where the payload does not decode, the genesis
    /// method is not called and the service is not ready.
    pub fn genesis_(&mut self, payload: String) -> (r: Result<(), GenesisError>)
        requires
            old(self).phase() == Phase::Constructed,
        ensures
            final(self).code() == old(self).code(),
            match r {
                Ok(()) => genesis_effect::<H>(old(self).code(), old(self).state(), payload@) == Ok::<
                    H::State,
                    GenesisError,
                >(final(self).state()) && final(self).phase() == Phase::Ready,
                Err(e) => genesis_effect::<H>(old(self).code(), old(self).state(), payload@) == Err::<
                    H::State,
                    GenesisError,
                >(e) && final(self).state() == old(self).state() && final(self).phase() == Phase::Constructed,
            },
    {
        let genesis = self.code.genesis().clone();
        match genesis {
            Genesis::Absent => {},
            Genesis::Plain { method } => {
                self.handlers.genesis(method.as_str(), None);
            },
            Genesis::WithPayload { method, payload_type } => {
                let doc = match Json::parse(payload.as_str()) {
                    Some(doc) => doc,
                    None => {
                        return Err(GenesisError::DecodePayload);
                    },
                };
                match self.handlers.decode_payload(payload_type.as_str(), &doc) {
                    Some(decoded) => {
                        self.handlers.genesis(method.as_str(), Some(decoded));
                    },
                    None => {
                        return Err(GenesisError::DecodePayload);
                    },
                }
            },
        }
        self.phase = Phase::Ready;
        Ok(())
    }

    /// Runs the hook before a block. Without such a hook nothing happens.
    pub fn hook_before_(&mut self, params: &ExecutorParams)
        ensures
            final(self).code() == old(self).code(),
            final(self).phase() == old(self).phase(),
            final(self).state() == match old(self).code().hooks.before {
                Some(method) => H::hook_before_state(old(self).state(), method, *params),
                None => old(self).state(),
            },
    {
        let hook = crate::schema::clone_name(&self.code.hooks().before);
        match hook {
            Some(method) => {
                self.handlers.hook_before(method.as_str(), params);
            },
            None => {},
        }
    }

    /// Runs the hook after a block and gives the events that it emits.
    /// Without such a hook nothing happens and there are no events.
    pub fn hook_after_(&mut self, params: &ExecutorParams, receipts: &[Receipt]) -> (r: Option<Vec<Event>>)
        ensures
            final(self).code() == old(self).code(),
            final(self).phase() == old(self).phase(),
            final(self).state() == match old(self).code().hooks.after {
                Some(method) => H::hook_after_state(old(self).state(), method, *params, receipts@),
                None => old(self).state(),
            },
            events_view(r) == match old(self).code().hooks.after {
                Some(method) => H::hook_after_events(old(self).state(), method, *params, receipts@),
                None => None,
            },
    {
        let hook = crate::schema::clone_name(&self.code.hooks().after);
        match hook {
            Some(method) => self.handlers.hook_after(method.as_str(), params, receipts),
            None => None,
        }
    }

    /// Runs the hook before a transaction. Without such a hook nothing
    /// happens.
    pub fn tx_hook_before_(&mut self, ctx: ServiceContext)
        ensures
            final(self).code() == old(self).code(),
            final(self).phase() == old(self).phase(),
            final(self).state() == match old(self).code().hooks.tx_before {
                Some(method) => H::tx_hook_before_state(old(self).state(), method, ctx@),
                None => old(self).state(),
            },
    {
        let hook = crate::schema::clone_name(&self.code.hooks().tx_before);
        match hook {
            Some(method) => {
                self.handlers.tx_hook_before(method.as_str(), ctx);
            },
            None => {},
        }
    }

    /// Runs the hook after a transaction. Without such a hook nothing
    /// happens.
    pub fn tx_hook_after_(&mut self, ctx: ServiceContext)
        ensures
            final(self).code() == old(self).code(),
            final(self).phase() == old(self).phase(),
            final(self).state() == match old(self).code().hooks.tx_after {
                Some(method) => H::tx_hook_after_state(old(self).state(), method, ctx@),
                None => old(self).state(),
            },
    {
        let hook = crate::schema::clone_name(&self.code.hooks().tx_after);
        match hook {
            Some(method) => {
                self.handlers.tx_hook_after(method.as_str(), ctx);
            },
            None => {},
        }
    }

    /// Answers a reading call. Only the methods marked for reading are
    /// looked at.
    pub fn read_(&self, ctx: &ServiceContext) -> (r: ServiceResponse<String>)
        requires
            self.phase() == Phase::Ready,
        ensures
            text_outcome(r) == read_response::<H>(self.code(), self.state(), ctx@),
    {
        dispatch_read(&self.code, &self.handlers, ctx)
    }

    /// Answers a writing call. Only the methods marked for writing are
    /// looked at.
    pub fn write_(&mut self, ctx: ServiceContext) -> (r: ServiceResponse<String>)
        requires
            old(self).phase() == Phase::Ready,
        ensures
            text_outcome(r) == write_response::<H>(old(self).code(), old(self).state(), ctx@),
            final(self).state() == write_effect::<H>(old(self).code(), old(self).state(), ctx@),
            final(self).code() == old(self).code(),
            final(self).phase() == Phase::Ready,
    {
        dispatch_write(&self.code, &mut self.handlers, ctx)
    }

    /// Tells what the service is: its methods, the schemas of their types in
    /// ascending order of the type names, and its events.
    pub fn meta_(&self) -> (r: ServiceMeta)
        ensures
            r@ == meta_of::<H>(self.code()),
            ascending(r@.method_params),
            ascending(r@.event_structs),
    {
        let mut register = Registry::new();
        let names = self.code.register();
        let ghost all = views(names@);
        let mut i: usize = 0;
        assert(all.take(0) =~= Seq::<Seq<char>>::empty());
        while i < names.len()
            invariant
                i <= names.len(),
                all == views(names@),
                register@ == params_of::<H>(all.take(i as int)),
            decreases names.len() - i,
        {
            assert(all.take(i + 1).drop_last() =~= all.take(i as int));
            assert(all.take(i + 1).last() == names@[i as int]@);
            self.handlers.register_meta(names[i].as_str(), &mut register);
            i += 1;
        }
        assert(all.take(names.len() as int) =~= all);
        let method_metas = clone_methods(self.code.methods());
        proof {
            lemma_params_once::<H>(all);
            crate::schema::lemma_registered_all_ascending(Seq::empty(), H::event_schemas());
        }
        if self.code.event().is_some() {
            let (events, event_structs) = self.handlers.event_meta();
            ServiceMeta { methods: method_metas, method_params: register, events, event_structs }
        } else {
            let events: Vec<String> = Vec::new();
            assert(views(events@) =~= Seq::<Seq<char>>::empty());
            ServiceMeta { methods: method_metas, method_params: register, events, event_structs: Registry::new() }
        }
    }
}

} // verus!
