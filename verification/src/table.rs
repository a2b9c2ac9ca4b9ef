//! The method table of a service: the methods it exposes, each in exactly one
//! of four buckets (read or write, with or without a payload), and what a
//! service is called with at genesis and at the hook points.

use crate::binding::{ConfigError, Genesis, GenesisView, Hooks, HooksView};
use crate::schema::{lemma_views_step, name_view, views, MethodMeta, MethodMetaView};
use crate::text::str_same;
use vstd::prelude::*;

verus! {

/// The methods of one bucket, in the order of the list: those that read
/// (`readonly`) or write, and take a payload (`with_payload`) or none.
pub open spec fn selected(list: Seq<MethodMetaView>, readonly: bool, with_payload: bool) -> Seq<MethodMetaView>
    decreases list.len(),
{
    if list.len() == 0 {
        Seq::empty()
    } else {
        let front = selected(list.drop_last(), readonly, with_payload);
        if in_bucket(list.last(), readonly, with_payload) {
            front.push(list.last())
        } else {
            front
        }
    }
}

/// Whether a method belongs to the bucket.
pub open spec fn in_bucket(meta: MethodMetaView, readonly: bool, with_payload: bool) -> bool {
    meta.readonly == readonly && (meta.payload_type is Some) == with_payload
}

/// The name of the payload type of a method that takes a payload.
pub open spec fn payload_of(meta: MethodMetaView) -> Seq<char> {
    match meta.payload_type {
        Some(name) => name,
        None => Seq::empty(),
    }
}

/// The names of the methods of a list.
pub open spec fn names_of(list: Seq<MethodMetaView>) -> Seq<Seq<char>> {
    list.map_values(|meta: MethodMetaView| meta.method_name)
}

/// The payload type names of the methods of a list.
pub open spec fn payloads_of(list: Seq<MethodMetaView>) -> Seq<Seq<char>> {
    list.map_values(|meta: MethodMetaView| payload_of(meta))
}

/// Whether no two methods of the list have the same name.
pub open spec fn distinct_names(list: Seq<MethodMetaView>) -> bool {
    forall|i: int, j: int| 0 <= i < j < list.len() ==> (#[trigger] list[i]).method_name != (#[trigger] list[j]).method_name
}

/// Whether a method of the list has the name.
pub open spec fn has_name(list: Seq<MethodMetaView>, name: Seq<char>) -> bool {
    exists|i: int| 0 <= i < list.len() && (#[trigger] list[i]).method_name == name
}

/// The names, and beside each the payload type, of the methods that take a
/// payload and read (`readonly`) or write.
pub fn split_list_for_metadata(list: &[MethodMeta], readonly: bool) -> (r: (Vec<String>, Vec<String>))
    ensures
        views(r.0@) == names_of(selected(views(list@), readonly, true)),
        views(r.1@) == payloads_of(selected(views(list@), readonly, true)),
{
    let mut methods: Vec<String> = Vec::new();
    let mut payloads: Vec<String> = Vec::new();
    let ghost all = views(list@);
    let mut i: usize = 0;
    assert(all.take(0) =~= Seq::<MethodMetaView>::empty());
    assert(views(methods@) =~= names_of(selected(all.take(0), readonly, true)));
    assert(views(payloads@) =~= payloads_of(selected(all.take(0), readonly, true)));
    while i < list.len()
        invariant
            i <= list.len(),
            all == views(list@),
            views(methods@) == names_of(selected(all.take(i as int), readonly, true)),
            views(payloads@) == payloads_of(selected(all.take(i as int), readonly, true)),
        decreases list.len() - i,
    {
        assert(all.take(i + 1).drop_last() =~= all.take(i as int));
        assert(all.take(i + 1).last() == list@[i as int]@);
        let ghost front = selected(all.take(i as int), readonly, true);
        let meta = &list[i];
        if meta.readonly == readonly {
            if let Some(payload) = &meta.payload_type {
                let ghost names_before = methods@;
                let ghost payloads_before = payloads@;
                methods.push(meta.method_name.clone());
                payloads.push(payload.clone());
                assert(views(methods@) =~= views(names_before).push(meta@.method_name));
                assert(names_of(front.push(meta@)) =~= names_of(front).push(meta@.method_name));
                assert(views(payloads@) =~= views(payloads_before).push(payload@));
                assert(payloads_of(front.push(meta@)) =~= payloads_of(front).push(payload@));
            }
        }
        i += 1;
    }
    assert(all.take(list.len() as int) =~= all);
    (methods, payloads)
}

/// The names of the methods that take no payload and read (`readonly`) or
/// write.
pub fn split_list_for_metadata_nonepayload(list: &[MethodMeta], readonly: bool) -> (r: Vec<String>)
    ensures
        views(r@) == names_of(selected(views(list@), readonly, false)),
{
    let mut methods: Vec<String> = Vec::new();
    let ghost all = views(list@);
    let mut i: usize = 0;
    assert(all.take(0) =~= Seq::<MethodMetaView>::empty());
    assert(views(methods@) =~= names_of(selected(all.take(0), readonly, false)));
    while i < list.len()
        invariant
            i <= list.len(),
            all == views(list@),
            views(methods@) == names_of(selected(all.take(i as int), readonly, false)),
        decreases list.len() - i,
    {
        assert(all.take(i + 1).drop_last() =~= all.take(i as int));
        assert(all.take(i + 1).last() == list@[i as int]@);
        let ghost front = selected(all.take(i as int), readonly, false);
        let meta = &list[i];
        if meta.readonly == readonly && meta.payload_type.is_none() {
            let ghost names_before = methods@;
            methods.push(meta.method_name.clone());
            assert(views(methods@) =~= views(names_before).push(meta@.method_name));
            assert(names_of(front.push(meta@)) =~= names_of(front).push(meta@.method_name));
        }
        i += 1;
    }
    assert(all.take(list.len() as int) =~= all);
    methods
}

/// The type names that the methods of a list bring to the registry, in the
/// order in which they are registered: for each method its payload type and
/// then the data type of its response, where it has them.
pub open spec fn registrations(list: Seq<MethodMetaView>) -> Seq<Seq<char>>
    decreases list.len(),
{
    if list.len() == 0 {
        Seq::empty()
    } else {
        registrations(list.drop_last()) + own_types(list.last())
    }
}

/// The type names that one method brings to the registry.
pub open spec fn own_types(meta: MethodMetaView) -> Seq<Seq<char>> {
    let payload = match meta.payload_type {
        Some(name) => seq![name],
        None => Seq::empty(),
    };
    let response = match meta.res_type {
        Some(name) => seq![name],
        None => Seq::empty(),
    };
    payload + response
}

/// What answering a metadata query takes: the types to register, in order,
/// and the methods to list.
#[derive(Debug)]
pub struct MetaCode {
    pub register: Vec<String>,
    pub method_metas: Vec<MethodMeta>,
}

/// What answering a metadata query takes.
pub fn gen_meta_code(methods: &[MethodMeta]) -> (r: MetaCode)
    ensures
        views(r.register@) == registrations(views(methods@)),
        views(r.method_metas@) == views(methods@),
{
    let mut register: Vec<String> = Vec::new();
    let mut method_metas: Vec<MethodMeta> = Vec::new();
    let ghost all = views(methods@);
    let mut i: usize = 0;
    assert(all.take(0) =~= Seq::<MethodMetaView>::empty());
    assert(views(register@) =~= registrations(all.take(0)));
    assert(views(method_metas@) =~= views(methods@.take(0)));
    while i < methods.len()
        invariant
            i <= methods.len(),
            all == views(methods@),
            views(register@) == registrations(all.take(i as int)),
            views(method_metas@) == views(methods@.take(i as int)),
        decreases methods.len() - i,
    {
        assert(all.take(i + 1).drop_last() =~= all.take(i as int));
        assert(all.take(i + 1).last() == methods@[i as int]@);
        let ghost front = registrations(all.take(i as int));
        let m = &methods[i];
        if let Some(ident) = &m.payload_type {
            register.push(ident.clone());
        }
        if let Some(ident) = &m.res_type {
            register.push(ident.clone());
        }
        assert(views(register@) =~= front + own_types(m@));
        let ghost metas_before = method_metas@;
        let copy = m.clone();
        proof {
            lemma_views_step(metas_before, copy, methods@, i as int);
        }
        method_metas.push(copy);
        i += 1;
    }
    assert(all.take(methods.len() as int) =~= all);
    assert(methods@.take(methods.len() as int) =~= methods@);
    MetaCode { register, method_metas }
}

/// The methods that a service exposes. No two have the same name.
#[derive(Debug)]
pub struct MethodTable {
    methods: Vec<MethodMeta>,
}

impl View for MethodTable {
    type V = Seq<MethodMetaView>;

    closed spec fn view(&self) -> Seq<MethodMetaView> {
        views(self.methods@)
    }
}

impl MethodTable {
    #[verifier::type_invariant]
    spec fn well_formed(self) -> bool {
        distinct_names(views(self.methods@))
    }

    /// A table without methods.
    pub fn new() -> (r: MethodTable)
        ensures
            r@ == Seq::<MethodMetaView>::empty(),
    {
        let r = MethodTable { methods: Vec::new() };
        assert(views(r.methods@) =~= Seq::<MethodMetaView>::empty());
        r
    }

    /// Adds a method to the table. A name that the table already holds is
    /// refused, and the table stays as it is.
    pub fn register_method(
        &mut self,
        method_name: String,
        readonly: bool,
        payload_type: Option<String>,
        res_type: Option<String>,
    ) -> (r: Result<(), ConfigError>)
        ensures
            match r {
                Ok(()) => !has_name(old(self)@, method_name@) && final(self)@ == old(self)@.push(
                    MethodMetaView {
                        method_name: method_name@,
                        payload_type: name_view(payload_type),
                        readonly,
                        res_type: name_view(res_type),
                    },
                ),
                Err(e) => has_name(old(self)@, method_name@) && final(self)@ == old(self)@ && e
                    == ConfigError::DuplicateMethod,
            },
            distinct_names(final(self)@),
    {
        proof {
            use_type_invariant(&*self);
        }
        let ghost before = views(self.methods@);
        let mut methods: Vec<MethodMeta> = Vec::new();
        assert(views(methods@) =~= Seq::<MethodMetaView>::empty());
        core::mem::swap(&mut self.methods, &mut methods);
        let mut i: usize = 0;
        let mut found = false;
        while i < methods.len()
            invariant
                i <= methods.len(),
                before == views(methods@),
                found == exists|k: int| 0 <= k < i && (#[trigger] before[k]).method_name == method_name@,
            decreases methods.len() - i,
        {
            if str_same(methods[i].method_name.as_str(), method_name.as_str()) {
                assert(before[i as int].method_name == method_name@);
                found = true;
            }
            i += 1;
        }
        let result = if found {
            Err(ConfigError::DuplicateMethod)
        } else {
            let meta = MethodMeta { method_name, payload_type, readonly, res_type };
            assert(views(methods@.push(meta)) =~= before.push(meta@));
            methods.push(meta);
            Ok(())
        };
        core::mem::swap(&mut self.methods, &mut methods);
        result
    }

    /// The methods of the table, in the order in which they were added.
    pub fn methods(&self) -> (r: &Vec<MethodMeta>)
        ensures
            views(r@) == self@,
            distinct_names(self@),
    {
        proof {
            use_type_invariant(self);
        }
        &self.methods
    }
}

/// The first position at which a list of names holds a name.
pub fn find_name(names: &Vec<String>, name: &str) -> (r: Option<usize>)
    ensures
        match r {
            Some(at) => views(names@).index_of_first(name@) == Some(at as int),
            None => views(names@).index_of_first(name@) is None,
        },
{
    let ghost all = views(names@);
    proof {
        all.index_of_first_ensures(name@);
    }
    let mut i: usize = 0;
    while i < names.len()
        invariant
            i <= names.len(),
            all == views(names@),
            forall|k: int| 0 <= k < i ==> all[k] != name@,
        decreases names.len() - i,
    {
        if str_same(names[i].as_str(), name) {
            proof {
                all.index_of_first_ensures(name@);
                assert(all[i as int] == name@);
                assert(all.contains(name@));
            }
            return Some(i);
        }
        i += 1;
    }
    proof {
        all.index_of_first_ensures(name@);
        if all.contains(name@) {
            let k = choose|k: int| 0 <= k < all.len() && all[k] == name@;
            assert(all[k] != name@);
        }
    }
    None
}

/// Where a call goes.
#[derive(Debug)]
pub enum Route {
    /// To a method that takes a payload of the named type.
    WithPayload { payload_type: String },
    /// To a method that takes no payload.
    Plain,
    /// Nowhere: the bucket holds no method of that name.
    NotFound,
}

/// The mathematical value of a `Route`.
pub enum RouteView {
    WithPayload { payload_type: Seq<char> },
    Plain,
    NotFound,
}

impl View for Route {
    type V = RouteView;

    open spec fn view(&self) -> RouteView {
        match self {
            Route::WithPayload { payload_type } => RouteView::WithPayload { payload_type: payload_type@ },
            Route::Plain => RouteView::Plain,
            Route::NotFound => RouteView::NotFound,
        }
    }
}

/// Where a call of `name` goes among the methods that read (`readonly`) or
/// write: to the first method of that name that takes a payload, else to one
/// that takes none, else nowhere.
pub open spec fn route_of(methods: Seq<MethodMetaView>, readonly: bool, name: Seq<char>) -> RouteView {
    let with_payload = selected(methods, readonly, true);
    let plain = selected(methods, readonly, false);
    match names_of(with_payload).index_of_first(name) {
        Some(at) => RouteView::WithPayload { payload_type: payload_of(with_payload[at]) },
        None => match names_of(plain).index_of_first(name) {
            Some(_) => RouteView::Plain,
            None => RouteView::NotFound,
        },
    }
}

/// A method is in the bucket of its own kind and in no other: of the four
/// buckets exactly one holds it.
pub proof fn lemma_one_bucket(meta: MethodMetaView, readonly: bool, with_payload: bool)
    ensures
        in_bucket(meta, readonly, with_payload) <==> (readonly == meta.readonly && with_payload == (
        meta.payload_type is Some)),
{
}

/// Every method of a bucket is a method of the list, and of the kind of the
/// bucket.
pub proof fn lemma_selected_sound(list: Seq<MethodMetaView>, readonly: bool, with_payload: bool)
    ensures
        forall|k: int|
            0 <= k < selected(list, readonly, with_payload).len() ==> in_bucket(
                #[trigger] selected(list, readonly, with_payload)[k],
                readonly,
                with_payload,
            ) && list.contains(selected(list, readonly, with_payload)[k]),
    decreases list.len(),
{
    let bucket = selected(list, readonly, with_payload);
    if list.len() > 0 {
        let front = list.drop_last();
        lemma_selected_sound(front, readonly, with_payload);
        let before = selected(front, readonly, with_payload);
        assert forall|k: int| 0 <= k < bucket.len() implies in_bucket(#[trigger] bucket[k], readonly, with_payload)
            && list.contains(bucket[k]) by {
            if k < before.len() {
                assert(bucket[k] == before[k]);
                let i = choose|i: int| 0 <= i < front.len() && front[i] == before[k];
                assert(list[i] == bucket[k]);
            } else {
                assert(list[list.len() - 1] == bucket[k]);
            }
        }
    }
}

/// Every method of the list that is of the kind of a bucket is in the
/// bucket.
pub proof fn lemma_selected_complete(list: Seq<MethodMetaView>, readonly: bool, with_payload: bool, i: int)
    requires
        0 <= i < list.len(),
        in_bucket(list[i], readonly, with_payload),
    ensures
        selected(list, readonly, with_payload).contains(list[i]),
    decreases list.len(),
{
    let bucket = selected(list, readonly, with_payload);
    let front = list.drop_last();
    let before = selected(front, readonly, with_payload);
    if i == list.len() - 1 {
        assert(bucket[bucket.len() - 1] == list[i]);
    } else {
        assert(front[i] == list[i]);
        lemma_selected_complete(front, readonly, with_payload, i);
        let k = choose|k: int| 0 <= k < before.len() && before[k] == list[i];
        assert(bucket[k] == list[i]);
    }
}

/// A call of a name that no reading method has, or that no writing method
/// has, goes nowhere.
pub proof fn lemma_route_absent(methods: Seq<MethodMetaView>, readonly: bool, name: Seq<char>)
    requires
        forall|i: int|
            0 <= i < methods.len() ==> !((#[trigger] methods[i]).method_name == name && methods[i].readonly
                == readonly),
    ensures
        route_of(methods, readonly, name) == RouteView::NotFound,
{
    let with_payload = selected(methods, readonly, true);
    let plain = selected(methods, readonly, false);
    lemma_selected_sound(methods, readonly, true);
    lemma_selected_sound(methods, readonly, false);
    names_of(with_payload).index_of_first_ensures(name);
    names_of(plain).index_of_first_ensures(name);
    if names_of(with_payload).contains(name) {
        let k = choose|k: int| 0 <= k < names_of(with_payload).len() && names_of(with_payload)[k] == name;
        let i = choose|i: int| 0 <= i < methods.len() && methods[i] == with_payload[k];
        assert(methods[i].method_name == name);
    }
    if names_of(plain).contains(name) {
        let k = choose|k: int| 0 <= k < names_of(plain).len() && names_of(plain)[k] == name;
        let i = choose|i: int| 0 <= i < methods.len() && methods[i] == plain[k];
        assert(methods[i].method_name == name);
    }
}

/// A call of the name of a method, among the methods of its kind, goes to
/// that method: with its payload type where it takes a payload, and plainly
/// where it takes none.
pub proof fn lemma_route_present(methods: Seq<MethodMetaView>, i: int)
    requires
        distinct_names(methods),
        0 <= i < methods.len(),
    ensures
        route_of(methods, methods[i].readonly, methods[i].method_name) == match methods[i].payload_type {
            Some(payload_type) => RouteView::WithPayload { payload_type },
            None => RouteView::Plain,
        },
{
    let meta = methods[i];
    let name = meta.method_name;
    let with_payload = selected(methods, meta.readonly, true);
    let plain = selected(methods, meta.readonly, false);
    lemma_selected_sound(methods, meta.readonly, true);
    lemma_selected_sound(methods, meta.readonly, false);
    names_of(with_payload).index_of_first_ensures(name);
    names_of(plain).index_of_first_ensures(name);
    if names_of(with_payload).contains(name) {
        let at = names_of(with_payload).index_of_first(name)->Some_0;
        let j = choose|j: int| 0 <= j < methods.len() && methods[j] == with_payload[at];
        assert(methods[j].method_name == name);
        assert(j == i);
    }
    if meta.payload_type is Some {
        lemma_selected_complete(methods, meta.readonly, true, i);
        let k = choose|k: int| 0 <= k < with_payload.len() && with_payload[k] == meta;
        assert(names_of(with_payload)[k] == name);
    } else {
        lemma_selected_complete(methods, meta.readonly, false, i);
        let k = choose|k: int| 0 <= k < plain.len() && plain[k] == meta;
        assert(names_of(plain)[k] == name);
    }
}

/// All that is fixed when a service is assembled: its name, its event
/// source, its methods in their four buckets, the types they bring to the
/// registry, and what is called at genesis and at the hook points.
#[derive(Debug)]
pub struct ServiceCode {
    service: String,
    event: Option<String>,
    genesis: Genesis,
    hooks: Hooks,
    methods: Vec<MethodMeta>,
    register: Vec<String>,
    read_names: Vec<String>,
    read_payloads: Vec<String>,
    read_plain: Vec<String>,
    write_names: Vec<String>,
    write_payloads: Vec<String>,
    write_plain: Vec<String>,
}

/// The mathematical value of a `ServiceCode`.
pub struct ServiceCodeView {
    pub service: Seq<char>,
    pub event: Option<Seq<char>>,
    pub genesis: GenesisView,
    pub hooks: HooksView,
    pub methods: Seq<MethodMetaView>,
}

impl View for ServiceCode {
    type V = ServiceCodeView;

    closed spec fn view(&self) -> ServiceCodeView {
        ServiceCodeView {
            service: self.service@,
            event: name_view(self.event),
            genesis: self.genesis@,
            hooks: self.hooks@,
            methods: views(self.methods@),
        }
    }
}

impl ServiceCode {
    #[verifier::type_invariant]
    spec fn well_formed(self) -> bool {
        let methods = views(self.methods@);
        &&& distinct_names(methods)
        &&& views(self.register@) == registrations(methods)
        &&& views(self.read_names@) == names_of(selected(methods, true, true))
        &&& views(self.read_payloads@) == payloads_of(selected(methods, true, true))
        &&& views(self.read_plain@) == names_of(selected(methods, true, false))
        &&& views(self.write_names@) == names_of(selected(methods, false, true))
        &&& views(self.write_payloads@) == payloads_of(selected(methods, false, true))
        &&& views(self.write_plain@) == names_of(selected(methods, false, false))
    }

    /// Assembles a service from the name of its type, its event source, its
    /// genesis method, its hooks and its method table.
    pub fn new(service: String, event: Option<String>, genesis: Genesis, hooks: Hooks, table: &MethodTable) -> (r:
        ServiceCode)
        ensures
            r@ == (ServiceCodeView {
                service: service@,
                event: name_view(event),
                genesis: genesis@,
                hooks: hooks@,
                methods: table@,
            }),
    {
        let list = table.methods();
        let meta = gen_meta_code(list.as_slice());
        let (read_names, read_payloads) = split_list_for_metadata(list.as_slice(), true);
        let (write_names, write_payloads) = split_list_for_metadata(list.as_slice(), false);
        let read_plain = split_list_for_metadata_nonepayload(list.as_slice(), true);
        let write_plain = split_list_for_metadata_nonepayload(list.as_slice(), false);
        ServiceCode {
            service,
            event,
            genesis,
            hooks,
            methods: meta.method_metas,
            register: meta.register,
            read_names,
            read_payloads,
            read_plain,
            write_names,
            write_payloads,
            write_plain,
        }
    }

    /// The name of the type that implements the service.
    pub fn service(&self) -> (r: &String)
        ensures
            r@ == self@.service,
    {
        &self.service
    }

    /// The name of the event source, where the service has one.
    pub fn event(&self) -> (r: &Option<String>)
        ensures
            name_view(*r) == self@.event,
    {
        &self.event
    }

    /// How the genesis method is called.
    pub fn genesis(&self) -> (r: &Genesis)
        ensures
            r@ == self@.genesis,
    {
        &self.genesis
    }

    /// The methods at the hook points.
    pub fn hooks(&self) -> (r: &Hooks)
        ensures
            r@ == self@.hooks,
    {
        &self.hooks
    }

    /// The methods of the service; no two have the same name.
    pub fn methods(&self) -> (r: &Vec<MethodMeta>)
        ensures
            views(r@) == self@.methods,
            distinct_names(self@.methods),
    {
        proof {
            use_type_invariant(self);
        }
        &self.methods
    }

    /// The names of the types to register for a metadata query, in order.
    pub fn register(&self) -> (r: &Vec<String>)
        ensures
            views(r@) == registrations(self@.methods),
    {
        proof {
            use_type_invariant(self);
        }
        &self.register
    }

    /// Where a call of `method` goes, among the methods that read
    /// (`readonly`) or among those that write.
    pub fn route(&self, readonly: bool, method: &str) -> (r: Route)
        ensures
            r@ == route_of(self@.methods, readonly, method@),
    {
        proof {
            use_type_invariant(self);
        }
        let (names, payloads, plain) = if readonly {
            (&self.read_names, &self.read_payloads, &self.read_plain)
        } else {
            (&self.write_names, &self.write_payloads, &self.write_plain)
        };
        let ghost with_payload = selected(self@.methods, readonly, true);
        proof {
            names_of(with_payload).index_of_first_ensures(method@);
            assert(views(names@) == names_of(with_payload));
            assert(views(payloads@) == payloads_of(with_payload));
            assert(views(plain@) == names_of(selected(self@.methods, readonly, false)));
            assert(views(payloads@).len() == payloads@.len());
        }
        match find_name(names, method) {
            Some(at) => {
                assert(views(payloads@)[at as int] == payload_of(with_payload[at as int]));
                Route::WithPayload { payload_type: payloads[at].clone() }
            },
            None => match find_name(plain, method) {
                Some(_) => Route::Plain,
                None => Route::NotFound,
            },
        }
    }
}

} // verus!
