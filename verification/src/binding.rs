//! From the declaration of a service to its call table: which methods it
//! exposes for reading and for writing, what payload and result each has, and
//! which methods stand at genesis and at the four hook points.
//!
//! A declaration is described by the items of an `impl` block: each method
//! with the attributes that mark it, its parameters and its return type.

use crate::schema::{name_view, MethodMeta, MethodMetaView};
use crate::table::{has_name, MethodTable, ServiceCode, ServiceCodeView};
use crate::text::str_same;
use vstd::prelude::*;
use vstd::string::*;

verus! {

/// A type as a declaration writes it.
#[derive(Debug)]
pub enum Type {
    /// A path such as `ServiceResponse<Balance>`.
    Path(Path),
    /// A tuple, `()` among them.
    Tuple,
    /// Any other form of type.
    Other,
}

/// A path: segments separated by `::`.
#[derive(Debug)]
pub struct Path {
    pub leading_colon: bool,
    pub segments: Vec<PathSegment>,
}

/// One segment of a path, with the arguments that follow its name.
#[derive(Debug)]
pub struct PathSegment {
    pub ident: String,
    pub arguments: PathArguments,
}

/// The arguments of a path segment.
#[derive(Debug)]
pub enum PathArguments {
    /// The segment is a bare name.
    Absent,
    /// The `<A, B>` of `Name<A, B>`.
    AngleBracketed(Vec<GenericArgument>),
    /// The `(A, B) -> C` of `Fn(A, B) -> C`.
    Parenthesized,
}

/// One argument between angle brackets.
#[derive(Debug)]
pub enum GenericArgument {
    Type(Type),
    /// A lifetime, a constant, a binding or a constraint.
    Other,
}

/// An attribute on a method, known by its path.
#[derive(Debug)]
pub struct Attribute {
    pub path: Path,
}

/// One parameter of a method.
#[derive(Debug)]
pub enum FnArg {
    /// `self`, `&self` or `&mut self`.
    Receiver,
    /// A parameter with the type that the declaration gives it.
    Typed(Type),
}

/// What a method returns.
#[derive(Debug)]
pub enum ReturnType {
    /// Nothing is written after the parameters.
    Default,
    Type(Type),
}

/// The header of a method.
#[derive(Debug)]
pub struct Signature {
    pub ident: String,
    pub inputs: Vec<FnArg>,
    pub output: ReturnType,
}

/// A method of an `impl` block.
#[derive(Debug)]
pub struct ImplItemMethod {
    pub attrs: Vec<Attribute>,
    pub sig: Signature,
}

/// An item of an `impl` block.
#[derive(Debug)]
pub enum ImplItem {
    Method(ImplItemMethod),
    /// A constant, a type or a macro call.
    Other,
}

/// An `impl` block.
#[derive(Debug)]
pub struct ItemImpl {
    pub self_ty: Type,
    pub items: Vec<ImplItem>,
}

/// Why a declaration cannot be made into a service.
#[derive(Debug, PartialEq, Eq)]
pub enum ConfigError {
    ServiceIdentNotFound,
    DuplicateGenesis,
    GenesisParams,
    NoPayloadType,
    DuplicateHookBefore,
    DuplicateHookAfter,
    DuplicateTxHookBefore,
    DuplicateTxHookAfter,
    MethodParams,
    ResponseTypeMissing,
    ResponseTypeUnsupported,
    ReturnTypeInvalid,
    DuplicateMethod,
}

impl ConfigError {
    /// The text shown for the error.
    pub open spec fn message_spec(self) -> Seq<char> {
        match self {
            ConfigError::ServiceIdentNotFound => "The identity of the service was not found."@,
            ConfigError::DuplicateGenesis => "The genesis method can only have one"@,
            ConfigError::GenesisParams => "genesis method input params should be `(&mut self)` or `(&mut self, payload: PayloadType)`"@,
            ConfigError::NoPayloadType => "No payload type found."@,
            ConfigError::DuplicateHookBefore => "The before hook can only have one"@,
            ConfigError::DuplicateHookAfter => "The after hook can only have one"@,
            ConfigError::DuplicateTxHookBefore => "The tx before hook can only have one"@,
            ConfigError::DuplicateTxHookAfter => "The tx after hook can only have one"@,
            ConfigError::MethodParams => "Method input params should be `(&self/&mut self, ctx: ServiceContext)` or `(&self/&mut self, ctx: ServiceContext, payload: PayloadType)`"@,
            ConfigError::ResponseTypeMissing => "ServiceResponse<T> should contain T"@,
            ConfigError::ResponseTypeUnsupported => "ServiceResponse<T>: T should be a generic type or ()"@,
            ConfigError::ReturnTypeInvalid => "return type of read/write method should be ServiceResponse<T>"@,
            ConfigError::DuplicateMethod => "The name of a method can only be used once"@,
        }
    }

    /// The text shown for the error.
    pub fn message(&self) -> (r: String)
        ensures
            r@ == self.message_spec(),
    {
        match self {
            ConfigError::ServiceIdentNotFound => String::from_str("The identity of the service was not found."),
            ConfigError::DuplicateGenesis => String::from_str("The genesis method can only have one"),
            ConfigError::GenesisParams => String::from_str(
                "genesis method input params should be `(&mut self)` or `(&mut self, payload: PayloadType)`",
            ),
            ConfigError::NoPayloadType => String::from_str("No payload type found."),
            ConfigError::DuplicateHookBefore => String::from_str("The before hook can only have one"),
            ConfigError::DuplicateHookAfter => String::from_str("The after hook can only have one"),
            ConfigError::DuplicateTxHookBefore => String::from_str("The tx before hook can only have one"),
            ConfigError::DuplicateTxHookAfter => String::from_str("The tx after hook can only have one"),
            ConfigError::MethodParams => String::from_str(
                "Method input params should be `(&self/&mut self, ctx: ServiceContext)` or `(&self/&mut self, ctx: ServiceContext, payload: PayloadType)`",
            ),
            ConfigError::ResponseTypeMissing => String::from_str("ServiceResponse<T> should contain T"),
            ConfigError::ResponseTypeUnsupported => String::from_str(
                "ServiceResponse<T>: T should be a generic type or ()",
            ),
            ConfigError::ReturnTypeInvalid => String::from_str(
                "return type of read/write method should be ServiceResponse<T>",
            ),
            ConfigError::DuplicateMethod => String::from_str("The name of a method can only be used once"),
        }
    }
}

/// A method marked for reading or for writing.
#[derive(Debug)]
pub enum ServiceMethod<'a> {
    Read(&'a ImplItemMethod),
    Write(&'a ImplItemMethod),
}

/// The name that a path is, where it is nothing but a name: no leading
/// colons, one segment, no arguments.
pub open spec fn path_ident(path: Path) -> Option<Seq<char>> {
    if !path.leading_colon && path.segments@.len() == 1 && path.segments@[0].arguments is Absent {
        Some(path.segments@[0].ident@)
    } else {
        None
    }
}

impl Path {
    /// The name that the path is, where it is nothing but a name.
    pub fn get_ident(&self) -> (r: Option<&String>)
        ensures
            match r {
                Some(ident) => path_ident(*self) == Some(ident@),
                None => path_ident(*self) is None,
            },
    {
        if !self.leading_colon && self.segments.len() == 1 {
            match &self.segments[0].arguments {
                PathArguments::Absent => Some(&self.segments[0].ident),
                _ => None,
            }
        } else {
            None
        }
    }
}

/// The name of the type that implements the service: the first segment of
/// the path that the block is written for.
pub open spec fn service_ident(item: ItemImpl) -> Result<Seq<char>, ConfigError> {
    match item.self_ty {
        Type::Path(path) => if path.segments@.len() > 0 {
            Ok(path.segments@[0].ident@)
        } else {
            Err(ConfigError::ServiceIdentNotFound)
        },
        _ => Err(ConfigError::ServiceIdentNotFound),
    }
}

/// The value of a result that holds a name.
pub open spec fn ident_result(r: Result<String, ConfigError>) -> Result<Seq<char>, ConfigError> {
    match r {
        Ok(ident) => Ok(ident@),
        Err(e) => Err(e),
    }
}

/// The value of a result that holds a name or none.
pub open spec fn name_result(r: Result<Option<String>, ConfigError>) -> Result<Option<Seq<char>>, ConfigError> {
    match r {
        Ok(Some(ident)) => Ok(Some(ident@)),
        Ok(None) => Ok(None),
        Err(e) => Err(e),
    }
}

/// The name of the type that implements the service.
pub fn get_service_ident(impl_item: &ItemImpl) -> (r: Result<String, ConfigError>)
    ensures
        ident_result(r) == service_ident(*impl_item),
{
    match &impl_item.self_ty {
        Type::Path(type_path) => {
            if type_path.segments.len() > 0 {
                Ok(type_path.segments[0].ident.clone())
            } else {
                Err(ConfigError::ServiceIdentNotFound)
            }
        },
        _ => Err(ConfigError::ServiceIdentNotFound),
    }
}

/// The name of the data type of a method's response. The return type must be
/// a path whose first segment has a type between angle brackets: the name is
/// the first segment of that type where it is a path, and there is none where
/// it is a tuple.
pub open spec fn res_ident(output: ReturnType) -> Result<Option<Seq<char>>, ConfigError> {
    match output {
        ReturnType::Type(Type::Path(path)) => if path.segments@.len() == 0 {
            Err(ConfigError::ResponseTypeMissing)
        } else {
            match path.segments@[0].arguments {
                PathArguments::AngleBracketed(args) => if args@.len() == 0 {
                    Err(ConfigError::ResponseTypeMissing)
                } else {
                    match args@[0] {
                        GenericArgument::Type(Type::Path(data)) => if data.segments@.len() == 0 {
                            Err(ConfigError::ResponseTypeUnsupported)
                        } else {
                            Ok(Some(data.segments@[0].ident@))
                        },
                        GenericArgument::Type(Type::Tuple) => Ok(None),
                        GenericArgument::Type(Type::Other) => Err(ConfigError::ResponseTypeUnsupported),
                        GenericArgument::Other => Err(ConfigError::ReturnTypeInvalid),
                    }
                },
                _ => Err(ConfigError::ReturnTypeInvalid),
            }
        },
        _ => Err(ConfigError::ReturnTypeInvalid),
    }
}

/// The name of the data type of a method's response.
pub fn extract_res_ident(output: &ReturnType) -> (r: Result<Option<String>, ConfigError>)
    ensures
        name_result(r) == res_ident(*output),
{
    match output {
        ReturnType::Type(ty) => match ty {
            Type::Path(ty_path) => {
                if ty_path.segments.len() == 0 {
                    return Err(ConfigError::ResponseTypeMissing);
                }
                match &ty_path.segments[0].arguments {
                    PathArguments::AngleBracketed(args) => {
                        if args.len() == 0 {
                            return Err(ConfigError::ResponseTypeMissing);
                        }
                        match &args[0] {
                            GenericArgument::Type(arg_ty) => match arg_ty {
                                Type::Path(ret_ty) => {
                                    if ret_ty.segments.len() == 0 {
                                        Err(ConfigError::ResponseTypeUnsupported)
                                    } else {
                                        Ok(Some(ret_ty.segments[0].ident.clone()))
                                    }
                                },
                                Type::Tuple => Ok(None),
                                Type::Other => Err(ConfigError::ResponseTypeUnsupported),
                            },
                            GenericArgument::Other => Err(ConfigError::ReturnTypeInvalid),
                        }
                    },
                    _ => Err(ConfigError::ReturnTypeInvalid),
                }
            },
            _ => Err(ConfigError::ReturnTypeInvalid),
        },
        ReturnType::Default => Err(ConfigError::ReturnTypeInvalid),
    }
}

/// The name of the payload type that a parameter declares: its type must be
/// a path that is nothing but a name.
pub open spec fn payload_ident(arg: FnArg, otherwise: ConfigError) -> Result<Seq<char>, ConfigError> {
    match arg {
        FnArg::Typed(Type::Path(path)) => match path_ident(path) {
            Some(ident) => Ok(ident),
            None => Err(ConfigError::NoPayloadType),
        },
        FnArg::Typed(_) => Err(ConfigError::NoPayloadType),
        FnArg::Receiver => Err(otherwise),
    }
}

/// The name of the payload type that a parameter declares. A receiver in its
/// place gives the error `otherwise`.
pub fn extract_payload_ident(arg: &FnArg, otherwise: ConfigError) -> (r: Result<String, ConfigError>)
    ensures
        ident_result(r) == payload_ident(*arg, otherwise),
{
    match arg {
        FnArg::Typed(ty) => match ty {
            Type::Path(path) => match path.get_ident() {
                Some(ident) => Ok(ident.clone()),
                None => Err(ConfigError::NoPayloadType),
            },
            _ => Err(ConfigError::NoPayloadType),
        },
        FnArg::Receiver => Err(otherwise),
    }
}

/// What a marked method exposes. With two parameters (the receiver and the
/// context) it takes no payload; with three, the third declares the payload
/// type; any other number is refused.
pub open spec fn method_meta(method: ImplItemMethod, readonly: bool) -> Result<MethodMetaView, ConfigError> {
    let inputs = method.sig.inputs@;
    if inputs.len() == 2 {
        match res_ident(method.sig.output) {
            Ok(res) => Ok(
                MethodMetaView {
                    method_name: method.sig.ident@,
                    payload_type: None,
                    readonly,
                    res_type: res,
                },
            ),
            Err(e) => Err(e),
        }
    } else if inputs.len() == 3 {
        match payload_ident(inputs[2], ConfigError::MethodParams) {
            Ok(payload) => match res_ident(method.sig.output) {
                Ok(res) => Ok(
                    MethodMetaView {
                        method_name: method.sig.ident@,
                        payload_type: Some(payload),
                        readonly,
                        res_type: res,
                    },
                ),
                Err(e) => Err(e),
            },
            Err(e) => Err(e),
        }
    } else {
        Err(ConfigError::MethodParams)
    }
}

/// The value of a result that holds a method.
pub open spec fn meta_result(r: Result<MethodMeta, ConfigError>) -> Result<MethodMetaView, ConfigError> {
    match r {
        Ok(meta) => Ok(meta@),
        Err(e) => Err(e),
    }
}

impl<'a> ServiceMethod<'a> {
    /// The method that is marked.
    pub open spec fn method(self) -> ImplItemMethod {
        match self {
            ServiceMethod::Read(m) => *m,
            ServiceMethod::Write(m) => *m,
        }
    }

    /// Whether it is marked for reading.
    pub open spec fn readonly(self) -> bool {
        self is Read
    }
}

/// What a marked method exposes: its name, its payload type, whether it only
/// reads, and the data type of its response.
pub fn extract_method_meta(method: ServiceMethod) -> (r: Result<MethodMeta, ConfigError>)
    ensures
        meta_result(r) == method_meta(method.method(), method.readonly()),
{
    let (impl_method, readonly) = match method {
        ServiceMethod::Read(impl_method) => (impl_method, true),
        ServiceMethod::Write(impl_method) => (impl_method, false),
    };
    let count = impl_method.sig.inputs.len();
    if count == 2 {
        match extract_res_ident(&impl_method.sig.output) {
            Ok(res_type) => Ok(
                MethodMeta { method_name: impl_method.sig.ident.clone(), payload_type: None, readonly, res_type },
            ),
            Err(e) => Err(e),
        }
    } else if count == 3 {
        match extract_payload_ident(&impl_method.sig.inputs[2], ConfigError::MethodParams) {
            Ok(payload) => match extract_res_ident(&impl_method.sig.output) {
                Ok(res_type) => Ok(
                    MethodMeta {
                        method_name: impl_method.sig.ident.clone(),
                        payload_type: Some(payload),
                        readonly,
                        res_type,
                    },
                ),
                Err(e) => Err(e),
            },
            Err(e) => Err(e),
        }
    } else {
        Err(ConfigError::MethodParams)
    }
}

/// The attribute that marks a method for reading.
pub const READ_ATTRIBUTE: &'static str = "read";

/// The attribute that marks a method for writing.
pub const WRITE_ATTRIBUTE: &'static str = "write";

/// The attribute that marks the genesis method.
pub const GENESIS_ATTRIBUTE: &'static str = "genesis";

/// The attribute that marks the method to run before a block.
pub const HOOK_BEFORE_ATTRIBUTE: &'static str = "hook_before";

/// The attribute that marks the method to run after a block.
pub const HOOK_AFTER_ATTRIBUTE: &'static str = "hook_after";

/// The attribute that marks the method to run before a transaction.
pub const TX_HOOK_BEFORE_ATTRIBUTE: &'static str = "tx_hook_before";

/// The attribute that marks the method to run after a transaction.
pub const TX_HOOK_AFTER_ATTRIBUTE: &'static str = "tx_hook_after";

/// The state reached from `state` by taking in, in their order, the names of
/// the segments of one attribute path.
pub open spec fn scan_segments<S>(
    segments: Seq<PathSegment>,
    position: int,
    state: S,
    step: spec_fn(S, int, Seq<char>) -> S,
) -> S
    decreases segments.len(),
{
    if segments.len() == 0 {
        state
    } else {
        step(scan_segments(segments.drop_last(), position, state, step), position, segments.last().ident@)
    }
}

/// The state reached by taking in the segment names of all attributes of one
/// method, in their order.
pub open spec fn scan_attrs<S>(
    attrs: Seq<Attribute>,
    position: int,
    state: S,
    step: spec_fn(S, int, Seq<char>) -> S,
) -> S
    decreases attrs.len(),
{
    if attrs.len() == 0 {
        state
    } else {
        scan_segments(
            attrs.last().path.segments@,
            position,
            scan_attrs(attrs.drop_last(), position, state, step),
            step,
        )
    }
}

/// The state reached by taking in the attributes of all methods, in their
/// order; each name comes with the position of its method.
pub open spec fn scan_methods<S>(
    methods: Seq<ImplItemMethod>,
    state: S,
    step: spec_fn(S, int, Seq<char>) -> S,
) -> S
    decreases methods.len(),
{
    if methods.len() == 0 {
        state
    } else {
        scan_attrs(
            methods.last().attrs@,
            methods.len() - 1,
            scan_methods(methods.drop_last(), state, step),
            step,
        )
    }
}

/// Taking in one attribute name while looking for the mark of a service
/// method: the first `read` or `write` decides, `true` standing for `read`.
pub open spec fn service_mark_step(found: Option<bool>, position: int, name: Seq<char>) -> Option<bool> {
    if found is Some {
        found
    } else if name == READ_ATTRIBUTE@ {
        Some(true)
    } else if name == WRITE_ATTRIBUTE@ {
        Some(false)
    } else {
        None
    }
}

/// How a method is marked: for reading (`true`), for writing (`false`), or
/// not at all.
pub open spec fn service_mark(method: ImplItemMethod) -> Option<bool> {
    scan_attrs(method.attrs@, 0, None, |s: Option<bool>, p: int, n: Seq<char>| service_mark_step(s, p, n))
}

/// The method with its mark, where it is marked `read` or `write`; the first
/// of these names among its attributes decides.
pub fn find_service_method(method: &ImplItemMethod) -> (r: Option<ServiceMethod>)
    ensures
        match r {
            Some(marked) => service_mark(*method) == Some(marked.readonly()) && marked.method() == *method,
            None => service_mark(*method) is None,
        },
{
    let ghost step = |s: Option<bool>, p: int, n: Seq<char>| service_mark_step(s, p, n);
    let mut found: Option<bool> = None;
    let mut a: usize = 0;
    assert(method.attrs@.take(0) =~= Seq::<Attribute>::empty());
    while a < method.attrs.len()
        invariant
            a <= method.attrs.len(),
            step == |s: Option<bool>, p: int, n: Seq<char>| service_mark_step(s, p, n),
            found == scan_attrs(method.attrs@.take(a as int), 0, None, step),
        decreases method.attrs.len() - a,
    {
        let segments = &method.attrs[a].path.segments;
        let ghost start = found;
        let mut s: usize = 0;
        assert(segments@.take(0) =~= Seq::<PathSegment>::empty());
        while s < segments.len()
            invariant
                s <= segments.len(),
                step == |s: Option<bool>, p: int, n: Seq<char>| service_mark_step(s, p, n),
                found == scan_segments(segments@.take(s as int), 0, start, step),
            decreases segments.len() - s,
        {
            assert(segments@.take(s + 1).drop_last() =~= segments@.take(s as int));
            if found.is_none() {
                if str_same(segments[s].ident.as_str(), READ_ATTRIBUTE) {
                    found = Some(true);
                } else if str_same(segments[s].ident.as_str(), WRITE_ATTRIBUTE) {
                    found = Some(false);
                }
            }
            s += 1;
        }
        assert(segments@.take(segments.len() as int) =~= segments@);
        assert(method.attrs@.take(a + 1).drop_last() =~= method.attrs@.take(a as int));
        a += 1;
    }
    assert(method.attrs@.take(method.attrs.len() as int) =~= method.attrs@);
    match found {
        Some(true) => Some(ServiceMethod::Read(method)),
        Some(false) => Some(ServiceMethod::Write(method)),
        None => None,
    }
}

/// The methods among the items of a block, in their order.
pub open spec fn methods_of(items: Seq<ImplItem>) -> Seq<ImplItemMethod>
    decreases items.len(),
{
    if items.len() == 0 {
        Seq::empty()
    } else {
        match items.last() {
            ImplItem::Method(method) => methods_of(items.drop_last()).push(method),
            ImplItem::Other => methods_of(items.drop_last()),
        }
    }
}

/// The methods that a sequence of references points to.
pub open spec fn derefs(list: Seq<&ImplItemMethod>) -> Seq<ImplItemMethod> {
    list.map_values(|m: &ImplItemMethod| *m)
}

/// The methods among the items of a block, in their order.
pub fn find_list_for_item_method(items: &[ImplItem]) -> (r: Vec<&ImplItemMethod>)
    ensures
        derefs(r@) == methods_of(items@),
{
    let mut list: Vec<&ImplItemMethod> = Vec::new();
    let mut i: usize = 0;
    assert(items@.take(0) =~= Seq::<ImplItem>::empty());
    assert(derefs(list@) =~= Seq::<ImplItemMethod>::empty());
    while i < items.len()
        invariant
            i <= items.len(),
            derefs(list@) == methods_of(items@.take(i as int)),
        decreases items.len() - i,
    {
        assert(items@.take(i + 1).drop_last() =~= items@.take(i as int));
        let ghost before = list@;
        match &items[i] {
            ImplItem::Method(method) => {
                list.push(method);
                assert(derefs(list@) =~= derefs(before).push(*method));
            },
            ImplItem::Other => {},
        }
        i += 1;
    }
    assert(items@.take(items.len() as int) =~= items@);
    list
}

/// What a scan for the genesis method has seen: the position of the first
/// method marked `genesis`, and whether the mark came up again.
pub struct GenesisScan {
    pub found: Option<int>,
    pub repeated: bool,
}

/// Taking in one attribute name while looking for the genesis method.
pub open spec fn genesis_step(scan: GenesisScan, position: int, name: Seq<char>) -> GenesisScan {
    if name != GENESIS_ATTRIBUTE@ {
        scan
    } else if scan.found is None {
        GenesisScan { found: Some(position), repeated: scan.repeated }
    } else {
        GenesisScan { found: scan.found, repeated: true }
    }
}

/// What a scan of all methods for the genesis mark sees.
pub open spec fn genesis_scan(methods: Seq<ImplItemMethod>) -> GenesisScan {
    scan_methods(
        methods,
        GenesisScan { found: None, repeated: false },
        |s: GenesisScan, p: int, n: Seq<char>| genesis_step(s, p, n),
    )
}

/// The genesis method of a block: the one method marked `genesis`, none where
/// no method is, and an error where the mark stands more than once.
pub open spec fn genesis_of(items: Seq<ImplItem>) -> Result<Option<ImplItemMethod>, ConfigError> {
    let methods = methods_of(items);
    let scan = genesis_scan(methods);
    if scan.repeated {
        Err(ConfigError::DuplicateGenesis)
    } else {
        match scan.found {
            Some(position) => Ok(Some(methods[position])),
            None => Ok(None),
        }
    }
}

/// The genesis method of a block.
pub fn find_genesis(items: &[ImplItem]) -> (r: Result<Option<&ImplItemMethod>, ConfigError>)
    ensures
        match r {
            Ok(Some(method)) => genesis_of(items@) == Ok::<Option<ImplItemMethod>, ConfigError>(Some(*method)),
            Ok(None) => genesis_of(items@) == Ok::<Option<ImplItemMethod>, ConfigError>(None),
            Err(e) => genesis_of(items@) == Err::<Option<ImplItemMethod>, ConfigError>(e),
        },
{
    let methods = find_list_for_item_method(items);
    let ghost all = derefs(methods@);
    let ghost step = |s: GenesisScan, p: int, n: Seq<char>| genesis_step(s, p, n);
    let mut found: Option<usize> = None;
    let mut repeated = false;
    let mut m: usize = 0;
    assert(all.take(0) =~= Seq::<ImplItemMethod>::empty());
    while m < methods.len()
        invariant
            m <= methods.len(),
            all == derefs(methods@),
            step == |s: GenesisScan, p: int, n: Seq<char>| genesis_step(s, p, n),
            scan_methods(all.take(m as int), GenesisScan { found: None, repeated: false }, step) == (GenesisScan {
                found: match found {
                    Some(at) => Some(at as int),
                    None => None,
                },
                repeated,
            }),
            found matches Some(at) ==> at < m,
        decreases methods.len() - m,
    {
        let method = methods[m];
        assert(all[m as int] == *method);
        let ghost at_method = scan_methods(all.take(m as int), GenesisScan { found: None, repeated: false }, step);
        let mut a: usize = 0;
        assert(method.attrs@.take(0) =~= Seq::<Attribute>::empty());
        while a < method.attrs.len()
            invariant
                a <= method.attrs.len(),
                m < methods.len(),
                step == |s: GenesisScan, p: int, n: Seq<char>| genesis_step(s, p, n),
                scan_attrs(method.attrs@.take(a as int), m as int, at_method, step) == (GenesisScan {
                    found: match found {
                        Some(at) => Some(at as int),
                        None => None,
                    },
                    repeated,
                }),
                found matches Some(at) ==> at <= m,
            decreases method.attrs.len() - a,
        {
            let segments = &method.attrs[a].path.segments;
            let ghost at_attr = scan_attrs(method.attrs@.take(a as int), m as int, at_method, step);
            let mut s: usize = 0;
            assert(segments@.take(0) =~= Seq::<PathSegment>::empty());
            while s < segments.len()
                invariant
                    s <= segments.len(),
                    m < methods.len(),
                    step == |s: GenesisScan, p: int, n: Seq<char>| genesis_step(s, p, n),
                    scan_segments(segments@.take(s as int), m as int, at_attr, step) == (GenesisScan {
                        found: match found {
                            Some(at) => Some(at as int),
                            None => None,
                        },
                        repeated,
                    }),
                    found matches Some(at) ==> at <= m,
                decreases segments.len() - s,
            {
                assert(segments@.take(s + 1).drop_last() =~= segments@.take(s as int));
                if str_same(segments[s].ident.as_str(), GENESIS_ATTRIBUTE) {
                    if found.is_none() {
                        found = Some(m);
                    } else {
                        repeated = true;
                    }
                }
                s += 1;
            }
            assert(segments@.take(segments.len() as int) =~= segments@);
            assert(method.attrs@.take(a + 1).drop_last() =~= method.attrs@.take(a as int));
            a += 1;
        }
        assert(method.attrs@.take(method.attrs.len() as int) =~= method.attrs@);
        assert(all.take(m + 1).drop_last() =~= all.take(m as int));
        m += 1;
    }
    assert(all.take(methods.len() as int) =~= all);
    if repeated {
        Err(ConfigError::DuplicateGenesis)
    } else {
        match found {
            Some(at) => {
                assert(all[at as int] == *methods@[at as int]);
                Ok(Some(methods[at]))
            },
            None => Ok(None),
        }
    }
}

/// How the genesis method is to be called.
#[derive(Debug)]
pub enum Genesis {
    /// The service has no genesis method.
    Absent,
    /// The method takes nothing but the service itself.
    Plain { method: String },
    /// The method takes a payload of the named type, decoded from the
    /// payload text.
    WithPayload { method: String, payload_type: String },
}

/// The mathematical value of a `Genesis`.
pub enum GenesisView {
    Absent,
    Plain { method: Seq<char> },
    WithPayload { method: Seq<char>, payload_type: Seq<char> },
}

impl View for Genesis {
    type V = GenesisView;

    open spec fn view(&self) -> GenesisView {
        match self {
            Genesis::Absent => GenesisView::Absent,
            Genesis::Plain { method } => GenesisView::Plain { method: method@ },
            Genesis::WithPayload { method, payload_type } => GenesisView::WithPayload {
                method: method@,
                payload_type: payload_type@,
            },
        }
    }
}

impl Clone for Genesis {
    fn clone(&self) -> (r: Self)
        ensures
            r@ == self@,
    {
        match self {
            Genesis::Absent => Genesis::Absent,
            Genesis::Plain { method } => Genesis::Plain { method: method.clone() },
            Genesis::WithPayload { method, payload_type } => Genesis::WithPayload {
                method: method.clone(),
                payload_type: payload_type.clone(),
            },
        }
    }
}

/// How a genesis method is called. With the receiver as its only parameter
/// it takes no payload; with two parameters the second declares the payload
/// type; any other number is refused.
pub open spec fn genesis_body(item: ImplItemMethod) -> Result<GenesisView, ConfigError> {
    let inputs = item.sig.inputs@;
    if inputs.len() == 1 {
        Ok(GenesisView::Plain { method: item.sig.ident@ })
    } else if inputs.len() == 2 {
        match payload_ident(inputs[1], ConfigError::GenesisParams) {
            Ok(payload) => Ok(GenesisView::WithPayload { method: item.sig.ident@, payload_type: payload }),
            Err(e) => Err(e),
        }
    } else {
        Err(ConfigError::GenesisParams)
    }
}

/// The value of a result that holds a `Genesis`.
pub open spec fn genesis_result(r: Result<Genesis, ConfigError>) -> Result<GenesisView, ConfigError> {
    match r {
        Ok(genesis) => Ok(genesis@),
        Err(e) => Err(e),
    }
}

/// How a genesis method is called.
pub fn get_genesis_body(item: &ImplItemMethod) -> (r: Result<Genesis, ConfigError>)
    ensures
        genesis_result(r) == genesis_body(*item),
{
    let count = item.sig.inputs.len();
    if count == 1 {
        Ok(Genesis::Plain { method: item.sig.ident.clone() })
    } else if count == 2 {
        match extract_payload_ident(&item.sig.inputs[1], ConfigError::GenesisParams) {
            Ok(payload_type) => Ok(Genesis::WithPayload { method: item.sig.ident.clone(), payload_type }),
            Err(e) => Err(e),
        }
    } else {
        Err(ConfigError::GenesisParams)
    }
}

/// The methods that stand at the four hook points, each by its name. There
/// is at most one for each point.
#[derive(Debug)]
pub struct Hooks {
    pub before: Option<String>,
    pub after: Option<String>,
    pub tx_before: Option<String>,
    pub tx_after: Option<String>,
}

/// The mathematical value of a `Hooks`.
pub struct HooksView {
    pub before: Option<Seq<char>>,
    pub after: Option<Seq<char>>,
    pub tx_before: Option<Seq<char>>,
    pub tx_after: Option<Seq<char>>,
}

impl View for Hooks {
    type V = HooksView;

    open spec fn view(&self) -> HooksView {
        HooksView {
            before: crate::schema::name_view(self.before),
            after: crate::schema::name_view(self.after),
            tx_before: crate::schema::name_view(self.tx_before),
            tx_after: crate::schema::name_view(self.tx_after),
        }
    }
}

impl Clone for Hooks {
    fn clone(&self) -> (r: Self)
        ensures
            r@ == self@,
    {
        Hooks {
            before: crate::schema::clone_name(&self.before),
            after: crate::schema::clone_name(&self.after),
            tx_before: crate::schema::clone_name(&self.tx_before),
            tx_after: crate::schema::clone_name(&self.tx_after),
        }
    }
}

/// What a scan for hooks has seen: for each hook point the position of the
/// method marked for it, and the error of the first mark that came up a
/// second time.
pub struct HookScan {
    pub before: Option<int>,
    pub after: Option<int>,
    pub tx_before: Option<int>,
    pub tx_after: Option<int>,
    pub error: Option<ConfigError>,
}

/// Taking in one attribute name while looking for hooks. After an error
/// nothing more is taken in.
pub open spec fn hook_step(scan: HookScan, position: int, name: Seq<char>) -> HookScan {
    if scan.error is Some {
        scan
    } else if name == HOOK_BEFORE_ATTRIBUTE@ {
        if scan.before is None {
            HookScan { before: Some(position), ..scan }
        } else {
            HookScan { error: Some(ConfigError::DuplicateHookBefore), ..scan }
        }
    } else if name == HOOK_AFTER_ATTRIBUTE@ {
        if scan.after is None {
            HookScan { after: Some(position), ..scan }
        } else {
            HookScan { error: Some(ConfigError::DuplicateHookAfter), ..scan }
        }
    } else if name == TX_HOOK_BEFORE_ATTRIBUTE@ {
        if scan.tx_before is None {
            HookScan { tx_before: Some(position), ..scan }
        } else {
            HookScan { error: Some(ConfigError::DuplicateTxHookBefore), ..scan }
        }
    } else if name == TX_HOOK_AFTER_ATTRIBUTE@ {
        if scan.tx_after is None {
            HookScan { tx_after: Some(position), ..scan }
        } else {
            HookScan { error: Some(ConfigError::DuplicateTxHookAfter), ..scan }
        }
    } else {
        scan
    }
}

/// A scan that has seen nothing.
pub open spec fn hook_scan_start() -> HookScan {
    HookScan { before: None, after: None, tx_before: None, tx_after: None, error: None }
}

/// What a scan of all methods for hook marks sees.
pub open spec fn hook_scan(methods: Seq<ImplItemMethod>) -> HookScan {
    scan_methods(methods, hook_scan_start(), |s: HookScan, p: int, n: Seq<char>| hook_step(s, p, n))
}

/// The name of the method at a position, where there is a position.
pub open spec fn method_name_at(methods: Seq<ImplItemMethod>, position: Option<int>) -> Option<Seq<char>> {
    match position {
        Some(at) => Some(methods[at].sig.ident@),
        None => None,
    }
}

/// The hooks of a block: for each hook point the method marked for it, and
/// an error where a mark stands more than once.
pub open spec fn hooks_of(items: Seq<ImplItem>) -> Result<HooksView, ConfigError> {
    let methods = methods_of(items);
    let scan = hook_scan(methods);
    match scan.error {
        Some(e) => Err(e),
        None => Ok(
            HooksView {
                before: method_name_at(methods, scan.before),
                after: method_name_at(methods, scan.after),
                tx_before: method_name_at(methods, scan.tx_before),
                tx_after: method_name_at(methods, scan.tx_after),
            },
        ),
    }
}

/// The value of a result that holds a `Hooks`.
pub open spec fn hooks_result(r: Result<Hooks, ConfigError>) -> Result<HooksView, ConfigError> {
    match r {
        Ok(hooks) => Ok(hooks@),
        Err(e) => Err(e),
    }
}

/// The positions that a scan for hooks has found so far.
struct HookPositions {
    before: Option<usize>,
    after: Option<usize>,
    tx_before: Option<usize>,
    tx_after: Option<usize>,
    error: Option<ConfigError>,
}

/// A position as a number, where there is one.
spec fn as_position(at: Option<usize>) -> Option<int> {
    match at {
        Some(at) => Some(at as int),
        None => None,
    }
}

impl HookPositions {
    spec fn scan(self) -> HookScan {
        HookScan {
            before: as_position(self.before),
            after: as_position(self.after),
            tx_before: as_position(self.tx_before),
            tx_after: as_position(self.tx_after),
            error: self.error,
        }
    }

    spec fn below(self, bound: int) -> bool {
        &&& self.before matches Some(at) ==> at < bound
        &&& self.after matches Some(at) ==> at < bound
        &&& self.tx_before matches Some(at) ==> at < bound
        &&& self.tx_after matches Some(at) ==> at < bound
    }

    /// Takes in one attribute name of the method at `position`.
    fn take(&mut self, position: usize, name: &str)
        ensures
            final(self).scan() == hook_step(old(self).scan(), position as int, name@),
            forall|bound: int| old(self).below(bound) && position < bound ==> final(self).below(bound),
    {
        if self.error.is_some() {
        } else if str_same(name, HOOK_BEFORE_ATTRIBUTE) {
            if self.before.is_none() {
                self.before = Some(position);
            } else {
                self.error = Some(ConfigError::DuplicateHookBefore);
            }
        } else if str_same(name, HOOK_AFTER_ATTRIBUTE) {
            if self.after.is_none() {
                self.after = Some(position);
            } else {
                self.error = Some(ConfigError::DuplicateHookAfter);
            }
        } else if str_same(name, TX_HOOK_BEFORE_ATTRIBUTE) {
            if self.tx_before.is_none() {
                self.tx_before = Some(position);
            } else {
                self.error = Some(ConfigError::DuplicateTxHookBefore);
            }
        } else if str_same(name, TX_HOOK_AFTER_ATTRIBUTE) {
            if self.tx_after.is_none() {
                self.tx_after = Some(position);
            } else {
                self.error = Some(ConfigError::DuplicateTxHookAfter);
            }
        }
    }
}

/// The name of the method at a position, where there is a position.
fn name_at(methods: &Vec<&ImplItemMethod>, position: Option<usize>) -> (r: Option<String>)
    requires
        position matches Some(at) ==> at < methods@.len(),
    ensures
        crate::schema::name_view(r) == method_name_at(derefs(methods@), as_position(position)),
{
    match position {
        Some(at) => Some(methods[at].sig.ident.clone()),
        None => None,
    }
}

/// The hooks of a block.
pub fn extract_hooks(items: &[ImplItem]) -> (r: Result<Hooks, ConfigError>)
    ensures
        hooks_result(r) == hooks_of(items@),
{
    let methods = find_list_for_item_method(items);
    let ghost all = derefs(methods@);
    let ghost step = |s: HookScan, p: int, n: Seq<char>| hook_step(s, p, n);
    let mut seen = HookPositions { before: None, after: None, tx_before: None, tx_after: None, error: None };
    let mut m: usize = 0;
    assert(all.take(0) =~= Seq::<ImplItemMethod>::empty());
    while m < methods.len()
        invariant
            m <= methods.len(),
            all == derefs(methods@),
            step == |s: HookScan, p: int, n: Seq<char>| hook_step(s, p, n),
            scan_methods(all.take(m as int), hook_scan_start(), step) == seen.scan(),
            seen.below(methods.len() as int),
        decreases methods.len() - m,
    {
        let method = methods[m];
        assert(all[m as int] == *method);
        let ghost at_method = seen.scan();
        let mut a: usize = 0;
        assert(method.attrs@.take(0) =~= Seq::<Attribute>::empty());
        while a < method.attrs.len()
            invariant
                a <= method.attrs.len(),
                m < methods.len(),
                step == |s: HookScan, p: int, n: Seq<char>| hook_step(s, p, n),
                scan_attrs(method.attrs@.take(a as int), m as int, at_method, step) == seen.scan(),
                seen.below(methods.len() as int),
            decreases method.attrs.len() - a,
        {
            let segments = &method.attrs[a].path.segments;
            let ghost at_attr = seen.scan();
            let mut s: usize = 0;
            assert(segments@.take(0) =~= Seq::<PathSegment>::empty());
            while s < segments.len()
                invariant
                    s <= segments.len(),
                    m < methods.len(),
                    step == |s: HookScan, p: int, n: Seq<char>| hook_step(s, p, n),
                    scan_segments(segments@.take(s as int), m as int, at_attr, step) == seen.scan(),
                    seen.below(methods.len() as int),
                decreases segments.len() - s,
            {
                assert(segments@.take(s + 1).drop_last() =~= segments@.take(s as int));
                seen.take(m, segments[s].ident.as_str());
                s += 1;
            }
            assert(segments@.take(segments.len() as int) =~= segments@);
            assert(method.attrs@.take(a + 1).drop_last() =~= method.attrs@.take(a as int));
            a += 1;
        }
        assert(method.attrs@.take(method.attrs.len() as int) =~= method.attrs@);
        assert(all.take(m + 1).drop_last() =~= all.take(m as int));
        m += 1;
    }
    assert(all.take(methods.len() as int) =~= all);
    match seen.error {
        Some(e) => Err(e),
        None => Ok(
            Hooks {
                before: name_at(&methods, seen.before),
                after: name_at(&methods, seen.after),
                tx_before: name_at(&methods, seen.tx_before),
                tx_after: name_at(&methods, seen.tx_after),
            },
        ),
    }
}

/// The attribute names of the methods of a block, each with the position of
/// its method, in the order in which they are looked at.
pub open spec fn marks_of(methods: Seq<ImplItemMethod>) -> Seq<(int, Seq<char>)> {
    scan_methods(
        methods,
        Seq::empty(),
        |s: Seq<(int, Seq<char>)>, p: int, n: Seq<char>| s.push((p, n)),
    )
}

/// The state reached from `state` by taking in a sequence of marks.
pub open spec fn fold_marks<S>(marks: Seq<(int, Seq<char>)>, state: S, step: spec_fn(S, int, Seq<char>) -> S) -> S
    decreases marks.len(),
{
    if marks.len() == 0 {
        state
    } else {
        step(fold_marks(marks.drop_last(), state, step), marks.last().0, marks.last().1)
    }
}

/// How many of the marks are the given name.
pub open spec fn mark_count(marks: Seq<(int, Seq<char>)>, name: Seq<char>) -> nat
    decreases marks.len(),
{
    if marks.len() == 0 {
        0
    } else {
        mark_count(marks.drop_last(), name) + if marks.last().1 == name {
            1nat
        } else {
            0nat
        }
    }
}

/// The position of the method that has the first mark of the given name.
pub open spec fn first_marked(marks: Seq<(int, Seq<char>)>, name: Seq<char>) -> Option<int>
    decreases marks.len(),
{
    if marks.len() == 0 {
        None
    } else {
        match first_marked(marks.drop_last(), name) {
            Some(position) => Some(position),
            None => if marks.last().1 == name {
                Some(marks.last().0)
            } else {
                None
            },
        }
    }
}

proof fn lemma_scan_segments_is_fold<S>(
    segments: Seq<PathSegment>,
    position: int,
    seen: Seq<(int, Seq<char>)>,
    start: S,
    step: spec_fn(S, int, Seq<char>) -> S,
)
    ensures
        scan_segments(segments, position, fold_marks(seen, start, step), step) == fold_marks(
            scan_segments(segments, position, seen, |s: Seq<(int, Seq<char>)>, p: int, n: Seq<char>| s.push((p, n))),
            start,
            step,
        ),
    decreases segments.len(),
{
    let push = |s: Seq<(int, Seq<char>)>, p: int, n: Seq<char>| s.push((p, n));
    if segments.len() > 0 {
        lemma_scan_segments_is_fold(segments.drop_last(), position, seen, start, step);
        let front = scan_segments(segments.drop_last(), position, seen, push);
        let mark = (position, segments.last().ident@);
        assert(scan_segments(segments, position, seen, push) == front.push(mark));
        assert(front.push(mark).drop_last() =~= front);
    }
}

proof fn lemma_scan_attrs_is_fold<S>(
    attrs: Seq<Attribute>,
    position: int,
    seen: Seq<(int, Seq<char>)>,
    start: S,
    step: spec_fn(S, int, Seq<char>) -> S,
)
    ensures
        scan_attrs(attrs, position, fold_marks(seen, start, step), step) == fold_marks(
            scan_attrs(attrs, position, seen, |s: Seq<(int, Seq<char>)>, p: int, n: Seq<char>| s.push((p, n))),
            start,
            step,
        ),
    decreases attrs.len(),
{
    let push = |s: Seq<(int, Seq<char>)>, p: int, n: Seq<char>| s.push((p, n));
    if attrs.len() > 0 {
        lemma_scan_attrs_is_fold(attrs.drop_last(), position, seen, start, step);
        let front = scan_attrs(attrs.drop_last(), position, seen, push);
        lemma_scan_segments_is_fold(attrs.last().path.segments@, position, front, start, step);
    }
}

/// Looking at the attributes of the methods one after the other is taking in
/// their marks in order.
pub proof fn lemma_scan_is_fold<S>(methods: Seq<ImplItemMethod>, start: S, step: spec_fn(S, int, Seq<char>) -> S)
    ensures
        scan_methods(methods, start, step) == fold_marks(marks_of(methods), start, step),
    decreases methods.len(),
{
    if methods.len() > 0 {
        lemma_scan_is_fold(methods.drop_last(), start, step);
        lemma_scan_attrs_is_fold(
            methods.last().attrs@,
            methods.len() - 1,
            marks_of(methods.drop_last()),
            start,
            step,
        );
    }
}

proof fn lemma_genesis_fold(marks: Seq<(int, Seq<char>)>)
    ensures
        ({
            let scan = fold_marks(
                marks,
                GenesisScan { found: None, repeated: false },
                |s: GenesisScan, p: int, n: Seq<char>| genesis_step(s, p, n),
            );
            &&& scan.found == first_marked(marks, GENESIS_ATTRIBUTE@)
            &&& scan.repeated == (mark_count(marks, GENESIS_ATTRIBUTE@) >= 2)
            &&& (scan.found is None) == (mark_count(marks, GENESIS_ATTRIBUTE@) == 0)
        }),
    decreases marks.len(),
{
    if marks.len() > 0 {
        lemma_genesis_fold(marks.drop_last());
    }
}

/// A block has a genesis method exactly where one mark `genesis` stands on
/// its methods: it is the method with that mark. Without such a mark there is
/// none, and with more than one the block is refused.
pub proof fn lemma_genesis_of(items: Seq<ImplItem>)
    ensures
        ({
            let methods = methods_of(items);
            let marks = marks_of(methods);
            let count = mark_count(marks, GENESIS_ATTRIBUTE@);
            genesis_of(items) == if count >= 2 {
                Err::<Option<ImplItemMethod>, ConfigError>(ConfigError::DuplicateGenesis)
            } else if count == 1 {
                Ok::<Option<ImplItemMethod>, ConfigError>(Some(methods[first_marked(marks, GENESIS_ATTRIBUTE@)->Some_0]))
            } else {
                Ok::<Option<ImplItemMethod>, ConfigError>(None)
            }
        }),
{
    let methods = methods_of(items);
    lemma_scan_is_fold(
        methods,
        GenesisScan { found: None, repeated: false },
        |s: GenesisScan, p: int, n: Seq<char>| genesis_step(s, p, n),
    );
    lemma_genesis_fold(marks_of(methods));
}

/// Whether each of the four hook marks stands at most once.
pub open spec fn hooks_registered_once(marks: Seq<(int, Seq<char>)>) -> bool {
    &&& mark_count(marks, HOOK_BEFORE_ATTRIBUTE@) <= 1
    &&& mark_count(marks, HOOK_AFTER_ATTRIBUTE@) <= 1
    &&& mark_count(marks, TX_HOOK_BEFORE_ATTRIBUTE@) <= 1
    &&& mark_count(marks, TX_HOOK_AFTER_ATTRIBUTE@) <= 1
}

proof fn lemma_hook_names_differ()
    ensures
        HOOK_BEFORE_ATTRIBUTE@.len() == 11,
        HOOK_AFTER_ATTRIBUTE@.len() == 10,
        TX_HOOK_BEFORE_ATTRIBUTE@.len() == 14,
        TX_HOOK_AFTER_ATTRIBUTE@.len() == 13,
{
    reveal_strlit("hook_before");
    reveal_strlit("hook_after");
    reveal_strlit("tx_hook_before");
    reveal_strlit("tx_hook_after");
}

proof fn lemma_hook_fold(marks: Seq<(int, Seq<char>)>)
    ensures
        ({
            let scan = fold_marks(marks, hook_scan_start(), |s: HookScan, p: int, n: Seq<char>| hook_step(s, p, n));
            &&& (scan.error is None) == hooks_registered_once(marks)
            &&& scan.error is None ==> {
                &&& scan.before == first_marked(marks, HOOK_BEFORE_ATTRIBUTE@)
                &&& scan.after == first_marked(marks, HOOK_AFTER_ATTRIBUTE@)
                &&& scan.tx_before == first_marked(marks, TX_HOOK_BEFORE_ATTRIBUTE@)
                &&& scan.tx_after == first_marked(marks, TX_HOOK_AFTER_ATTRIBUTE@)
                &&& (scan.before is None) == (mark_count(marks, HOOK_BEFORE_ATTRIBUTE@) == 0)
                &&& (scan.after is None) == (mark_count(marks, HOOK_AFTER_ATTRIBUTE@) == 0)
                &&& (scan.tx_before is None) == (mark_count(marks, TX_HOOK_BEFORE_ATTRIBUTE@) == 0)
                &&& (scan.tx_after is None) == (mark_count(marks, TX_HOOK_AFTER_ATTRIBUTE@) == 0)
            }
        }),
    decreases marks.len(),
{
    lemma_hook_names_differ();
    if marks.len() > 0 {
        lemma_hook_fold(marks.drop_last());
    }
}

/// A block is refused for its hooks exactly where one of the four hook marks
/// stands more than once on its methods. Where it is not refused, the hook at
/// each point is the method with the mark of the point, and there is none
/// where no method has the mark.
pub proof fn lemma_hooks_of(items: Seq<ImplItem>)
    ensures
        ({
            let methods = methods_of(items);
            let marks = marks_of(methods);
            &&& hooks_of(items) is Ok <==> hooks_registered_once(marks)
            &&& hooks_of(items) matches Ok(hooks) ==> {
                &&& hooks.before == method_name_at(methods, first_marked(marks, HOOK_BEFORE_ATTRIBUTE@))
                &&& hooks.after == method_name_at(methods, first_marked(marks, HOOK_AFTER_ATTRIBUTE@))
                &&& hooks.tx_before == method_name_at(methods, first_marked(marks, TX_HOOK_BEFORE_ATTRIBUTE@))
                &&& hooks.tx_after == method_name_at(methods, first_marked(marks, TX_HOOK_AFTER_ATTRIBUTE@))
                &&& (hooks.before is None) == (mark_count(marks, HOOK_BEFORE_ATTRIBUTE@) == 0)
                &&& (hooks.after is None) == (mark_count(marks, HOOK_AFTER_ATTRIBUTE@) == 0)
                &&& (hooks.tx_before is None) == (mark_count(marks, TX_HOOK_BEFORE_ATTRIBUTE@) == 0)
                &&& (hooks.tx_after is None) == (mark_count(marks, TX_HOOK_AFTER_ATTRIBUTE@) == 0)
            }
        }),
{
    let methods = methods_of(items);
    lemma_scan_is_fold(methods, hook_scan_start(), |s: HookScan, p: int, n: Seq<char>| hook_step(s, p, n));
    lemma_hook_fold(marks_of(methods));
}

/// The name of the event source that a service declares, where it declares
/// one.
#[derive(Debug)]
pub struct EventIdent {
    pub event: Option<String>,
}

/// The method table after one more method of the block is taken in. A method
/// without a mark is passed over; a marked one is added under its name, and
/// is refused where the table already holds that name. After an error nothing
/// more is taken in.
pub open spec fn table_step(front: Result<Seq<MethodMetaView>, ConfigError>, method: ImplItemMethod) -> Result<
    Seq<MethodMetaView>,
    ConfigError,
> {
    match front {
        Err(e) => Err(e),
        Ok(list) => match service_mark(method) {
            None => Ok(list),
            Some(readonly) => match method_meta(method, readonly) {
                Err(e) => Err(e),
                Ok(meta) => if has_name(list, meta.method_name) {
                    Err(ConfigError::DuplicateMethod)
                } else {
                    Ok(list.push(meta))
                },
            },
        },
    }
}

/// The method table of a block: its marked methods in their order.
pub open spec fn method_table(methods: Seq<ImplItemMethod>) -> Result<Seq<MethodMetaView>, ConfigError>
    decreases methods.len(),
{
    if methods.len() == 0 {
        Ok(Seq::empty())
    } else {
        table_step(method_table(methods.drop_last()), methods.last())
    }
}

/// How a block's genesis method is called, where it has one.
pub open spec fn genesis_plan(items: Seq<ImplItem>) -> Result<GenesisView, ConfigError> {
    match genesis_of(items) {
        Err(e) => Err(e),
        Ok(None) => Ok(GenesisView::Absent),
        Ok(Some(method)) => genesis_body(method),
    }
}

/// The service that a block declares. The name of its type, its genesis
/// method, its hooks and its method table are looked at in this order, and
/// the first error among them is the result.
pub open spec fn service_code(event: Option<Seq<char>>, item: ItemImpl) -> Result<ServiceCodeView, ConfigError> {
    match service_ident(item) {
        Err(e) => Err(e),
        Ok(service) => match genesis_plan(item.items@) {
            Err(e) => Err(e),
            Ok(genesis) => match hooks_of(item.items@) {
                Err(e) => Err(e),
                Ok(hooks) => match method_table(methods_of(item.items@)) {
                    Err(e) => Err(e),
                    Ok(methods) => Ok(ServiceCodeView { service, event, genesis, hooks, methods }),
                },
            },
        },
    }
}

/// The value of a result that holds a `ServiceCode`.
pub open spec fn code_result(r: Result<ServiceCode, ConfigError>) -> Result<ServiceCodeView, ConfigError> {
    match r {
        Ok(code) => Ok(code@),
        Err(e) => Err(e),
    }
}

/// Assembles the service that a block declares, or says why the block
/// declares none.
pub fn gen_service_code(attr: EventIdent, item: &ItemImpl) -> (r: Result<ServiceCode, ConfigError>)
    ensures
        code_result(r) == service_code(name_view(attr.event), *item),
{
    let service = match get_service_ident(item) {
        Ok(service) => service,
        Err(e) => {
            return Err(e);
        },
    };
    let items = item.items.as_slice();
    let genesis = match find_genesis(items) {
        Ok(Some(method)) => match get_genesis_body(method) {
            Ok(genesis) => genesis,
            Err(e) => {
                return Err(e);
            },
        },
        Ok(None) => Genesis::Absent,
        Err(e) => {
            return Err(e);
        },
    };
    let hooks = match extract_hooks(items) {
        Ok(hooks) => hooks,
        Err(e) => {
            return Err(e);
        },
    };
    let methods = find_list_for_item_method(items);
    let ghost all = derefs(methods@);
    let mut table = MethodTable::new();
    let mut failure: Option<ConfigError> = None;
    let mut i: usize = 0;
    assert(all.take(0) =~= Seq::<ImplItemMethod>::empty());
    while i < methods.len()
        invariant
            i <= methods.len(),
            all == derefs(methods@),
            method_table(all.take(i as int)) == match failure {
                Some(e) => Err::<Seq<MethodMetaView>, ConfigError>(e),
                None => Ok::<Seq<MethodMetaView>, ConfigError>(table@),
            },
        decreases methods.len() - i,
    {
        assert(all.take(i + 1).drop_last() =~= all.take(i as int));
        assert(all.take(i + 1).last() == *methods@[i as int]);
        if failure.is_none() {
            match find_service_method(methods[i]) {
                Some(marked) => match extract_method_meta(marked) {
                    Ok(meta) => {
                        match table.register_method(meta.method_name, meta.readonly, meta.payload_type, meta.res_type) {
                            Ok(()) => {},
                            Err(e) => {
                                failure = Some(e);
                            },
                        }
                    },
                    Err(e) => {
                        failure = Some(e);
                    },
                },
                None => {},
            }
        }
        i += 1;
    }
    assert(all.take(methods.len() as int) =~= all);
    match failure {
        Some(e) => Err(e),
        None => Ok(ServiceCode::new(service, attr.event, genesis, hooks, &table)),
    }
}

} // verus!
