//! How the fields of a struct are decoded from a list of encoded items: for
//! each field, by its type, which reader is called and what is made of the
//! result.

use crate::binding::Path;
use crate::schema::name_view;
use vstd::prelude::*;
use vstd::string::*;

verus! {

/// The type of a field as a declaration writes it.
#[derive(Debug)]
pub enum FieldType {
    /// A fixed-size array such as `[u8; 32]`.
    Array,
    /// A path such as `Vec<Hash>` or `Bytes`.
    Path(Path),
    /// Any other form of type.
    Other,
}

/// A field of a struct: its name, where it has one, and its type.
#[derive(Debug)]
pub struct Field {
    pub ident: Option<String>,
    pub ty: FieldType,
}

/// The fields of a struct.
#[derive(Debug)]
pub struct DataStruct {
    pub fields: Vec<Field>,
}

/// What a declaration declares.
#[derive(Debug)]
pub enum Data {
    Struct(DataStruct),
    /// An enum or a union.
    Other,
}

/// A declaration that a codec is derived for.
#[derive(Debug)]
pub struct DeriveInput {
    pub ident: String,
    pub data: Data,
}

/// The readers that decoding calls: one for a single item and one for a
/// list, and whether they take the position of the item.
#[derive(Debug)]
pub struct ParseQuotes {
    pub single: String,
    pub list: String,
    pub takes_index: bool,
}

/// Why a codec cannot be derived.
#[derive(Debug, PartialEq, Eq)]
pub enum CodecError {
    /// The declaration is no struct.
    NotStruct,
    /// A field has a type that is neither an array nor a path.
    NotSupported,
    /// A field has a path without segments for its type.
    NoSegment,
}

impl CodecError {
    /// The text shown for the error.
    pub open spec fn message_spec(self) -> Seq<char> {
        match self {
            CodecError::NotStruct => "#[derive(FixedCodec)] is only defined for structs."@,
            CodecError::NotSupported => "fixed_codec_derive not supported"@,
            CodecError::NoSegment => "there must be at least 1 segment"@,
        }
    }

    /// The text shown for the error.
    pub fn message(&self) -> (r: String)
        ensures
            r@ == self.message_spec(),
    {
        match self {
            CodecError::NotStruct => String::from_str("#[derive(FixedCodec)] is only defined for structs."),
            CodecError::NotSupported => String::from_str("fixed_codec_derive not supported"),
            CodecError::NoSegment => String::from_str("there must be at least 1 segment"),
        }
    }
}

/// What is made of the item read for a field.
#[derive(Clone, Copy, Debug, PartialEq, Eq, Structural)]
pub enum DecodeKind {
    /// The bytes read must be as many as the array holds, and fill it.
    Array,
    /// A list is read.
    List,
    /// A byte buffer is made of what is read.
    Bytes,
    /// What is read is the field.
    Single,
}

/// How a field is known: by its name, or by its position in a tuple struct.
#[derive(Debug)]
pub enum FieldId {
    Named(String),
    Position(usize),
}

/// How one field is decoded.
#[derive(Debug)]
pub struct FieldDecode {
    pub id: FieldId,
    pub kind: DecodeKind,
    /// The reader that is called.
    pub reader: String,
    /// The position handed to the reader, where it takes one.
    pub position: Option<usize>,
}

/// The mathematical value of a `FieldDecode`.
pub struct FieldDecodeView {
    /// The name of the field, or none for a field known by its position.
    pub name: Option<Seq<char>>,
    pub index: usize,
    pub kind: DecodeKind,
    pub reader: Seq<char>,
    pub position: Option<usize>,
}

impl FieldDecode {
    /// The value of the decoding of the field at `index`.
    pub open spec fn view_at(self, index: usize) -> FieldDecodeView {
        FieldDecodeView {
            name: match self.id {
                FieldId::Named(name) => Some(name@),
                FieldId::Position(_) => None,
            },
            index: match self.id {
                FieldId::Named(_) => index,
                FieldId::Position(at) => at,
            },
            kind: self.kind,
            reader: self.reader@,
            position: self.position,
        }
    }
}

/// The readers of the list decoder: `rlp.val_at` for a single item and
/// `rlp.list_at` for a list, both of which take the position.
pub fn decode_parse_quotes() -> (r: ParseQuotes)
    ensures
        r.single@ == "rlp.val_at"@,
        r.list@ == "rlp.list_at"@,
        r.takes_index,
{
    ParseQuotes { single: String::from_str("rlp.val_at"), list: String::from_str("rlp.list_at"), takes_index: true }
}

/// How a field of the given type is decoded: an array from its bytes, a
/// `Vec` as a list, `Bytes` as a byte buffer, and any other path as it is
/// read.
pub open spec fn decode_kind(ty: FieldType) -> Result<DecodeKind, CodecError> {
    match ty {
        FieldType::Array => Ok(DecodeKind::Array),
        FieldType::Path(path) => if path.segments@.len() == 0 {
            Err(CodecError::NoSegment)
        } else if path.segments@[0].ident@ == "Vec"@ {
            Ok(DecodeKind::List)
        } else if path.segments@[0].ident@ == "Bytes"@ {
            Ok(DecodeKind::Bytes)
        } else {
            Ok(DecodeKind::Single)
        },
        FieldType::Other => Err(CodecError::NotSupported),
    }
}

/// How the field at `index` is decoded with the given readers. The reader
/// of an array is always handed the position.
pub open spec fn field_decode(index: usize, field: Field, quotes: ParseQuotes) -> Result<FieldDecodeView, CodecError> {
    match decode_kind(field.ty) {
        Err(e) => Err(e),
        Ok(kind) => Ok(
            FieldDecodeView {
                name: name_view(field.ident),
                index,
                kind,
                reader: if kind == DecodeKind::List {
                    quotes.list@
                } else {
                    quotes.single@
                },
                position: if quotes.takes_index || kind == DecodeKind::Array {
                    Some(index)
                } else {
                    None
                },
            },
        ),
    }
}

/// The value of a result that holds the decoding of the field at `index`.
pub open spec fn decode_result(r: Result<FieldDecode, CodecError>, index: usize) -> Result<
    FieldDecodeView,
    CodecError,
> {
    match r {
        Ok(decode) => Ok(decode.view_at(index)),
        Err(e) => Err(e),
    }
}

/// How the field at `index` is decoded with the given readers.
pub fn decode_field(index: usize, field: &Field, quotes: ParseQuotes) -> (r: Result<FieldDecode, CodecError>)
    ensures
        decode_result(r, index) == field_decode(index, *field, quotes),
{
    let id = match &field.ident {
        Some(ident) => FieldId::Named(ident.clone()),
        None => FieldId::Position(index),
    };
    match &field.ty {
        FieldType::Array => Ok(
            FieldDecode { id, kind: DecodeKind::Array, reader: quotes.single, position: Some(index) },
        ),
        FieldType::Path(path) => {
            if path.segments.len() == 0 {
                return Err(CodecError::NoSegment);
            }
            let position = if quotes.takes_index {
                Some(index)
            } else {
                None
            };
            let ident = &path.segments[0].ident;
            if crate::text::str_same(ident.as_str(), "Vec") {
                Ok(FieldDecode { id, kind: DecodeKind::List, reader: quotes.list, position })
            } else if crate::text::str_same(ident.as_str(), "Bytes") {
                Ok(FieldDecode { id, kind: DecodeKind::Bytes, reader: quotes.single, position })
            } else {
                Ok(FieldDecode { id, kind: DecodeKind::Single, reader: quotes.single, position })
            }
        },
        FieldType::Other => Err(CodecError::NotSupported),
    }
}

/// How the fields of a struct are decoded, in their order; the first field
/// that cannot be decoded gives the error.
pub open spec fn fields_decode(fields: Seq<Field>) -> Result<Seq<FieldDecodeView>, CodecError>
    decreases fields.len(),
{
    if fields.len() == 0 {
        Ok(Seq::empty())
    } else {
        match fields_decode(fields.drop_last()) {
            Err(e) => Err(e),
            Ok(front) => match decode_kind(fields.last().ty) {
                Err(e) => Err(e),
                Ok(kind) => Ok(
                    front.push(
                        FieldDecodeView {
                            name: name_view(fields.last().ident),
                            index: (fields.len() - 1) as usize,
                            kind,
                            reader: if kind == DecodeKind::List {
                                "rlp.list_at"@
                            } else {
                                "rlp.val_at"@
                            },
                            position: Some((fields.len() - 1) as usize),
                        },
                    ),
                ),
            },
        }
    }
}

/// The decoder of a struct: its name and how each field is read.
#[derive(Debug)]
pub struct DecodeImpl {
    pub name: String,
    pub fields: Vec<FieldDecode>,
}

/// The values of the decodings of the fields of a struct.
pub open spec fn decode_views(fields: Seq<FieldDecode>) -> Seq<FieldDecodeView> {
    Seq::new(fields.len(), |i: int| fields[i].view_at(i as usize))
}

/// The decoder of a struct.
pub fn impl_decode(name: &str, body: &DataStruct) -> (r: Result<DecodeImpl, CodecError>)
    ensures
        match r {
            Ok(decoder) => decoder.name@ == name@ && fields_decode(body.fields@) == Ok::<
                Seq<FieldDecodeView>,
                CodecError,
            >(decode_views(decoder.fields@)),
            Err(e) => fields_decode(body.fields@) == Err::<Seq<FieldDecodeView>, CodecError>(e),
        },
{
    let mut stmts: Vec<FieldDecode> = Vec::new();
    let mut failure: Option<CodecError> = None;
    let mut i: usize = 0;
    assert(body.fields@.take(0) =~= Seq::<Field>::empty());
    assert(decode_views(stmts@) =~= Seq::<FieldDecodeView>::empty());
    while i < body.fields.len()
        invariant
            i <= body.fields.len(),
            failure is None ==> stmts@.len() == i,
            fields_decode(body.fields@.take(i as int)) == match failure {
                Some(e) => Err::<Seq<FieldDecodeView>, CodecError>(e),
                None => Ok::<Seq<FieldDecodeView>, CodecError>(decode_views(stmts@)),
            },
        decreases body.fields.len() - i,
    {
        assert(body.fields@.take(i + 1).drop_last() =~= body.fields@.take(i as int));
        assert(body.fields@.take(i + 1).last() == body.fields@[i as int]);
        if failure.is_none() {
            match decode_field(i, &body.fields[i], decode_parse_quotes()) {
                Ok(decode) => {
                    let ghost before = stmts@;
                    stmts.push(decode);
                    assert(decode_views(stmts@) =~= decode_views(before).push(decode.view_at(i)));
                },
                Err(e) => {
                    failure = Some(e);
                },
            }
        }
        i += 1;
    }
    assert(body.fields@.take(body.fields.len() as int) =~= body.fields@);
    match failure {
        Some(e) => Err(e),
        None => Ok(DecodeImpl { name: String::from_str(name), fields: stmts }),
    }
}

/// The codec of a struct: its name, how many items its encoding lists, and
/// how each field is read back.
#[derive(Debug)]
pub struct FixedCodecImpl {
    pub name: String,
    pub encoded_items: usize,
    pub decoder: DecodeImpl,
}

/// The codec derived for a declaration, which must be a struct.
pub fn impl_fixed_codec(ast: &DeriveInput) -> (r: Result<FixedCodecImpl, CodecError>)
    ensures
        match r {
            Ok(codec) => ast.data matches Data::Struct(body) && codec.name@ == ast.ident@ && codec.encoded_items
                == body.fields@.len() && codec.decoder.name@ == ast.ident@ && fields_decode(body.fields@) == Ok::<
                Seq<FieldDecodeView>,
                CodecError,
            >(decode_views(codec.decoder.fields@)),
            Err(e) => match ast.data {
                Data::Struct(body) => fields_decode(body.fields@) == Err::<Seq<FieldDecodeView>, CodecError>(e),
                Data::Other => e == CodecError::NotStruct,
            },
        },
{
    let body = match &ast.data {
        Data::Struct(body) => body,
        Data::Other => {
            return Err(CodecError::NotStruct);
        },
    };
    match impl_decode(ast.ident.as_str(), body) {
        Ok(decoder) => Ok(FixedCodecImpl { name: ast.ident.clone(), encoded_items: body.fields.len(), decoder }),
        Err(e) => Err(e),
    }
}

} // verus!
