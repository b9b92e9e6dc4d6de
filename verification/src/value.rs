//! The typed value codec.
//!
//! Every bind argument of a compiled statement travels in a loosely typed
//! intermediate form: a serialized text together with a type tag. `encode`
//! produces that pair from a native value when a condition is built, and
//! `decode` re-hydrates it into a native bind value when the statement is
//! executed. Booleans are canonicalized to the integers `1` and `0` at
//! encode time and are indistinguishable from integers downstream; a
//! serialized text that does not parse under its claimed tag is a fatal
//! error at bind time, never a silent coercion.

use vstd::prelude::*;

use crate::strutil::{
    dec_int, digits_value, format_i64, int_literal_value, is_digit, is_float_literal,
    is_float_text, is_int_literal, lemma_int_literal_roundtrip, parse_i64, str_eq,
};

verus! {

/// The type tag carried beside every serialized value. It records how the
/// text is to be re-hydrated at bind time; `Column` marks a value that is
/// a `table.column` reference to be spliced into the SQL text and must
/// never be bound as a parameter.
#[derive(Clone, Copy, Debug, PartialEq, Eq, Structural)]
pub enum TypeTag {
    Integer,
    Float,
    Text,
    Null,
    Column,
}

/// One bind argument of a compiled query: a serialized value and the tag
/// that says how to re-hydrate it. Arguments are produced in emission
/// order, one for every field condition that is not a column reference.
#[derive(Clone, Debug, PartialEq)]
pub struct Arg {
    pub value: String,
    pub ty: TypeTag,
}

/// A native value at the condition-construction boundary.
#[derive(Clone, Debug, PartialEq)]
pub enum Value {
    /// A signed integer.
    Int(i64),
    /// A boolean; canonicalized to the integers `1` and `0` at encode
    /// time.
    Bool(bool),
    /// A float, held as its decimal text. The crate itself stores no
    /// float numbers; the caller renders the number to text once, at this
    /// boundary.
    Float(String),
    /// A plain string; dates and date-times travel in this form too.
    Text(String),
    /// The absence of a value in a nullable column.
    Null,
}

/// A native value handed to the database driver at bind time.
#[derive(Clone, Debug, PartialEq)]
pub enum BindValue {
    /// Bound as a signed 64-bit integer.
    Int(i64),
    /// Bound as a double; still textual here, the driver layer parses it.
    Float(String),
    /// Bound as a string.
    Text(String),
    /// Bound as a true SQL NULL.
    Null,
}

/// The abstract form of a bind value.
pub enum BindView {
    Int(int),
    Float(Seq<char>),
    Text(Seq<char>),
    Null,
}

impl View for BindValue {
    type V = BindView;

    open spec fn view(&self) -> BindView {
        match self {
            BindValue::Int(n) => BindView::Int(*n as int),
            BindValue::Float(t) => BindView::Float(t@),
            BindValue::Text(s) => BindView::Text(s@),
            BindValue::Null => BindView::Null,
        }
    }
}

/// A value that does not re-hydrate under its claimed type tag.
#[derive(Clone, Copy, Debug, PartialEq, Eq, Structural)]
pub enum CodecError {
    /// The serialized text does not parse as a signed 64-bit integer.
    InvalidInteger,
    /// The serialized text is not a float literal.
    InvalidFloat,
    /// A column reference is spliced into the SQL text, never bound.
    UnbindableColumn,
}

/// The serialized text of a native value.
pub open spec fn spec_encode_text(v: Value) -> Seq<char> {
    match v {
        Value::Int(n) => dec_int(n as int),
        Value::Bool(b) => if b {
            "1"@
        } else {
            "0"@
        },
        Value::Float(t) => t@,
        Value::Text(s) => s@,
        Value::Null => "null"@,
    }
}

/// The type tag of a native value.
pub open spec fn spec_encode_tag(v: Value) -> TypeTag {
    match v {
        Value::Int(_) => TypeTag::Integer,
        Value::Bool(_) => TypeTag::Integer,
        Value::Float(_) => TypeTag::Float,
        Value::Text(_) => TypeTag::Text,
        Value::Null => TypeTag::Null,
    }
}

/// Serializes a native value into a bind argument: integers render in
/// decimal, `true` and `false` render as `1` and `0` under the integer
/// tag, floats and strings carry their text, and a missing value renders
/// as the text `null` under the null tag.
pub fn encode(v: Value) -> (r: Arg)
    ensures
        r.value@ == spec_encode_text(v),
        r.ty == spec_encode_tag(v),
{
    match v {
        Value::Int(n) => Arg { value: format_i64(n), ty: TypeTag::Integer },
        Value::Bool(b) => Arg {
            value: if b {
                "1".to_owned()
            } else {
                "0".to_owned()
            },
            ty: TypeTag::Integer,
        },
        Value::Float(t) => Arg { value: t, ty: TypeTag::Float },
        Value::Text(s) => Arg { value: s, ty: TypeTag::Text },
        Value::Null => Arg { value: "null".to_owned(), ty: TypeTag::Null },
    }
}

/// The serialized text of a native value. Booleans canonicalize to `1`
/// and `0`; everything else serializes to the text `encode` gives it.
pub fn to_string(value: Value) -> (r: String)
    ensures
        r@ == spec_encode_text(value),
{
    encode(value).value
}

/// The type tag a native value carries, derived from the value itself at
/// the call site, not from any declared column type.
pub fn get_type_name(value: &Value) -> (t: TypeTag)
    ensures
        t == spec_encode_tag(*value),
{
    match value {
        Value::Int(_) => TypeTag::Integer,
        Value::Bool(_) => TypeTag::Integer,
        Value::Float(_) => TypeTag::Float,
        Value::Text(_) => TypeTag::Text,
        Value::Null => TypeTag::Null,
    }
}

/// What re-hydrating a serialized value yields. Integer tags demand an
/// integer literal in the signed 64-bit range; float tags demand a float
/// literal and keep the text; text binds as a string unchanged; under the
/// null tag the exact text `null` binds as a true SQL NULL and any other
/// text binds as a string; a column tag never binds.
pub open spec fn spec_decode(text: Seq<char>, tag: TypeTag) -> Result<BindView, CodecError> {
    match tag {
        TypeTag::Integer => if is_int_literal(text) && i64::MIN <= int_literal_value(text)
            <= i64::MAX {
            Ok(BindView::Int(int_literal_value(text)))
        } else {
            Err(CodecError::InvalidInteger)
        },
        TypeTag::Float => if is_float_literal(text) {
            Ok(BindView::Float(text))
        } else {
            Err(CodecError::InvalidFloat)
        },
        TypeTag::Text => Ok(BindView::Text(text)),
        TypeTag::Null => if text == "null"@ {
            Ok(BindView::Null)
        } else {
            Ok(BindView::Text(text))
        },
        TypeTag::Column => Err(CodecError::UnbindableColumn),
    }
}

/// The abstract form of a decode result.
pub open spec fn spec_decode_result(r: Result<BindValue, CodecError>) -> Result<
    BindView,
    CodecError,
> {
    match r {
        Ok(b) => Ok(b@),
        Err(e) => Err(e),
    }
}

/// Re-hydrates one serialized value under its type tag.
pub fn decode(text: &str, tag: TypeTag) -> (r: Result<BindValue, CodecError>)
    ensures
        spec_decode_result(r) == spec_decode(text@, tag),
{
    match tag {
        TypeTag::Integer => match parse_i64(text) {
            Some(v) => Ok(BindValue::Int(v)),
            None => Err(CodecError::InvalidInteger),
        },
        TypeTag::Float => if is_float_text(text) {
            Ok(BindValue::Float(text.to_owned()))
        } else {
            Err(CodecError::InvalidFloat)
        },
        TypeTag::Text => Ok(BindValue::Text(text.to_owned())),
        TypeTag::Null => if str_eq(text, "null") {
            Ok(BindValue::Null)
        } else {
            Ok(BindValue::Text(text.to_owned()))
        },
        TypeTag::Column => Err(CodecError::UnbindableColumn),
    }
}

/// The bind value a native value comes back as after one encode/decode
/// round trip.
pub open spec fn spec_rehydrated(v: Value) -> BindView {
    match v {
        Value::Int(n) => BindView::Int(n as int),
        Value::Bool(b) => BindView::Int(
            if b {
                1
            } else {
                0
            },
        ),
        Value::Float(t) => BindView::Float(t@),
        Value::Text(s) => BindView::Text(s@),
        Value::Null => BindView::Null,
    }
}

/// Round-trip law of the codec: decoding what `encode` produced succeeds
/// and recovers the value — integers and booleans come back as the same
/// integer, well-formed float text comes back unchanged, a plain string
/// comes back as itself, and an encoded missing value comes back as a
/// true SQL NULL. For float values the law asks that the carried text is
/// a float literal, which is what rendering any finite double produces.
pub proof fn lemma_codec_roundtrip(v: Value)
    requires
        v matches Value::Float(t) ==> is_float_literal(t@),
    ensures
        spec_decode(spec_encode_text(v), spec_encode_tag(v)) == Ok::<BindView, CodecError>(
            spec_rehydrated(v),
        ),
{
    match v {
        Value::Int(n) => {
            lemma_int_literal_roundtrip(n as int);
        },
        Value::Bool(b) => {
            reveal_strlit("1");
            reveal_strlit("0");
            let s = spec_encode_text(v);
            assert(s.len() == 1);
            assert(is_digit(s[0]));
            assert(s.drop_last() =~= Seq::<char>::empty());
            assert(digits_value(Seq::<char>::empty()) == 0);
            assert(digits_value(s) == (if b {
                1nat
            } else {
                0nat
            }));
            assert(is_int_literal(s));
        },
        Value::Float(_) => {},
        Value::Text(_) => {},
        Value::Null => {},
    }
}

/// The abstract forms of a list of bind values.
pub open spec fn bind_views_of(bs: Seq<BindValue>) -> Seq<BindView> {
    bs.map_values(|b: BindValue| b@)
}

/// What re-hydrating a whole argument list yields: every argument decoded
/// under its own tag, in order, with the first failure propagated.
pub open spec fn spec_decode_args(args: Seq<Arg>) -> Result<Seq<BindView>, CodecError>
    decreases args.len(),
{
    if args.len() == 0 {
        Ok(Seq::empty())
    } else {
        match spec_decode_args(args.drop_last()) {
            Ok(pre) => match spec_decode(args.last().value@, args.last().ty) {
                Ok(b) => Ok(pre.push(b)),
                Err(e) => Err(e),
            },
            Err(e) => Err(e),
        }
    }
}

/// When every argument before position `i` decodes and the argument at
/// `i` fails, the whole list fails with that argument's error.
proof fn lemma_decode_args_err(args: Seq<Arg>, i: int, e: CodecError)
    requires
        0 <= i < args.len(),
        spec_decode_args(args.take(i)) is Ok,
        spec_decode(args[i].value@, args[i].ty) == Err::<BindView, CodecError>(e),
    ensures
        spec_decode_args(args) == Err::<Seq<BindView>, CodecError>(e),
    decreases args.len(),
{
    if i == args.len() - 1 {
        assert(args.take(i) =~= args.drop_last());
    } else {
        assert(args.drop_last().take(i) =~= args.take(i));
        lemma_decode_args_err(args.drop_last(), i, e);
    }
}

/// Re-hydrates every argument of a compiled query, in emission order. The
/// first argument that fails under its tag fails the whole list.
pub fn decode_args(args: &Vec<Arg>) -> (r: Result<Vec<BindValue>, CodecError>)
    ensures
        match r {
            Ok(bs) => spec_decode_args(args@) == Ok::<Seq<BindView>, CodecError>(
                bind_views_of(bs@),
            ),
            Err(e) => spec_decode_args(args@) == Err::<Seq<BindView>, CodecError>(e),
        },
{
    let mut out: Vec<BindValue> = Vec::new();
    let mut i: usize = 0;
    proof {
        assert(args@.take(0) =~= Seq::<Arg>::empty());
        assert(bind_views_of(out@) =~= Seq::<BindView>::empty());
    }
    while i < args.len()
        invariant
            i <= args.len(),
            spec_decode_args(args@.take(i as int)) == Ok::<_, CodecError>(bind_views_of(out@)),
        decreases args.len() - i,
    {
        let b = match decode(args[i].value.as_str(), args[i].ty) {
            Ok(b) => b,
            Err(e) => {
                proof {
                    lemma_decode_args_err(args@, i as int, e);
                }
                return Err(e);
            },
        };
        proof {
            assert(args@.take(i as int + 1).drop_last() =~= args@.take(i as int));
            assert(args@.take(i as int + 1).last() == args@[i as int]);
            assert(bind_views_of(out@.push(b)) =~= bind_views_of(out@).push(b@));
        }
        out.push(b);
        i += 1;
    }
    proof {
        assert(args@.take(args.len() as int) =~= args@);
    }
    Ok(out)
}

} // verus!
