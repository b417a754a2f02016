//! The JSON wire format of the API: a model of the flat objects the API
//! exchanges, a serializer, and a parser.
//!
//! Every request and response body of the API is a single JSON object whose
//! field values are scalars (null, booleans, numbers, strings) or arrays of
//! scalars.  The model here is exactly that shape; a response that nests
//! objects or arrays any deeper does not belong to the API's schemas and is
//! rejected as unparseable.

use vstd::prelude::*;
use vstd::string::*;

verus! {

/// Gives a `String` the standard `push` behaviour in contracts.
/// Relies on `alloc::string::String::push`: appends exactly one character.
pub assume_specification[ String::push ](s: &mut String, c: char)
    ensures
        final(s)@ == old(s)@.push(c),
;

/// Relies on `core::char::from_u32`: yields the character of a Unicode
/// scalar value, and `None` exactly on surrogates and values above
/// `0x10FFFF`.
pub assume_specification[ char::from_u32 ](code: u32) -> (r: Option<char>)
    ensures
        (code < 0xD800 || (0xE000 <= code && code <= 0x10FFFF)) <==> r is Some,
        r matches Some(c) ==> c as u32 == code,
;

// ---------------------------------------------------------------------------
// The model
// ---------------------------------------------------------------------------

/// Mathematical model of a JSON scalar.
#[verifier::ext_equal]
pub enum JsonScalarV {
    Null,
    Bool(bool),
    /// A JSON number: its sign and the characters of its unsigned token
    /// (integer part, and any fraction and exponent), kept verbatim.
    Num { neg: bool, digits: Seq<char> },
    /// A JSON string: its decoded character content.
    Str(Seq<char>),
}

/// Mathematical model of a field value: a scalar or an array of scalars.
#[verifier::ext_equal]
pub enum JsonValueV {
    Scalar(JsonScalarV),
    Array(Seq<JsonScalarV>),
}

/// Mathematical model of one object field.
#[verifier::ext_equal]
pub struct JsonFieldV {
    pub name: Seq<char>,
    pub value: JsonValueV,
}

/// A JSON scalar as the executable code holds it.
pub enum JsonScalar {
    Null,
    Bool(bool),
    Num(bool, String),
    Str(String),
}

/// A field value as the executable code holds it.
pub enum JsonValue {
    Scalar(JsonScalar),
    Array(Vec<JsonScalar>),
}

/// One object field as the executable code holds it.
pub struct JsonField {
    pub name: String,
    pub value: JsonValue,
}

/// A JSON object: its fields in order.
pub struct JsonObject {
    pub fields: Vec<JsonField>,
}

impl View for JsonScalar {
    type V = JsonScalarV;

    open spec fn view(&self) -> JsonScalarV {
        match self {
            JsonScalar::Null => JsonScalarV::Null,
            JsonScalar::Bool(b) => JsonScalarV::Bool(*b),
            JsonScalar::Num(neg, d) => JsonScalarV::Num { neg: *neg, digits: d@ },
            JsonScalar::Str(s) => JsonScalarV::Str(s@),
        }
    }
}

/// The models of a sequence of scalars, elementwise.
pub open spec fn scalar_views(s: Seq<JsonScalar>) -> Seq<JsonScalarV>
    decreases s.len(),
{
    if s.len() == 0 {
        Seq::empty()
    } else {
        seq![s[0]@] + scalar_views(s.drop_first())
    }
}

impl View for JsonValue {
    type V = JsonValueV;

    open spec fn view(&self) -> JsonValueV {
        match self {
            JsonValue::Scalar(s) => JsonValueV::Scalar(s@),
            JsonValue::Array(items) => JsonValueV::Array(scalar_views(items@)),
        }
    }
}

impl View for JsonField {
    type V = JsonFieldV;

    open spec fn view(&self) -> JsonFieldV {
        JsonFieldV { name: self.name@, value: self.value@ }
    }
}

/// The models of a sequence of fields, elementwise.
pub open spec fn field_views(s: Seq<JsonField>) -> Seq<JsonFieldV>
    decreases s.len(),
{
    if s.len() == 0 {
        Seq::empty()
    } else {
        seq![s[0]@] + field_views(s.drop_first())
    }
}

impl View for JsonObject {
    type V = Seq<JsonFieldV>;

    open spec fn view(&self) -> Seq<JsonFieldV> {
        field_views(self.fields@)
    }
}

pub proof fn lemma_scalar_views_props(s: Seq<JsonScalar>)
    ensures
        scalar_views(s).len() == s.len(),
        forall|k: int| 0 <= k < s.len() ==> scalar_views(s)[k] == s[k]@,
    decreases s.len(),
{
    if s.len() > 0 {
        lemma_scalar_views_props(s.drop_first());
    }
}

pub proof fn lemma_field_views_props(s: Seq<JsonField>)
    ensures
        field_views(s).len() == s.len(),
        forall|k: int| 0 <= k < s.len() ==> field_views(s)[k] == s[k]@,
    decreases s.len(),
{
    if s.len() > 0 {
        lemma_field_views_props(s.drop_first());
    }
}

// ---------------------------------------------------------------------------
// Characters and digits
// ---------------------------------------------------------------------------

/// The hexadecimal digit character for `n` (0 to 15), lower case.
pub open spec fn hex_digit(n: int) -> char {
    seq!['0', '1', '2', '3', '4', '5', '6', '7', '8', '9', 'a', 'b', 'c', 'd', 'e', 'f'][n]
}

/// The numeric value of a hexadecimal digit character, upper or lower case.
pub open spec fn hex_val(c: char) -> Option<u32> {
    let u = c as u32;
    if 0x30 <= u && u <= 0x39 {
        Some((u - 0x30) as u32)
    } else if 0x61 <= u && u <= 0x66 {
        Some((u - 0x61 + 10) as u32)
    } else if 0x41 <= u && u <= 0x46 {
        Some((u - 0x41 + 10) as u32)
    } else {
        None
    }
}

pub open spec fn is_digit(c: char) -> bool {
    0x30 <= c as u32 && c as u32 <= 0x39
}

/// The numeric value of a decimal digit character.
pub open spec fn digit_val(c: char) -> nat {
    (c as u32 - 0x30) as nat
}

/// The value of a run of decimal digit characters, most significant first.
pub open spec fn dec_val(ds: Seq<char>) -> nat
    decreases ds.len(),
{
    if ds.len() == 0 {
        0
    } else {
        dec_val(ds.drop_last()) * 10 + digit_val(ds.last())
    }
}

/// The decimal representation of `n`, without sign or leading zeros.
pub open spec fn dec_rep(n: nat) -> Seq<char>
    decreases n,
{
    if n < 10 {
        seq![hex_digit(n as int)]
    } else {
        dec_rep(n / 10) + seq![hex_digit((n % 10) as int)]
    }
}

fn hex_digit_exec(n: u32) -> (r: char)
    requires
        n < 16,
    ensures
        r == hex_digit(n as int),
{
    if n == 0 { '0' }
    else if n == 1 { '1' }
    else if n == 2 { '2' }
    else if n == 3 { '3' }
    else if n == 4 { '4' }
    else if n == 5 { '5' }
    else if n == 6 { '6' }
    else if n == 7 { '7' }
    else if n == 8 { '8' }
    else if n == 9 { '9' }
    else if n == 10 { 'a' }
    else if n == 11 { 'b' }
    else if n == 12 { 'c' }
    else if n == 13 { 'd' }
    else if n == 14 { 'e' }
    else { 'f' }
}

// ---------------------------------------------------------------------------
// Escaping and the serialized form
// ---------------------------------------------------------------------------

/// How one character of a JSON string appears on the wire: the two-character
/// escapes of the JSON grammar, a `\u00..` escape for the other control
/// characters, and the character itself otherwise.
pub open spec fn esc_char(c: char) -> Seq<char> {
    if c == '"' {
        seq!['\\', '"']
    } else if c == '\\' {
        seq!['\\', '\\']
    } else if c == '\u{8}' {
        seq!['\\', 'b']
    } else if c == '\u{c}' {
        seq!['\\', 'f']
    } else if c == '\n' {
        seq!['\\', 'n']
    } else if c == '\r' {
        seq!['\\', 'r']
    } else if c == '\t' {
        seq!['\\', 't']
    } else if (c as u32) < 0x20 {
        seq!['\\', 'u', '0', '0', hex_digit((c as u32 / 16) as int), hex_digit(
            (c as u32 % 16) as int,
        )]
    } else {
        seq![c]
    }
}

/// The wire form of a JSON string's content, characterwise.
pub open spec fn esc(s: Seq<char>) -> Seq<char>
    decreases s.len(),
{
    if s.len() == 0 {
        Seq::empty()
    } else {
        esc_char(s[0]) + esc(s.drop_first())
    }
}

pub proof fn lemma_esc_push(s: Seq<char>, c: char)
    ensures
        esc(s.push(c)) == esc(s) + esc_char(c),
    decreases s.len(),
{
    if s.len() == 0 {
        assert(s.push(c) =~= seq![c]);
        assert(seq![c].drop_first() =~= Seq::<char>::empty());
        assert(esc(Seq::<char>::empty()) == Seq::<char>::empty());
        assert(esc(s.push(c)) == esc_char(c) + esc(Seq::<char>::empty()));
        assert(esc(s.push(c)) =~= esc(s) + esc_char(c));
    } else {
        let s2 = s.drop_first();
        assert(s.push(c)[0] == s[0]);
        assert(s.push(c).drop_first() =~= s2.push(c));
        lemma_esc_push(s2, c);
        assert(esc(s.push(c)) == esc_char(s[0]) + esc(s2.push(c)));
        assert(esc_char(s[0]) + (esc(s2) + esc_char(c)) =~= (esc_char(s[0]) + esc(s2)) + esc_char(
            c,
        ));
    }
}

/// The wire form of a JSON string, quotes included.
pub open spec fn ser_string(s: Seq<char>) -> Seq<char> {
    seq!['"'] + esc(s) + seq!['"']
}

/// The wire form of a scalar.
pub open spec fn ser_scalar(v: JsonScalarV) -> Seq<char> {
    match v {
        JsonScalarV::Null => seq!['n', 'u', 'l', 'l'],
        JsonScalarV::Bool(b) => if b {
            seq!['t', 'r', 'u', 'e']
        } else {
            seq!['f', 'a', 'l', 's', 'e']
        },
        JsonScalarV::Num { neg, digits } => if neg {
            seq!['-'] + digits
        } else {
            digits
        },
        JsonScalarV::Str(s) => ser_string(s),
    }
}

pub open spec fn ser_items_rest(items: Seq<JsonScalarV>) -> Seq<char>
    decreases items.len(),
{
    if items.len() == 0 {
        Seq::empty()
    } else {
        seq![','] + ser_scalar(items[0]) + ser_items_rest(items.drop_first())
    }
}

/// The wire form of an array's items, comma separated.
pub open spec fn ser_items(items: Seq<JsonScalarV>) -> Seq<char> {
    if items.len() == 0 {
        Seq::empty()
    } else {
        ser_scalar(items[0]) + ser_items_rest(items.drop_first())
    }
}

/// The wire form of a field value.
pub open spec fn ser_value(v: JsonValueV) -> Seq<char> {
    match v {
        JsonValueV::Scalar(s) => ser_scalar(s),
        JsonValueV::Array(items) => seq!['['] + ser_items(items) + seq![']'],
    }
}

pub open spec fn ser_fields_rest(fs: Seq<JsonFieldV>) -> Seq<char>
    decreases fs.len(),
{
    if fs.len() == 0 {
        Seq::empty()
    } else {
        seq![','] + ser_string(fs[0].name) + seq![':'] + ser_value(fs[0].value)
            + ser_fields_rest(fs.drop_first())
    }
}

/// The wire form of an object's fields, comma separated.
pub open spec fn ser_fields(fs: Seq<JsonFieldV>) -> Seq<char> {
    if fs.len() == 0 {
        Seq::empty()
    } else {
        ser_string(fs[0].name) + seq![':'] + ser_value(fs[0].value) + ser_fields_rest(
            fs.drop_first(),
        )
    }
}

/// The wire form of a whole object.  This is the shape every request body of
/// the API takes on the wire.
pub open spec fn ser_object(fs: Seq<JsonFieldV>) -> Seq<char> {
    seq!['{'] + ser_fields(fs) + seq!['}']
}

proof fn lemma_ser_items_rest_push(items: Seq<JsonScalarV>, x: JsonScalarV)
    ensures
        ser_items_rest(items.push(x)) == ser_items_rest(items) + seq![','] + ser_scalar(x),
    decreases items.len(),
{
    if items.len() == 0 {
        assert(items.push(x) =~= seq![x]);
        assert(seq![x].drop_first() =~= Seq::<JsonScalarV>::empty());
        assert(ser_items_rest(Seq::<JsonScalarV>::empty()) == Seq::<char>::empty());
        assert(ser_items_rest(items.push(x)) == seq![','] + ser_scalar(x) + ser_items_rest(
            Seq::<JsonScalarV>::empty(),
        ));
        assert(ser_items_rest(items.push(x)) =~= ser_items_rest(items) + seq![','] + ser_scalar(x));
    } else {
        let t = items.drop_first();
        assert(items.push(x)[0] == items[0]);
        assert(items.push(x).drop_first() =~= t.push(x));
        lemma_ser_items_rest_push(t, x);
        assert(ser_items_rest(items.push(x)) == seq![','] + ser_scalar(items[0]) + ser_items_rest(
            t.push(x),
        ));
        assert(seq![','] + ser_scalar(items[0]) + (ser_items_rest(t) + seq![','] + ser_scalar(x))
            =~= (seq![','] + ser_scalar(items[0]) + ser_items_rest(t)) + seq![','] + ser_scalar(x));
    }
}

proof fn lemma_ser_items_push(items: Seq<JsonScalarV>, x: JsonScalarV)
    ensures
        items.len() == 0 ==> ser_items(items.push(x)) == ser_scalar(x),
        items.len() > 0 ==> ser_items(items.push(x)) == ser_items(items) + seq![','] + ser_scalar(
            x,
        ),
{
    if items.len() == 0 {
        assert(items.push(x)[0] == x);
        assert(items.push(x).drop_first() =~= Seq::<JsonScalarV>::empty());
        assert(ser_items(items.push(x)) =~= ser_scalar(x));
    } else {
        assert(items.push(x)[0] == items[0]);
        assert(items.push(x).drop_first() =~= items.drop_first().push(x));
        lemma_ser_items_rest_push(items.drop_first(), x);
        assert(ser_items(items.push(x)) =~= ser_items(items) + seq![','] + ser_scalar(x));
    }
}

proof fn lemma_ser_fields_rest_push(fs: Seq<JsonFieldV>, x: JsonFieldV)
    ensures
        ser_fields_rest(fs.push(x)) == ser_fields_rest(fs) + seq![','] + ser_string(x.name)
            + seq![':'] + ser_value(x.value),
    decreases fs.len(),
{
    if fs.len() == 0 {
        assert(fs.push(x) =~= seq![x]);
        assert(seq![x].drop_first() =~= Seq::<JsonFieldV>::empty());
        assert(ser_fields_rest(Seq::<JsonFieldV>::empty()) == Seq::<char>::empty());
        assert(ser_fields_rest(fs.push(x)) == seq![','] + ser_string(x.name) + seq![':']
            + ser_value(x.value) + ser_fields_rest(Seq::<JsonFieldV>::empty()));
        assert(ser_fields_rest(fs.push(x)) =~= ser_fields_rest(fs) + seq![','] + ser_string(x.name)
            + seq![':'] + ser_value(x.value));
    } else {
        let t = fs.drop_first();
        assert(fs.push(x)[0] == fs[0]);
        assert(fs.push(x).drop_first() =~= t.push(x));
        lemma_ser_fields_rest_push(t, x);
        assert(ser_fields_rest(fs.push(x)) == seq![','] + ser_string(fs[0].name) + seq![':']
            + ser_value(fs[0].value) + ser_fields_rest(t.push(x)));
        assert(seq![','] + ser_string(fs[0].name) + seq![':'] + ser_value(fs[0].value) + (
        ser_fields_rest(t) + seq![','] + ser_string(x.name) + seq![':'] + ser_value(x.value)) =~= (
        seq![','] + ser_string(fs[0].name) + seq![':'] + ser_value(fs[0].value) + ser_fields_rest(
            t,
        )) + seq![','] + ser_string(x.name) + seq![':'] + ser_value(x.value));
    }
}

proof fn lemma_ser_fields_push(fs: Seq<JsonFieldV>, x: JsonFieldV)
    ensures
        fs.len() == 0 ==> ser_fields(fs.push(x)) == ser_string(x.name) + seq![':'] + ser_value(
            x.value,
        ),
        fs.len() > 0 ==> ser_fields(fs.push(x)) == ser_fields(fs) + seq![','] + ser_string(x.name)
            + seq![':'] + ser_value(x.value),
{
    if fs.len() == 0 {
        assert(fs.push(x)[0] == x);
        assert(fs.push(x).drop_first() =~= Seq::<JsonFieldV>::empty());
        assert(ser_fields(fs.push(x)) =~= ser_string(x.name) + seq![':'] + ser_value(x.value));
    } else {
        assert(fs.push(x)[0] == fs[0]);
        assert(fs.push(x).drop_first() =~= fs.drop_first().push(x));
        lemma_ser_fields_rest_push(fs.drop_first(), x);
        assert(ser_fields(fs.push(x)) =~= ser_fields(fs) + seq![','] + ser_string(x.name)
            + seq![':'] + ser_value(x.value));
    }
}

// ---------------------------------------------------------------------------
// The serializer
// ---------------------------------------------------------------------------

fn write_escaped(out: &mut String, s: &str)
    ensures
        final(out)@ == old(out)@ + esc(s@),
{
    let n: usize = s.unicode_len();
    let mut i: usize = 0;
    while i < n
        invariant
            n == s@.len(),
            i <= n,
            out@ == old(out)@ + esc(s@.take(i as int)),
        decreases n - i,
    {
        let c = s.get_char(i);
        proof {
            lemma_esc_push(s@.take(i as int), c);
            assert(s@.take(i as int).push(c) =~= s@.take(i + 1));
        }
        if c == '"' {
            out.push('\\');
            out.push('"');
        } else if c == '\\' {
            out.push('\\');
            out.push('\\');
        } else if c == '\u{8}' {
            out.push('\\');
            out.push('b');
        } else if c == '\u{c}' {
            out.push('\\');
            out.push('f');
        } else if c == '\n' {
            out.push('\\');
            out.push('n');
        } else if c == '\r' {
            out.push('\\');
            out.push('r');
        } else if c == '\t' {
            out.push('\\');
            out.push('t');
        } else if (c as u32) < 0x20 {
            out.push('\\');
            out.push('u');
            out.push('0');
            out.push('0');
            out.push(hex_digit_exec(c as u32 / 16));
            out.push(hex_digit_exec(c as u32 % 16));
        } else {
            out.push(c);
        }
        proof {
            assert(out@ =~= old(out)@ + esc(s@.take(i + 1)));
        }
        i = i + 1;
    }
    proof {
        assert(s@.take(n as int) =~= s@);
    }
}

fn write_string(out: &mut String, s: &str)
    ensures
        final(out)@ == old(out)@ + ser_string(s@),
{
    out.push('"');
    write_escaped(out, s);
    out.push('"');
    proof {
        assert(out@ =~= old(out)@ + ser_string(s@));
    }
}

fn write_scalar(out: &mut String, v: &JsonScalar)
    ensures
        final(out)@ == old(out)@ + ser_scalar(v@),
{
    match v {
        JsonScalar::Null => {
            out.append("null");
            proof {
                reveal_strlit("null");
                assert(out@ =~= old(out)@ + ser_scalar(v@));
            }
        },
        JsonScalar::Bool(b) => {
            if *b {
                out.append("true");
                proof {
                    reveal_strlit("true");
                    assert(out@ =~= old(out)@ + ser_scalar(v@));
                }
            } else {
                out.append("false");
                proof {
                    reveal_strlit("false");
                    assert(out@ =~= old(out)@ + ser_scalar(v@));
                }
            }
        },
        JsonScalar::Num(neg, d) => {
            if *neg {
                out.push('-');
            }
            out.append(d.as_str());
            proof {
                assert(out@ =~= old(out)@ + ser_scalar(v@));
            }
        },
        JsonScalar::Str(s) => {
            write_string(out, s.as_str());
        },
    }
}

fn write_value(out: &mut String, v: &JsonValue)
    ensures
        final(out)@ == old(out)@ + ser_value(v@),
{
    match v {
        JsonValue::Scalar(s) => {
            write_scalar(out, s);
        },
        JsonValue::Array(items) => {
            out.push('[');
            let n = items.len();
            let mut i: usize = 0;
            proof {
                lemma_scalar_views_props(items@);
            }
            while i < n
                invariant
                    n == items@.len(),
                    i <= n,
                    scalar_views(items@).len() == n,
                    forall|k: int| 0 <= k < n ==> scalar_views(items@)[k] == items@[k]@,
                    out@ == old(out)@ + seq!['['] + ser_items(scalar_views(items@).take(i as int)),
                decreases n - i,
            {
                if i > 0 {
                    out.push(',');
                }
                write_scalar(out, &items[i]);
                proof {
                    let pre = scalar_views(items@).take(i as int);
                    lemma_ser_items_push(pre, items@[i as int]@);
                    assert(pre.push(items@[i as int]@) =~= scalar_views(items@).take(i + 1));
                    assert(out@ =~= old(out)@ + seq!['['] + ser_items(
                        scalar_views(items@).take(i + 1),
                    ));
                }
                i = i + 1;
            }
            out.push(']');
            proof {
                assert(scalar_views(items@).take(n as int) =~= scalar_views(items@));
                assert(out@ =~= old(out)@ + ser_value(v@));
            }
        },
    }
}

/// Turns an object into its wire text.  The result is exactly the
/// serialization the model defines: every field in order, absent parts
/// absent.
pub fn serialize_object(obj: &JsonObject) -> (r: String)
    ensures
        r@ == ser_object(obj@),
{
    let mut out = String::new();
    out.push('{');
    let n = obj.fields.len();
    let mut i: usize = 0;
    proof {
        lemma_field_views_props(obj.fields@);
    }
    while i < n
        invariant
            n == obj.fields@.len(),
            i <= n,
            field_views(obj.fields@).len() == n,
            forall|k: int| 0 <= k < n ==> field_views(obj.fields@)[k] == obj.fields@[k]@,
            out@ == seq!['{'] + ser_fields(field_views(obj.fields@).take(i as int)),
        decreases n - i,
    {
        if i > 0 {
            out.push(',');
        }
        write_string(&mut out, obj.fields[i].name.as_str());
        out.push(':');
        write_value(&mut out, &obj.fields[i].value);
        proof {
            let pre = field_views(obj.fields@).take(i as int);
            lemma_ser_fields_push(pre, obj.fields@[i as int]@);
            assert(pre.push(obj.fields@[i as int]@) =~= field_views(obj.fields@).take(i + 1));
            assert(out@ =~= seq!['{'] + ser_fields(field_views(obj.fields@).take(i + 1)));
        }
        i = i + 1;
    }
    out.push('}');
    proof {
        assert(field_views(obj.fields@).take(n as int) =~= field_views(obj.fields@));
        assert(out@ =~= ser_object(obj@));
    }
    out
}


// ---------------------------------------------------------------------------
// The grammar: what the parser accepts
// ---------------------------------------------------------------------------

/// JSON insignificant whitespace.
pub open spec fn is_ws(c: char) -> bool {
    c == ' ' || c == '\t' || c == '\n' || c == '\r'
}

/// The first index at or after `i` that does not hold whitespace.
pub open spec fn skip_ws(s: Seq<char>, i: int) -> int
    decreases s.len() - i,
    when 0 <= i <= s.len()
{
    if i < s.len() && is_ws(s[i]) {
        skip_ws(s, i + 1)
    } else {
        i
    }
}

/// The character a two-character escape stands for.
pub open spec fn unesc_char(e: char) -> Option<char> {
    if e == '"' {
        Some('"')
    } else if e == '\\' {
        Some('\\')
    } else if e == '/' {
        Some('/')
    } else if e == 'b' {
        Some('\u{8}')
    } else if e == 'f' {
        Some('\u{c}')
    } else if e == 'n' {
        Some('\n')
    } else if e == 'r' {
        Some('\r')
    } else if e == 't' {
        Some('\t')
    } else {
        None
    }
}

/// Reads a string body starting at `i`, just after the opening quote:
/// the decoded content and the index just after the closing quote.
/// Escapes are the JSON ones; a `\u` escape must name a Unicode scalar
/// value, and a raw control character is refused.
pub open spec fn p_string(s: Seq<char>, i: int) -> Option<(Seq<char>, int)>
    decreases s.len() - i,
    when 0 <= i <= s.len()
{
    if i >= s.len() {
        None
    } else if s[i] == '"' {
        Some((Seq::empty(), i + 1))
    } else if s[i] == '\\' {
        if i + 1 >= s.len() {
            None
        } else if s[i + 1] == 'u' {
            if i + 6 > s.len() {
                None
            } else {
                let h1 = hex_val(s[i + 2]);
                let h2 = hex_val(s[i + 3]);
                let h3 = hex_val(s[i + 4]);
                let h4 = hex_val(s[i + 5]);
                if h1 is Some && h2 is Some && h3 is Some && h4 is Some {
                    let code = (h1.unwrap() * 4096 + h2.unwrap() * 256 + h3.unwrap() * 16
                        + h4.unwrap()) as u32;
                    if code < 0xD800 || code >= 0xE000 {
                        match p_string(s, i + 6) {
                            Some((rest, j)) => Some((seq![code as char] + rest, j)),
                            None => None,
                        }
                    } else {
                        None
                    }
                } else {
                    None
                }
            }
        } else {
            match unesc_char(s[i + 1]) {
                Some(c) => match p_string(s, i + 2) {
                    Some((rest, j)) => Some((seq![c] + rest, j)),
                    None => None,
                },
                None => None,
            }
        }
    } else if (s[i] as u32) < 0x20 {
        None
    } else {
        match p_string(s, i + 1) {
            Some((rest, j)) => Some((seq![s[i]] + rest, j)),
            None => None,
        }
    }
}

/// The first index at or after `i` that does not hold a decimal digit.
pub open spec fn p_digits(s: Seq<char>, i: int) -> int
    decreases s.len() - i,
    when 0 <= i <= s.len()
{
    if i < s.len() && is_digit(s[i]) {
        p_digits(s, i + 1)
    } else {
        i
    }
}

/// Reads an optional fraction part at `i`: the index after it, or `None`
/// when a lone point has no digits.
pub open spec fn p_frac(s: Seq<char>, i: int) -> Option<int> {
    if i < s.len() && s[i] == '.' {
        if i + 1 < s.len() && is_digit(s[i + 1]) {
            Some(p_digits(s, i + 1))
        } else {
            None
        }
    } else {
        Some(i)
    }
}

/// Reads an optional exponent part at `i`: the index after it, or `None`
/// when the exponent has no digits.
pub open spec fn p_exp(s: Seq<char>, i: int) -> Option<int> {
    if i < s.len() && (s[i] == 'e' || s[i] == 'E') {
        let j = if i + 1 < s.len() && (s[i + 1] == '+' || s[i + 1] == '-') {
            i + 2
        } else {
            i + 1
        };
        if j < s.len() && is_digit(s[j]) {
            Some(p_digits(s, j))
        } else {
            None
        }
    } else {
        Some(i)
    }
}

/// Reads a number token at `i`: its sign, its unsigned characters, and the
/// index after it.  The shape is the JSON one: no leading zeros, a fraction
/// or exponent only with digits.
pub open spec fn p_number(s: Seq<char>, i: int) -> Option<(bool, Seq<char>, int)> {
    let neg = i < s.len() && s[i] == '-';
    let j0 = if neg {
        i + 1
    } else {
        i
    };
    if j0 < s.len() && is_digit(s[j0]) {
        let j1 = if s[j0] == '0' {
            j0 + 1
        } else {
            p_digits(s, j0)
        };
        match p_frac(s, j1) {
            None => None,
            Some(j2) => match p_exp(s, j2) {
                None => None,
                Some(j3) => Some((neg, s.subrange(j0, j3), j3)),
            },
        }
    } else {
        None
    }
}

/// Reads one scalar at `i`: a string, a number, `true`, `false` or `null`.
pub open spec fn p_scalar(s: Seq<char>, i: int) -> Option<(JsonScalarV, int)> {
    if i < 0 || i >= s.len() {
        None
    } else if s[i] == '"' {
        match p_string(s, i + 1) {
            Some((c, j)) => Some((JsonScalarV::Str(c), j)),
            None => None,
        }
    } else if s[i] == '-' || is_digit(s[i]) {
        match p_number(s, i) {
            Some((neg, ds, j)) => Some((JsonScalarV::Num { neg, digits: ds }, j)),
            None => None,
        }
    } else if s[i] == 't' {
        if i + 4 <= s.len() && s[i + 1] == 'r' && s[i + 2] == 'u' && s[i + 3] == 'e' {
            Some((JsonScalarV::Bool(true), i + 4))
        } else {
            None
        }
    } else if s[i] == 'f' {
        if i + 5 <= s.len() && s[i + 1] == 'a' && s[i + 2] == 'l' && s[i + 3] == 's' && s[i + 4]
            == 'e' {
            Some((JsonScalarV::Bool(false), i + 5))
        } else {
            None
        }
    } else if s[i] == 'n' {
        if i + 4 <= s.len() && s[i + 1] == 'u' && s[i + 2] == 'l' && s[i + 3] == 'l' {
            Some((JsonScalarV::Null, i + 4))
        } else {
            None
        }
    } else {
        None
    }
}

/// Reads the items of a non-empty array, the first starting at `i`, up to
/// and including the closing bracket.  `fuel` bounds the item count; the
/// parser hands it the text length, which no item count can reach.
pub open spec fn p_items(s: Seq<char>, i: int, fuel: nat) -> Option<(Seq<JsonScalarV>, int)>
    decreases fuel,
{
    if fuel == 0 {
        None
    } else {
        match p_scalar(s, i) {
            None => None,
            Some((v, j)) => {
                let k = skip_ws(s, j);
                if k < s.len() && s[k] == ',' {
                    let m = skip_ws(s, k + 1);
                    match p_items(s, m, (fuel - 1) as nat) {
                        Some((rest, e)) => Some((seq![v] + rest, e)),
                        None => None,
                    }
                } else if k < s.len() && s[k] == ']' {
                    Some((seq![v], k + 1))
                } else {
                    None
                }
            },
        }
    }
}

/// Reads one field value at `i`: an array of scalars or a scalar.  A value
/// nested any deeper does not belong to the API's schemas and is refused.
pub open spec fn p_value(s: Seq<char>, i: int) -> Option<(JsonValueV, int)> {
    if i < 0 || i >= s.len() {
        None
    } else if s[i] == '[' {
        let j = skip_ws(s, i + 1);
        if j < s.len() && s[j] == ']' {
            Some((JsonValueV::Array(Seq::empty()), j + 1))
        } else {
            match p_items(s, j, s.len() as nat) {
                Some((items, e)) => Some((JsonValueV::Array(items), e)),
                None => None,
            }
        }
    } else {
        match p_scalar(s, i) {
            Some((v, j)) => Some((JsonValueV::Scalar(v), j)),
            None => None,
        }
    }
}

/// Reads the fields of a non-empty object, the first name starting at `i`,
/// up to and including the closing brace.
pub open spec fn p_fields(s: Seq<char>, i: int, fuel: nat) -> Option<(Seq<JsonFieldV>, int)>
    decreases fuel,
{
    if fuel == 0 {
        None
    } else if 0 <= i && i < s.len() && s[i] == '"' {
        match p_string(s, i + 1) {
            None => None,
            Some((name, j)) => {
                let k = skip_ws(s, j);
                if k < s.len() && s[k] == ':' {
                    let m = skip_ws(s, k + 1);
                    match p_value(s, m) {
                        None => None,
                        Some((v, e)) => {
                            let q = skip_ws(s, e);
                            let fld = JsonFieldV { name: name, value: v };
                            if q < s.len() && s[q] == ',' {
                                let w = skip_ws(s, q + 1);
                                match p_fields(s, w, (fuel - 1) as nat) {
                                    Some((rest, z)) => Some((seq![fld] + rest, z)),
                                    None => None,
                                }
                            } else if q < s.len() && s[q] == '}' {
                                Some((seq![fld], q + 1))
                            } else {
                                None
                            }
                        },
                    }
                } else {
                    None
                }
            },
        }
    } else {
        None
    }
}

/// Reads an object starting at `i`.
pub open spec fn p_object(s: Seq<char>, i: int) -> Option<(Seq<JsonFieldV>, int)> {
    if 0 <= i && i < s.len() && s[i] == '{' {
        let j = skip_ws(s, i + 1);
        if j < s.len() && s[j] == '}' {
            Some((Seq::empty(), j + 1))
        } else {
            p_fields(s, j, s.len() as nat)
        }
    } else {
        None
    }
}

/// What a whole response text denotes: the fields of the one object it
/// holds, or nothing when the text is not such an object.
pub open spec fn parse_text(s: Seq<char>) -> Option<Seq<JsonFieldV>> {
    let i = skip_ws(s, 0);
    match p_object(s, i) {
        Some((fs, e)) => {
            if 0 <= e <= s.len() && skip_ws(s, e) == s.len() {
                Some(fs)
            } else {
                None
            }
        },
        None => None,
    }
}

// ---------------------------------------------------------------------------
// Bounds of the grammar functions
// ---------------------------------------------------------------------------

pub proof fn lemma_skip_ws_bounds(s: Seq<char>, i: int)
    requires
        0 <= i <= s.len(),
    ensures
        i <= skip_ws(s, i) <= s.len(),
    decreases s.len() - i,
{
    if i < s.len() && is_ws(s[i]) {
        lemma_skip_ws_bounds(s, i + 1);
    }
}

pub proof fn lemma_p_digits_bounds(s: Seq<char>, i: int)
    requires
        0 <= i <= s.len(),
    ensures
        i <= p_digits(s, i) <= s.len(),
    decreases s.len() - i,
{
    if i < s.len() && is_digit(s[i]) {
        lemma_p_digits_bounds(s, i + 1);
    }
}

pub proof fn lemma_p_string_bounds(s: Seq<char>, i: int)
    requires
        0 <= i <= s.len(),
        p_string(s, i) is Some,
    ensures
        i < p_string(s, i).unwrap().1 <= s.len(),
    decreases s.len() - i,
{
    if i >= s.len() {
    } else if s[i] == '"' {
    } else if s[i] == '\\' {
        if i + 1 >= s.len() {
        } else if s[i + 1] == 'u' {
            lemma_p_string_bounds(s, i + 6);
        } else {
            lemma_p_string_bounds(s, i + 2);
        }
    } else if (s[i] as u32) < 0x20 {
    } else {
        lemma_p_string_bounds(s, i + 1);
    }
}

pub proof fn lemma_p_number_bounds(s: Seq<char>, i: int)
    requires
        0 <= i <= s.len(),
        p_number(s, i) is Some,
    ensures
        i < p_number(s, i).unwrap().2 <= s.len(),
{
    let neg = i < s.len() && s[i] == '-';
    let j0 = if neg { i + 1 } else { i };
    if j0 < s.len() && is_digit(s[j0]) {
        lemma_p_digits_bounds(s, j0);
        let j1 = if s[j0] == '0' { j0 + 1 } else { p_digits(s, j0) };
        if s[j0] != '0' {
            assert(p_digits(s, j0) == p_digits(s, j0 + 1));
            lemma_p_digits_bounds(s, j0 + 1);
        }
        assert(j0 < j1 <= s.len());
        if p_frac(s, j1) is Some {
            let j2 = p_frac(s, j1).unwrap();
            if j1 < s.len() && s[j1] == '.' {
                if j1 + 1 < s.len() && is_digit(s[j1 + 1]) {
                    lemma_p_digits_bounds(s, j1 + 1);
                }
            }
            assert(j1 <= j2 <= s.len());
            if p_exp(s, j2) is Some {
                let j3 = p_exp(s, j2).unwrap();
                if j2 < s.len() && (s[j2] == 'e' || s[j2] == 'E') {
                    let j = if j2 + 1 < s.len() && (s[j2 + 1] == '+' || s[j2 + 1] == '-') {
                        j2 + 2
                    } else {
                        j2 + 1
                    };
                    lemma_p_digits_bounds(s, j);
                }
                assert(j2 <= j3 <= s.len());
            }
        }
    }
}

pub proof fn lemma_p_scalar_bounds(s: Seq<char>, i: int)
    requires
        p_scalar(s, i) is Some,
    ensures
        i < p_scalar(s, i).unwrap().1 <= s.len(),
{
    if 0 <= i && i < s.len() {
        if s[i] == '"' {
            lemma_p_string_bounds(s, i + 1);
        } else if s[i] == '-' || is_digit(s[i]) {
            lemma_p_number_bounds(s, i);
        }
    }
}

pub proof fn lemma_p_items_bounds(s: Seq<char>, i: int, fuel: nat)
    requires
        p_items(s, i, fuel) is Some,
    ensures
        i < p_items(s, i, fuel).unwrap().1 <= s.len(),
    decreases fuel,
{
    if fuel > 0 {
        if p_scalar(s, i) is Some {
            let (v, j) = p_scalar(s, i).unwrap();
            lemma_p_scalar_bounds(s, i);
            let k = skip_ws(s, j);
            lemma_skip_ws_bounds(s, j);
            if k < s.len() && s[k] == ',' {
                lemma_skip_ws_bounds(s, k + 1);
                let m = skip_ws(s, k + 1);
                lemma_p_items_bounds(s, m, (fuel - 1) as nat);
            }
        }
    }
}

pub proof fn lemma_p_value_bounds(s: Seq<char>, i: int)
    requires
        p_value(s, i) is Some,
    ensures
        i < p_value(s, i).unwrap().1 <= s.len(),
{
    if 0 <= i && i < s.len() {
        if s[i] == '[' {
            lemma_skip_ws_bounds(s, i + 1);
            let j = skip_ws(s, i + 1);
            if j < s.len() && s[j] == ']' {
            } else {
                lemma_p_items_bounds(s, j, s.len() as nat);
            }
        } else {
            lemma_p_scalar_bounds(s, i);
        }
    }
}

pub proof fn lemma_p_fields_bounds(s: Seq<char>, i: int, fuel: nat)
    requires
        p_fields(s, i, fuel) is Some,
    ensures
        i < p_fields(s, i, fuel).unwrap().1 <= s.len(),
    decreases fuel,
{
    if fuel > 0 && 0 <= i && i < s.len() && s[i] == '"' {
        if p_string(s, i + 1) is Some {
            let (name, j) = p_string(s, i + 1).unwrap();
            lemma_p_string_bounds(s, i + 1);
            let k = skip_ws(s, j);
            lemma_skip_ws_bounds(s, j);
            if k < s.len() && s[k] == ':' {
                let m = skip_ws(s, k + 1);
                lemma_skip_ws_bounds(s, k + 1);
                if p_value(s, m) is Some {
                    let (v, e) = p_value(s, m).unwrap();
                    lemma_p_value_bounds(s, m);
                    let q = skip_ws(s, e);
                    lemma_skip_ws_bounds(s, e);
                    if q < s.len() && s[q] == ',' {
                        let w = skip_ws(s, q + 1);
                        lemma_skip_ws_bounds(s, q + 1);
                        if p_fields(s, w, (fuel - 1) as nat) is Some {
                            lemma_p_fields_bounds(s, w, (fuel - 1) as nat);
                        }
                    }
                }
            }
        }
    }
}

pub proof fn lemma_p_object_bounds(s: Seq<char>, i: int)
    requires
        p_object(s, i) is Some,
    ensures
        i < p_object(s, i).unwrap().1 <= s.len(),
{
    if 0 <= i && i < s.len() && s[i] == '{' {
        let j = skip_ws(s, i + 1);
        lemma_skip_ws_bounds(s, i + 1);
        if j < s.len() && s[j] == '}' {
        } else {
            lemma_p_fields_bounds(s, j, s.len() as nat);
        }
    }
}


// ---------------------------------------------------------------------------
// The parser
// ---------------------------------------------------------------------------

/// The characters of a string slice, in order.
pub fn str_to_chars(s: &str) -> (r: Vec<char>)
    ensures
        r@ == s@,
{
    let n: usize = s.unicode_len();
    let mut v: Vec<char> = Vec::new();
    let mut i: usize = 0;
    while i < n
        invariant
            n == s@.len(),
            i <= n,
            v@ == s@.take(i as int),
        decreases n - i,
    {
        v.push(s.get_char(i));
        proof {
            assert(s@.take(i as int).push(s@[i as int]) =~= s@.take(i + 1));
        }
        i = i + 1;
    }
    proof {
        assert(s@.take(n as int) =~= s@);
    }
    v
}

fn is_ws_exec(c: char) -> (r: bool)
    ensures
        r == is_ws(c),
{
    c == ' ' || c == '\t' || c == '\n' || c == '\r'
}

fn is_digit_exec(c: char) -> (r: bool)
    ensures
        r == is_digit(c),
{
    let u = c as u32;
    0x30 <= u && u <= 0x39
}

fn hex_val_exec(c: char) -> (r: Option<u32>)
    ensures
        r == hex_val(c),
        r matches Some(v) ==> v < 16,
{
    let u = c as u32;
    if 0x30 <= u && u <= 0x39 {
        Some(u - 0x30)
    } else if 0x61 <= u && u <= 0x66 {
        Some(u - 0x61 + 10)
    } else if 0x41 <= u && u <= 0x46 {
        Some(u - 0x41 + 10)
    } else {
        None
    }
}

fn unesc_exec(e: char) -> (r: Option<char>)
    ensures
        r == unesc_char(e),
{
    if e == '"' {
        Some('"')
    } else if e == '\\' {
        Some('\\')
    } else if e == '/' {
        Some('/')
    } else if e == 'b' {
        Some('\u{8}')
    } else if e == 'f' {
        Some('\u{c}')
    } else if e == 'n' {
        Some('\n')
    } else if e == 'r' {
        Some('\r')
    } else if e == 't' {
        Some('\t')
    } else {
        None
    }
}

fn skip_ws_exec(cs: &Vec<char>, i: usize) -> (r: usize)
    requires
        i <= cs@.len(),
    ensures
        r as int == skip_ws(cs@, i as int),
        i <= r <= cs@.len(),
{
    let mut j = i;
    while j < cs.len() && is_ws_exec(cs[j])
        invariant
            i <= j <= cs@.len(),
            skip_ws(cs@, i as int) == skip_ws(cs@, j as int),
        decreases cs@.len() - j,
    {
        j = j + 1;
    }
    j
}

fn p_digits_exec(cs: &Vec<char>, i: usize) -> (r: usize)
    requires
        i <= cs@.len(),
    ensures
        r as int == p_digits(cs@, i as int),
        i <= r <= cs@.len(),
{
    let mut j = i;
    while j < cs.len() && is_digit_exec(cs[j])
        invariant
            i <= j <= cs@.len(),
            p_digits(cs@, i as int) == p_digits(cs@, j as int),
        decreases cs@.len() - j,
    {
        j = j + 1;
    }
    j
}

fn copy_range(cs: &Vec<char>, a: usize, b: usize) -> (r: String)
    requires
        a <= b <= cs@.len(),
    ensures
        r@ == cs@.subrange(a as int, b as int),
{
    let mut out = String::new();
    let mut i = a;
    proof {
        assert(cs@.subrange(a as int, a as int) =~= Seq::<char>::empty());
    }
    while i < b
        invariant
            a <= i <= b <= cs@.len(),
            out@ == cs@.subrange(a as int, i as int),
        decreases b - i,
    {
        out.push(cs[i]);
        proof {
            assert(cs@.subrange(a as int, i as int).push(cs@[i as int]) =~= cs@.subrange(
                a as int,
                i + 1,
            ));
        }
        i = i + 1;
    }
    out
}

fn p_string_exec(cs: &Vec<char>, i: usize, out: &mut String) -> (r: Option<usize>)
    requires
        i <= cs@.len(),
    ensures
        (p_string(cs@, i as int) is Some) == (r is Some),
        r matches Some(j) ==> ({
            &&& p_string(cs@, i as int) matches Some(cj)
            &&& j as int == cj.1
            &&& i < j <= cs@.len()
            &&& final(out)@ == old(out)@ + cj.0
        }),
    decreases cs@.len() - i,
{
    proof {
        if p_string(cs@, i as int) is Some {
            lemma_p_string_bounds(cs@, i as int);
        }
    }
    if i >= cs.len() {
        return None;
    }
    let c = cs[i];
    if c == '"' {
        proof {
            assert(old(out)@ + Seq::<char>::empty() =~= old(out)@);
        }
        return Some(i + 1);
    }
    if c == '\\' {
        if i + 1 >= cs.len() {
            return None;
        }
        let e = cs[i + 1];
        if e == 'u' {
            if cs.len() - i < 6 {
                return None;
            }
            let h1 = hex_val_exec(cs[i + 2]);
            let h2 = hex_val_exec(cs[i + 3]);
            let h3 = hex_val_exec(cs[i + 4]);
            let h4 = hex_val_exec(cs[i + 5]);
            if h1.is_none() || h2.is_none() || h3.is_none() || h4.is_none() {
                return None;
            }
            let code: u32 = h1.unwrap() * 4096 + h2.unwrap() * 256 + h3.unwrap() * 16 + h4.unwrap();
            if !(code < 0xD800 || code >= 0xE000) {
                return None;
            }
            let ch = char::from_u32(code).unwrap();
            proof {
                vstd::utf8::char_u32_cast(ch, code);
            }
            out.push(ch);
            let r2 = p_string_exec(cs, i + 6, out);
            proof {
                if r2 is Some {
                    let cj = p_string(cs@, i as int + 6).unwrap();
                    assert((old(out)@.push(ch)) + cj.0 =~= old(out)@ + (seq![ch] + cj.0));
                }
            }
            return r2;
        }
        let u = unesc_exec(e);
        if u.is_none() {
            return None;
        }
        let ch = u.unwrap();
        out.push(ch);
        let r2 = p_string_exec(cs, i + 2, out);
        proof {
            if r2 is Some {
                let cj = p_string(cs@, i as int + 2).unwrap();
                assert((old(out)@.push(ch)) + cj.0 =~= old(out)@ + (seq![ch] + cj.0));
            }
        }
        return r2;
    }
    if (c as u32) < 0x20 {
        return None;
    }
    out.push(c);
    let r2 = p_string_exec(cs, i + 1, out);
    proof {
        if r2 is Some {
            let cj = p_string(cs@, i as int + 1).unwrap();
            assert((old(out)@.push(c)) + cj.0 =~= old(out)@ + (seq![c] + cj.0));
        }
    }
    r2
}

fn p_frac_exec(cs: &Vec<char>, i: usize) -> (r: Option<usize>)
    requires
        i <= cs@.len(),
    ensures
        (p_frac(cs@, i as int) is Some) == (r is Some),
        r matches Some(j) ==> j as int == p_frac(cs@, i as int).unwrap() && i <= j <= cs@.len(),
{
    if i < cs.len() && cs[i] == '.' {
        if i + 1 < cs.len() && is_digit_exec(cs[i + 1]) {
            Some(p_digits_exec(cs, i + 1))
        } else {
            None
        }
    } else {
        Some(i)
    }
}

fn p_exp_exec(cs: &Vec<char>, i: usize) -> (r: Option<usize>)
    requires
        i <= cs@.len(),
    ensures
        (p_exp(cs@, i as int) is Some) == (r is Some),
        r matches Some(j) ==> j as int == p_exp(cs@, i as int).unwrap() && i <= j <= cs@.len(),
{
    if i < cs.len() && (cs[i] == 'e' || cs[i] == 'E') {
        let j = if i + 1 < cs.len() && (cs[i + 1] == '+' || cs[i + 1] == '-') {
            i + 2
        } else {
            i + 1
        };
        if j < cs.len() && is_digit_exec(cs[j]) {
            Some(p_digits_exec(cs, j))
        } else {
            None
        }
    } else {
        Some(i)
    }
}

fn p_number_exec(cs: &Vec<char>, i: usize) -> (r: Option<(bool, String, usize)>)
    requires
        i <= cs@.len(),
    ensures
        (p_number(cs@, i as int) is Some) == (r is Some),
        r matches Some((neg, tok, j)) ==> ({
            &&& p_number(cs@, i as int) matches Some(sp)
            &&& neg == sp.0
            &&& tok@ == sp.1
            &&& j as int == sp.2
            &&& i < j <= cs@.len()
        }),
{
    proof {
        if p_number(cs@, i as int) is Some {
            lemma_p_number_bounds(cs@, i as int);
        }
    }
    let neg = i < cs.len() && cs[i] == '-';
    let j0 = if neg {
        i + 1
    } else {
        i
    };
    if j0 < cs.len() && is_digit_exec(cs[j0]) {
        let j1 = if cs[j0] == '0' {
            j0 + 1
        } else {
            p_digits_exec(cs, j0)
        };
        match p_frac_exec(cs, j1) {
            None => None,
            Some(j2) => match p_exp_exec(cs, j2) {
                None => None,
                Some(j3) => Some((neg, copy_range(cs, j0, j3), j3)),
            },
        }
    } else {
        None
    }
}

fn p_scalar_exec(cs: &Vec<char>, i: usize) -> (r: Option<(JsonScalar, usize)>)
    requires
        i <= cs@.len(),
    ensures
        (p_scalar(cs@, i as int) is Some) == (r is Some),
        r matches Some((v, j)) ==> ({
            &&& p_scalar(cs@, i as int) matches Some(sp)
            &&& v@ == sp.0
            &&& j as int == sp.1
            &&& i < j <= cs@.len()
        }),
{
    proof {
        if p_scalar(cs@, i as int) is Some {
            lemma_p_scalar_bounds(cs@, i as int);
        }
    }
    if i >= cs.len() {
        return None;
    }
    let c = cs[i];
    if c == '"' {
        let mut content = String::new();
        match p_string_exec(cs, i + 1, &mut content) {
            None => None,
            Some(j) => {
                proof {
                    let cj = p_string(cs@, i as int + 1).unwrap();
                    assert(Seq::<char>::empty() + cj.0 =~= cj.0);
                }
                Some((JsonScalar::Str(content), j))
            },
        }
    } else if c == '-' || is_digit_exec(c) {
        match p_number_exec(cs, i) {
            None => None,
            Some((neg, tok, j)) => Some((JsonScalar::Num(neg, tok), j)),
        }
    } else if c == 't' {
        if cs.len() - i >= 4 && cs[i + 1] == 'r' && cs[i + 2] == 'u' && cs[i + 3] == 'e' {
            Some((JsonScalar::Bool(true), i + 4))
        } else {
            None
        }
    } else if c == 'f' {
        if cs.len() - i >= 5 && cs[i + 1] == 'a' && cs[i + 2] == 'l' && cs[i + 3] == 's' && cs[i
            + 4] == 'e' {
            Some((JsonScalar::Bool(false), i + 5))
        } else {
            None
        }
    } else if c == 'n' {
        if cs.len() - i >= 4 && cs[i + 1] == 'u' && cs[i + 2] == 'l' && cs[i + 3] == 'l' {
            Some((JsonScalar::Null, i + 4))
        } else {
            None
        }
    } else {
        None
    }
}

pub proof fn lemma_scalar_views_concat(a: Seq<JsonScalar>, b: Seq<JsonScalar>)
    ensures
        scalar_views(a + b) == scalar_views(a) + scalar_views(b),
    decreases a.len(),
{
    if a.len() == 0 {
        assert(a + b =~= b);
        assert(scalar_views(a) + scalar_views(b) =~= scalar_views(b));
    } else {
        assert((a + b)[0] == a[0]);
        assert((a + b).len() > 0);
        assert((a + b).drop_first() =~= a.drop_first() + b);
        lemma_scalar_views_concat(a.drop_first(), b);
        assert(scalar_views(a + b) == seq![a[0]@] + (scalar_views(a.drop_first()) + scalar_views(
            b,
        )));
        assert(seq![a[0]@] + (scalar_views(a.drop_first()) + scalar_views(b)) =~= (seq![a[0]@]
            + scalar_views(a.drop_first())) + scalar_views(b));
    }
}

pub proof fn lemma_scalar_views_push(s: Seq<JsonScalar>, x: JsonScalar)
    ensures
        scalar_views(s.push(x)) == scalar_views(s) + seq![x@],
{
    assert(s.push(x) =~= s + seq![x]);
    lemma_scalar_views_concat(s, seq![x]);
    assert(seq![x].drop_first() =~= Seq::<JsonScalar>::empty());
    assert(scalar_views(seq![x]) == seq![x@] + scalar_views(Seq::<JsonScalar>::empty()));
    assert(scalar_views(seq![x]) =~= seq![x@]);
}

pub proof fn lemma_field_views_concat(a: Seq<JsonField>, b: Seq<JsonField>)
    ensures
        field_views(a + b) == field_views(a) + field_views(b),
    decreases a.len(),
{
    if a.len() == 0 {
        assert(a + b =~= b);
        assert(field_views(a) + field_views(b) =~= field_views(b));
    } else {
        assert((a + b)[0] == a[0]);
        assert((a + b).len() > 0);
        assert((a + b).drop_first() =~= a.drop_first() + b);
        lemma_field_views_concat(a.drop_first(), b);
        assert(field_views(a + b) == seq![a[0]@] + (field_views(a.drop_first()) + field_views(b)));
        assert(seq![a[0]@] + (field_views(a.drop_first()) + field_views(b)) =~= (seq![a[0]@]
            + field_views(a.drop_first())) + field_views(b));
    }
}

pub proof fn lemma_field_views_push(s: Seq<JsonField>, x: JsonField)
    ensures
        field_views(s.push(x)) == field_views(s) + seq![x@],
{
    assert(s.push(x) =~= s + seq![x]);
    lemma_field_views_concat(s, seq![x]);
    assert(seq![x].drop_first() =~= Seq::<JsonField>::empty());
    assert(field_views(seq![x]) == seq![x@] + field_views(Seq::<JsonField>::empty()));
    assert(field_views(seq![x]) =~= seq![x@]);
}

fn p_items_exec(cs: &Vec<char>, i: usize, fuel: usize, out: &mut Vec<JsonScalar>) -> (r: Option<
    usize,
>)
    requires
        i <= cs@.len(),
    ensures
        (p_items(cs@, i as int, fuel as nat) is Some) == (r is Some),
        r matches Some(e) ==> ({
            &&& p_items(cs@, i as int, fuel as nat) matches Some(sp)
            &&& e as int == sp.1
            &&& e <= cs@.len()
            &&& scalar_views(final(out)@) == scalar_views(old(out)@) + sp.0
        }),
    decreases fuel,
{
    if fuel == 0 {
        return None;
    }
    match p_scalar_exec(cs, i) {
        None => None,
        Some((v, j)) => {
            let ghost vv = v@;
            let k = skip_ws_exec(cs, j);
            if k < cs.len() && cs[k] == ',' {
                let m = skip_ws_exec(cs, k + 1);
                out.push(v);
                proof {
                    lemma_scalar_views_push(old(out)@, v);
                }
                let r2 = p_items_exec(cs, m, fuel - 1, out);
                proof {
                    if r2 is Some {
                        let rest = p_items(cs@, m as int, (fuel - 1) as nat).unwrap().0;
                        assert((scalar_views(old(out)@) + seq![vv]) + rest =~= scalar_views(
                            old(out)@,
                        ) + (seq![vv] + rest));
                    }
                }
                r2
            } else if k < cs.len() && cs[k] == ']' {
                out.push(v);
                proof {
                    lemma_scalar_views_push(old(out)@, v);
                }
                Some(k + 1)
            } else {
                None
            }
        },
    }
}

fn p_value_exec(cs: &Vec<char>, i: usize) -> (r: Option<(JsonValue, usize)>)
    requires
        i <= cs@.len(),
    ensures
        (p_value(cs@, i as int) is Some) == (r is Some),
        r matches Some((v, j)) ==> ({
            &&& p_value(cs@, i as int) matches Some(sp)
            &&& v@ == sp.0
            &&& j as int == sp.1
            &&& i < j <= cs@.len()
        }),
{
    proof {
        if p_value(cs@, i as int) is Some {
            lemma_p_value_bounds(cs@, i as int);
        }
    }
    if i >= cs.len() {
        return None;
    }
    if cs[i] == '[' {
        let j = skip_ws_exec(cs, i + 1);
        if j < cs.len() && cs[j] == ']' {
            let items: Vec<JsonScalar> = Vec::new();
            proof {
                assert(scalar_views(items@) =~= Seq::<JsonScalarV>::empty());
            }
            return Some((JsonValue::Array(items), j + 1));
        }
        let mut items: Vec<JsonScalar> = Vec::new();
        let ghost empty0 = items@;
        match p_items_exec(cs, j, cs.len(), &mut items) {
            None => None,
            Some(e) => {
                proof {
                    let sp = p_items(cs@, j as int, cs@.len() as nat).unwrap();
                    assert(scalar_views(empty0) =~= Seq::<JsonScalarV>::empty());
                    assert(Seq::<JsonScalarV>::empty() + sp.0 =~= sp.0);
                }
                Some((JsonValue::Array(items), e))
            },
        }
    } else {
        match p_scalar_exec(cs, i) {
            None => None,
            Some((v, j)) => Some((JsonValue::Scalar(v), j)),
        }
    }
}

fn p_fields_exec(cs: &Vec<char>, i: usize, fuel: usize, out: &mut Vec<JsonField>) -> (r: Option<
    usize,
>)
    requires
        i <= cs@.len(),
    ensures
        (p_fields(cs@, i as int, fuel as nat) is Some) == (r is Some),
        r matches Some(e) ==> ({
            &&& p_fields(cs@, i as int, fuel as nat) matches Some(sp)
            &&& e as int == sp.1
            &&& e <= cs@.len()
            &&& field_views(final(out)@) == field_views(old(out)@) + sp.0
        }),
    decreases fuel,
{
    if fuel == 0 {
        return None;
    }
    if !(i < cs.len() && cs[i] == '"') {
        return None;
    }
    let mut name = String::new();
    match p_string_exec(cs, i + 1, &mut name) {
        None => None,
        Some(j) => {
            proof {
                let cj = p_string(cs@, i as int + 1).unwrap();
                assert(Seq::<char>::empty() + cj.0 =~= cj.0);
            }
            let k = skip_ws_exec(cs, j);
            if k < cs.len() && cs[k] == ':' {
                let m = skip_ws_exec(cs, k + 1);
                match p_value_exec(cs, m) {
                    None => None,
                    Some((v, e)) => {
                        let q = skip_ws_exec(cs, e);
                        let fld = JsonField { name, value: v };
                        let ghost fv = fld@;
                        if q < cs.len() && cs[q] == ',' {
                            let w = skip_ws_exec(cs, q + 1);
                            out.push(fld);
                            proof {
                                lemma_field_views_push(old(out)@, fld);
                            }
                            let r2 = p_fields_exec(cs, w, fuel - 1, out);
                            proof {
                                if r2 is Some {
                                    let rest = p_fields(cs@, w as int, (fuel - 1) as nat).unwrap().0;
                                    assert((field_views(old(out)@) + seq![fv]) + rest =~=
                                    field_views(old(out)@) + (seq![fv] + rest));
                                }
                            }
                            r2
                        } else if q < cs.len() && cs[q] == '}' {
                            out.push(fld);
                            proof {
                                lemma_field_views_push(old(out)@, fld);
                            }
                            Some(q + 1)
                        } else {
                            None
                        }
                    },
                }
            } else {
                None
            }
        },
    }
}

fn p_object_exec(cs: &Vec<char>, i: usize) -> (r: Option<(JsonObject, usize)>)
    requires
        i <= cs@.len(),
    ensures
        (p_object(cs@, i as int) is Some) == (r is Some),
        r matches Some((o, j)) ==> ({
            &&& p_object(cs@, i as int) matches Some(sp)
            &&& o@ == sp.0
            &&& j as int == sp.1
            &&& i < j <= cs@.len()
        }),
{
    proof {
        if p_object(cs@, i as int) is Some {
            lemma_p_object_bounds(cs@, i as int);
        }
    }
    if !(i < cs.len() && cs[i] == '{') {
        return None;
    }
    let j = skip_ws_exec(cs, i + 1);
    if j < cs.len() && cs[j] == '}' {
        let fields: Vec<JsonField> = Vec::new();
        proof {
            assert(field_views(fields@) =~= Seq::<JsonFieldV>::empty());
        }
        return Some((JsonObject { fields }, j + 1));
    }
    let mut fields: Vec<JsonField> = Vec::new();
    let ghost empty0 = fields@;
    match p_fields_exec(cs, j, cs.len(), &mut fields) {
        None => None,
        Some(e) => {
            proof {
                let sp = p_fields(cs@, j as int, cs@.len() as nat).unwrap();
                assert(field_views(empty0) =~= Seq::<JsonFieldV>::empty());
                assert(Seq::<JsonFieldV>::empty() + sp.0 =~= sp.0);
            }
            Some((JsonObject { fields }, e))
        },
    }
}

/// Parses a whole text as one JSON object of the API's flat shape.  Returns
/// the object exactly when the grammar accepts the text, and nothing
/// otherwise: a malformed text is reported, never a default.
pub fn parse_json(s: &str) -> (r: Option<JsonObject>)
    ensures
        match parse_text(s@) {
            Some(fs) => r matches Some(o) && o@ == fs,
            None => r is None,
        },
{
    let cs = str_to_chars(s);
    let i = skip_ws_exec(&cs, 0);
    match p_object_exec(&cs, i) {
        None => None,
        Some((o, e)) => {
            let t = skip_ws_exec(&cs, e);
            if t == cs.len() {
                Some(o)
            } else {
                None
            }
        },
    }
}


// ---------------------------------------------------------------------------
// Reading fields out of a parsed object
// ---------------------------------------------------------------------------

pub open spec fn lookup_from(fs: Seq<JsonFieldV>, i: int, name: Seq<char>) -> Option<JsonValueV>
    decreases fs.len() - i,
    when 0 <= i <= fs.len()
{
    if i >= fs.len() {
        None
    } else if fs[i].name == name {
        Some(fs[i].value)
    } else {
        lookup_from(fs, i + 1, name)
    }
}

/// The value of the first field of that name, if any.
pub open spec fn lookup(fs: Seq<JsonFieldV>, name: Seq<char>) -> Option<JsonValueV> {
    lookup_from(fs, 0, name)
}

/// Character-for-character equality of two string slices.
pub fn str_eq(a: &str, b: &str) -> (r: bool)
    ensures
        r == (a@ == b@),
{
    let na = a.unicode_len();
    let nb = b.unicode_len();
    if na != nb {
        return false;
    }
    let mut i: usize = 0;
    while i < na
        invariant
            na == a@.len(),
            na == b@.len(),
            i <= na,
            forall|k: int| 0 <= k < i ==> a@[k] == b@[k],
        decreases na - i,
    {
        if a.get_char(i) != b.get_char(i) {
            return false;
        }
        i = i + 1;
    }
    proof {
        assert(a@ =~= b@);
    }
    true
}

fn get_field_from<'a>(obj: &'a JsonObject, i: usize, name: &str) -> (r: Option<&'a JsonValue>)
    requires
        i <= obj.fields@.len(),
    ensures
        match lookup_from(obj@, i as int, name@) {
            Some(v) => r matches Some(rv) && rv@ == v,
            None => r is None,
        },
    decreases obj.fields@.len() - i,
{
    proof {
        lemma_field_views_props(obj.fields@);
    }
    if i >= obj.fields.len() {
        return None;
    }
    let f = &obj.fields[i];
    if str_eq(f.name.as_str(), name) {
        Some(&f.value)
    } else {
        get_field_from(obj, i + 1, name)
    }
}

/// The value of the first field of that name, if any.
pub fn get_field<'a>(obj: &'a JsonObject, name: &str) -> (r: Option<&'a JsonValue>)
    ensures
        match lookup(obj@, name@) {
            Some(v) => r matches Some(rv) && rv@ == v,
            None => r is None,
        },
{
    get_field_from(obj, 0, name)
}

/// A field that the schema requires to be a string: its content, or nothing
/// when it is missing or of another shape.
pub open spec fn str_field(fs: Seq<JsonFieldV>, name: Seq<char>) -> Option<Seq<char>> {
    match lookup(fs, name) {
        Some(JsonValueV::Scalar(JsonScalarV::Str(s))) => Some(s),
        _ => None,
    }
}

/// A field the schema makes an optional string: `Some(None)` when absent or
/// null, `Some(Some(content))` for a string, and `None` for any other shape.
pub open spec fn opt_str_field(fs: Seq<JsonFieldV>, name: Seq<char>) -> Option<Option<Seq<char>>> {
    match lookup(fs, name) {
        None => Some(None),
        Some(JsonValueV::Scalar(JsonScalarV::Null)) => Some(None),
        Some(JsonValueV::Scalar(JsonScalarV::Str(s))) => Some(Some(s)),
        _ => None,
    }
}

pub open spec fn all_digits(ds: Seq<char>) -> bool {
    forall|k: int| 0 <= k < ds.len() ==> is_digit(#[trigger] ds[k])
}

/// The unsigned 64-bit integer a number token denotes, if it is a plain
/// run of digits whose value fits.
pub open spec fn spec_u64_token(ds: Seq<char>) -> Option<u64> {
    if ds.len() > 0 && all_digits(ds) && dec_val(ds) <= u64::MAX {
        Some(dec_val(ds) as u64)
    } else {
        None
    }
}

/// A field the schema makes an optional unsigned integer.
pub open spec fn opt_u64_field(fs: Seq<JsonFieldV>, name: Seq<char>) -> Option<Option<u64>> {
    match lookup(fs, name) {
        None => Some(None),
        Some(JsonValueV::Scalar(JsonScalarV::Null)) => Some(None),
        Some(JsonValueV::Scalar(JsonScalarV::Num { neg, digits })) => if !neg {
            match spec_u64_token(digits) {
                Some(v) => Some(Some(v)),
                None => None,
            }
        } else {
            None
        },
        _ => None,
    }
}

/// The contents of an array's items when every one is a string.
pub open spec fn strs_of(items: Seq<JsonScalarV>) -> Option<Seq<Seq<char>>>
    decreases items.len(),
{
    if items.len() == 0 {
        Some(Seq::empty())
    } else {
        match items[0] {
            JsonScalarV::Str(s) => match strs_of(items.drop_first()) {
                Some(rest) => Some(seq![s] + rest),
                None => None,
            },
            _ => None,
        }
    }
}

/// A field the schema makes an optional array of strings.
pub open spec fn opt_str_array_field(fs: Seq<JsonFieldV>, name: Seq<char>) -> Option<
    Option<Seq<Seq<char>>>,
> {
    match lookup(fs, name) {
        None => Some(None),
        Some(JsonValueV::Scalar(JsonScalarV::Null)) => Some(None),
        Some(JsonValueV::Array(items)) => match strs_of(items) {
            Some(ss) => Some(Some(ss)),
            None => None,
        },
        _ => None,
    }
}

proof fn lemma_strs_of_props(items: Seq<JsonScalarV>)
    ensures
        (strs_of(items) is Some) <==> (forall|k: int|
            0 <= k < items.len() ==> #[trigger] items[k] is Str),
        strs_of(items) matches Some(ss) ==> ss.len() == items.len() && (forall|k: int|
            0 <= k < items.len() ==> #[trigger] ss[k] == items[k]->Str_0),
    decreases items.len(),
{
    if items.len() > 0 {
        lemma_strs_of_props(items.drop_first());
        if items[0] is Str && strs_of(items.drop_first()) is Some {
            let rest = strs_of(items.drop_first()).unwrap();
            assert forall|k: int| 0 <= k < items.len() implies #[trigger] items[k] is Str by {
                if k > 0 {
                    assert(items.drop_first()[k - 1] is Str);
                }
            }
            assert forall|k: int|
                0 <= k < items.len() implies #[trigger] strs_of(items).unwrap()[k]
                == items[k]->Str_0 by {
                if k > 0 {
                    assert(rest[k - 1] == items.drop_first()[k - 1]->Str_0);
                }
            }
        } else {
            if !(items[0] is Str) {
            } else {
                let j = choose|j: int|
                    0 <= j < items.drop_first().len() && !(#[trigger] items.drop_first()[j]
                        is Str);
                assert(items[j + 1] == items.drop_first()[j]);
            }
        }
    }
}

proof fn lemma_dec_val_take(ds: Seq<char>, i: int)
    requires
        0 <= i <= ds.len(),
    ensures
        dec_val(ds.take(i)) <= dec_val(ds),
    decreases ds.len() - i,
{
    if i == ds.len() {
        assert(ds.take(i) =~= ds);
    } else {
        lemma_dec_val_take(ds, i + 1);
        assert(ds.take(i + 1).drop_last() =~= ds.take(i));
        assert(ds.take(i + 1).last() == ds[i]);
        assert(dec_val(ds.take(i + 1)) == dec_val(ds.take(i)) * 10 + digit_val(ds[i]));
    }
}

/// Reads a number token as an unsigned 64-bit integer: exactly the tokens
/// that are all digits and whose value fits are accepted.
pub fn parse_u64_digits(tok: &str) -> (r: Option<u64>)
    ensures
        r == spec_u64_token(tok@),
{
    let n = tok.unicode_len();
    if n == 0 {
        return None;
    }
    let mut acc: u64 = 0;
    let mut i: usize = 0;
    while i < n
        invariant
            i <= n,
            n == tok@.len(),
            forall|k: int| 0 <= k < i ==> is_digit(#[trigger] tok@[k]),
            acc as nat == dec_val(tok@.take(i as int)),
        decreases n - i,
    {
        let c = tok.get_char(i);
        if !is_digit_exec(c) {
            proof {
                assert(!all_digits(tok@));
            }
            return None;
        }
        let d: u32 = (c as u32) - 0x30;
        proof {
            assert(tok@.take(i + 1).drop_last() =~= tok@.take(i as int));
            assert(tok@.take(i + 1).last() == tok@[i as int]);
            assert(dec_val(tok@.take(i + 1)) == dec_val(tok@.take(i as int)) * 10 + digit_val(
                tok@[i as int],
            ));
        }
        let step = acc.checked_mul(10);
        if step.is_none() {
            proof {
                if all_digits(tok@) {
                    lemma_dec_val_take(tok@, i + 1);
                }
            }
            return None;
        }
        let step2 = step.unwrap().checked_add(d as u64);
        if step2.is_none() {
            proof {
                if all_digits(tok@) {
                    lemma_dec_val_take(tok@, i + 1);
                }
            }
            return None;
        }
        acc = step2.unwrap();
        i = i + 1;
    }
    proof {
        assert(tok@.take(n as int) =~= tok@);
    }
    Some(acc)
}

/// Reads a field that the schema requires to be a string.
pub fn field_str(obj: &JsonObject, name: &str) -> (r: Option<String>)
    ensures
        match str_field(obj@, name@) {
            Some(s) => r matches Some(x) && x@ == s,
            None => r is None,
        },
{
    match get_field(obj, name) {
        Some(JsonValue::Scalar(JsonScalar::Str(s))) => Some(s.clone()),
        _ => None,
    }
}

/// Reads a field the schema makes an optional string.
pub fn field_opt_str(obj: &JsonObject, name: &str) -> (r: Option<Option<String>>)
    ensures
        (opt_str_field(obj@, name@) is Some) == (r is Some),
        r matches Some(x) ==> ({
            let sp = opt_str_field(obj@, name@).unwrap();
            &&& (x is Some) == (sp is Some)
            &&& (x matches Some(xs) ==> xs@ == sp.unwrap())
        }),
{
    match get_field(obj, name) {
        None => Some(None),
        Some(v) => match v {
            JsonValue::Scalar(JsonScalar::Null) => Some(None),
            JsonValue::Scalar(JsonScalar::Str(s)) => Some(Some(s.clone())),
            _ => None,
        },
    }
}

/// Reads a field the schema makes an optional unsigned integer.
pub fn field_opt_u64(obj: &JsonObject, name: &str) -> (r: Option<Option<u64>>)
    ensures
        (opt_u64_field(obj@, name@) is Some) == (r is Some),
        r matches Some(x) ==> x == opt_u64_field(obj@, name@).unwrap(),
{
    match get_field(obj, name) {
        None => Some(None),
        Some(v) => match v {
            JsonValue::Scalar(JsonScalar::Null) => Some(None),
            JsonValue::Scalar(JsonScalar::Num(neg, tok)) => {
                if *neg {
                    None
                } else {
                    match parse_u64_digits(tok.as_str()) {
                        Some(u) => Some(Some(u)),
                        None => None,
                    }
                }
            },
            _ => None,
        },
    }
}

/// The models of a sequence of strings, elementwise.
pub open spec fn string_views(s: Seq<String>) -> Seq<Seq<char>>
    decreases s.len(),
{
    if s.len() == 0 {
        Seq::empty()
    } else {
        seq![s[0]@] + string_views(s.drop_first())
    }
}

pub proof fn lemma_string_views_props(s: Seq<String>)
    ensures
        string_views(s).len() == s.len(),
        forall|k: int| 0 <= k < s.len() ==> string_views(s)[k] == s[k]@,
    decreases s.len(),
{
    if s.len() > 0 {
        lemma_string_views_props(s.drop_first());
    }
}

proof fn lemma_string_views_push(s: Seq<String>, x: String)
    ensures
        string_views(s.push(x)) == string_views(s) + seq![x@],
    decreases s.len(),
{
    if s.len() == 0 {
        assert(s.push(x) =~= seq![x]);
        assert(seq![x].drop_first() =~= Seq::<String>::empty());
        assert(string_views(seq![x]) == seq![x@] + string_views(Seq::<String>::empty()));
        assert(string_views(s.push(x)) =~= string_views(s) + seq![x@]);
    } else {
        assert(s.push(x)[0] == s[0]);
        assert(s.push(x).drop_first() =~= s.drop_first().push(x));
        lemma_string_views_push(s.drop_first(), x);
        assert(string_views(s.push(x)) == seq![s[0]@] + (string_views(s.drop_first()) + seq![x@]));
        assert(seq![s[0]@] + (string_views(s.drop_first()) + seq![x@]) =~= (seq![s[0]@]
            + string_views(s.drop_first())) + seq![x@]);
    }
}

/// Reads a field the schema makes an optional array of strings.
pub fn field_opt_str_array(obj: &JsonObject, name: &str) -> (r: Option<Option<Vec<String>>>)
    ensures
        (opt_str_array_field(obj@, name@) is Some) == (r is Some),
        r matches Some(x) ==> ({
            let sp = opt_str_array_field(obj@, name@).unwrap();
            &&& (x is Some) == (sp is Some)
            &&& (x matches Some(xs) ==> string_views(xs@) == sp.unwrap())
        }),
{
    match get_field(obj, name) {
        None => Some(None),
        Some(v) => match v {
            JsonValue::Scalar(JsonScalar::Null) => Some(None),
            JsonValue::Array(items) => {
                proof {
                    lemma_strs_of_props(scalar_views(items@));
                    lemma_scalar_views_props(items@);
                    assert(v@ == JsonValueV::Array(scalar_views(items@)));
                }
                let mut out: Vec<String> = Vec::new();
                let n = items.len();
                let mut i: usize = 0;
                while i < n
                    invariant
                        lookup(obj@, name@) == Some(JsonValueV::Array(scalar_views(items@))),
                        n == items@.len(),
                        i <= n,
                        scalar_views(items@).len() == n,
                        forall|k: int| 0 <= k < n ==> scalar_views(items@)[k] == items@[k]@,
                        forall|k: int| 0 <= k < i ==> #[trigger] scalar_views(items@)[k] is Str,
                        string_views(out@).len() == i,
                        forall|k: int|
                            0 <= k < i ==> #[trigger] string_views(out@)[k] == scalar_views(
                                items@,
                            )[k]->Str_0,
                    decreases n - i,
                {
                    match &items[i] {
                        JsonScalar::Str(s) => {
                            let ghost pre = out@;
                            out.push(s.clone());
                            proof {
                                lemma_string_views_push(pre, items@[i as int]->Str_0);
                                lemma_string_views_props(out@);
                            }
                        },
                        _ => {
                            proof {
                                assert(!(scalar_views(items@)[i as int] is Str));
                                if strs_of(scalar_views(items@)) is Some {
                                    lemma_strs_of_props(scalar_views(items@));
                                    assert(scalar_views(items@)[i as int] is Str);
                                }
                                assert(strs_of(scalar_views(items@)) is None);
                            }
                            return None;
                        },
                    }
                    i = i + 1;
                }
                proof {
                    let sp = strs_of(scalar_views(items@)).unwrap();
                    assert(string_views(out@) =~= sp);
                }
                Some(Some(out))
            },
            _ => None,
        },
    }
}


/// The model of an optional owned string.
pub open spec fn opt_view(o: Option<String>) -> Option<Seq<char>> {
    match o {
        Some(s) => Some(s@),
        None => None,
    }
}


fn u64_write(out: &mut String, n: u64)
    ensures
        final(out)@ == old(out)@ + dec_rep(n as nat),
    decreases n,
{
    if n >= 10 {
        u64_write(out, n / 10);
    }
    let ghost mid = out@;
    out.push(hex_digit_exec((n % 10) as u32));
    proof {
        assert(out@ =~= mid + seq![hex_digit((n % 10) as int)]);
        if n >= 10 {
            assert((old(out)@ + dec_rep((n / 10) as nat)) + seq![hex_digit((n % 10) as int)]
                =~= old(out)@ + (dec_rep((n / 10) as nat) + seq![hex_digit((n % 10) as int)]));
        } else {
            assert(old(out)@ + seq![hex_digit(n as int)] =~= old(out)@ + dec_rep(n as nat));
        }
    }
}

/// The decimal text of an unsigned integer, without sign or leading zeros.
pub fn u64_string(n: u64) -> (r: String)
    ensures
        r@ == dec_rep(n as nat),
{
    let mut s = String::new();
    u64_write(&mut s, n);
    proof {
        assert(Seq::<char>::empty() + dec_rep(n as nat) =~= dec_rep(n as nat));
    }
    s
}

} // verus!

verus! {

proof fn lemma_hex_digit_val(d: int)
    requires
        0 <= d < 16,
    ensures
        hex_val(hex_digit(d)) == Some(d as u32),
{
    assert(hex_digit(0) == '0');
    assert(hex_digit(1) == '1');
    assert(hex_digit(2) == '2');
    assert(hex_digit(3) == '3');
    assert(hex_digit(4) == '4');
    assert(hex_digit(5) == '5');
    assert(hex_digit(6) == '6');
    assert(hex_digit(7) == '7');
    assert(hex_digit(8) == '8');
    assert(hex_digit(9) == '9');
    assert(hex_digit(10) == 'a');
    assert(hex_digit(11) == 'b');
    assert(hex_digit(12) == 'c');
    assert(hex_digit(13) == 'd');
    assert(hex_digit(14) == 'e');
    assert(hex_digit(15) == 'f');
}

/// The escaped form of any content, wherever it stands, parses back to
/// exactly that content, ending just after the closing quote.
#[verifier::spinoff_prover]
#[verifier::rlimit(100)]
proof fn lemma_esc_parse(pre: Seq<char>, content: Seq<char>, tail: Seq<char>)
    ensures
        p_string(pre + esc(content) + seq!['"'] + tail, pre.len() as int) == Some(
            (content, (pre.len() + esc(content).len() + 1) as int),
        ),
    decreases content.len(),
{
    let s = pre + esc(content) + seq!['"'] + tail;
    let i = pre.len() as int;
    if content.len() == 0 {
        assert(esc(content) == Seq::<char>::empty());
        assert(s =~= pre + seq!['"'] + tail);
        assert(s[i] == '"');
        assert(p_string(s, i) == Some((Seq::<char>::empty(), i + 1)));
        assert(content =~= Seq::<char>::empty());
    } else {
        let c = content[0];
        let rest = content.drop_first();
        assert(esc(content) == esc_char(c) + esc(rest));
        let pre2 = pre + esc_char(c);
        assert(s =~= pre2 + esc(rest) + seq!['"'] + tail);
        lemma_esc_parse(pre2, rest, tail);
        let j = pre2.len() as int;
        assert(p_string(s, j) == Some((rest, (pre2.len() + esc(rest).len() + 1) as int)));
        assert(content =~= seq![c] + rest);
        if c == '"' {
            assert(s[i] == '\\' && s[i + 1] == '"');
            assert(i + 2 == j);
            assert(p_string(s, i) == Some((seq![c] + rest, (pre.len() + esc(content).len()
                + 1) as int)));
        } else if c == '\\' {
            assert(s[i] == '\\' && s[i + 1] == '\\');
            assert(i + 2 == j);
        } else if c == '\u{8}' {
            assert(s[i] == '\\' && s[i + 1] == 'b');
            assert(i + 2 == j);
        } else if c == '\u{c}' {
            assert(s[i] == '\\' && s[i + 1] == 'f');
            assert(i + 2 == j);
        } else if c == '\n' {
            assert(s[i] == '\\' && s[i + 1] == 'n');
            assert(i + 2 == j);
        } else if c == '\r' {
            assert(s[i] == '\\' && s[i + 1] == 'r');
            assert(i + 2 == j);
        } else if c == '\t' {
            assert(s[i] == '\\' && s[i + 1] == 't');
            assert(i + 2 == j);
        } else if (c as u32) < 0x20 {
            let cu = c as u32;
            let d1 = (cu / 16) as int;
            let d2 = (cu % 16) as int;
            assert(s[i] == '\\' && s[i + 1] == 'u' && s[i + 2] == '0' && s[i + 3] == '0');
            assert(s[i + 4] == hex_digit(d1) && s[i + 5] == hex_digit(d2));
            assert(i + 6 == j);
            assert(hex_val('0') == Some(0u32));
            lemma_hex_digit_val(d1);
            lemma_hex_digit_val(d2);
            vstd::arithmetic::div_mod::lemma_fundamental_div_mod(cu as int, 16);
            let code = (0u32 * 4096 + 0u32 * 256 + (cu / 16) * 16 + cu % 16) as u32;
            assert(code == cu);
            vstd::utf8::char_u32_cast(c, code);
            assert((code as char) == c);
            assert(p_string(s, i) == Some((seq![c] + rest, (pre.len() + esc(content).len()
                + 1) as int)));
        } else {
            assert(esc_char(c) == seq![c]);
            assert(s[i] == c);
            assert(i + 1 == j);
            assert(!((c as u32) < 0x20));
            assert(p_string(s, i) == Some((seq![c] + rest, (pre.len() + esc(content).len()
                + 1) as int)));
        }
    }
}

/// Law: the serializer and the parser agree on strings.  The wire form of
/// any string content, read from just after its opening quote, parses back
/// to exactly that content, consuming the whole wire form.
pub proof fn lemma_string_round_trip(content: Seq<char>)
    ensures
        p_string(ser_string(content), 1) == Some(
            (content, ser_string(content).len() as int),
        ),
{
    lemma_esc_parse(seq!['"'], content, Seq::<char>::empty());
    assert(seq!['"'] + esc(content) + seq!['"'] + Seq::<char>::empty() =~= ser_string(content));
}

} // verus!

verus! {

/// A number token the grammar accepts as a plain unsigned integer: digits
/// only, with no superfluous leading zero.
pub open spec fn wf_num_token(digits: Seq<char>) -> bool {
    digits.len() > 0 && all_digits(digits) && (digits.len() == 1 || digits[0] != '0')
}

/// A scalar whose wire form the parser reads back: every scalar but a
/// number with a malformed token.
pub open spec fn wf_scalar(v: JsonScalarV) -> bool {
    match v {
        JsonScalarV::Num { neg, digits } => wf_num_token(digits),
        _ => true,
    }
}

/// A field value whose wire form the parser reads back.
pub open spec fn wf_value(v: JsonValueV) -> bool {
    match v {
        JsonValueV::Scalar(x) => wf_scalar(x),
        JsonValueV::Array(items) => forall|k: int|
            0 <= k < items.len() ==> wf_scalar(#[trigger] items[k]),
    }
}

/// An object whose wire form the parser reads back.
pub open spec fn wf_fields(fs: Seq<JsonFieldV>) -> bool {
    forall|k: int| 0 <= k < fs.len() ==> wf_value((#[trigger] fs[k]).value)
}

proof fn lemma_p_digits_run(s: Seq<char>, i: int, e: int)
    requires
        0 <= i <= e < s.len(),
        forall|k: int| i <= k < e ==> is_digit(#[trigger] s[k]),
        !is_digit(s[e]),
    ensures
        p_digits(s, i) == e,
    decreases e - i,
{
    if i < e {
        lemma_p_digits_run(s, i + 1, e);
    }
}

#[verifier::spinoff_prover]
#[verifier::rlimit(100)]
proof fn lemma_p_number_exact(pre: Seq<char>, neg: bool, digits: Seq<char>, tail: Seq<char>)
    requires
        wf_num_token(digits),
        tail.len() > 0,
        !is_digit(tail[0]),
        tail[0] != '.',
        tail[0] != 'e',
        tail[0] != 'E',
    ensures
        ({
            let nt = ser_scalar(JsonScalarV::Num { neg, digits });
            p_number(pre + nt + tail, pre.len() as int) == Some(
                (neg, digits, (pre.len() + nt.len()) as int),
            )
        }),
{
    let nt = ser_scalar(JsonScalarV::Num { neg, digits });
    let s = pre + nt + tail;
    let i = pre.len() as int;
    let pre1 = if neg {
        pre + seq!['-']
    } else {
        pre
    };
    assert(s =~= pre1 + digits + tail);
    let j0 = pre1.len() as int;
    assert(forall|k: int| 0 <= k < digits.len() ==> s[j0 + k] == digits[k]);
    assert(s[j0 + digits.len()] == tail[0]);
    if neg {
        assert(s[i] == '-');
    } else {
        assert(s[i] == digits[0]);
        assert(is_digit(s[i]));
        assert(s[i] != '-') by {
            assert(('-' as u32) == 0x2D);
        }
    }
    assert(s[j0] == digits[0] && is_digit(s[j0]));
    let j1 = j0 + digits.len();
    if digits[0] == '0' {
        assert(digits.len() == 1);
    } else {
        assert(forall|k: int| j0 <= k < j1 ==> is_digit(#[trigger] s[k]));
        lemma_p_digits_run(s, j0, j1);
    }
    assert(s[j1] == tail[0]);
    assert(p_frac(s, j1) == Some(j1));
    assert(p_exp(s, j1) == Some(j1));
    assert(s.subrange(j0, j1) =~= digits);
}

proof fn lemma_scalar_first_char(v: JsonScalarV)
    requires
        wf_scalar(v),
    ensures
        ser_scalar(v).len() > 0,
        !is_ws(ser_scalar(v)[0]),
        ser_scalar(v)[0] != '[',
        ser_scalar(v)[0] != ']',
        ser_scalar(v)[0] != ',',
        ser_scalar(v)[0] != '}',
        ser_scalar(v)[0] != ':',
{
    match v {
        JsonScalarV::Null => {
            assert(ser_scalar(v)[0] == 'n');
        },
        JsonScalarV::Bool(b) => {
            if b {
                assert(ser_scalar(v)[0] == 't');
            } else {
                assert(ser_scalar(v)[0] == 'f');
            }
        },
        JsonScalarV::Num { neg, digits } => {
            if neg {
                assert(ser_scalar(v)[0] == '-');
            } else {
                assert(ser_scalar(v)[0] == digits[0]);
                assert(is_digit(digits[0]));
            }
        },
        JsonScalarV::Str(c) => {
            assert(ser_scalar(v)[0] == '"');
        },
    }
}

#[verifier::spinoff_prover]
#[verifier::rlimit(100)]
proof fn lemma_p_scalar_exact(pre: Seq<char>, v: JsonScalarV, tail: Seq<char>)
    requires
        wf_scalar(v),
        tail.len() > 0,
        !is_digit(tail[0]),
        tail[0] != '.',
        tail[0] != 'e',
        tail[0] != 'E',
    ensures
        p_scalar(pre + ser_scalar(v) + tail, pre.len() as int) == Some(
            (v, (pre.len() + ser_scalar(v).len()) as int),
        ),
{
    let s = pre + ser_scalar(v) + tail;
    let i = pre.len() as int;
    lemma_scalar_first_char(v);
    assert(s[i] == ser_scalar(v)[0]);
    match v {
        JsonScalarV::Null => {
            assert(s[i] == 'n' && s[i + 1] == 'u' && s[i + 2] == 'l' && s[i + 3] == 'l');
            assert(!is_digit('n')) by {
                assert(('n' as u32) == 0x6E);
            }
        },
        JsonScalarV::Bool(b) => {
            if b {
                assert(s[i] == 't' && s[i + 1] == 'r' && s[i + 2] == 'u' && s[i + 3] == 'e');
                assert(!is_digit('t')) by {
                    assert(('t' as u32) == 0x74);
                }
            } else {
                assert(s[i] == 'f' && s[i + 1] == 'a' && s[i + 2] == 'l' && s[i + 3] == 's' && s[i
                    + 4] == 'e');
                assert(!is_digit('f')) by {
                    assert(('f' as u32) == 0x66);
                }
            }
        },
        JsonScalarV::Num { neg, digits } => {
            lemma_p_number_exact(pre, neg, digits, tail);
            if neg {
                assert(s[i] == '-');
            } else {
                assert(is_digit(s[i]));
            }
        },
        JsonScalarV::Str(c) => {
            assert(s[i] == '"');
            let pre2 = pre + seq!['"'];
            assert(s =~= pre2 + esc(c) + seq!['"'] + tail);
            lemma_esc_parse(pre2, c, tail);
            assert(p_string(s, i + 1) == Some((c, (pre2.len() + esc(c).len() + 1) as int)));
        },
    }
}

} // verus!

verus! {

proof fn lemma_ser_items_rest_len(items: Seq<JsonScalarV>)
    requires
        forall|k: int| 0 <= k < items.len() ==> wf_scalar(#[trigger] items[k]),
    ensures
        ser_items_rest(items).len() >= items.len(),
    decreases items.len(),
{
    if items.len() > 0 {
        assert(forall|k: int|
            0 <= k < items.drop_first().len() ==> wf_scalar(#[trigger] items.drop_first()[k]));
        lemma_ser_items_rest_len(items.drop_first());
    }
}

proof fn lemma_ser_items_len(items: Seq<JsonScalarV>)
    requires
        forall|k: int| 0 <= k < items.len() ==> wf_scalar(#[trigger] items[k]),
    ensures
        ser_items(items).len() >= items.len(),
{
    if items.len() > 0 {
        lemma_scalar_first_char(items[0]);
        assert(forall|k: int|
            0 <= k < items.drop_first().len() ==> wf_scalar(#[trigger] items.drop_first()[k]));
        lemma_ser_items_rest_len(items.drop_first());
    }
}

#[verifier::spinoff_prover]
#[verifier::rlimit(100)]
proof fn lemma_p_items_exact(pre: Seq<char>, items: Seq<JsonScalarV>, tail: Seq<char>, fuel: nat)
    requires
        items.len() > 0,
        forall|k: int| 0 <= k < items.len() ==> wf_scalar(#[trigger] items[k]),
        fuel >= items.len(),
    ensures
        p_items(pre + ser_items(items) + seq![']'] + tail, pre.len() as int, fuel) == Some(
            (items, (pre.len() + ser_items(items).len() + 1) as int),
        ),
    decreases items.len(),
{
    let s = pre + ser_items(items) + seq![']'] + tail;
    let i = pre.len() as int;
    let v0 = items[0];
    let rest = items.drop_first();
    assert(wf_scalar(v0));
    assert(ser_items(items) == ser_scalar(v0) + ser_items_rest(rest));
    assert((']' as u32) == 0x5D);
    assert((',' as u32) == 0x2C);
    if rest.len() == 0 {
        assert(ser_items_rest(rest) == Seq::<char>::empty());
        let t0 = seq![']'] + tail;
        assert(s =~= pre + ser_scalar(v0) + t0);
        assert(t0[0] == ']');
        lemma_p_scalar_exact(pre, v0, t0);
        let j = (pre.len() + ser_scalar(v0).len()) as int;
        assert(s[j] == ']');
        assert(skip_ws(s, j) == j);
        assert(items =~= seq![v0]);
        assert(p_items(s, i, fuel) == Some((seq![v0], j + 1)));
    } else {
        let r0 = rest[0];
        assert(ser_items_rest(rest) == seq![','] + ser_scalar(r0) + ser_items_rest(
            rest.drop_first(),
        ));
        assert(ser_items(rest) == ser_scalar(r0) + ser_items_rest(rest.drop_first()));
        assert(ser_items_rest(rest) =~= seq![','] + ser_items(rest));
        let t0 = ser_items_rest(rest) + seq![']'] + tail;
        assert(s =~= pre + ser_scalar(v0) + t0);
        assert(t0[0] == ',');
        lemma_p_scalar_exact(pre, v0, t0);
        let j = (pre.len() + ser_scalar(v0).len()) as int;
        assert(s[j] == ',');
        assert(skip_ws(s, j) == j);
        assert(forall|k: int| 0 <= k < rest.len() ==> wf_scalar(#[trigger] rest[k]));
        lemma_scalar_first_char(r0);
        let pre2 = pre + ser_scalar(v0) + seq![','];
        assert(s =~= pre2 + ser_items(rest) + seq![']'] + tail);
        assert(s[j + 1] == ser_scalar(r0)[0]);
        assert(!is_ws(s[j + 1]));
        assert(skip_ws(s, j + 1) == j + 1);
        lemma_p_items_exact(pre2, rest, tail, (fuel - 1) as nat);
        assert(items =~= seq![v0] + rest);
        assert(p_items(s, i, fuel) == Some((seq![v0] + rest, (pre.len() + ser_items(items).len()
            + 1) as int)));
    }
}

proof fn lemma_ser_value_first_char(v: JsonValueV)
    requires
        wf_value(v),
    ensures
        ser_value(v).len() > 0,
        !is_ws(ser_value(v)[0]),
    	ser_value(v)[0] != ']',
        ser_value(v)[0] != '}',
        ser_value(v)[0] != ',',
{
    match v {
        JsonValueV::Scalar(x) => {
            lemma_scalar_first_char(x);
        },
        JsonValueV::Array(items) => {
            assert(ser_value(v)[0] == '[');
        },
    }
}

#[verifier::spinoff_prover]
#[verifier::rlimit(100)]
proof fn lemma_p_value_exact(pre: Seq<char>, v: JsonValueV, tail: Seq<char>)
    requires
        wf_value(v),
        tail.len() > 0,
        !is_digit(tail[0]),
        tail[0] != '.',
        tail[0] != 'e',
        tail[0] != 'E',
    ensures
        p_value(pre + ser_value(v) + tail, pre.len() as int) == Some(
            (v, (pre.len() + ser_value(v).len()) as int),
        ),
{
    let s = pre + ser_value(v) + tail;
    let i = pre.len() as int;
    match v {
        JsonValueV::Scalar(x) => {
            lemma_scalar_first_char(x);
            assert(s[i] == ser_scalar(x)[0]);
            assert(s[i] != '[');
            lemma_p_scalar_exact(pre, x, tail);
            assert(p_value(pre + ser_value(v) + tail, pre.len() as int) =~~= Some(
                (v, (pre.len() + ser_value(v).len()) as int),
            ));
        },
        JsonValueV::Array(items) => {
            assert(s[i] == '[');
            if items.len() == 0 {
                assert(ser_items(items) == Seq::<char>::empty());
                assert(s =~= pre + seq!['[', ']'] + tail);
                assert(s[i + 1] == ']');
                assert(!is_ws(']')) by {
                    assert((']' as u32) == 0x5D);
                }
                assert(skip_ws(s, i + 1) == i + 1);
                assert(p_value(s, i) == Some((JsonValueV::Array(Seq::empty()), i + 2)));
            } else {
                let pre2 = pre + seq!['['];
                assert(s =~= pre2 + ser_items(items) + seq![']'] + tail);
                lemma_scalar_first_char(items[0]);
                assert(ser_items(items)[0] == ser_scalar(items[0])[0]);
                assert(s[i + 1] == ser_scalar(items[0])[0]);
                assert(!is_ws(s[i + 1]));
                assert(skip_ws(s, i + 1) == i + 1);
                assert(s[i + 1] != ']');
                lemma_ser_items_len(items);
                assert(s.len() >= items.len());
                lemma_p_items_exact(pre2, items, tail, s.len() as nat);
            }
        },
    }
}

} // verus!

verus! {

proof fn lemma_ser_fields_rest_len(fs: Seq<JsonFieldV>)
    ensures
        ser_fields_rest(fs).len() >= fs.len(),
    decreases fs.len(),
{
    if fs.len() > 0 {
        lemma_ser_fields_rest_len(fs.drop_first());
    }
}

proof fn lemma_ser_fields_len(fs: Seq<JsonFieldV>)
    ensures
        ser_fields(fs).len() >= fs.len(),
{
    if fs.len() > 0 {
        lemma_ser_fields_rest_len(fs.drop_first());
    }
}

#[verifier::spinoff_prover]
#[verifier::rlimit(100)]
proof fn lemma_p_field_head(pre: Seq<char>, f0: JsonFieldV, after: Seq<char>)
    requires
        wf_value(f0.value),
        after.len() > 0,
        after[0] == ',' || after[0] == '}',
    ensures
        ({
            let s = pre + (ser_string(f0.name) + seq![':'] + ser_value(f0.value)) + after;
            let i = pre.len() as int;
            let j = (pre.len() + ser_string(f0.name).len()) as int;
            let e = j + 1 + ser_value(f0.value).len();
            &&& s[i] == '"'
            &&& p_string(s, i + 1) == Some((f0.name, j))
            &&& s[j] == ':'
            &&& skip_ws(s, j) == j
            &&& skip_ws(s, j + 1) == j + 1
            &&& p_value(s, j + 1) == Some((f0.value, e))
            &&& s[e] == after[0]
            &&& skip_ws(s, e) == e
        }),
{
    let s = pre + (ser_string(f0.name) + seq![':'] + ser_value(f0.value)) + after;
    let i = pre.len() as int;
    assert(('}' as u32) == 0x7D);
    assert((':' as u32) == 0x3A);
    assert((',' as u32) == 0x2C);
    assert(s[i] == '"');
    let pre2 = pre + seq!['"'];
    let name_tail = seq![':'] + ser_value(f0.value) + after;
    assert(s =~= pre2 + esc(f0.name) + seq!['"'] + name_tail);
    lemma_esc_parse(pre2, f0.name, name_tail);
    let j = (pre.len() + ser_string(f0.name).len()) as int;
    assert(p_string(s, i + 1) == Some((f0.name, j)));
    assert(s[j] == ':');
    assert(skip_ws(s, j) == j);
    let pre3 = pre + ser_string(f0.name) + seq![':'];
    lemma_ser_value_first_char(f0.value);
    assert(s =~= pre3 + ser_value(f0.value) + after);
    assert(s[j + 1] == ser_value(f0.value)[0]);
    assert(skip_ws(s, j + 1) == j + 1);
    assert(!is_digit(after[0]) && after[0] != '.' && after[0] != 'e' && after[0] != 'E');
    lemma_p_value_exact(pre3, f0.value, after);
    let e = j + 1 + ser_value(f0.value).len();
    assert(p_value(s, j + 1) == Some((f0.value, e)));
    assert(s[e] == after[0]);
    assert(skip_ws(s, e) == e);
}

#[verifier::spinoff_prover]
#[verifier::rlimit(100)]
proof fn lemma_p_fields_exact_base(pre: Seq<char>, f0: JsonFieldV, tail: Seq<char>, fuel: nat)
    requires
        wf_value(f0.value),
        fuel >= 1,
    ensures
        p_fields(
            pre + (ser_string(f0.name) + seq![':'] + ser_value(f0.value)) + seq!['}'] + tail,
            pre.len() as int,
            fuel,
        ) == Some(
            (
                seq![f0],
                (pre.len() + (ser_string(f0.name) + seq![':'] + ser_value(f0.value)).len()
                    + 1) as int,
            ),
        ),
{
    let after = seq!['}'] + tail;
    let s0 = pre + (ser_string(f0.name) + seq![':'] + ser_value(f0.value)) + after;
    let s = pre + (ser_string(f0.name) + seq![':'] + ser_value(f0.value)) + seq!['}'] + tail;
    assert(s =~= s0);
    lemma_p_field_head(pre, f0, after);
    let i = pre.len() as int;
    let j = (pre.len() + ser_string(f0.name).len()) as int;
    let e = j + 1 + ser_value(f0.value).len();
    assert(s[e] == '}');
    assert(JsonFieldV { name: f0.name, value: f0.value } =~~= f0);
    assert(p_fields(s, i, fuel) =~~= Some((seq![f0], e + 1)));
}

#[verifier::spinoff_prover]
#[verifier::rlimit(100)]
proof fn lemma_p_fields_exact_step(
    pre: Seq<char>,
    f0: JsonFieldV,
    rest: Seq<JsonFieldV>,
    tail: Seq<char>,
    fuel: nat,
)
    requires
        wf_value(f0.value),
        rest.len() > 0,
        fuel >= 1,
        p_fields(
            (pre + (ser_string(f0.name) + seq![':'] + ser_value(f0.value)) + seq![','])
                + ser_fields(rest) + seq!['}'] + tail,
            (pre + (ser_string(f0.name) + seq![':'] + ser_value(f0.value)) + seq![',']).len() as int,
            (fuel - 1) as nat,
        ) == Some(
            (
                rest,
                ((pre + (ser_string(f0.name) + seq![':'] + ser_value(f0.value))
                    + seq![',']).len() + ser_fields(rest).len() + 1) as int,
            ),
        ),
    ensures
        p_fields(pre + ser_fields(seq![f0] + rest) + seq!['}'] + tail, pre.len() as int, fuel)
            == Some(
            (
                seq![f0] + rest,
                (pre.len() + ser_fields(seq![f0] + rest).len() + 1) as int,
            ),
        ),
{
    let fs = seq![f0] + rest;
    assert(fs[0] == f0);
    assert(fs.drop_first() =~= rest);
    assert(ser_fields(fs) == ser_string(f0.name) + seq![':'] + ser_value(f0.value)
        + ser_fields_rest(rest));
    let r0 = rest[0];
    assert(ser_fields_rest(rest) == seq![','] + ser_string(r0.name) + seq![':'] + ser_value(
        r0.value,
    ) + ser_fields_rest(rest.drop_first()));
    assert(ser_fields(rest) == ser_string(r0.name) + seq![':'] + ser_value(r0.value)
        + ser_fields_rest(rest.drop_first()));
    assert(ser_fields_rest(rest) =~= seq![','] + ser_fields(rest));
    let s = pre + ser_fields(fs) + seq!['}'] + tail;
    let after = seq![','] + ser_fields(rest) + seq!['}'] + tail;
    assert(s =~= pre + (ser_string(f0.name) + seq![':'] + ser_value(f0.value)) + after);
    lemma_p_field_head(pre, f0, after);
    let i = pre.len() as int;
    let j = (pre.len() + ser_string(f0.name).len()) as int;
    let e = j + 1 + ser_value(f0.value).len();
    assert(s[e] == ',');
    let pre4 = pre + (ser_string(f0.name) + seq![':'] + ser_value(f0.value)) + seq![','];
    assert(s =~= pre4 + ser_fields(rest) + seq!['}'] + tail);
    assert(pre4.len() == e + 1);
    assert(p_fields(s, e + 1, (fuel - 1) as nat) == Some(
        (rest, (pre4.len() + ser_fields(rest).len() + 1) as int),
    ));
    assert(s[e + 1] == ser_string(r0.name)[0]);
    assert(s[e + 1] == '"');
    assert(!is_ws('"')) by {
        assert(('"' as u32) == 0x22);
    }
    assert(skip_ws(s, e + 1) == e + 1);
    assert(JsonFieldV { name: f0.name, value: f0.value } =~~= f0);
    assert(p_fields(s, i, fuel) =~~= Some((fs, (pre.len() + ser_fields(fs).len() + 1) as int)));
}

proof fn lemma_p_fields_exact(pre: Seq<char>, fs: Seq<JsonFieldV>, tail: Seq<char>, fuel: nat)
    requires
        fs.len() > 0,
        wf_fields(fs),
        fuel >= fs.len(),
    ensures
        p_fields(pre + ser_fields(fs) + seq!['}'] + tail, pre.len() as int, fuel) == Some(
            (fs, (pre.len() + ser_fields(fs).len() + 1) as int),
        ),
    decreases fs.len(),
{
    let f0 = fs[0];
    let rest = fs.drop_first();
    assert(wf_value(f0.value));
    if rest.len() == 0 {
        lemma_p_fields_exact_base(pre, f0, tail, fuel);
        assert(fs =~= seq![f0]);
        assert(ser_fields(fs) =~= ser_string(f0.name) + seq![':'] + ser_value(f0.value));
    } else {
        let pre4 = pre + (ser_string(f0.name) + seq![':'] + ser_value(f0.value)) + seq![','];
        assert(forall|k: int| 0 <= k < rest.len() ==> wf_value((#[trigger] rest[k]).value));
        lemma_p_fields_exact(pre4, rest, tail, (fuel - 1) as nat);
        lemma_p_fields_exact_step(pre, f0, rest, tail, fuel);
        assert(fs =~= seq![f0] + rest);
    }
}

#[verifier::spinoff_prover]
#[verifier::rlimit(100)]
pub proof fn lemma_object_round_trip(fs: Seq<JsonFieldV>)
    requires
        wf_fields(fs),
    ensures
        parse_text(ser_object(fs)) == Some(fs),
{
    let s = ser_object(fs);
    assert(('{' as u32) == 0x7B);
    assert(('}' as u32) == 0x7D);
    assert(s[0] == '{');
    assert(skip_ws(s, 0) == 0);
    if fs.len() == 0 {
        assert(ser_fields(fs) == Seq::<char>::empty());
        assert(s =~= seq!['{', '}']);
        assert(s[1] == '}');
        assert(skip_ws(s, 1) == 1);
        assert(p_object(s, 0) == Some((Seq::<JsonFieldV>::empty(), 2int)));
        assert(skip_ws(s, 2) == 2);
        assert(fs =~= Seq::<JsonFieldV>::empty());
    } else {
        let pre = seq!['{'];
        assert(s =~= pre + ser_fields(fs) + seq!['}'] + Seq::<char>::empty());
        assert(fs[0].name == fs[0].name);
        assert(ser_fields(fs)[0] == ser_string(fs[0].name)[0]);
        assert(s[1] == '"');
        assert(skip_ws(s, 1) == 1);
        lemma_ser_fields_len(fs);
        assert(s.len() >= fs.len());
        lemma_p_fields_exact(pre, fs, Seq::<char>::empty(), s.len() as nat);
        let e = (1 + ser_fields(fs).len() + 1) as int;
        assert(p_fields(s, 1, s.len() as nat) == Some((fs, e)));
        assert(e == s.len());
        assert(skip_ws(s, e) == e);
    }
}

} // verus!

verus! {

/// The decimal text of any value is a well-formed number token.
pub proof fn lemma_dec_rep_wf(n: nat)
    ensures
        wf_num_token(dec_rep(n)),
        n >= 1 ==> dec_rep(n)[0] != '0',
    decreases n,
{
    assert forall|d: int| 0 <= d < 10 implies is_digit(#[trigger] hex_digit(d)) by {
        if d == 0 {
            assert(hex_digit(0) == '0');
        } else if d == 1 {
            assert(hex_digit(1) == '1');
        } else if d == 2 {
            assert(hex_digit(2) == '2');
        } else if d == 3 {
            assert(hex_digit(3) == '3');
        } else if d == 4 {
            assert(hex_digit(4) == '4');
        } else if d == 5 {
            assert(hex_digit(5) == '5');
        } else if d == 6 {
            assert(hex_digit(6) == '6');
        } else if d == 7 {
            assert(hex_digit(7) == '7');
        } else if d == 8 {
            assert(hex_digit(8) == '8');
        } else {
            assert(hex_digit(9) == '9');
        }
    }
    if n < 10 {
        assert(dec_rep(n) == seq![hex_digit(n as int)]);
        assert(dec_rep(n)[0] == hex_digit(n as int));
        assert(all_digits(dec_rep(n)));
        if n >= 1 {
            assert(hex_digit(n as int) != '0') by {
                if n == 1 {
                    assert(hex_digit(1) == '1');
                } else if n == 2 {
                    assert(hex_digit(2) == '2');
                } else if n == 3 {
                    assert(hex_digit(3) == '3');
                } else if n == 4 {
                    assert(hex_digit(4) == '4');
                } else if n == 5 {
                    assert(hex_digit(5) == '5');
                } else if n == 6 {
                    assert(hex_digit(6) == '6');
                } else if n == 7 {
                    assert(hex_digit(7) == '7');
                } else if n == 8 {
                    assert(hex_digit(8) == '8');
                } else {
                    assert(hex_digit(9) == '9');
                }
            }
        }
    } else {
        lemma_dec_rep_wf(n / 10);
        assert(dec_rep(n) == dec_rep(n / 10) + seq![hex_digit((n % 10) as int)]);
        assert(dec_rep(n)[0] == dec_rep(n / 10)[0]);
        assert(n / 10 >= 1);
        assert(all_digits(dec_rep(n))) by {
            assert(forall|k: int|
                0 <= k < dec_rep(n / 10).len() ==> is_digit(#[trigger] dec_rep(n / 10)[k]));
            assert(dec_rep(n).last() == hex_digit((n % 10) as int));
            assert(forall|k: int|
                0 <= k < dec_rep(n).len() ==> is_digit(#[trigger] dec_rep(n)[k]));
        }
    }
}

} // verus!
