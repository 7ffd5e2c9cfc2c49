//! A JSON document tree: the model that response bodies are decoded into,
//! and its serialization. Parsing goes through `serde_json` behind a
//! trusted boundary; everything that walks or re-serializes a tree is
//! verified.

use vstd::prelude::*;
use vstd::string::StringSliceAdditionalSpecFns;
use vstd::string::StrSliceExecFns;

verus! {

broadcast use vstd::std_specs::vec::axiom_vec_index_decreases, vstd::std_specs::vec::axiom_vec_decreases_to_view, vstd::seq::axiom_seq_index_decreases, vstd::seq::axiom_seq_subrange_decreases;

/// A JSON value. Object fields keep unique keys in the order the parser
/// produced them; strings hold decoded UTF-8 bytes; numbers hold their
/// rendered token.
pub enum Json {
    Null,
    Bool(bool),
    /// The rendered number token, e.g. `12` or `1.5e3`.
    Num(Vec<u8>),
    /// Decoded string contents, UTF-8.
    Str(Vec<u8>),
    Arr(Vec<Json>),
    Obj(Vec<(Vec<u8>, Json)>),
}

/// The ghost shape of a JSON value.
pub enum JsonV {
    Null,
    Bool(bool),
    Num(Seq<u8>),
    Str(Seq<u8>),
    Arr(Seq<JsonV>),
    Obj(Seq<(Seq<u8>, JsonV)>),
}

/// The ghost shape of a value.
pub open spec fn view_json(j: Json) -> JsonV
    decreases j,
{
    match j {
        Json::Null => JsonV::Null,
        Json::Bool(b) => JsonV::Bool(b),
        Json::Num(n) => JsonV::Num(n@),
        Json::Str(s) => JsonV::Str(s@),
        Json::Arr(items) => JsonV::Arr(view_items(items@)),
        Json::Obj(fields) => JsonV::Obj(view_fields(fields@)),
    }
}

/// The ghost shapes of array elements.
pub open spec fn view_items(s: Seq<Json>) -> Seq<JsonV>
    decreases s,
{
    if s.len() == 0 {
        Seq::empty()
    } else {
        view_items(s.drop_last()).push(view_json(s.last()))
    }
}

/// The ghost shapes of object fields.
pub open spec fn view_fields(s: Seq<(Vec<u8>, Json)>) -> Seq<(Seq<u8>, JsonV)>
    decreases s,
{
    if s.len() == 0 {
        Seq::empty()
    } else {
        view_fields(s.drop_last()).push((s.last().0@, view_json(s.last().1)))
    }
}

/// Element views line up index by index.
pub proof fn lemma_view_items(s: Seq<Json>)
    ensures
        view_items(s).len() == s.len(),
        forall|i: int| 0 <= i < s.len() ==> view_items(s)[i] == view_json(#[trigger] s[i]),
    decreases s.len(),
{
    if s.len() > 0 {
        lemma_view_items(s.drop_last());
        assert forall|i: int| 0 <= i < s.len() implies view_items(s)[i] == view_json(
            #[trigger] s[i],
        ) by {
            if i < s.len() - 1 {
                assert(view_items(s)[i] == view_items(s.drop_last())[i]);
                assert(s.drop_last()[i] == s[i]);
            } else {
                assert(view_items(s)[i] == view_json(s.last()));
            }
        }
    }
}

/// Field views line up index by index.
pub proof fn lemma_view_fields(s: Seq<(Vec<u8>, Json)>)
    ensures
        view_fields(s).len() == s.len(),
        forall|i: int|
            0 <= i < s.len() ==> view_fields(s)[i] == ((#[trigger] s[i]).0@, view_json(s[i].1)),
    decreases s.len(),
{
    if s.len() > 0 {
        lemma_view_fields(s.drop_last());
        assert forall|i: int| 0 <= i < s.len() implies view_fields(s)[i] == (
            (#[trigger] s[i]).0@,
            view_json(s[i].1),
        ) by {
            if i < s.len() - 1 {
                assert(view_fields(s)[i] == view_fields(s.drop_last())[i]);
                assert(s.drop_last()[i] == s[i]);
            } else {
                assert(view_fields(s)[i] == (s.last().0@, view_json(s.last().1)));
            }
        }
    }
}

impl View for Json {
    type V = JsonV;

    open spec fn view(&self) -> JsonV {
        view_json(*self)
    }
}

/// What `serde_json` reads a byte sequence as: the document tree it holds,
/// if it holds one; a function of the bytes alone. Object keys are unique;
/// strings are decoded; numbers are re-rendered.
pub uninterp spec fn json_tree_of(bytes: Seq<u8>) -> Option<JsonV>;

#[verifier::external_type_specification]
#[verifier::external_body]
pub struct ExValue(serde_json::Value);

/// Relies on `serde_json::Value`: rebuilds a parsed document as the
/// library's tree, one arm per variant, keys and children in order.
#[verifier::external_body]
fn value_to_json(value: serde_json::Value) -> Json {
    match value {
        serde_json::Value::Null => Json::Null,
        serde_json::Value::Bool(b) => Json::Bool(b),
        serde_json::Value::Number(n) => Json::Num(n.to_string().into_bytes()),
        serde_json::Value::String(s) => Json::Str(s.into_bytes()),
        serde_json::Value::Array(items) => Json::Arr(
            items.into_iter().map(value_to_json).collect(),
        ),
        serde_json::Value::Object(fields) => Json::Obj(
            fields.into_iter().map(|(k, v)| (k.into_bytes(), value_to_json(v))).collect(),
        ),
    }
}

/// Relies on `serde_json::from_slice::<Value>`: reads a byte sequence as a
/// JSON document; the result depends on the bytes alone.
#[verifier::external_body]
pub(crate) fn parse_json(bytes: &Vec<u8>) -> (r: Option<Json>)
    ensures
        match r {
            Some(v) => json_tree_of(bytes@) == Some(v@),
            None => json_tree_of(bytes@) is None,
        },
{
    match serde_json::from_slice::<serde_json::Value>(bytes.as_slice()) {
        Ok(value) => Some(value_to_json(value)),
        Err(_) => None,
    }
}

/// The lowercase hex digit for a value below 16.
pub open spec fn hex_lower(n: u8) -> u8 {
    if n < 10 {
        (n + 0x30) as u8
    } else {
        (n - 10 + 0x61) as u8
    }
}

/// How one byte of string content is emitted: quote and backslash get a
/// backslash escape, the named controls their short form, other controls a
/// `\u00xx` form, and everything else stands as itself.
pub open spec fn escape_byte(b: u8) -> Seq<u8> {
    if b == 0x22 {
        seq![0x5cu8, 0x22u8]
    } else if b == 0x5c {
        seq![0x5cu8, 0x5cu8]
    } else if b == 0x08 {
        seq![0x5cu8, 0x62u8]
    } else if b == 0x09 {
        seq![0x5cu8, 0x74u8]
    } else if b == 0x0a {
        seq![0x5cu8, 0x6eu8]
    } else if b == 0x0c {
        seq![0x5cu8, 0x66u8]
    } else if b == 0x0d {
        seq![0x5cu8, 0x72u8]
    } else if b < 0x20 {
        seq![0x5cu8, 0x75u8, 0x30u8, 0x30u8, hex_lower(b / 16), hex_lower(b % 16)]
    } else {
        seq![b]
    }
}

/// The escaped form of string contents.
pub open spec fn escape_spec(s: Seq<u8>) -> Seq<u8>
    decreases s.len(),
{
    if s.len() == 0 {
        seq![]
    } else {
        escape_byte(s.first()) + escape_spec(s.drop_first())
    }
}

proof fn lemma_escape_push(s: Seq<u8>, b: u8)
    ensures
        escape_spec(s.push(b)) == escape_spec(s) + escape_byte(b),
    decreases s.len(),
{
    if s.len() == 0 {
        assert(s.push(b) =~= seq![b]);
        assert(seq![b].drop_first() =~= Seq::<u8>::empty());
        assert(escape_spec(s) + escape_byte(b) =~= escape_byte(b) + escape_spec(
            Seq::<u8>::empty(),
        ));
    } else {
        assert(s.push(b).first() == s.first());
        assert(s.push(b).drop_first() =~= s.drop_first().push(b));
        lemma_escape_push(s.drop_first(), b);
        assert(escape_byte(s.first()) + (escape_spec(s.drop_first()) + escape_byte(b))
            =~= (escape_byte(s.first()) + escape_spec(s.drop_first())) + escape_byte(b));
    }
}

/// The serialization of a JSON value: `null`, `true`/`false`, the number
/// token, a quoted escaped string, `[...]` or `{...}` with `,`-separated
/// children and `"key":value` fields.
pub open spec fn ser_value(v: JsonV) -> Seq<u8>
    decreases v,
{
    match v {
        JsonV::Null => seq![0x6eu8, 0x75u8, 0x6cu8, 0x6cu8],
        JsonV::Bool(b) => if b {
            seq![0x74u8, 0x72u8, 0x75u8, 0x65u8]
        } else {
            seq![0x66u8, 0x61u8, 0x6cu8, 0x73u8, 0x65u8]
        },
        JsonV::Num(n) => n,
        JsonV::Str(s) => seq![0x22u8] + escape_spec(s) + seq![0x22u8],
        JsonV::Arr(items) => seq![0x5bu8] + ser_items(items) + seq![0x5du8],
        JsonV::Obj(fields) => seq![0x7bu8] + ser_fields(fields) + seq![0x7du8],
    }
}

/// Array elements, `,`-separated.
pub open spec fn ser_items(items: Seq<JsonV>) -> Seq<u8>
    decreases items,
{
    if items.len() == 0 {
        seq![]
    } else if items.len() == 1 {
        ser_value(items[0])
    } else {
        ser_items(items.drop_last()) + seq![0x2cu8] + ser_value(items.last())
    }
}

/// Object fields, `"key":value`, `,`-separated.
pub open spec fn ser_fields(fields: Seq<(Seq<u8>, JsonV)>) -> Seq<u8>
    decreases fields,
{
    if fields.len() == 0 {
        seq![]
    } else {
        let f = ser_fields(fields.drop_last());
        let last = fields.last();
        let entry = seq![0x22u8] + escape_spec(last.0) + seq![0x22u8, 0x3au8] + ser_value(last.1);
        if fields.len() == 1 {
            entry
        } else {
            f + seq![0x2cu8] + entry
        }
    }
}

fn push_escaped(out: &mut Vec<u8>, s: &Vec<u8>)
    ensures
        final(out)@ == old(out)@ + escape_spec(s@),
{
    let ghost before = out@;
    let n = s.len();
    proof {
        assert(s@.take(0) =~= Seq::<u8>::empty());
        assert(before + escape_spec(s@.take(0)) =~= before);
    }
    let mut i: usize = 0;
    while i < n
        invariant
            0 <= i <= n,
            n == s@.len(),
            out@ == before + escape_spec(s@.take(i as int)),
        decreases n - i,
    {
        let b = s[i];
        if b == 0x22 {
            out.push(0x5c);
            out.push(0x22);
        } else if b == 0x5c {
            out.push(0x5c);
            out.push(0x5c);
        } else if b == 0x08 {
            out.push(0x5c);
            out.push(0x62);
        } else if b == 0x09 {
            out.push(0x5c);
            out.push(0x74);
        } else if b == 0x0a {
            out.push(0x5c);
            out.push(0x6e);
        } else if b == 0x0c {
            out.push(0x5c);
            out.push(0x66);
        } else if b == 0x0d {
            out.push(0x5c);
            out.push(0x72);
        } else if b < 0x20 {
            out.push(0x5c);
            out.push(0x75);
            out.push(0x30);
            out.push(0x30);
            out.push(hex_lower_digit(b / 16));
            out.push(hex_lower_digit(b % 16));
        } else {
            out.push(b);
        }
        proof {
            assert(s@.take(i + 1) =~= s@.take(i as int).push(s@[i as int]));
            lemma_escape_push(s@.take(i as int), s@[i as int]);
            assert(out@ =~= before + escape_spec(s@.take(i + 1)));
        }
        i = i + 1;
    }
    proof {
        assert(s@.take(n as int) =~= s@);
    }
}

fn hex_lower_digit(n: u8) -> (r: u8)
    requires
        n < 16,
    ensures
        r == hex_lower(n),
{
    if n < 10 {
        n + 0x30
    } else {
        n - 10 + 0x61
    }
}

fn push_bytes(out: &mut Vec<u8>, s: &Vec<u8>)
    ensures
        final(out)@ == old(out)@ + s@,
{
    let ghost before = out@;
    let n = s.len();
    let mut i: usize = 0;
    proof {
        assert(before + s@.take(0) =~= before);
    }
    while i < n
        invariant
            0 <= i <= n,
            n == s@.len(),
            out@ == before + s@.take(i as int),
        decreases n - i,
    {
        out.push(s[i]);
        proof {
            assert(s@.take(i + 1) =~= s@.take(i as int).push(s@[i as int]));
            assert(out@ =~= before + s@.take(i + 1));
        }
        i = i + 1;
    }
    proof {
        assert(s@.take(n as int) =~= s@);
    }
}

#[verifier::loop_isolation(false)]
#[verifier::rlimit(50)]
fn write_value(out: &mut Vec<u8>, v: &Json)
    ensures
        final(out)@ == old(out)@ + ser_value(v@),
    decreases v,
{
    match v {
        Json::Null => {
            out.push(0x6e);
            out.push(0x75);
            out.push(0x6c);
            out.push(0x6c);
            proof {
                assert(final(out)@ =~= old(out)@ + ser_value(v@));
            }
        },
        Json::Bool(b) => {
            if *b {
                out.push(0x74);
                out.push(0x72);
                out.push(0x75);
                out.push(0x65);
            } else {
                out.push(0x66);
                out.push(0x61);
                out.push(0x6c);
                out.push(0x73);
                out.push(0x65);
            }
            proof {
                assert(final(out)@ =~= old(out)@ + ser_value(v@));
            }
        },
        Json::Num(n) => {
            push_bytes(out, n);
        },
        Json::Str(s) => {
            out.push(0x22);
            push_escaped(out, s);
            out.push(0x22);
            proof {
                assert(final(out)@ =~= old(out)@ + ser_value(v@));
            }
        },
        Json::Arr(items) => {
            let ghost iv = v@->Arr_0;
            out.push(0x5b);
            let ghost opened = out@;
            let n = items.len();
            proof {
                lemma_view_items(items@);
                assert(iv.take(0) =~= Seq::<JsonV>::empty());
                assert(opened + ser_items(iv.take(0)) =~= opened);
                assert(iv.len() == n);
                assert(forall|i: int| 0 <= i < n ==> iv[i] == view_json(#[trigger] items@[i]));
            }
            let mut i: usize = 0;
            while i < n
                invariant
                    0 <= i <= n,
                    n == items@.len(),
                    iv.len() == n,
                    forall|j: int| 0 <= j < n ==> iv[j] == view_json(#[trigger] items@[j]),
                    out@ == opened + ser_items(iv.take(i as int)),
                decreases n - i,
            {
                if i > 0 {
                    out.push(0x2c);
                }
                proof {
                    assert(decreases_to!(*v => (*v)->Arr_0));
                    vstd::std_specs::vec::axiom_vec_index_decreases(*items, i as int);
                    assert(decreases_to!(*v => items@[i as int]));
                }
                write_value(out, &items[i]);
                proof {
                    let t = iv.take(i + 1);
                    assert(t.drop_last() =~= iv.take(i as int));
                    assert(t.last() == iv[i as int]);
                    if i == 0 {
                        assert(t.len() == 1);
                        assert(t[0] == iv[0]);
                        assert(out@ =~= opened + ser_value(iv[0]));
                    }
                    assert(out@ =~= opened + ser_items(t));
                }
                i = i + 1;
            }
            out.push(0x5d);
            proof {
                assert(iv.take(n as int) =~= iv);
                assert(final(out)@ =~= old(out)@ + ser_value(v@));
            }
        },
        Json::Obj(fields) => {
            let ghost fv = v@->Obj_0;
            out.push(0x7b);
            let ghost opened = out@;
            let n = fields.len();
            proof {
                lemma_view_fields(fields@);
                assert(fv.take(0) =~= Seq::<(Seq<u8>, JsonV)>::empty());
                assert(opened + ser_fields(fv.take(0)) =~= opened);
                assert(fv.len() == n);
                assert(forall|i: int|
                    0 <= i < n ==> fv[i] == ((#[trigger] fields@[i]).0@, view_json(fields@[i].1)));
            }
            let mut i: usize = 0;
            while i < n
                invariant
                    0 <= i <= n,
                    n == fields@.len(),
                    fv.len() == n,
                    forall|j: int|
                        0 <= j < n ==> fv[j] == ((#[trigger] fields@[j]).0@, view_json(
                            fields@[j].1,
                        )),
                    out@ == opened + ser_fields(fv.take(i as int)),
                decreases n - i,
            {
                if i > 0 {
                    out.push(0x2c);
                }
                out.push(0x22);
                push_escaped(out, &fields[i].0);
                out.push(0x22);
                out.push(0x3a);
                proof {
                    assert(decreases_to!(*v => (*v)->Obj_0));
                    vstd::std_specs::vec::axiom_vec_index_decreases(*fields, i as int);
                    assert(decreases_to!(fields@[i as int] => fields@[i as int].1));
                    assert(decreases_to!(*v => fields@[i as int].1));
                }
                write_value(out, &fields[i].1);
                proof {
                    let t = fv.take(i + 1);
                    assert(t.drop_last() =~= fv.take(i as int));
                    assert(t.last() == fv[i as int]);
                    let entry = seq![0x22u8] + escape_spec(fv[i as int].0) + seq![0x22u8, 0x3au8]
                        + ser_value(fv[i as int].1);
                    if i == 0 {
                        assert(t.len() == 1);
                        assert(out@ =~= opened + entry);
                    } else {
                        assert(out@ =~= opened + ser_fields(fv.take(i as int)) + seq![0x2cu8]
                            + entry);
                        assert(opened + ser_fields(fv.take(i as int)) + seq![0x2cu8] + entry
                            =~= opened + (ser_fields(fv.take(i as int)) + seq![0x2cu8] + entry));
                    }
                    assert(out@ =~= opened + ser_fields(t));
                }
                i = i + 1;
            }
            out.push(0x7d);
            proof {
                assert(fv.take(n as int) =~= fv);
                assert(final(out)@ =~= old(out)@ + ser_value(v@));
            }
        },
    }
}

/// Serializes a JSON value.
pub fn to_json_bytes(v: &Json) -> (r: Vec<u8>)
    ensures
        r@ == ser_value(v@),
{
    let mut out: Vec<u8> = Vec::new();
    write_value(&mut out, v);
    proof {
        assert(out@ =~= ser_value(v@));
    }
    out
}

/// The value of the first field with the given key, if any.
pub open spec fn find_field(fields: Seq<(Seq<u8>, JsonV)>, key: Seq<u8>) -> Option<JsonV>
    decreases fields.len(),
{
    if fields.len() == 0 {
        None
    } else if fields[0].0 == key {
        Some(fields[0].1)
    } else {
        find_field(fields.drop_first(), key)
    }
}

/// Looks up an object field by key.
pub fn get_field<'a>(fields: &'a Vec<(Vec<u8>, Json)>, key: &str) -> (r: Option<&'a Json>)
    ensures
        ({
            let fv = Seq::new(fields@.len(), |i: int| (fields@[i].0@, fields@[i].1@));
            match r {
                Some(v) => find_field(fv, key.spec_bytes()) == Some(v@),
                None => find_field(fv, key.spec_bytes()) is None,
            }
        }),
{
    let kb = key.as_bytes_vec();
    let ghost fv = Seq::new(fields@.len(), |i: int| (fields@[i].0@, fields@[i].1@));
    let n = fields.len();
    let mut i: usize = 0;
    proof {
        assert(fv.skip(0) =~= fv);
    }
    while i < n
        invariant
            0 <= i <= n,
            n == fields@.len(),
            kb@ == key.spec_bytes(),
            fv == Seq::new(fields@.len(), |j: int| (fields@[j].0@, fields@[j].1@)),
            find_field(fv, kb@) == find_field(fv.skip(i as int), kb@),
        decreases n - i,
    {
        proof {
            assert(fv.skip(i as int)[0] == fv[i as int]);
            assert(fv.skip(i as int).drop_first() =~= fv.skip(i + 1));
        }
        if crate::text::bytes_equal(&fields[i].0, &kb) {
            return Some(&fields[i].1);
        }
        i = i + 1;
    }
    proof {
        assert(fv.skip(n as int).len() == 0);
    }
    None
}

} // verus!
