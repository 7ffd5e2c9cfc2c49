//! The redactor: produces a safe, size-bounded, secret-scrubbed textual
//! snippet of a response body for diagnostics. A JSON body has the values
//! of credential-named fields replaced by a fixed placeholder; other text
//! is withheld entirely when it looks sensitive.

use vstd::prelude::*;
use vstd::string::StringSliceAdditionalSpecFns;
use vstd::string::StrSliceExecFns;
use vstd::utf8::{decode_utf8, valid_utf8};
use crate::json::{
    lemma_view_fields, lemma_view_items, parse_json, to_json_bytes, json_tree_of, ser_value,
    view_fields, view_items, view_json, Json, JsonV,
};
use crate::text::bytes_equal;
use crate::transport::{lower_bytes, lower_bytes_exec};

verus! {

broadcast use
    vstd::std_specs::vec::axiom_vec_index_decreases,
    vstd::std_specs::vec::axiom_vec_decreases_to_view,
    vstd::seq::axiom_seq_index_decreases,
    vstd::seq::axiom_seq_subrange_decreases;

/// The fixed placeholder that replaces redacted content.
pub open spec fn placeholder_bytes() -> Seq<u8> {
    "<redacted>".spec_bytes()
}

/// A sensitive object key: one of the fixed credential-related names,
/// compared ASCII-case-insensitively.
pub open spec fn spec_sensitive_key(k: Seq<u8>) -> bool {
    let l = lower_bytes(k);
    ||| l == "accesskeyid".spec_bytes()
    ||| l == "access_key_id".spec_bytes()
    ||| l == "accesskeysecret".spec_bytes()
    ||| l == "access_key_secret".spec_bytes()
    ||| l == "secret".spec_bytes()
    ||| l == "token".spec_bytes()
    ||| l == "securitytoken".spec_bytes()
    ||| l == "security_token".spec_bytes()
    ||| l == "password".spec_bytes()
    ||| l == "authorization".spec_bytes()
    ||| l == "cookie".spec_bytes()
    ||| l == "client_secret".spec_bytes()
}

/// Whether an object key names credential material.
pub fn is_sensitive_key(key: &Vec<u8>) -> (r: bool)
    ensures
        r == spec_sensitive_key(key@),
{
    let l = lower_bytes_exec(key);
    let r = bytes_equal(&l, &"accesskeyid".as_bytes_vec()) || bytes_equal(
        &l,
        &"access_key_id".as_bytes_vec(),
    ) || bytes_equal(&l, &"accesskeysecret".as_bytes_vec()) || bytes_equal(
        &l,
        &"access_key_secret".as_bytes_vec(),
    ) || bytes_equal(&l, &"secret".as_bytes_vec()) || bytes_equal(&l, &"token".as_bytes_vec())
        || bytes_equal(&l, &"securitytoken".as_bytes_vec()) || bytes_equal(
        &l,
        &"security_token".as_bytes_vec(),
    ) || bytes_equal(&l, &"password".as_bytes_vec()) || bytes_equal(
        &l,
        &"authorization".as_bytes_vec(),
    ) || bytes_equal(&l, &"cookie".as_bytes_vec()) || bytes_equal(
        &l,
        &"client_secret".as_bytes_vec(),
    );
    r
}

/// The redacted form of a JSON value: the value of every sensitive object
/// key becomes the placeholder string; everything else is walked
/// recursively.
pub open spec fn redact_tree(v: JsonV) -> JsonV
    decreases v,
{
    match v {
        JsonV::Arr(items) => JsonV::Arr(redact_items(items)),
        JsonV::Obj(fields) => JsonV::Obj(redact_fields(fields)),
        other => other,
    }
}

/// Redacted array elements.
pub open spec fn redact_items(s: Seq<JsonV>) -> Seq<JsonV>
    decreases s,
{
    if s.len() == 0 {
        Seq::empty()
    } else {
        redact_items(s.drop_last()).push(redact_tree(s.last()))
    }
}

/// Redacted object fields.
pub open spec fn redact_fields(s: Seq<(Seq<u8>, JsonV)>) -> Seq<(Seq<u8>, JsonV)>
    decreases s,
{
    if s.len() == 0 {
        Seq::empty()
    } else {
        let p = s.last();
        let entry = if spec_sensitive_key(p.0) {
            (p.0, JsonV::Str(placeholder_bytes()))
        } else {
            (p.0, redact_tree(p.1))
        };
        redact_fields(s.drop_last()).push(entry)
    }
}

proof fn lemma_redact_items(s: Seq<JsonV>)
    ensures
        redact_items(s).len() == s.len(),
        forall|i: int| 0 <= i < s.len() ==> redact_items(s)[i] == redact_tree(#[trigger] s[i]),
    decreases s.len(),
{
    if s.len() > 0 {
        lemma_redact_items(s.drop_last());
        assert forall|i: int| 0 <= i < s.len() implies redact_items(s)[i] == redact_tree(
            #[trigger] s[i],
        ) by {
            if i < s.len() - 1 {
                assert(redact_items(s)[i] == redact_items(s.drop_last())[i]);
                assert(s.drop_last()[i] == s[i]);
            }
        }
    }
}

proof fn lemma_redact_fields(s: Seq<(Seq<u8>, JsonV)>)
    ensures
        redact_fields(s).len() == s.len(),
        forall|i: int|
            0 <= i < s.len() ==> redact_fields(s)[i] == ({
                let p = #[trigger] s[i];
                if spec_sensitive_key(p.0) {
                    (p.0, JsonV::Str(placeholder_bytes()))
                } else {
                    (p.0, redact_tree(p.1))
                }
            }),
    decreases s.len(),
{
    if s.len() > 0 {
        lemma_redact_fields(s.drop_last());
        assert forall|i: int| 0 <= i < s.len() implies redact_fields(s)[i] == ({
            let p = #[trigger] s[i];
            if spec_sensitive_key(p.0) {
                (p.0, JsonV::Str(placeholder_bytes()))
            } else {
                (p.0, redact_tree(p.1))
            }
        }) by {
            if i < s.len() - 1 {
                assert(redact_fields(s)[i] == redact_fields(s.drop_last())[i]);
                assert(s.drop_last()[i] == s[i]);
            }
        }
    }
}

fn copy_bytes(s: &Vec<u8>) -> (r: Vec<u8>)
    ensures
        r@ == s@,
{
    let n = s.len();
    let mut out: Vec<u8> = Vec::new();
    let mut i: usize = 0;
    while i < n
        invariant
            0 <= i <= n,
            n == s@.len(),
            out@ == s@.take(i as int),
        decreases n - i,
    {
        out.push(s[i]);
        proof {
            assert(s@.take(i + 1) =~= s@.take(i as int).push(s@[i as int]));
        }
        i = i + 1;
    }
    proof {
        assert(s@.take(n as int) =~= s@);
    }
    out
}

/// Redacts a JSON value.
#[verifier::loop_isolation(false)]
pub fn redact_json_value(v: &Json) -> (r: Json)
    ensures
        r@ == redact_tree(v@),
    decreases v,
{
    match v {
        Json::Null => Json::Null,
        Json::Bool(b) => Json::Bool(*b),
        Json::Num(n) => Json::Num(copy_bytes(n)),
        Json::Str(s) => Json::Str(copy_bytes(s)),
        Json::Arr(items) => {
            let ghost iv = v@->Arr_0;
            let n = items.len();
            let mut out: Vec<Json> = Vec::new();
            proof {
                lemma_view_items(items@);
                lemma_redact_items(iv);
            }
            let mut i: usize = 0;
            while i < n
                invariant
                    0 <= i <= n,
                    view_items(out@) =~= redact_items(iv).take(i as int),
                decreases n - i,
            {
                proof {
                    assert(decreases_to!(*v => (*v)->Arr_0));
                    vstd::std_specs::vec::axiom_vec_index_decreases(*items, i as int);
                }
                let e = redact_json_value(&items[i]);
                let ghost prev = out@;
                out.push(e);
                proof {
                    assert(out@.drop_last() =~= prev);
                    assert(out@.last() == e);
                    assert(view_items(out@) == view_items(prev).push(e@));
                    assert(redact_items(iv).take(i + 1) =~= redact_items(iv).take(i as int).push(
                        redact_items(iv)[i as int]));
                    assert(redact_items(iv)[i as int] == redact_tree(iv[i as int]));
                    assert(iv[i as int] == view_json(items@[i as int]));
                }
                i = i + 1;
            }
            proof {
                assert(redact_items(iv).take(n as int) =~= redact_items(iv));
                assert(view_json(Json::Arr(out)) == JsonV::Arr(view_items(out@)));
            }
            Json::Arr(out)
        },
        Json::Obj(fields) => {
            let ghost fv = v@->Obj_0;
            let n = fields.len();
            let mut out: Vec<(Vec<u8>, Json)> = Vec::new();
            proof {
                lemma_view_fields(fields@);
                lemma_redact_fields(fv);
            }
            let mut i: usize = 0;
            while i < n
                invariant
                    0 <= i <= n,
                    view_fields(out@) =~= redact_fields(fv).take(i as int),
                decreases n - i,
            {
                let key = copy_bytes(&fields[i].0);
                let entry: (Vec<u8>, Json) = if is_sensitive_key(&key) {
                    (key, Json::Str("<redacted>".as_bytes_vec()))
                } else {
                    proof {
                        assert(decreases_to!(*v => (*v)->Obj_0));
                        vstd::std_specs::vec::axiom_vec_index_decreases(*fields, i as int);
                        assert(decreases_to!(fields@[i as int] => fields@[i as int].1));
                    }
                    let rv = redact_json_value(&fields[i].1);
                    (key, rv)
                };
                let ghost prev = out@;
                let ghost gentry = entry;
                out.push(entry);
                proof {
                    assert(out@.drop_last() =~= prev);
                    assert(out@.last() == gentry);
                    assert(view_fields(out@) == view_fields(prev).push((gentry.0@, gentry.1@)));
                    assert(redact_fields(fv).take(i + 1) =~= redact_fields(fv).take(
                        i as int,
                    ).push(redact_fields(fv)[i as int]));
                    assert(fv[i as int] == (fields@[i as int].0@, view_json(fields@[i as int].1)));
                }
                i = i + 1;
            }
            proof {
                assert(redact_fields(fv).take(n as int) =~= redact_fields(fv));
                assert(view_json(Json::Obj(out)) == JsonV::Obj(view_fields(out@)));
            }
            Json::Obj(out)
        },
    }
}

/// Every sensitive key in the value maps to the placeholder, at every
/// depth.
pub open spec fn fully_redacted(v: JsonV) -> bool
    decreases v,
{
    match v {
        JsonV::Arr(items) => forall|i: int|
            0 <= i < items.len() ==> fully_redacted(#[trigger] items[i]),
        JsonV::Obj(fields) => forall|i: int|
            0 <= i < fields.len() ==> if spec_sensitive_key((#[trigger] fields[i]).0) {
                fields[i].1 == JsonV::Str(placeholder_bytes())
            } else {
                fully_redacted(fields[i].1)
            },
        _ => true,
    }
}

/// Redaction scrubs every credential-named field: whatever the document,
/// the value standing under a sensitive key in the redacted tree is the
/// placeholder, at every depth.
pub proof fn lemma_redaction_scrubs_sensitive_fields(v: JsonV)
    ensures
        fully_redacted(redact_tree(v)),
    decreases v,
{
    match v {
        JsonV::Arr(items) => {
            lemma_redact_items(items);
            assert forall|i: int|
                0 <= i < redact_items(items).len() implies fully_redacted(
                #[trigger] redact_items(items)[i],
            ) by {
                lemma_redaction_scrubs_sensitive_fields(items[i]);
            }
        },
        JsonV::Obj(fields) => {
            lemma_redact_fields(fields);
            assert forall|i: int|
                0 <= i < redact_fields(fields).len() implies ({
                let p = #[trigger] redact_fields(fields)[i];
                if spec_sensitive_key(p.0) {
                    p.1 == JsonV::Str(placeholder_bytes())
                } else {
                    fully_redacted(p.1)
                }
            }) by {
                if !spec_sensitive_key(fields[i].0) {
                    lemma_redaction_scrubs_sensitive_fields(fields[i].1);
                }
            }
        },
        _ => {},
    }
}

/// What lossy UTF-8 decoding yields for a byte sequence; a function of
/// the bytes alone.
pub uninterp spec fn lossy_chars(b: Seq<u8>) -> Seq<char>;

/// Relies on `String::from_utf8_lossy`: decodes UTF-8 text, replacing
/// invalid sequences with the replacement character; valid UTF-8 decodes
/// exactly.
#[verifier::external_body]
pub(crate) fn lossy_string_of_bytes(bytes: &Vec<u8>) -> (r: String)
    ensures
        r@ == lossy_chars(bytes@),
        valid_utf8(bytes@) ==> r@ == decode_utf8(bytes@),
{
    String::from_utf8_lossy(bytes.as_slice()).to_string()
}

/// The needle occurs somewhere in the haystack.
pub open spec fn contains_sub(hay: Seq<u8>, needle: Seq<u8>) -> bool {
    exists|i: int|
        0 <= i && i + needle.len() <= hay.len() && #[trigger] hay.subrange(i, i + needle.len())
            == needle
}

fn window_equal(hay: &Vec<u8>, at: usize, needle: &Vec<u8>) -> (r: bool)
    requires
        at + needle@.len() <= hay@.len(),
    ensures
        r == (hay@.subrange(at as int, at + needle@.len()) == needle@),
{
    let m = needle.len();
    let hlen = hay.len();
    let mut k: usize = 0;
    while k < m
        invariant
            0 <= k <= m,
            m == needle@.len(),
            hlen == hay@.len(),
            at + m <= hlen,
            forall|j: int| 0 <= j < k ==> hay@[at + j] == needle@[j],
        decreases m - k,
    {
        if hay[at + k] != needle[k] {
            proof {
                assert(hay@.subrange(at as int, at + needle@.len())[k as int] == hay@[at + k]);
            }
            return false;
        }
        k = k + 1;
    }
    proof {
        assert(hay@.subrange(at as int, at + needle@.len()) =~= needle@);
    }
    true
}

/// Decides whether the needle occurs in the haystack.
pub fn contains_subslice(hay: &Vec<u8>, needle: &Vec<u8>) -> (r: bool)
    ensures
        r == contains_sub(hay@, needle@),
{
    let hl = hay.len();
    let m = needle.len();
    if m > hl {
        return false;
    }
    if m == 0 {
        proof {
            assert(hay@.subrange(0, 0 + needle@.len() as int) =~= needle@);
        }
        return true;
    }
    let last = hl - m;
    let mut i: usize = 0;
    while i <= last
        invariant
            0 <= i <= last + 1,
            last == hay@.len() - needle@.len(),
            m == needle@.len(),
            0 < m <= hl,
            hl == hay@.len(),
            forall|j: int|
                0 <= j < i ==> #[trigger] hay@.subrange(j, j + needle@.len()) != needle@,
        decreases last + 1 - i,
    {
        if window_equal(hay, i, needle) {
            proof {
                assert(0 <= i as int && i as int + needle@.len() <= hay@.len() && hay@.subrange(
                    i as int,
                    i as int + needle@.len(),
                ) == needle@);
            }
            return true;
        }
        i = i + 1;
    }
    false
}

/// Non-JSON text is withheld when its lowercase form holds one of these
/// credential-related substrings.
pub open spec fn looks_sensitive(lowered: Seq<u8>) -> bool {
    ||| contains_sub(lowered, "accesskey".spec_bytes())
    ||| contains_sub(lowered, "secret".spec_bytes())
    ||| contains_sub(lowered, "token".spec_bytes())
    ||| contains_sub(lowered, "password".spec_bytes())
    ||| contains_sub(lowered, "authorization".spec_bytes())
    ||| contains_sub(lowered, "cookie".spec_bytes())
}

/// The body truncated to the snippet length.
pub open spec fn truncated(bytes: Seq<u8>, max_len: int) -> Seq<u8> {
    if bytes.len() > max_len {
        bytes.take(max_len)
    } else {
        bytes
    }
}

/// The snippet a body yields: nothing for an empty body or a zero bound;
/// a JSON body re-serialized with every credential-named field scrubbed;
/// sensitive-looking text withheld as the placeholder; other text as it
/// stands.
pub open spec fn snippet_spec(bytes: Seq<u8>, max_len: int) -> Option<Seq<char>> {
    if max_len == 0 || bytes.len() == 0 {
        None
    } else {
        let t = truncated(bytes, max_len);
        match json_tree_of(t) {
            Some(v) => Some(lossy_chars(ser_value(redact_tree(v)))),
            None => if looks_sensitive(lower_bytes(t)) {
                Some("<redacted>"@)
            } else {
                Some(lossy_chars(t))
            },
        }
    }
}

/// Produces the safe, size-bounded, secret-scrubbed snippet of a body.
pub fn body_snippet(bytes: &Vec<u8>, max_len: usize) -> (r: Option<String>)
    ensures
        match r {
            Some(s) => snippet_spec(bytes@, max_len as int) == Some(s@),
            None => snippet_spec(bytes@, max_len as int) is None,
        },
{
    if max_len == 0 || bytes.len() == 0 {
        return None;
    }
    let mut t: Vec<u8> = Vec::new();
    let end = if bytes.len() > max_len {
        max_len
    } else {
        bytes.len()
    };
    let mut i: usize = 0;
    while i < end
        invariant
            0 <= i <= end,
            end <= bytes@.len(),
            t@ == bytes@.take(end as int).take(i as int),
        decreases end - i,
    {
        t.push(bytes[i]);
        proof {
            assert(bytes@.take(end as int).take(i + 1) =~= bytes@.take(end as int).take(
                i as int,
            ).push(bytes@[i as int]));
        }
        i = i + 1;
    }
    proof {
        assert(bytes@.take(end as int).take(end as int) =~= bytes@.take(end as int));
        assert(t@ =~= truncated(bytes@, max_len as int));
    }
    match parse_json(&t) {
        Some(v) => {
            let redacted = redact_json_value(&v);
            let out = to_json_bytes(&redacted);
            Some(lossy_string_of_bytes(&out))
        },
        None => {
            let lowered = lower_bytes_exec(&t);
            let sensitive = contains_subslice(&lowered, &"accesskey".as_bytes_vec())
                || contains_subslice(&lowered, &"secret".as_bytes_vec()) || contains_subslice(
                &lowered,
                &"token".as_bytes_vec(),
            ) || contains_subslice(&lowered, &"password".as_bytes_vec()) || contains_subslice(
                &lowered,
                &"authorization".as_bytes_vec(),
            ) || contains_subslice(&lowered, &"cookie".as_bytes_vec());
            if sensitive {
                Some("<redacted>".to_owned())
            } else {
                Some(lossy_string_of_bytes(&t))
            }
        },
    }
}

/// The snippet, or nothing at all when capture is disabled.
pub fn maybe_body_snippet(enabled: bool, bytes: &Vec<u8>, max_len: usize) -> (r: Option<String>)
    ensures
        !enabled ==> r is None,
        enabled ==> match r {
            Some(s) => snippet_spec(bytes@, max_len as int) == Some(s@),
            None => snippet_spec(bytes@, max_len as int) is None,
        },
{
    if !enabled {
        return None;
    }
    body_snippet(bytes, max_len)
}

} // verus!
