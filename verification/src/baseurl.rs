//! Base URLs: validated hierarchical `scheme://authority/path` values with
//! no query or fragment, normalized to end with `/`, and endpoint building
//! by pushing percent-encoded path segments.

use vstd::prelude::*;
use vstd::string::{StrSliceExecFns, StringExecFns, StringSliceAdditionalSpecFns};
use vstd::utf8::{
    decode_utf8_encode_utf8, encode_utf8, encode_utf8_valid_utf8,
    is_char_boundary_iff_not_is_continuation_byte, is_char_boundary_start_end_of_seq, valid_utf8,
    valid_utf8_concat, valid_utf8_split,
};
use crate::error::Error;
use crate::text::{all_ascii, lemma_ascii_decode, string_from_utf8};

verus! {

/// An ASCII letter.
pub open spec fn is_alpha(b: u8) -> bool {
    (0x41 <= b <= 0x5a) || (0x61 <= b <= 0x7a)
}

/// A byte allowed in a URL scheme.
pub open spec fn is_scheme_byte(b: u8) -> bool {
    is_alpha(b) || (0x30 <= b <= 0x39) || b == 0x2b || b == 0x2d || b == 0x2e
}

/// A well-formed scheme: nonempty, starting with a letter.
pub open spec fn valid_scheme(s: Seq<u8>) -> bool {
    s.len() > 0 && is_alpha(s[0]) && forall|i: int| 0 <= i < s.len() ==> is_scheme_byte(#[trigger] s[i])
}

/// The first position at or after `from` holding the byte.
pub open spec fn find_byte(s: Seq<u8>, b: u8, from: int) -> Option<int>
    decreases s.len() - from,
{
    if from < 0 || from >= s.len() {
        None
    } else if s[from] == b {
        Some(from)
    } else {
        find_byte(s, b, from + 1)
    }
}

fn find_byte_exec(s: &Vec<u8>, b: u8, from: usize) -> (r: Option<usize>)
    ensures
        match r {
            Some(i) => find_byte(s@, b, from as int) == Some(i as int) && from <= i < s@.len()
                && s@[i as int] == b,
            None => find_byte(s@, b, from as int) is None,
        },
{
    let n = s.len();
    let mut i: usize = from;
    while i < n
        invariant
            from <= i,
            n == s@.len(),
            find_byte(s@, b, from as int) == find_byte(s@, b, i as int),
        decreases n - i,
    {
        if s[i] == b {
            proof {
                assert(find_byte(s@, b, i as int) == Some(i as int));
            }
            return Some(i);
        }
        i = i + 1;
    }
    None
}

/// What parsing a base URL yields: the `scheme://authority` prefix and the
/// path normalized to end with `/`. Nothing, when the text holds a query
/// or fragment, lacks the hierarchical form, has an invalid scheme, or has
/// an empty authority.
pub open spec fn parse_base_url_spec(s: Seq<u8>) -> Option<(Seq<u8>, Seq<u8>)> {
    if find_byte(s, 0x3f, 0) is Some || find_byte(s, 0x23, 0) is Some {
        None
    } else {
        match find_byte(s, 0x3a, 0) {
            None => None,
            Some(i) => if !valid_scheme(s.take(i)) {
                None
            } else if i + 3 > s.len() || s[i + 1] != 0x2f || s[i + 2] != 0x2f {
                None
            } else {
                let rest = s.skip(i + 3);
                let auth_end = match find_byte(rest, 0x2f, 0) {
                    Some(j) => j,
                    None => rest.len() as int,
                };
                if auth_end == 0 {
                    None
                } else {
                    let prefix = s.take(i + 3 + auth_end);
                    let raw_path = rest.skip(auth_end);
                    let path = if raw_path.len() == 0 {
                        seq![0x2fu8]
                    } else if raw_path.last() == 0x2f {
                        raw_path
                    } else {
                        raw_path.push(0x2f)
                    };
                    Some((prefix, path))
                }
            },
        }
    }
}

/// A validated base URL: `scheme://authority` and a path that begins and
/// ends with `/`.
#[derive(Clone, Debug)]
pub struct BaseUrl {
    prefix: String,
    path: String,
}

impl BaseUrl {
    /// The UTF-8 bytes of the `scheme://authority` prefix.
    pub closed spec fn prefix_bytes(&self) -> Seq<u8> {
        encode_utf8(self.prefix@)
    }

    /// The UTF-8 bytes of the path.
    pub closed spec fn path_bytes(&self) -> Seq<u8> {
        encode_utf8(self.path@)
    }

    /// The path begins and ends with `/`.
    pub open spec fn wf(&self) -> bool {
        &&& self.path_bytes().len() > 0
        &&& self.path_bytes().first() == 0x2f
        &&& self.path_bytes().last() == 0x2f
    }

    /// The whole URL.
    pub fn as_string(&self) -> (r: String)
        ensures
            encode_utf8(r@) == self.prefix_bytes() + self.path_bytes(),
    {
        let r = self.prefix.clone().concat(self.path.as_str());
        proof {
            crate::baseurl::lemma_encode_concat(self.prefix@, self.path@);
        }
        r
    }

    /// The path alone.
    pub fn path_string(&self) -> (r: String)
        ensures
            encode_utf8(r@) == self.path_bytes(),
    {
        self.path.clone()
    }
}

/// UTF-8 encoding distributes over concatenation.
pub proof fn lemma_encode_concat(a: Seq<char>, b: Seq<char>)
    ensures
        encode_utf8(a + b) == encode_utf8(a) + encode_utf8(b),
    decreases a.len(),
{
    if a.len() == 0 {
        assert(a + b =~= b);
        assert(encode_utf8(a) + encode_utf8(b) =~= encode_utf8(b));
    } else {
        assert((a + b).first() == a.first());
        assert((a + b).drop_first() =~= a.drop_first() + b);
        lemma_encode_concat(a.drop_first(), b);
        assert(vstd::utf8::encode_scalar(a.first() as u32) + (encode_utf8(a.drop_first())
            + encode_utf8(b)) =~= (vstd::utf8::encode_scalar(a.first() as u32) + encode_utf8(
            a.drop_first(),
        )) + encode_utf8(b));
    }
}

/// Parses and validates a base URL: it must be hierarchical
/// (`scheme://authority...`) with no query or fragment; the path is
/// normalized to end with `/`. Anything else is a configuration error.
pub fn parse_base_url(value: &str) -> (r: Result<BaseUrl, Error>)
    ensures
        match r {
            Ok(b) => parse_base_url_spec(value.spec_bytes()) == Some(
                (b.prefix_bytes(), b.path_bytes()),
            ) && b.wf(),
            Err(e) => parse_base_url_spec(value.spec_bytes()) is None && e is InvalidConfig,
        },
{
    let s = value.as_bytes_vec();
    proof {
        encode_utf8_valid_utf8(value@);
    }
    if find_byte_exec(&s, 0x3f, 0).is_some() || find_byte_exec(&s, 0x23, 0).is_some() {
        return Err(Error::invalid_config("base url must not include query or fragment".to_owned()));
    }
    let i = match find_byte_exec(&s, 0x3a, 0) {
        Some(i) => i,
        None => {
            return Err(Error::invalid_config("invalid base url".to_owned()));
        },
    };
    // Scheme check.
    let mut ok: bool = i > 0 && {
        let b0 = s[0];
        (0x41 <= b0 && b0 <= 0x5a) || (0x61 <= b0 && b0 <= 0x7a)
    };
    let mut k: usize = 0;
    while k < i
        invariant
            0 <= k <= i < s@.len(),
            ok == (i > 0 && is_alpha(s@[0]) && forall|j: int|
                0 <= j < k ==> is_scheme_byte(#[trigger] s@[j])),
        decreases i - k,
    {
        let b = s[k];
        let sb = (0x41 <= b && b <= 0x5a) || (0x61 <= b && b <= 0x7a) || (0x30 <= b && b <= 0x39)
            || b == 0x2b || b == 0x2d || b == 0x2e;
        ok = ok && sb;
        k = k + 1;
    }
    proof {
        assert(s@.take(i as int).len() == i);
        assert(forall|j: int| 0 <= j < i ==> s@.take(i as int)[j] == s@[j]);
        if i > 0 {
            assert(s@.take(i as int)[0] == s@[0]);
        }
        assert(ok == valid_scheme(s@.take(i as int)));
    }
    if !ok {
        return Err(Error::invalid_config("invalid base url".to_owned()));
    }
    if s.len() - i < 3 || s[i + 1] != 0x2f || s[i + 2] != 0x2f {
        return Err(Error::invalid_config("invalid base url".to_owned()));
    }
    let ghost rest = s@.skip(i + 3);
    let auth_end: usize = match find_byte_exec(&s, 0x2f, i + 3) {
        Some(j) => {
            proof {
                lemma_find_byte_skip(s@, 0x2f, i + 3);
            }
            j - (i + 3)
        },
        None => {
            proof {
                lemma_find_byte_skip(s@, 0x2f, i + 3);
            }
            s.len() - (i + 3)
        },
    };
    if auth_end == 0 {
        return Err(Error::invalid_config("invalid base url".to_owned()));
    }
    let split_at: usize = i + 3 + auth_end;
    // The prefix and raw path are valid UTF-8: the split point is the end
    // of the text or an ASCII `/`.
    proof {
        if split_at < s@.len() {
            assert(s@[split_at as int] == 0x2f);
            is_char_boundary_iff_not_is_continuation_byte(s@, split_at as int);
            assert(!vstd::utf8::is_continuation_byte(0x2fu8)) by (bit_vector);
        } else {
            is_char_boundary_start_end_of_seq(s@);
        }
        valid_utf8_split(s@, split_at as int);
        assert(s@.subrange(0, split_at as int) =~= s@.take(split_at as int));
        assert(s@.subrange(split_at as int, s@.len() as int) =~= s@.skip(split_at as int));
        assert(s@.skip(split_at as int) =~= rest.skip(auth_end as int));
    }
    let mut prefix_bytes: Vec<u8> = Vec::new();
    let mut k2: usize = 0;
    while k2 < split_at
        invariant
            0 <= k2 <= split_at <= s@.len(),
            prefix_bytes@ == s@.take(split_at as int).take(k2 as int),
        decreases split_at - k2,
    {
        prefix_bytes.push(s[k2]);
        proof {
            assert(s@.take(split_at as int).take(k2 + 1) =~= s@.take(split_at as int).take(
                k2 as int,
            ).push(s@[k2 as int]));
        }
        k2 = k2 + 1;
    }
    proof {
        assert(prefix_bytes@ =~= s@.take(split_at as int));
    }
    let mut path_bytes: Vec<u8> = Vec::new();
    let n = s.len();
    let mut k3: usize = split_at;
    proof {
        assert(s@.skip(split_at as int).take(0) =~= Seq::<u8>::empty());
    }
    while k3 < n
        invariant
            split_at <= k3 <= n,
            n == s@.len(),
            path_bytes@ == s@.skip(split_at as int).take(k3 - split_at as int),
        decreases n - k3,
    {
        path_bytes.push(s[k3]);
        proof {
            let raw = s@.skip(split_at as int);
            assert(raw.take(k3 + 1 - split_at as int) =~= raw.take(k3 - split_at as int).push(
                raw[k3 - split_at as int]));
            assert(raw[k3 - split_at as int] == s@[k3 as int]);
        }
        k3 = k3 + 1;
    }
    proof {
        assert(path_bytes@ =~= s@.skip(split_at as int));
        assert(s@.skip(split_at as int) =~= rest.skip(auth_end as int));
    }
    let ghost raw = rest.skip(auth_end as int);
    if path_bytes.len() == 0 {
        path_bytes.push(0x2f);
        proof {
            assert(path_bytes@ =~= seq![0x2fu8]);
            lemma_ascii_decode(seq![0x2fu8]);
        }
    } else if path_bytes[path_bytes.len() - 1] != 0x2f {
        path_bytes.push(0x2f);
        proof {
            assert(path_bytes@ =~= raw + seq![0x2fu8]);
            lemma_ascii_decode(seq![0x2fu8]);
            valid_utf8_concat(raw, seq![0x2fu8]);
            assert(raw.push(0x2f) =~= raw + seq![0x2fu8]);
        }
    }
    proof {
        let path_spec = if raw.len() == 0 {
            seq![0x2fu8]
        } else if raw.last() == 0x2f {
            raw
        } else {
            raw.push(0x2f)
        };
        assert(path_bytes@ =~= path_spec);
        assert(valid_utf8(prefix_bytes@));
        assert(valid_utf8(path_bytes@));
        // The path begins with `/`: the raw path is empty or starts at a
        // `/` found in the text.
        if raw.len() > 0 {
            assert(split_at < s@.len());
            assert(raw.first() == s@[split_at as int]);
        }
    }
    let ghost prefix_ghost = prefix_bytes@;
    let ghost path_ghost = path_bytes@;
    let prefix = string_from_utf8(prefix_bytes);
    let path = string_from_utf8(path_bytes);
    let b = BaseUrl { prefix, path };
    proof {
        decode_utf8_encode_utf8(prefix_ghost);
        decode_utf8_encode_utf8(path_ghost);
        assert(b.prefix_bytes() == prefix_ghost);
        assert(b.path_bytes() == path_ghost);
        assert(prefix_ghost == s@.take(split_at as int));
    }
    Ok(b)
}

/// Finding a byte from an offset is finding it in the suffix, shifted.
proof fn lemma_find_byte_skip_gen(s: Seq<u8>, b: u8, from: int, k: int)
    requires
        0 <= from <= s.len(),
        0 <= k,
    ensures
        match find_byte(s, b, from + k) {
            Some(i) => find_byte(s.skip(from), b, k) == Some(i - from),
            None => find_byte(s.skip(from), b, k) is None,
        },
    decreases s.len() - (from + k),
{
    let t = s.skip(from);
    if from + k < s.len() {
        assert(t[k] == s[from + k]);
        if s[from + k] != b {
            lemma_find_byte_skip_gen(s, b, from, k + 1);
        }
    }
}

/// Finding a byte from an offset is finding it in the suffix.
proof fn lemma_find_byte_skip(s: Seq<u8>, b: u8, from: int)
    requires
        0 <= from <= s.len(),
    ensures
        match find_byte(s, b, from) {
            Some(i) => find_byte(s.skip(from), b, 0) == Some(i - from),
            None => find_byte(s.skip(from), b, 0) is None,
        },
{
    lemma_find_byte_skip_gen(s, b, from, 0);
}

/// A byte kept as itself in a pushed path segment: printable ASCII except
/// space, `"`, `#`, `<`, `>`, `?`, `\u{60}`, `{`, `}`, `%` and `/`.
pub open spec fn is_seg_plain(b: u8) -> bool {
    &&& 0x20 < b < 0x7f
    &&& b != 0x22
    &&& b != 0x23
    &&& b != 0x3c
    &&& b != 0x3e
    &&& b != 0x3f
    &&& b != 0x60
    &&& b != 0x7b
    &&& b != 0x7d
    &&& b != 0x25
    &&& b != 0x2f
}

/// The encoding of one path segment byte.
pub open spec fn seg_encode_byte(b: u8) -> Seq<u8> {
    if is_seg_plain(b) {
        seq![b]
    } else {
        seq![0x25u8, crate::encode::hex_upper(b / 16), crate::encode::hex_upper(b % 16)]
    }
}

/// The percent-encoding of a path segment.
pub open spec fn seg_encode(s: Seq<u8>) -> Seq<u8>
    decreases s.len(),
{
    if s.len() == 0 {
        seq![]
    } else {
        seg_encode_byte(s.first()) + seg_encode(s.drop_first())
    }
}

proof fn lemma_seg_encode_push(s: Seq<u8>, b: u8)
    ensures
        seg_encode(s.push(b)) == seg_encode(s) + seg_encode_byte(b),
    decreases s.len(),
{
    if s.len() == 0 {
        assert(s.push(b) =~= seq![b]);
        assert(seq![b].drop_first() =~= Seq::<u8>::empty());
        assert(seg_encode(s) + seg_encode_byte(b) =~= seg_encode_byte(b) + seg_encode(
            Seq::<u8>::empty(),
        ));
    } else {
        assert(s.push(b).first() == s.first());
        assert(s.push(b).drop_first() =~= s.drop_first().push(b));
        lemma_seg_encode_push(s.drop_first(), b);
        assert(seg_encode_byte(s.first()) + (seg_encode(s.drop_first()) + seg_encode_byte(b))
            =~= (seg_encode_byte(s.first()) + seg_encode(s.drop_first())) + seg_encode_byte(b));
    }
}

proof fn lemma_seg_encode_ascii(s: Seq<u8>)
    ensures
        all_ascii(seg_encode(s)),
    decreases s.len(),
{
    if s.len() > 0 {
        lemma_seg_encode_ascii(s.drop_first());
        assert(all_ascii(seg_encode_byte(s.first())));
    }
}

/// The byte sequences of a list of segment strings.
pub open spec fn seg_views(segs: Seq<String>) -> Seq<Seq<u8>> {
    segs.map_values(|s: String| encode_utf8(s@))
}

/// Appended, encoded segments: `/segment` for each, in order.
pub open spec fn seg_join(segs: Seq<Seq<u8>>) -> Seq<u8>
    decreases segs.len(),
{
    if segs.len() == 0 {
        seq![]
    } else {
        seg_join(segs.drop_last()) + seq![0x2fu8] + seg_encode(segs.last())
    }
}

proof fn lemma_seg_join_ascii(segs: Seq<Seq<u8>>)
    ensures
        all_ascii(seg_join(segs)),
    decreases segs.len(),
{
    if segs.len() > 0 {
        lemma_seg_join_ascii(segs.drop_last());
        lemma_seg_encode_ascii(segs.last());
    }
}

/// The endpoint path for a base path and pushed segments: the base path
/// without its trailing empty segment, then `/segment` for each pushed
/// segment, percent-encoded; with nothing pushed, a bare authority keeps
/// the root path.
pub open spec fn endpoint_path_spec(path: Seq<u8>, segs: Seq<Seq<u8>>) -> Seq<u8> {
    let popped = path.drop_last();
    if segs.len() == 0 && popped.len() == 0 {
        seq![0x2fu8]
    } else {
        popped + seg_join(segs)
    }
}

fn push_seg_encoded(out: &mut Vec<u8>, seg: &Vec<u8>)
    ensures
        final(out)@ == old(out)@ + seg_encode(seg@),
{
    let ghost before = out@;
    let n = seg.len();
    proof {
        assert(seg@.take(0) =~= Seq::<u8>::empty());
        assert(before + seg_encode(seg@.take(0)) =~= before);
    }
    let mut i: usize = 0;
    while i < n
        invariant
            0 <= i <= n,
            n == seg@.len(),
            out@ == before + seg_encode(seg@.take(i as int)),
        decreases n - i,
    {
        let b = seg[i];
        let plain = 0x20 < b && b < 0x7f && b != 0x22 && b != 0x23 && b != 0x3c && b != 0x3e && b
            != 0x3f && b != 0x60 && b != 0x7b && b != 0x7d && b != 0x25 && b != 0x2f;
        if plain {
            out.push(b);
        } else {
            out.push(0x25);
            out.push(crate::encode::hex_upper_byte(b / 16));
            out.push(crate::encode::hex_upper_byte(b % 16));
        }
        proof {
            assert(seg@.take(i + 1) =~= seg@.take(i as int).push(seg@[i as int]));
            lemma_seg_encode_push(seg@.take(i as int), seg@[i as int]);
            assert(out@ =~= before + seg_encode(seg@.take(i + 1)));
        }
        i = i + 1;
    }
    proof {
        assert(seg@.take(n as int) =~= seg@);
    }
}

/// Builds an endpoint URL under a base URL: drops the base path's trailing
/// empty segment and pushes each segment, percent-encoded. Returns the
/// full URL and its path.
pub fn endpoint(base: &BaseUrl, segments: &Vec<String>) -> (r: Result<(String, String), Error>)
    requires
        base.wf(),
    ensures
        r matches Ok(p) && encode_utf8(p.1@) == endpoint_path_spec(
            base.path_bytes(),
            seg_views(segments@),
        ) && encode_utf8(p.0@) == base.prefix_bytes() + encode_utf8(p.1@),
{
    let pb = base.path.as_str().as_bytes_vec();
    let ghost pbs = base.path_bytes();
    // Copy the path without its final `/`.
    let mut path_bytes: Vec<u8> = Vec::new();
    let end = pb.len() - 1;
    let mut i: usize = 0;
    proof {
        assert(pbs.take(0) =~= Seq::<u8>::empty());
    }
    while i < end
        invariant
            0 <= i <= end,
            end == pbs.len() - 1,
            pb@ == pbs,
            path_bytes@ == pbs.take(i as int),
        decreases end - i,
    {
        path_bytes.push(pb[i]);
        proof {
            assert(pbs.take(i + 1) =~= pbs.take(i as int).push(pbs[i as int]));
        }
        i = i + 1;
    }
    proof {
        assert(path_bytes@ =~= pbs.drop_last());
    }
    let ghost popped = pbs.drop_last();
    let nsegs = segments.len();
    if nsegs == 0 && path_bytes.len() == 0 {
        path_bytes.push(0x2f);
        proof {
            assert(path_bytes@ =~= seq![0x2fu8]);
        }
    } else {
        let mut j: usize = 0;
        proof {
            assert(seg_views(segments@).take(0) =~= Seq::<Seq<u8>>::empty());
            assert(popped + seg_join(seg_views(segments@).take(0)) =~= popped);
        }
        while j < nsegs
            invariant
                0 <= j <= nsegs,
                nsegs == segments@.len(),
                popped == pbs.drop_last(),
                path_bytes@ == popped + seg_join(seg_views(segments@).take(j as int)),
            decreases nsegs - j,
        {
            path_bytes.push(0x2f);
            let seg = segments[j].as_str().as_bytes_vec();
            push_seg_encoded(&mut path_bytes, &seg);
            proof {
                let sv = seg_views(segments@);
                assert(sv.take(j + 1).drop_last() =~= sv.take(j as int));
                assert(sv.take(j + 1).last() == sv[j as int]);
                assert(sv[j as int] == encode_utf8(segments@[j as int]@));
                assert(seg@ == encode_utf8(segments@[j as int]@));
                assert(path_bytes@ =~= popped + seg_join(sv.take(j as int)) + seq![0x2fu8]
                    + seg_encode(sv[j as int]));
                assert(popped + seg_join(sv.take(j as int)) + seq![0x2fu8] + seg_encode(
                    sv[j as int],
                ) =~= popped + (seg_join(sv.take(j as int)) + seq![0x2fu8] + seg_encode(
                    sv[j as int],
                )));
                assert(path_bytes@ =~= popped + seg_join(sv.take(j + 1)));
            }
            j = j + 1;
        }
        proof {
            assert(seg_views(segments@).take(nsegs as int) =~= seg_views(segments@));
        }
    }
    proof {
        // The result is valid UTF-8: the popped prefix splits the path at
        // its final `/`, and everything appended is ASCII.
        encode_utf8_valid_utf8(base.path@);
        is_char_boundary_iff_not_is_continuation_byte(pbs, pbs.len() - 1);
        assert(pbs.last() == 0x2f);
        assert(!vstd::utf8::is_continuation_byte(0x2fu8)) by (bit_vector);
        valid_utf8_split(pbs, pbs.len() - 1);
        assert(pbs.subrange(0, pbs.len() - 1) =~= popped);
        assert(valid_utf8(popped));
        if segments@.len() == 0 && popped.len() == 0 {
            lemma_ascii_decode(seq![0x2fu8]);
        } else {
            let tail = seg_join(seg_views(segments@));
            lemma_seg_join_ascii(seg_views(segments@));
            lemma_ascii_decode(tail);
            valid_utf8_concat(popped, tail);
        }
        assert(valid_utf8(path_bytes@));
    }
    let ghost path_ghost = path_bytes@;
    let path = string_from_utf8(path_bytes);
    let full = base.prefix.clone().concat(path.as_str());
    proof {
        decode_utf8_encode_utf8(path_ghost);
        lemma_encode_concat(base.prefix@, path@);
    }
    Ok((full, path))
}

} // verus!
