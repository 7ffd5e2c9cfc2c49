//! The request parameter map: unique keys held in byte-wise lexicographic
//! order, and its serialization as the canonical query string that signing
//! operates on.

use vstd::prelude::*;
use vstd::string::{StrSliceExecFns, StringSliceAdditionalSpecFns};
use crate::text::{
    all_ascii, ascii_chars, ascii_string, bytes_equal, lemma_lex_transitive, lemma_lex_trichotomy,
    lex_less, lex_lt,
};
use crate::encode::{lemma_percent_encode_ascii, percent_encode_bytes, percent_encode_spec};

verus! {

/// Entry keys are strictly increasing in byte-wise lexicographic order.
pub open spec fn keys_sorted(s: Seq<(Seq<u8>, Seq<u8>)>) -> bool {
    forall|i: int, j: int| 0 <= i < j < s.len() ==> lex_lt(s[i].0, s[j].0)
}

/// The association map held by an entry sequence; a later entry for a key
/// overrides an earlier one.
pub open spec fn entries_map(s: Seq<(Seq<u8>, Seq<u8>)>) -> Map<Seq<u8>, Seq<u8>>
    decreases s.len(),
{
    if s.len() == 0 {
        Map::empty()
    } else {
        entries_map(s.drop_last()).insert(s.last().0, s.last().1)
    }
}

/// A key is in the map exactly when some entry holds it.
pub proof fn lemma_entries_map_contains(s: Seq<(Seq<u8>, Seq<u8>)>, k: Seq<u8>)
    ensures
        entries_map(s).contains_key(k) <==> exists|i: int| 0 <= i < s.len() && s[i].0 == k,
    decreases s.len(),
{
    if s.len() > 0 {
        lemma_entries_map_contains(s.drop_last(), k);
        if entries_map(s).contains_key(k) {
            if s.last().0 == k {
                assert(s[s.len() - 1].0 == k);
            } else {
                let i = choose|i: int| 0 <= i < s.drop_last().len() && s.drop_last()[i].0 == k;
                assert(s[i].0 == k);
            }
        }
        if exists|i: int| 0 <= i < s.len() && s[i].0 == k {
            let i = choose|i: int| 0 <= i < s.len() && s[i].0 == k;
            if i < s.len() - 1 {
                assert(s.drop_last()[i].0 == k);
            }
        }
    }
}

proof fn lemma_entries_map_push(s: Seq<(Seq<u8>, Seq<u8>)>, p: (Seq<u8>, Seq<u8>))
    ensures
        entries_map(s.push(p)) == entries_map(s).insert(p.0, p.1),
{
    assert(s.push(p).drop_last() =~= s);
    assert(s.push(p).last() == p);
}

proof fn lemma_entries_map_insert_at(s: Seq<(Seq<u8>, Seq<u8>)>, i: int, p: (Seq<u8>, Seq<u8>))
    requires
        0 <= i <= s.len(),
        forall|j: int| 0 <= j < s.len() ==> (#[trigger] s[j]).0 != p.0,
    ensures
        entries_map(s.insert(i, p)) == entries_map(s).insert(p.0, p.1),
    decreases s.len(),
{
    if i == s.len() {
        assert(s.insert(i, p) =~= s.push(p));
        lemma_entries_map_push(s, p);
    } else {
        let t = s.insert(i, p);
        let last = s.last();
        assert(t.last() == last);
        assert(t.drop_last() =~= s.drop_last().insert(i, p));
        assert(forall|j: int|
            0 <= j < s.drop_last().len() ==> (#[trigger] s.drop_last()[j]).0 == s[j].0);
        lemma_entries_map_insert_at(s.drop_last(), i, p);
        assert(last.0 != p.0);
        assert(entries_map(t) == entries_map(s.drop_last()).insert(p.0, p.1).insert(
            last.0,
            last.1,
        ));
        assert(entries_map(s.drop_last()).insert(p.0, p.1).insert(last.0, last.1)
            =~= entries_map(s.drop_last()).insert(last.0, last.1).insert(p.0, p.1));
    }
}

proof fn lemma_entries_map_update_at(s: Seq<(Seq<u8>, Seq<u8>)>, i: int, v: Seq<u8>)
    requires
        0 <= i < s.len(),
        forall|j: int| 0 <= j < s.len() && j != i ==> (#[trigger] s[j]).0 != s[i].0,
    ensures
        entries_map(s.update(i, (s[i].0, v))) == entries_map(s).insert(s[i].0, v),
    decreases s.len(),
{
    let k = s[i].0;
    let t = s.update(i, (k, v));
    if i == s.len() - 1 {
        assert(t.drop_last() =~= s.drop_last());
        assert(t.last() == (k, v));
        assert(entries_map(s).insert(k, v) =~= entries_map(s.drop_last()).insert(k, v));
    } else {
        let last = s.last();
        assert(t.last() == last);
        assert(t.drop_last() =~= s.drop_last().update(i, (k, v)));
        assert(forall|j: int|
            0 <= j < s.drop_last().len() ==> (#[trigger] s.drop_last()[j]).0 == s[j].0);
        lemma_entries_map_update_at(s.drop_last(), i, v);
        assert(last.0 != k);
        assert(entries_map(s.drop_last()).insert(k, v).insert(last.0, last.1) =~= entries_map(
            s.drop_last(),
        ).insert(last.0, last.1).insert(k, v));
    }
}

fn copy_bytes(s: &Vec<u8>) -> (r: Vec<u8>)
    ensures
        r@ == s@,
{
    let n = s.len();
    let mut out: Vec<u8> = Vec::new();
    let mut i: usize = 0;
    while i < n
        invariant
            0 <= i <= n,
            n == s@.len(),
            out@ == s@.take(i as int),
        decreases n - i,
    {
        out.push(s[i]);
        proof {
            assert(s@.take(i + 1) =~= s@.take(i as int).push(s@[i as int]));
        }
        i = i + 1;
    }
    proof {
        assert(s@.take(n as int) =~= s@);
    }
    out
}

/// A map of request parameters: unique byte-string keys, kept sorted in
/// byte-wise lexicographic order, each with a byte-string value.
pub struct ParamMap {
    entries: Vec<(Vec<u8>, Vec<u8>)>,
}

impl View for ParamMap {
    type V = Map<Seq<u8>, Seq<u8>>;

    closed spec fn view(&self) -> Map<Seq<u8>, Seq<u8>> {
        entries_map(self.entries_seq())
    }
}

impl ParamMap {
    /// The entries as ghost sequences, in storage order.
    pub closed spec fn entries_seq(&self) -> Seq<(Seq<u8>, Seq<u8>)> {
        self.entries@.map_values(|p: (Vec<u8>, Vec<u8>)| (p.0@, p.1@))
    }

    /// Well-formed: keys strictly sorted, hence unique.
    pub closed spec fn wf(&self) -> bool {
        keys_sorted(self.entries_seq())
    }

    /// An empty parameter map.
    pub fn new() -> (r: ParamMap)
        ensures
            r.wf(),
            r@ == Map::<Seq<u8>, Seq<u8>>::empty(),
            r.entries_seq() == Seq::<(Seq<u8>, Seq<u8>)>::empty(),
    {
        let r = ParamMap { entries: Vec::new() };
        proof {
            assert(r.entries_seq() =~= Seq::<(Seq<u8>, Seq<u8>)>::empty());
        }
        r
    }

    /// Whether the map holds the key.
    pub fn contains_key(&self, key: &str) -> (r: bool)
        ensures
            r == self@.contains_key(key.spec_bytes()),
    {
        let kb = key.as_bytes_vec();
        let n = self.entries.len();
        let mut i: usize = 0;
        while i < n
            invariant
                0 <= i <= n,
                n == self.entries@.len(),
                kb@ == key.spec_bytes(),
                forall|j: int| 0 <= j < i ==> (#[trigger] self.entries_seq()[j]).0 != kb@,
            decreases n - i,
        {
            if bytes_equal(&self.entries[i].0, &kb) {
                proof {
                    assert(self.entries_seq()[i as int].0 == kb@);
                    lemma_entries_map_contains(self.entries_seq(), kb@);
                }
                return true;
            }
            proof {
                assert(self.entries_seq()[i as int].0 == self.entries@[i as int].0@);
            }
            i = i + 1;
        }
        proof {
            lemma_entries_map_contains(self.entries_seq(), kb@);
        }
        false
    }

    /// A copy of the map, entry for entry. Retry attempts sign a fresh
    /// copy of the caller's parameters.
    pub fn duplicate(&self) -> (r: ParamMap)
        ensures
            r.entries_seq() == self.entries_seq(),
            r@ == self@,
            r.wf() == self.wf(),
            r.canonical_spec() == self.canonical_spec(),
    {
        let n = self.entries.len();
        let mut entries: Vec<(Vec<u8>, Vec<u8>)> = Vec::new();
        let mut i: usize = 0;
        while i < n
            invariant
                0 <= i <= n,
                n == self.entries@.len(),
                entries@.len() == i,
                forall|j: int|
                    0 <= j < i ==> (#[trigger] entries@[j]).0@ == self.entries@[j].0@
                        && entries@[j].1@ == self.entries@[j].1@,
            decreases n - i,
        {
            let k = copy_bytes(&self.entries[i].0);
            let v = copy_bytes(&self.entries[i].1);
            entries.push((k, v));
            i = i + 1;
        }
        let r = ParamMap { entries };
        proof {
            assert(r.entries_seq() =~= self.entries_seq());
        }
        r
    }

    /// Inserts a parameter, replacing any existing value for the key.
    pub fn insert(&mut self, key: &str, value: &str)
        requires
            old(self).wf(),
        ensures
            final(self).wf(),
            final(self)@ == old(self)@.insert(key.spec_bytes(), value.spec_bytes()),
    {
        let kb = key.as_bytes_vec();
        let vb = value.as_bytes_vec();
        let ghost s = self.entries_seq();
        let n = self.entries.len();
        let mut i: usize = 0;
        while i < n && lex_less(&self.entries[i].0, &kb)
            invariant
                0 <= i <= n,
                n == self.entries@.len(),
                kb@ == key.spec_bytes(),
                s == self.entries_seq(),
                forall|j: int| 0 <= j < i ==> lex_lt((#[trigger] s[j]).0, kb@),
            decreases n - i,
        {
            proof {
                assert(s[i as int].0 == self.entries@[i as int].0@);
            }
            i = i + 1;
        }
        proof {
            assert(forall|j: int| 0 <= j < s.len() ==> (#[trigger] s[j]).0 == self.entries@[j].0@);
        }
        if i < n && bytes_equal(&self.entries[i].0, &kb) {
            // Replace the value of an existing key.
            proof {
                assert(s[i as int].0 == kb@);
                assert forall|j: int| 0 <= j < s.len() && j != i implies (#[trigger] s[j]).0
                    != s[i as int].0 by {
                    if j < i {
                        lemma_lex_trichotomy(s[j].0, s[i as int].0);
                    } else {
                        assert(lex_lt(s[i as int].0, s[j].0));
                        lemma_lex_trichotomy(s[i as int].0, s[j].0);
                    }
                }
                lemma_entries_map_update_at(s, i as int, vb@);
            }
            self.entries.remove(i);
            self.entries.insert(i, (kb, vb));
            proof {
                assert(self.entries_seq() =~= s.update(i as int, (kb@, vb@)));
                assert forall|a: int, b: int|
                    0 <= a < b < self.entries_seq().len() implies lex_lt(
                    (#[trigger] self.entries_seq()[a]).0,
                    (#[trigger] self.entries_seq()[b]).0,
                ) by {
                    assert(self.entries_seq()[a].0 == s[a].0);
                    assert(self.entries_seq()[b].0 == s[b].0);
                }
            }
        } else {
            // A fresh key: insert it in order.
            proof {
                assert forall|j: int| i <= j < s.len() implies !lex_lt(
                    (#[trigger] s[j]).0,
                    kb@,
                ) && s[j].0 != kb@ by {
                    if j > i {
                        assert(lex_lt(s[i as int].0, s[j].0));
                        if lex_lt(s[j].0, kb@) {
                            lemma_lex_transitive(s[i as int].0, s[j].0, kb@);
                        }
                        if s[j].0 == kb@ {
                            assert(lex_lt(s[i as int].0, kb@));
                        }
                    }
                }
                assert forall|j: int| 0 <= j < s.len() implies (#[trigger] s[j]).0 != kb@ by {
                    if j < i {
                        lemma_lex_trichotomy(s[j].0, kb@);
                    }
                }
                lemma_entries_map_insert_at(s, i as int, (kb@, vb@));
            }
            self.entries.insert(i, (kb, vb));
            proof {
                assert(self.entries_seq() =~= s.insert(i as int, (kb@, vb@)));
                let t = self.entries_seq();
                assert forall|a: int, b: int| 0 <= a < b < t.len() implies lex_lt(
                    (#[trigger] t[a]).0,
                    (#[trigger] t[b]).0,
                ) by {
                    if a < i && b == i {
                        assert(t[a].0 == s[a].0);
                    } else if a == i && b > i {
                        assert(t[b].0 == s[b - 1].0);
                        lemma_lex_trichotomy(s[b - 1].0, kb@);
                    } else if b < i {
                        assert(t[a].0 == s[a].0);
                        assert(t[b].0 == s[b].0);
                    } else if a > i {
                        assert(t[a].0 == s[a - 1].0);
                        assert(t[b].0 == s[b - 1].0);
                    } else {
                        // a < i < b
                        assert(t[a].0 == s[a].0);
                        assert(t[b].0 == s[b - 1].0);
                        assert(lex_lt(s[a].0, kb@));
                        lemma_lex_trichotomy(s[b - 1].0, kb@);
                        lemma_lex_transitive(s[a].0, kb@, s[b - 1].0);
                    }
                }
            }
        }
    }
}

/// The serialized `key=value` form of one entry, both sides percent-encoded.
pub open spec fn canonical_pair(p: (Seq<u8>, Seq<u8>)) -> Seq<u8> {
    percent_encode_spec(p.0) + seq![0x3du8] + percent_encode_spec(p.1)
}

/// The canonical query string of an entry sequence: `key=value` pairs in
/// storage order, joined by `&`.
pub open spec fn canonical_query_of(s: Seq<(Seq<u8>, Seq<u8>)>) -> Seq<u8>
    decreases s.len(),
{
    if s.len() == 0 {
        seq![]
    } else if s.len() == 1 {
        canonical_pair(s[0])
    } else {
        canonical_query_of(s.drop_last()) + seq![0x26u8] + canonical_pair(s.last())
    }
}

proof fn lemma_canonical_query_ascii(s: Seq<(Seq<u8>, Seq<u8>)>)
    ensures
        all_ascii(canonical_query_of(s)),
    decreases s.len(),
{
    if s.len() == 1 {
        lemma_percent_encode_ascii(s[0].0);
        lemma_percent_encode_ascii(s[0].1);
    } else if s.len() > 1 {
        lemma_canonical_query_ascii(s.drop_last());
        lemma_percent_encode_ascii(s.last().0);
        lemma_percent_encode_ascii(s.last().1);
    }
}

impl ParamMap {
    /// The canonical query string of this map, as characters.
    pub closed spec fn canonical_spec(&self) -> Seq<char> {
        ascii_chars(canonical_query_of(self.entries_seq()))
    }
}

pub(crate) fn push_encoded(out: &mut Vec<u8>, bytes: &Vec<u8>)
    ensures
        final(out)@ == old(out)@ + percent_encode_spec(bytes@),
{
    let mut enc = percent_encode_bytes(bytes);
    let ghost before = out@;
    let n = enc.len();
    let mut i: usize = 0;
    while i < n
        invariant
            0 <= i <= n,
            n == enc@.len(),
            enc@ == percent_encode_spec(bytes@),
            out@ == before + enc@.take(i as int),
        decreases n - i,
    {
        out.push(enc[i]);
        proof {
            assert(enc@.take(i + 1) =~= enc@.take(i as int).push(enc@[i as int]));
            assert(out@ =~= before + enc@.take(i + 1));
        }
        i = i + 1;
    }
    proof {
        assert(enc@.take(n as int) =~= enc@);
    }
}

/// Serializes the map as its canonical query string: parameters in key
/// order, percent-encoded, joined as `key=value` pairs with `&`.
pub fn build_canonicalized_query(params: &ParamMap) -> (r: String)
    ensures
        r@ == params.canonical_spec(),
{
    let ghost s = params.entries_seq();
    let n = params.entries.len();
    let mut out: Vec<u8> = Vec::new();
    proof {
        assert(s.take(0) =~= Seq::<(Seq<u8>, Seq<u8>)>::empty());
    }
    let mut i: usize = 0;
    while i < n
        invariant
            0 <= i <= n,
            n == params.entries@.len(),
            s == params.entries_seq(),
            out@ == canonical_query_of(s.take(i as int)),
        decreases n - i,
    {
        if i > 0 {
            out.push(0x26);
        }
        push_encoded(&mut out, &params.entries[i].0);
        out.push(0x3d);
        push_encoded(&mut out, &params.entries[i].1);
        proof {
            let t = s.take(i + 1);
            assert(t.drop_last() =~= s.take(i as int));
            assert(t.last() == s[i as int]);
            assert(s[i as int] == (params.entries@[i as int].0@, params.entries@[i as int].1@));
            if i == 0 {
                assert(t.len() == 1);
                assert(t[0] == s[0]);
                assert(out@ =~= canonical_pair(s[0]));
            } else {
                assert(out@ =~= canonical_query_of(s.take(i as int)) + seq![0x26u8]
                    + canonical_pair(s[i as int]));
            }
        }
        i = i + 1;
    }
    proof {
        assert(s.take(n as int) =~= s);
        lemma_canonical_query_ascii(s);
    }
    ascii_string(out)
}

/// Canonicalization is order-independent and deterministic: two well-formed
/// parameter maps that hold the same parameters serialize to the same
/// canonical query string, whatever order built them.
pub proof fn lemma_canonicalization_deterministic(m1: &ParamMap, m2: &ParamMap)
    requires
        m1.wf(),
        m2.wf(),
        m1@ == m2@,
    ensures
        m1.canonical_spec() == m2.canonical_spec(),
{
    lemma_sorted_entries_unique(m1.entries_seq(), m2.entries_seq());
}

/// The sorted entry sequence a map of parameters denotes: the unique
/// strictly-key-sorted sequence holding exactly the map's pairs.
pub open spec fn sorted_entries_of(m: Map<Seq<u8>, Seq<u8>>) -> Seq<(Seq<u8>, Seq<u8>)> {
    choose|s: Seq<(Seq<u8>, Seq<u8>)>| keys_sorted(s) && entries_map(s) == m
}

/// The canonical query string, written out over the map view: the
/// characters of the sorted, percent-encoded `key=value` join of the
/// map's pairs.
pub proof fn lemma_canonical_spec_form(m: &ParamMap)
    requires
        m.wf(),
    ensures
        keys_sorted(sorted_entries_of(m@)),
        entries_map(sorted_entries_of(m@)) == m@,
        m.canonical_spec() == ascii_chars(canonical_query_of(sorted_entries_of(m@))),
{
    let s = m.entries_seq();
    assert(keys_sorted(s) && entries_map(s) == m@);
    let c = sorted_entries_of(m@);
    assert(keys_sorted(c) && entries_map(c) == m@) by {
        assert(exists|t: Seq<(Seq<u8>, Seq<u8>)>| keys_sorted(t) && entries_map(t) == m@) by {
            assert(keys_sorted(s) && entries_map(s) == m@);
        }
    }
    lemma_sorted_entries_unique(s, c);
}

/// Sorted entry sequences are determined by their association map.
proof fn lemma_sorted_entries_unique(s1: Seq<(Seq<u8>, Seq<u8>)>, s2: Seq<(Seq<u8>, Seq<u8>)>)
    requires
        keys_sorted(s1),
        keys_sorted(s2),
        entries_map(s1) == entries_map(s2),
    ensures
        s1 == s2,
    decreases s1.len(),
{
    let m = entries_map(s1);
    if s1.len() == 0 {
        if s2.len() > 0 {
            lemma_entries_map_contains(s1, s2.last().0);
            lemma_entries_map_contains(s2, s2.last().0);
            assert(s2[s2.len() - 1].0 == s2.last().0);
        }
        assert(s1 =~= s2);
    } else {
        if s2.len() == 0 {
            lemma_entries_map_contains(s1, s1.last().0);
            lemma_entries_map_contains(s2, s1.last().0);
            assert(s1[s1.len() - 1].0 == s1.last().0);
            assert(false);
        }
        // Both end with the lexicographically greatest key of the shared map.
        let k1 = s1.last().0;
        let k2 = s2.last().0;
        lemma_entries_map_contains(s1, k2);
        lemma_entries_map_contains(s2, k2);
        assert(s2[s2.len() - 1].0 == k2);
        assert(m.contains_key(k2));
        let i1 = choose|i: int| 0 <= i < s1.len() && s1[i].0 == k2;
        if i1 < s1.len() - 1 {
            assert(lex_lt(s1[i1].0, k1));
        }
        lemma_entries_map_contains(s2, k1);
        lemma_entries_map_contains(s1, k1);
        assert(s1[s1.len() - 1].0 == k1);
        let i2 = choose|i: int| 0 <= i < s2.len() && s2[i].0 == k1;
        if i2 < s2.len() - 1 {
            assert(lex_lt(s2[i2].0, k2));
        }
        lemma_lex_trichotomy(k1, k2);
        assert(k1 == k2);
        // The last values agree, being the map's value at that key.
        assert(s1.last().1 == m[k1]);
        assert(s2.last().1 == m[k1]);
        // The prefixes hold the same map: the last key is in neither prefix.
        lemma_prefix_map(s1);
        lemma_prefix_map(s2);
        assert(entries_map(s1.drop_last()) =~= m.remove(k1));
        assert(entries_map(s2.drop_last()) =~= m.remove(k1));
        assert(keys_sorted(s1.drop_last()));
        assert(keys_sorted(s2.drop_last()));
        lemma_sorted_entries_unique(s1.drop_last(), s2.drop_last());
        assert(s1.len() == s2.len());
        assert forall|j: int| 0 <= j < s1.len() implies s1[j] == s2[j] by {
            if j < s1.len() - 1 {
                assert(s1[j] == s1.drop_last()[j]);
                assert(s2[j] == s2.drop_last()[j]);
            } else {
                assert(s1[j].0 == s2[j].0);
                assert(s1[j].1 == m[k1]);
                assert(s2[j].1 == m[k1]);
            }
        }
        assert(s1 =~= s2);
    }
}

/// For a sorted sequence, the map without the last key is the map of the
/// sequence without its last entry.
proof fn lemma_prefix_map(s: Seq<(Seq<u8>, Seq<u8>)>)
    requires
        keys_sorted(s),
        s.len() > 0,
    ensures
        !entries_map(s.drop_last()).contains_key(s.last().0),
        entries_map(s.drop_last()) == entries_map(s).remove(s.last().0),
{
    let k = s.last().0;
    lemma_entries_map_contains(s.drop_last(), k);
    if entries_map(s.drop_last()).contains_key(k) {
        let i = choose|i: int| 0 <= i < s.drop_last().len() && s.drop_last()[i].0 == k;
        assert(lex_lt(s[i].0, k));
        lemma_lex_trichotomy(s[i].0, k);
    }
    assert(entries_map(s.drop_last()) =~= entries_map(s).remove(k));
}

} // verus!
