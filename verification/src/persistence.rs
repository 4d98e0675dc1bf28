//! Durable-state helpers: the canonical bytes of requests and results, their
//! SHA-256 checksums, the records the store keeps, and the idempotency rule
//! for reported results.
use crate::messages::{AgentJob, EpisodeRequest, EpisodeResult, ErrorCode, ResourceSpec, RolloutTrace, StepRecord, Summary, Trajectory};
use crate::string_map::StringMap;
use crate::text::{lemma_text_lt_order, str_lt, text_lt};
use sha2::Digest;
use vstd::prelude::*;

verus! {

broadcast use vstd::string::group_string_axioms;

/// The SHA-256 digest of a byte string.
pub uninterp spec fn sha256_of(bytes: Seq<u8>) -> Seq<u8>;

/// Calls `sha2::Sha256::digest`: the result is the digest of the bytes and is
/// 32 bytes long, as `Sha256`'s output size fixes.
#[verifier::external_body]
fn sha256(bytes: &Vec<u8>) -> (d: Vec<u8>)
    ensures
        d@ == sha256_of(bytes@),
        d@.len() == 32,
{
    sha2::Sha256::digest(bytes.as_slice()).to_vec()
}

/// The lower-case hexadecimal digit of `n` (below 16).
pub open spec fn hex_digit(n: nat) -> char {
    if n < 10 {
        ((48 + n) as u8) as char
    } else {
        ((87 + n) as u8) as char
    }
}

/// Two lower-case hexadecimal digits per byte.
pub open spec fn hex_spec(bytes: Seq<u8>) -> Seq<char>
    decreases bytes.len(),
{
    if bytes.len() == 0 {
        Seq::empty()
    } else {
        hex_spec(bytes.drop_last()) + seq![hex_digit((bytes.last() / 16) as nat), hex_digit((bytes.last() % 16) as nat)]
    }
}

fn hex_char(n: u8) -> (c: char)
    requires
        n < 16,
    ensures
        c == hex_digit(n as nat),
{
    if n < 10 {
        ((48 + n) as u8) as char
    } else {
        ((87 + n) as u8) as char
    }
}

/// The bytes in lower-case hexadecimal, as `format!("{:x}")` prints a digest.
pub fn hex_lower(bytes: &Vec<u8>) -> (s: String)
    ensures
        s@ == hex_spec(bytes@),
        s@.len() == 2 * bytes@.len(),
{
    let mut out: Vec<char> = Vec::new();
    let mut i: usize = 0;
    while i < bytes.len()
        invariant
            i <= bytes@.len(),
            out@ == hex_spec(bytes@.take(i as int)),
            out@.len() == 2 * i,
        decreases bytes@.len() - i,
    {
        let b = bytes[i];
        let hi = hex_char(b / 16);
        let lo = hex_char(b % 16);
        out.push(hi);
        out.push(lo);
        proof {
            assert(bytes@.take(i + 1).drop_last() =~= bytes@.take(i as int));
            assert(bytes@.take(i + 1).last() == b);
        }
        i = i + 1;
    }
    proof {
        assert(bytes@.take(bytes@.len() as int) =~= bytes@);
    }
    crate::text::string_from_chars(&out)
}

/// The SHA-256 digest of the bytes in lower-case hexadecimal.
pub fn sha256_hex(bytes: &Vec<u8>) -> (s: String)
    ensures
        s@ == hex_spec(sha256_of(bytes@)),
        s@.len() == 64,
{
    let d = sha256(bytes);
    hex_lower(&d)
}

/// The `k` low bytes of `n`, least significant first.
pub open spec fn le_bytes(n: nat, k: nat) -> Seq<u8>
    decreases k,
{
    if k == 0 {
        Seq::empty()
    } else {
        seq![(n % 256) as u8] + le_bytes(n / 256, (k - 1) as nat)
    }
}

/// `n.to_le_bytes()` for a `u64`.
pub open spec fn le64(n: nat) -> Seq<u8> {
    le_bytes(n, 8)
}

/// Appends the eight little-endian bytes of `n`.
pub fn push_le64(out: &mut Vec<u8>, n: u64)
    ensures
        final(out)@ == old(out)@ + le64(n as nat),
{
    let mut rest: u64 = n;
    let mut k: usize = 0;
    while k < 8
        invariant
            k <= 8,
            out@ + le_bytes(rest as nat, (8 - k) as nat) == old(out)@ + le_bytes(n as nat, 8),
        decreases 8 - k,
    {
        let ghost before = out@;
        out.push((rest % 256) as u8);
        proof {
            assert(le_bytes(rest as nat, (8 - k) as nat) == seq![(rest % 256) as u8] + le_bytes(
                (rest / 256) as nat,
                (8 - k - 1) as nat,
            ));
            assert(out@ + le_bytes((rest / 256) as nat, (8 - k - 1) as nat) =~= before + le_bytes(
                rest as nat,
                (8 - k) as nat,
            ));
        }
        rest = rest / 256;
        k = k + 1;
    }
    proof {
        assert(le_bytes(rest as nat, 0) =~= Seq::<u8>::empty());
        assert(out@ + Seq::<u8>::empty() =~= out@);
    }
}

/// Appends a byte string.
pub fn push_bytes(out: &mut Vec<u8>, src: &[u8])
    ensures
        final(out)@ == old(out)@ + src@,
{
    let mut i: usize = 0;
    while i < src.len()
        invariant
            i <= src@.len(),
            out@ == old(out)@ + src@.take(i as int),
        decreases src@.len() - i,
    {
        out.push(src[i]);
        proof {
            assert(src@.take(i + 1) =~= src@.take(i as int).push(src@[i as int]));
        }
        i = i + 1;
    }
    proof {
        assert(src@.take(src@.len() as int) =~= src@);
    }
}

/// A byte string after its length as eight little-endian bytes.
pub open spec fn len_prefixed(v: Seq<u8>) -> Seq<u8> {
    le64(v.len()) + v
}

/// Appends `value` after its length as eight little-endian bytes.
pub fn append_len_prefixed(bytes: &mut Vec<u8>, value: &[u8])
    ensures
        final(bytes)@ == old(bytes)@ + len_prefixed(value@),
{
    push_le64(bytes, value.len() as u64);
    push_bytes(bytes, value);
    proof {
        assert(old(bytes)@ + le64(value@.len()) + value@ =~= old(bytes)@ + len_prefixed(value@));
    }
}

/// The UTF-8 bytes of a string, length-prefixed.
pub open spec fn enc_str(s: Seq<char>) -> Seq<u8> {
    len_prefixed(vstd::utf8::encode_utf8(s))
}

fn push_str(out: &mut Vec<u8>, s: &str)
    ensures
        final(out)@ == old(out)@ + enc_str(s@),
{
    append_len_prefixed(out, s.as_bytes());
}

/// Are the entries' keys in strictly increasing order?
pub open spec fn keys_ascending(p: Seq<(Seq<char>, Seq<char>)>) -> bool {
    forall|i: int, j: int| 0 <= i < j < p.len() ==> text_lt(#[trigger] p[i].0, #[trigger] p[j].0)
}

/// Do the entries list exactly the map's key/value pairs?
pub open spec fn lists_map(p: Seq<(Seq<char>, Seq<char>)>, m: Map<Seq<char>, Seq<char>>) -> bool {
    &&& forall|i: int| 0 <= i < p.len() ==> #[trigger] m.contains_key(p[i].0) && m[p[i].0] == p[i].1
    &&& forall|k: Seq<char>| #[trigger] m.contains_key(k) ==> exists|i: int| 0 <= i < p.len() && p[i].0 == k
}

/// The map's entries in increasing key order.
pub open spec fn sorted_entries(m: Map<Seq<char>, Seq<char>>) -> Seq<(Seq<char>, Seq<char>)> {
    choose|p: Seq<(Seq<char>, Seq<char>)>| keys_ascending(p) && lists_map(p, m)
}

/// The entries' keys and values, each length-prefixed, in order.
pub open spec fn encode_entries(p: Seq<(Seq<char>, Seq<char>)>) -> Seq<u8>
    decreases p.len(),
{
    if p.len() == 0 {
        Seq::empty()
    } else {
        encode_entries(p.drop_last()) + enc_str(p.last().0) + enc_str(p.last().1)
    }
}

/// A string map's bytes: its size, then its entries in increasing key order.
pub open spec fn encoded_map(m: Map<Seq<char>, Seq<char>>) -> Seq<u8> {
    le64(m.dom().len()) + encode_entries(sorted_entries(m))
}

/// Two ascending lists of one map are the same list.
proof fn lemma_ascending_lists_unique(
    p: Seq<(Seq<char>, Seq<char>)>,
    q: Seq<(Seq<char>, Seq<char>)>,
    m: Map<Seq<char>, Seq<char>>,
)
    requires
        keys_ascending(p),
        keys_ascending(q),
        lists_map(p, m),
        lists_map(q, m),
    ensures
        p == q,
    decreases p.len() + q.len(),
{
    if p.len() == 0 {
        if q.len() > 0 {
            assert(m.contains_key(q[0].0));
        }
        assert(p =~= q);
    } else if q.len() == 0 {
        assert(m.contains_key(p[0].0));
    } else {
        let k = p[0].0;
        let l = q[0].0;
        assert(m.contains_key(k));
        assert(m.contains_key(l));
        let i = choose|i: int| 0 <= i < q.len() && q[i].0 == k;
        let j = choose|j: int| 0 <= j < p.len() && p[j].0 == l;
        lemma_text_lt_order(k, l, k);
        if k != l {
            if i > 0 {
                assert(text_lt(q[0].0, q[i].0));
            }
            if j > 0 {
                assert(text_lt(p[0].0, p[j].0));
            }
        }
        assert(k == l);
        assert(p[0] == q[0]);
        let m2 = m.remove(k);
        let p2 = p.drop_first();
        let q2 = q.drop_first();
        assert forall|a: int| 0 <= a < p2.len() implies #[trigger] m2.contains_key(p2[a].0) && m2[p2[a].0] == p2[a].1 by {
            assert(p2[a] == p[a + 1]);
            assert(text_lt(p[0].0, p[a + 1].0));
            lemma_text_lt_order(p[a + 1].0, k, k);
            assert(m.contains_key(p[a + 1].0));
        }
        assert forall|kk: Seq<char>| #[trigger] m2.contains_key(kk) implies exists|a: int| 0 <= a < p2.len() && p2[a].0 == kk by {
            let a = choose|a: int| 0 <= a < p.len() && p[a].0 == kk;
            assert(a > 0);
            assert(p2[a - 1].0 == kk);
        }
        assert forall|a: int| 0 <= a < q2.len() implies #[trigger] m2.contains_key(q2[a].0) && m2[q2[a].0] == q2[a].1 by {
            assert(q2[a] == q[a + 1]);
            assert(text_lt(q[0].0, q[a + 1].0));
            lemma_text_lt_order(q[a + 1].0, k, k);
            assert(m.contains_key(q[a + 1].0));
        }
        assert forall|kk: Seq<char>| #[trigger] m2.contains_key(kk) implies exists|a: int| 0 <= a < q2.len() && q2[a].0 == kk by {
            let a = choose|a: int| 0 <= a < q.len() && q[a].0 == kk;
            assert(a > 0);
            assert(q2[a - 1].0 == kk);
        }
        assert forall|a: int, b: int| 0 <= a < b < p2.len() implies text_lt(#[trigger] p2[a].0, #[trigger] p2[b].0) by {
            assert(p2[a] == p[a + 1] && p2[b] == p[b + 1]);
        }
        assert forall|a: int, b: int| 0 <= a < b < q2.len() implies text_lt(#[trigger] q2[a].0, #[trigger] q2[b].0) by {
            assert(q2[a] == q[a + 1] && q2[b] == q[b + 1]);
        }
        lemma_ascending_lists_unique(p2, q2, m2);
        assert(p =~= seq![p[0]] + p2);
        assert(q =~= seq![q[0]] + q2);
    }
}

/// Inserting an entry whose key is new at the position after the smaller
/// keys keeps the list ascending.
proof fn lemma_insert_keeps_ascending(old_sorted: Seq<(Seq<char>, Seq<char>)>, pos: int, kv: (Seq<char>, Seq<char>))
    requires
        keys_ascending(old_sorted),
        0 <= pos <= old_sorted.len(),
        forall|a: int| 0 <= a < pos ==> text_lt(#[trigger] old_sorted[a].0, kv.0),
        pos < old_sorted.len() ==> !text_lt(old_sorted[pos].0, kv.0),
        forall|a: int| 0 <= a < old_sorted.len() ==> #[trigger] old_sorted[a].0 != kv.0,
    ensures
        keys_ascending(old_sorted.insert(pos, kv)),
{
    let ns = old_sorted.insert(pos, kv);
    if pos < old_sorted.len() {
        lemma_text_lt_order(old_sorted[pos].0, kv.0, kv.0);
        assert(old_sorted[pos].0 != kv.0);
    }
    assert forall|a: int, b: int| 0 <= a < b < ns.len() implies text_lt(#[trigger] ns[a].0, #[trigger] ns[b].0) by {
        if b < pos {
            assert(ns[a] == old_sorted[a] && ns[b] == old_sorted[b]);
        } else if b == pos {
            assert(ns[a] == old_sorted[a]);
        } else if a == pos {
            assert(ns[b] == old_sorted[b - 1]);
            if b - 1 > pos {
                assert(text_lt(old_sorted[pos].0, old_sorted[b - 1].0));
                lemma_text_lt_order(kv.0, old_sorted[pos].0, old_sorted[b - 1].0);
            }
        } else if a < pos {
            assert(ns[a] == old_sorted[a] && ns[b] == old_sorted[b - 1]);
            assert(text_lt(old_sorted[a].0, kv.0));
            if pos < old_sorted.len() {
                lemma_text_lt_order(old_sorted[a].0, kv.0, old_sorted[pos].0);
                if b - 1 > pos {
                    assert(text_lt(old_sorted[pos].0, old_sorted[b - 1].0));
                    lemma_text_lt_order(old_sorted[a].0, old_sorted[pos].0, old_sorted[b - 1].0);
                }
            }
        } else {
            assert(ns[a] == old_sorted[a - 1] && ns[b] == old_sorted[b - 1]);
        }
    }
}

/// `src` and `dst` witness that `sorted` holds exactly the first `i` entries
/// of `pv`: entry `a` of `sorted` is entry `src[a]` of `pv`, and entry `b`
/// of `pv` is entry `dst[b]` of `sorted`.
pub open spec fn covers(
    sorted: Seq<(Seq<char>, Seq<char>)>,
    pv: Seq<(Seq<char>, Seq<char>)>,
    i: int,
    src: Seq<int>,
    dst: Seq<int>,
) -> bool {
    &&& src.len() == sorted.len()
    &&& dst.len() == i
    &&& forall|a: int| 0 <= a < sorted.len() ==> 0 <= #[trigger] src[a] < i && sorted[a] == pv[src[a]]
    &&& forall|b: int| 0 <= b < i ==> 0 <= #[trigger] dst[b] < sorted.len() && sorted[dst[b]] == pv[b]
}

/// Positions shifted past an insertion at `pos`.
pub open spec fn shift_from(dst: Seq<int>, pos: int) -> Seq<int> {
    dst.map_values(|d: int| if d >= pos { d + 1 } else { d })
}

proof fn lemma_insert_covers(
    sorted: Seq<(Seq<char>, Seq<char>)>,
    pos: int,
    pv: Seq<(Seq<char>, Seq<char>)>,
    i: int,
    src: Seq<int>,
    dst: Seq<int>,
)
    requires
        0 <= i < pv.len(),
        0 <= pos <= sorted.len(),
        covers(sorted, pv, i, src, dst),
    ensures
        covers(sorted.insert(pos, pv[i]), pv, i + 1, src.insert(pos, i), shift_from(dst, pos).push(pos)),
{
    let ns = sorted.insert(pos, pv[i]);
    let nsrc = src.insert(pos, i);
    let ndst = shift_from(dst, pos).push(pos);
    assert forall|a: int| 0 <= a < ns.len() implies 0 <= #[trigger] nsrc[a] < i + 1 && ns[a] == pv[nsrc[a]] by {
        if a < pos {
            assert(ns[a] == sorted[a] && nsrc[a] == src[a]);
        } else if a > pos {
            assert(ns[a] == sorted[a - 1] && nsrc[a] == src[a - 1]);
        }
    }
    assert forall|b: int| 0 <= b < i + 1 implies 0 <= #[trigger] ndst[b] < ns.len() && ns[ndst[b]] == pv[b] by {
        if b < i {
            let d = dst[b];
            if d >= pos {
                assert(ndst[b] == d + 1);
                assert(ns[d + 1] == sorted[d]);
            } else {
                assert(ndst[b] == d);
                assert(ns[d] == sorted[d]);
            }
        }
    }
}

/// An ascending list that covers all entries of a map lists the map.
proof fn lemma_cover_lists_map(
    sp: Seq<(Seq<char>, Seq<char>)>,
    pv: Seq<(Seq<char>, Seq<char>)>,
    mv: Map<Seq<char>, Seq<char>>,
    src: Seq<int>,
    dst: Seq<int>,
)
    requires
        forall|a: int| 0 <= a < pv.len() ==> #[trigger] mv.contains_key(pv[a].0) && mv[pv[a].0] == pv[a].1,
        forall|k: Seq<char>| #[trigger] mv.contains_key(k) <==> crate::string_map::has_key(pv, k),
        covers(sp, pv, pv.len() as int, src, dst),
    ensures
        lists_map(sp, mv),
{
    assert forall|a: int| 0 <= a < sp.len() implies #[trigger] mv.contains_key(sp[a].0) && mv[sp[a].0] == sp[a].1 by {
        let b = src[a];
        assert(mv.contains_key(pv[b].0));
    }
    assert forall|k: Seq<char>| #[trigger] mv.contains_key(k) implies exists|a: int| 0 <= a < sp.len() && sp[a].0 == k by {
        assert(crate::string_map::has_key(pv, k));
        let b = choose|b: int| 0 <= b < pv.len() && pv[b].0 == k;
        let a = dst[b];
        assert(sp[a].0 == k);
    }
}

/// The map's entries, cloned, in increasing key order.
fn sorted_pairs(values: &StringMap) -> (v: Vec<(String, String)>)
    ensures
        keys_ascending(crate::string_map::entry_views(v@)),
        lists_map(crate::string_map::entry_views(v@), values@),
{
    let n = values.len();
    let ghost pv = values.pairs();
    let ghost mv = values@;
    assert forall|a: int| 0 <= a < pv.len() implies #[trigger] mv.contains_key(pv[a].0) && mv[pv[a].0] == pv[a].1 by {
        assert(values@.contains_key(values.pairs()[a].0));
    }
    let mut sorted: Vec<(String, String)> = Vec::new();
    let ghost mut src: Seq<int> = Seq::empty();
    let ghost mut dst: Seq<int> = Seq::empty();
    let mut i: usize = 0;
    while i < n
        invariant
            n == pv.len(),
            i <= n,
            pv == values.pairs(),
            crate::string_map::distinct_keys(pv),
            keys_ascending(crate::string_map::entry_views(sorted@)),
            covers(crate::string_map::entry_views(sorted@), pv, i as int, src, dst),
        decreases n - i,
    {
        let (k, v) = values.entry_at(i);
        let mut pos: usize = 0;
        while pos < sorted.len() && str_lt(sorted[pos].0.as_str(), k.as_str())
            invariant
                pos <= sorted@.len(),
                forall|a: int| 0 <= a < pos ==> text_lt(#[trigger] sorted@[a].0@, k@),
            decreases sorted@.len() - pos,
        {
            pos = pos + 1;
        }
        let ghost old_sorted = crate::string_map::entry_views(sorted@);
        let ghost kv = (k@, v@);
        proof {
            assert(kv == pv[i as int]);
            assert forall|a: int| 0 <= a < old_sorted.len() implies #[trigger] old_sorted[a].0 != kv.0 by {
                let b = src[a];
                assert(old_sorted[a] == pv[b]);
                assert(b != i);
            }
            assert forall|a: int| 0 <= a < pos implies text_lt(#[trigger] old_sorted[a].0, kv.0) by {
                assert(old_sorted[a].0 == sorted@[a].0@);
            }
            if pos < old_sorted.len() {
                assert(old_sorted[pos as int].0 == sorted@[pos as int].0@);
            }
            lemma_insert_keeps_ascending(old_sorted, pos as int, kv);
            lemma_insert_covers(old_sorted, pos as int, pv, i as int, src, dst);
        }
        sorted.insert(pos, (k.clone(), v.clone()));
        proof {
            assert(crate::string_map::entry_views(sorted@) =~= old_sorted.insert(pos as int, kv));
            src = src.insert(pos as int, i as int);
            dst = shift_from(dst, pos as int).push(pos as int);
        }
        i = i + 1;
    }
    proof {
        lemma_cover_lists_map(crate::string_map::entry_views(sorted@), pv, mv, src, dst);
    }
    sorted
}

/// Appends a string map's size and then its entries in increasing key order,
/// each key and value length-prefixed; the bytes depend on the map alone,
/// not on the order in which its entries were inserted.
pub fn append_sorted_string_map(bytes: &mut Vec<u8>, values: &StringMap)
    ensures
        final(bytes)@ == old(bytes)@ + encoded_map(values@),
{
    let n = values.len();
    let sorted = sorted_pairs(values);
    let ghost sp = crate::string_map::entry_views(sorted@);
    proof {
        let chosen = sorted_entries(values@);
        assert(keys_ascending(chosen) && lists_map(chosen, values@));
        lemma_ascending_lists_unique(sp, chosen, values@);
    }
    push_le64(bytes, n as u64);
    let mut j: usize = 0;
    while j < sorted.len()
        invariant
            j <= sorted@.len(),
            sp == crate::string_map::entry_views(sorted@),
            bytes@ == old(bytes)@ + le64(n as nat) + encode_entries(sp.take(j as int)),
        decreases sorted@.len() - j,
    {
        push_str(bytes, sorted[j].0.as_str());
        push_str(bytes, sorted[j].1.as_str());
        proof {
            assert(sp.take(j + 1).drop_last() =~= sp.take(j as int));
            assert(sp.take(j + 1).last() == sp[j as int]);
        }
        j = j + 1;
    }
    proof {
        assert(sp.take(sp.len() as int) =~= sp);
    }
}

/// One tag byte: 0 for absent, 1 for present.
pub open spec fn tag(present: bool) -> Seq<u8> {
    if present { seq![1u8] } else { seq![0u8] }
}

fn push_tag(out: &mut Vec<u8>, present: bool)
    ensures
        final(out)@ == old(out)@ + tag(present),
{
    if present {
        out.push(1u8);
        proof { assert(final(out)@ =~= old(out)@ + tag(present)); }
    } else {
        out.push(0u8);
        proof { assert(final(out)@ =~= old(out)@ + tag(present)); }
    }
}

/// An optional 64-bit value: its tag, then its eight bytes when present.
pub open spec fn enc_opt_u64(o: Option<u64>) -> Seq<u8> {
    match o {
        Some(v) => tag(true) + le64(v as nat),
        None => tag(false),
    }
}

fn push_opt_u64(out: &mut Vec<u8>, o: Option<u64>)
    ensures
        final(out)@ == old(out)@ + enc_opt_u64(o),
{
    match o {
        Some(v) => {
            push_tag(out, true);
            push_le64(out, v);
            proof { assert(final(out)@ =~= old(out)@ + enc_opt_u64(o)); }
        },
        None => push_tag(out, false),
    }
}

/// An optional signed value, by its two's-complement bits.
pub open spec fn enc_opt_i64(o: Option<i64>) -> Seq<u8> {
    match o {
        Some(v) => enc_opt_u64(Some(v as u64)),
        None => enc_opt_u64(None),
    }
}

fn push_opt_i64(out: &mut Vec<u8>, o: Option<i64>)
    ensures
        final(out)@ == old(out)@ + enc_opt_i64(o),
{
    match o {
        Some(v) => push_opt_u64(out, Some(v as u64)),
        None => push_opt_u64(out, None),
    }
}

/// An optional string: its tag, then the string when present.
pub open spec fn enc_opt_str(o: Option<String>) -> Seq<u8> {
    match o {
        Some(v) => tag(true) + enc_str(v@),
        None => tag(false),
    }
}

fn push_opt_str(out: &mut Vec<u8>, o: &Option<String>)
    ensures
        final(out)@ == old(out)@ + enc_opt_str(*o),
{
    match o {
        Some(v) => {
            push_tag(out, true);
            push_str(out, v.as_str());
            proof { assert(final(out)@ =~= old(out)@ + enc_opt_str(*o)); }
        },
        None => push_tag(out, false),
    }
}

/// The eight-byte encodings of a list of values.
pub open spec fn enc_words(v: Seq<u64>) -> Seq<u8>
    decreases v.len(),
{
    if v.len() == 0 {
        Seq::empty()
    } else {
        enc_words(v.drop_last()) + le64(v.last() as nat)
    }
}

/// A list of 32-bit words: its length, then each word.
pub open spec fn enc_u32s(v: Seq<u32>) -> Seq<u8> {
    le64(v.len()) + enc_words(v.map_values(|x: u32| x as u64))
}

fn push_u32s(out: &mut Vec<u8>, v: &Vec<u32>)
    ensures
        final(out)@ == old(out)@ + enc_u32s(v@),
{
    push_le64(out, v.len() as u64);
    let ghost w = v@.map_values(|x: u32| x as u64);
    let ghost start = out@;
    let mut i: usize = 0;
    while i < v.len()
        invariant
            i <= v@.len(),
            w == v@.map_values(|x: u32| x as u64),
            out@ == start + enc_words(w.take(i as int)),
        decreases v@.len() - i,
    {
        push_le64(out, v[i] as u64);
        proof {
            assert(w.take(i + 1).drop_last() =~= w.take(i as int));
            assert(w.take(i + 1).last() == v@[i as int] as u64);
        }
        i = i + 1;
    }
    proof {
        assert(w.take(v@.len() as int) =~= w);
    }
}

/// A list of signed 32-bit values: its length, then each value's bits.
pub open spec fn enc_i32s(v: Seq<i32>) -> Seq<u8> {
    le64(v.len()) + enc_words(v.map_values(|x: i32| (x as u32) as u64))
}

fn push_i32s(out: &mut Vec<u8>, v: &Vec<i32>)
    ensures
        final(out)@ == old(out)@ + enc_i32s(v@),
{
    push_le64(out, v.len() as u64);
    let ghost w = v@.map_values(|x: i32| (x as u32) as u64);
    let ghost start = out@;
    let mut i: usize = 0;
    while i < v.len()
        invariant
            i <= v@.len(),
            w == v@.map_values(|x: i32| (x as u32) as u64),
            out@ == start + enc_words(w.take(i as int)),
        decreases v@.len() - i,
    {
        push_le64(out, (v[i] as u32) as u64);
        proof {
            assert(w.take(i + 1).drop_last() =~= w.take(i as int));
            assert(w.take(i + 1).last() == (v@[i as int] as u32) as u64);
        }
        i = i + 1;
    }
    proof {
        assert(w.take(v@.len() as int) =~= w);
    }
}

/// Optional resource requirements: tag, then cores, memory, GPUs and GPU type.
pub open spec fn enc_resource(o: Option<ResourceSpec>) -> Seq<u8> {
    match o {
        Some(r) => tag(true) + le64(r.cpu_cores as nat) + le64(r.memory_mb as nat) + le64(r.gpu_count as nat) + enc_str(
            r.gpu_type@,
        ),
        None => tag(false),
    }
}

fn push_resource(out: &mut Vec<u8>, o: &Option<ResourceSpec>)
    ensures
        final(out)@ == old(out)@ + enc_resource(*o),
{
    match o {
        Some(r) => {
            push_tag(out, true);
            push_le64(out, r.cpu_cores as u64);
            push_le64(out, r.memory_mb);
            push_le64(out, r.gpu_count as u64);
            push_str(out, r.gpu_type.as_str());
            proof { assert(final(out)@ =~= old(out)@ + enc_resource(*o)); }
        },
        None => push_tag(out, false),
    }
}

/// The bytes that separate a request's fields from its metadata.
pub open spec fn request_map_tag() -> Seq<u8> {
    vstd::utf8::encode_utf8("\0uenv-request-map-v1"@)
}

/// The bytes that separate a result's fields from its metadata.
pub open spec fn result_map_tag() -> Seq<u8> {
    vstd::utf8::encode_utf8("\0uenv-result-map-v1"@)
}

/// The canonical bytes of a request: what identifies the submission,
/// without the dispatch bookkeeping (enqueue time, lease, token, epoch) and
/// without the `dispatch_ts` metadata entry; metadata in key order.
pub open spec fn request_bytes(r: EpisodeRequest) -> Seq<u8> {
    enc_str(r.episode_id@) + le64(r.attempt_id as nat) + enc_str(r.env_type@) + len_prefixed(r.payload@) + le64(
        r.timeout_seconds as nat,
    ) + enc_str(r.correlation_id@) + enc_str(r.parallel_mode@) + enc_str(r.env_package_id@) + enc_str(
        r.env_package_version@,
    ) + enc_resource(r.resource_spec) + request_map_tag() + encoded_map(r.metadata@.remove("dispatch_ts"@))
}

/// The checksum that identifies a submission: SHA-256 of its canonical
/// bytes, in hexadecimal.
pub open spec fn request_checksum_spec(r: EpisodeRequest) -> Seq<char> {
    hex_spec(sha256_of(request_bytes(r)))
}

/// The checksum that identifies a submission; requests that differ only in
/// dispatch bookkeeping or in the order their metadata was filled in have
/// the same checksum.
pub fn request_checksum(request: &EpisodeRequest) -> (s: String)
    ensures
        s@ == request_checksum_spec(*request),
{
    let mut bytes: Vec<u8> = Vec::new();
    push_str(&mut bytes, request.episode_id.as_str());
    push_le64(&mut bytes, request.attempt_id as u64);
    push_str(&mut bytes, request.env_type.as_str());
    append_len_prefixed(&mut bytes, request.payload.as_slice());
    push_le64(&mut bytes, request.timeout_seconds);
    push_str(&mut bytes, request.correlation_id.as_str());
    push_str(&mut bytes, request.parallel_mode.as_str());
    push_str(&mut bytes, request.env_package_id.as_str());
    push_str(&mut bytes, request.env_package_version.as_str());
    push_resource(&mut bytes, &request.resource_spec);
    push_bytes(&mut bytes, "\0uenv-request-map-v1".as_bytes());
    let mut metadata = request.metadata.clone();
    metadata.remove("dispatch_ts");
    append_sorted_string_map(&mut bytes, &metadata);
    proof {
        assert(bytes@ =~= request_bytes(*request));
    }
    sha256_hex(&bytes)
}

/// An optional error code: tag, then the code's number.
pub open spec fn enc_code(o: Option<ErrorCode>) -> Seq<u8> {
    match o {
        Some(c) => tag(true) + seq![code_number(c)],
        None => tag(false),
    }
}

/// The protocol number of an error code.
pub open spec fn code_number(c: ErrorCode) -> u8 {
    match c {
        ErrorCode::ErrUnspecified => 0,
        ErrorCode::ErrEpisodeTimeout => 1,
        ErrorCode::ErrAsyncProtocolMissingField => 2,
        ErrorCode::ErrEnvStepFailed => 3,
        ErrorCode::ErrInternal => 4,
        ErrorCode::ErrNoWorkerAvailable => 5,
    }
}

fn push_code(out: &mut Vec<u8>, o: Option<ErrorCode>)
    ensures
        final(out)@ == old(out)@ + enc_code(o),
{
    match o {
        Some(c) => {
            push_tag(out, true);
            let n: u8 = match c {
                ErrorCode::ErrUnspecified => 0,
                ErrorCode::ErrEpisodeTimeout => 1,
                ErrorCode::ErrAsyncProtocolMissingField => 2,
                ErrorCode::ErrEnvStepFailed => 3,
                ErrorCode::ErrInternal => 4,
                ErrorCode::ErrNoWorkerAvailable => 5,
            };
            out.push(n);
            proof { assert(final(out)@ =~= old(out)@ + enc_code(o)); }
        },
        None => push_tag(out, false),
    }
}

/// An optional summary: tag, then reward bits, step count and reason.
pub open spec fn enc_summary(o: Option<Summary>) -> Seq<u8> {
    match o {
        Some(x) => tag(true) + le64(x.total_reward as nat) + le64(x.total_steps as nat) + enc_str(x.terminate_reason@),
        None => tag(false),
    }
}

fn push_summary(out: &mut Vec<u8>, o: &Option<Summary>)
    ensures
        final(out)@ == old(out)@ + enc_summary(*o),
{
    match o {
        Some(x) => {
            push_tag(out, true);
            push_le64(out, x.total_reward);
            push_le64(out, x.total_steps as u64);
            push_str(out, x.terminate_reason.as_str());
            proof { assert(final(out)@ =~= old(out)@ + enc_summary(*o)); }
        },
        None => push_tag(out, false),
    }
}

/// An optional rollout trace: tag, then response ids and mask.
pub open spec fn enc_trace(o: Option<RolloutTrace>) -> Seq<u8> {
    match o {
        Some(t) => tag(true) + enc_i32s(t.response_ids@) + enc_i32s(t.response_mask@),
        None => tag(false),
    }
}

fn push_trace(out: &mut Vec<u8>, o: &Option<RolloutTrace>)
    ensures
        final(out)@ == old(out)@ + enc_trace(*o),
{
    match o {
        Some(t) => {
            push_tag(out, true);
            push_i32s(out, &t.response_ids);
            push_i32s(out, &t.response_mask);
            proof { assert(final(out)@ =~= old(out)@ + enc_trace(*o)); }
        },
        None => push_tag(out, false),
    }
}

/// The steps without their info maps: index and rollout trace of each.
pub open spec fn enc_steps(steps: Seq<StepRecord>) -> Seq<u8>
    decreases steps.len(),
{
    if steps.len() == 0 {
        Seq::empty()
    } else {
        enc_steps(steps.drop_last()) + le64(steps.last().step_index as nat) + enc_trace(steps.last().rollout_trace)
    }
}

/// The info maps of the steps, each in key order.
pub open spec fn enc_step_infos(steps: Seq<StepRecord>) -> Seq<u8>
    decreases steps.len(),
{
    if steps.len() == 0 {
        Seq::empty()
    } else {
        enc_step_infos(steps.drop_last()) + encoded_map(steps.last().info@)
    }
}

/// An optional trajectory: tag, then reward bits, step count, the number
/// of steps and the steps without their info maps.
pub open spec fn enc_trajectory(o: Option<Trajectory>) -> Seq<u8> {
    match o {
        Some(t) => tag(true) + le64(t.total_reward as nat) + le64(t.total_steps as nat) + le64(t.steps@.len())
            + enc_steps(t.steps@),
        None => tag(false),
    }
}

fn push_steps(out: &mut Vec<u8>, steps: &Vec<StepRecord>)
    ensures
        final(out)@ == old(out)@ + enc_steps(steps@),
{
    let mut i: usize = 0;
    while i < steps.len()
        invariant
            i <= steps@.len(),
            out@ == old(out)@ + enc_steps(steps@.take(i as int)),
        decreases steps@.len() - i,
    {
        push_le64(out, steps[i].step_index as u64);
        push_trace(out, &steps[i].rollout_trace);
        proof {
            assert(steps@.take(i + 1).drop_last() =~= steps@.take(i as int));
            assert(steps@.take(i + 1).last() == steps@[i as int]);
        }
        i = i + 1;
    }
    proof {
        assert(steps@.take(steps@.len() as int) =~= steps@);
    }
}

fn push_step_infos(out: &mut Vec<u8>, steps: &Vec<StepRecord>)
    ensures
        final(out)@ == old(out)@ + enc_step_infos(steps@),
{
    let mut i: usize = 0;
    while i < steps.len()
        invariant
            i <= steps@.len(),
            out@ == old(out)@ + enc_step_infos(steps@.take(i as int)),
        decreases steps@.len() - i,
    {
        append_sorted_string_map(out, &steps[i].info);
        proof {
            assert(steps@.take(i + 1).drop_last() =~= steps@.take(i as int));
            assert(steps@.take(i + 1).last() == steps@[i as int]);
        }
        i = i + 1;
    }
    proof {
        assert(steps@.take(steps@.len() as int) =~= steps@);
    }
}

fn push_trajectory(out: &mut Vec<u8>, o: &Option<Trajectory>)
    ensures
        final(out)@ == old(out)@ + enc_trajectory(*o),
{
    match o {
        Some(t) => {
            push_tag(out, true);
            push_le64(out, t.total_reward);
            push_le64(out, t.total_steps as u64);
            push_le64(out, t.steps.len() as u64);
            push_steps(out, &t.steps);
            proof { assert(final(out)@ =~= old(out)@ + enc_trajectory(*o)); }
        },
        None => push_tag(out, false),
    }
}

/// The steps of a result's trajectory (none without one).
pub open spec fn result_steps(r: EpisodeResult) -> Seq<StepRecord> {
    match r.trajectory {
        Some(t) => t.steps@,
        None => Seq::empty(),
    }
}

/// The canonical bytes of a result: its fields, then its metadata and each
/// step's info map in key order.
pub open spec fn result_bytes(r: EpisodeResult) -> Seq<u8> {
    enc_str(r.episode_id@) + le64(r.attempt_id as nat) + enc_str(r.status@) + enc_code(r.error_code) + enc_str(
        r.error_message@,
    ) + enc_summary(r.summary) + enc_trajectory(r.trajectory) + enc_str(r.trajectory_id@) + enc_str(
        r.trajectory_storage_url@,
    ) + enc_str(r.gateway_session_id@) + enc_str(r.parallel_mode@) + enc_opt_i64(r.rollout_param_version)
        + enc_opt_str(r.rollout_policy_version) + enc_u32s(r.rollout_log_probs@) + enc_opt_u64(r.worker_start_ts)
        + enc_opt_u64(r.worker_finish_ts) + enc_opt_u64(r.result_ready_ts) + enc_opt_u64(r.dispatch_ts) + enc_opt_i64(
        r.server_latency_ms,
    ) + enc_opt_i64(r.worker_latency_ms) + enc_opt_i64(r.model_latency_ms) + result_map_tag() + encoded_map(
        r.metadata@,
    ) + le64(result_steps(r).len()) + enc_step_infos(result_steps(r))
}

/// The checksum that identifies a reported result.
pub open spec fn result_checksum_spec(r: EpisodeResult) -> Seq<char> {
    hex_spec(sha256_of(result_bytes(r)))
}

/// The checksum that identifies a reported result; results that differ only
/// in the order their maps were filled in have the same checksum.
#[verifier::rlimit(30)]
pub fn result_checksum(result: &EpisodeResult) -> (s: String)
    ensures
        s@ == result_checksum_spec(*result),
{
    let mut bytes: Vec<u8> = Vec::new();
    push_str(&mut bytes, result.episode_id.as_str());
    push_le64(&mut bytes, result.attempt_id as u64);
    push_str(&mut bytes, result.status.as_str());
    push_code(&mut bytes, result.error_code);
    push_str(&mut bytes, result.error_message.as_str());
    push_summary(&mut bytes, &result.summary);
    push_trajectory(&mut bytes, &result.trajectory);
    push_str(&mut bytes, result.trajectory_id.as_str());
    push_str(&mut bytes, result.trajectory_storage_url.as_str());
    push_str(&mut bytes, result.gateway_session_id.as_str());
    push_str(&mut bytes, result.parallel_mode.as_str());
    push_opt_i64(&mut bytes, result.rollout_param_version);
    push_opt_str(&mut bytes, &result.rollout_policy_version);
    push_u32s(&mut bytes, &result.rollout_log_probs);
    push_opt_u64(&mut bytes, result.worker_start_ts);
    push_opt_u64(&mut bytes, result.worker_finish_ts);
    push_opt_u64(&mut bytes, result.result_ready_ts);
    push_opt_u64(&mut bytes, result.dispatch_ts);
    push_opt_i64(&mut bytes, result.server_latency_ms);
    push_opt_i64(&mut bytes, result.worker_latency_ms);
    push_opt_i64(&mut bytes, result.model_latency_ms);
    push_bytes(&mut bytes, "\0uenv-result-map-v1".as_bytes());
    append_sorted_string_map(&mut bytes, &result.metadata);
    match &result.trajectory {
        Some(t) => {
            push_le64(&mut bytes, t.steps.len() as u64);
            push_step_infos(&mut bytes, &t.steps);
        },
        None => {
            push_le64(&mut bytes, 0);
            proof {
                assert(enc_step_infos(Seq::<StepRecord>::empty()) =~= Seq::<u8>::empty());
            }
        },
    }
    proof {
        assert(bytes@ =~= result_bytes(*result));
    }
    sha256_hex(&bytes)
}

/// Law: two requests with the same submission (the same fields and the same
/// metadata, however the metadata was filled in) have the same checksum.
pub proof fn law_request_checksum_ignores_map_order(a: EpisodeRequest, b: EpisodeRequest)
    requires
        a.episode_id@ == b.episode_id@,
        a.attempt_id == b.attempt_id,
        a.env_type@ == b.env_type@,
        a.payload@ == b.payload@,
        a.timeout_seconds == b.timeout_seconds,
        a.correlation_id@ == b.correlation_id@,
        a.parallel_mode@ == b.parallel_mode@,
        a.env_package_id@ == b.env_package_id@,
        a.env_package_version@ == b.env_package_version@,
        a.resource_spec == b.resource_spec,
        a.metadata@ == b.metadata@,
    ensures
        request_checksum_spec(a) == request_checksum_spec(b),
{
    assert(request_bytes(a) =~= request_bytes(b));
}

/// Health of the durable store.
#[derive(Debug, Clone)]
pub struct PersistenceHealth {
    pub healthy: bool,
    pub db_path: String,
    pub schema_version: i64,
    pub database_bytes: u64,
    pub wal_bytes: u64,
    pub writer_queue_depth: u64,
    pub last_error: Option<String>,
}

/// A dispatch of an attempt to a worker, as the store keeps it.
#[derive(Debug, Clone)]
pub struct DispatchRecord {
    pub episode_id: String,
    pub attempt_id: u32,
    pub dispatch_lease_id: String,
    pub worker_id: String,
    pub worker_endpoint: String,
    pub dispatch_token: Vec<u8>,
    pub server_epoch: u64,
    pub phase: String,
    pub dispatch_at_ms: i64,
    pub accepted_at_ms: Option<i64>,
    pub deadline_at_ms: i64,
}

/// A native episode to recover after a restart.
#[derive(Debug)]
pub struct RecoveryEpisode {
    pub request: EpisodeRequest,
    pub request_checksum: String,
    pub phase: String,
    pub deadline_at_ms: i64,
    pub dispatch: Option<DispatchRecord>,
}

/// A SWE agent job to recover after a restart.
#[derive(Debug)]
pub struct RecoveryAgentJob {
    pub request: EpisodeRequest,
    pub request_checksum: String,
    pub pool_id: String,
    pub job: AgentJob,
    pub phase: String,
    pub agent_id: String,
    pub deadline_at_ms: i64,
    pub gateway_public_url: Option<String>,
    pub gateway_api_key: Option<Vec<u8>>,
    pub session_id: Option<String>,
}

/// A gateway session to close after a restart.
#[derive(Debug, Clone)]
pub struct RecoveryGatewaySession {
    pub session_id: String,
    pub gateway_public_url: String,
    pub gateway_api_key: Vec<u8>,
}

/// A terminal result waiting to be published.
#[derive(Debug)]
pub struct OutboxEvent {
    pub event_id: String,
    pub result: EpisodeResult,
}

/// The code and message an attempt ended with.
#[derive(Debug, Clone)]
pub struct TerminalOutcome {
    pub code: String,
    pub message: String,
}

/// What the store knows of an episode id.
#[derive(Debug)]
pub enum EpisodeLookup {
    /// The id was new and is now recorded.
    Created,
    /// The episode is running.
    Active { request_checksum: String, phase: String },
    /// The episode has ended with this result.
    Terminal { request_checksum: String, result: EpisodeResult },
}

/// A report's idempotency key with what it was answered.
#[derive(Debug, Clone)]
pub struct IdempotencyRecord {
    pub idempotency_key: String,
    pub episode_id: String,
    pub attempt_id: u32,
    pub dispatch_lease_id: String,
    pub worker_id: String,
    pub server_epoch: u64,
    pub result_checksum: String,
    pub ack: bool,
    pub code: String,
    pub message: String,
    pub expires_at_ms: i64,
}

/// What a report's idempotency key means.
#[derive(Debug)]
pub enum IdempotencyDecision {
    /// The key is new.
    Missing,
    /// The key was used for this same report: answer as before.
    Replay(IdempotencyRecord),
    /// The key was used for a different report.
    Conflict(IdempotencyRecord),
}

/// Is `existing` the record of the same report as `candidate`: the same
/// episode, attempt, lease, worker and result?
pub open spec fn same_report(existing: IdempotencyRecord, candidate: IdempotencyRecord) -> bool {
    existing.episode_id@ == candidate.episode_id@ && existing.attempt_id == candidate.attempt_id
        && existing.dispatch_lease_id@ == candidate.dispatch_lease_id@ && existing.worker_id@ == candidate.worker_id@
        && existing.result_checksum@ == candidate.result_checksum@
}

/// Decides on a report's idempotency key given the record stored under it:
/// a new key is missing, the same report replays, anything else conflicts.
pub fn decide_idempotency(existing: Option<IdempotencyRecord>, candidate: &IdempotencyRecord) -> (d: IdempotencyDecision)
    ensures
        match existing {
            None => d is Missing,
            Some(e) => if same_report(e, *candidate) {
                d matches IdempotencyDecision::Replay(r) && r == e
            } else {
                d matches IdempotencyDecision::Conflict(r) && r == e
            },
        },
{
    match existing {
        None => IdempotencyDecision::Missing,
        Some(e) => {
            if crate::text::str_eq(e.episode_id.as_str(), candidate.episode_id.as_str()) && e.attempt_id
                == candidate.attempt_id && crate::text::str_eq(
                e.dispatch_lease_id.as_str(),
                candidate.dispatch_lease_id.as_str(),
            ) && crate::text::str_eq(e.worker_id.as_str(), candidate.worker_id.as_str()) && crate::text::str_eq(
                e.result_checksum.as_str(),
                candidate.result_checksum.as_str(),
            ) {
                IdempotencyDecision::Replay(e)
            } else {
                IdempotencyDecision::Conflict(e)
            }
        },
    }
}

/// The expiry of an idempotency record: `ttl_secs` seconds after `now_ms`,
/// the product and the sum saturating at the largest `i64`.
pub open spec fn expiry_spec(now_ms: i64, ttl_secs: u64) -> int {
    let span: int = if ttl_secs * 1000 > i64::MAX { i64::MAX as int } else { ttl_secs * 1000 };
    if now_ms + span > i64::MAX { i64::MAX as int } else { now_ms + span }
}

/// The expiry of an idempotency record.
pub fn idempotency_expiry_ms(now_ms: i64, ttl_secs: u64) -> (e: i64)
    ensures
        e == expiry_spec(now_ms, ttl_secs),
{
    let span: i64 = if ttl_secs > (i64::MAX as u64) / 1000 { i64::MAX } else { (ttl_secs * 1000) as i64 };
    if now_ms > 0 && span > i64::MAX - now_ms {
        i64::MAX
    } else {
        now_ms + span
    }
}

} // verus!
