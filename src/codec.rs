use vstd::prelude::*;
use vstd::utf8::*;
use vstd::string::*;

use crate::felt::{be_value, field_order, Felt};
use itertools::Itertools;

verus! {

/// The canonical bytes of each element of `v`.
pub open spec fn felt_views(v: Seq<Felt>) -> Seq<Seq<u8>> {
    v.map_values(|f: Felt| f@)
}

/// Number of elements that encode `n` bytes: one per started 31-byte chunk.
pub open spec fn chunk_count(n: nat) -> nat {
    (n + 30) / 31
}

/// Element `i` of the encoding of `b`: a zero byte, then bytes `31 i .. 31 i + 31`
/// of `b`, zero past its end.
pub open spec fn encoded_element(b: Seq<u8>, i: int) -> Seq<u8> {
    Seq::new(32, |j: int| if j >= 1 && 31 * i + j - 1 < b.len() { b[31 * i + j - 1] } else { 0u8 })
}

/// The encoding of the bytes `b` as field elements.
pub open spec fn encode_bytes(b: Seq<u8>) -> Seq<Seq<u8>> {
    Seq::new(chunk_count(b.len()), |i: int| encoded_element(b, i))
}

/// The trailing 31 bytes of each element, concatenated.
pub open spec fn payload_bytes(e: Seq<Seq<u8>>) -> Seq<u8>
    decreases e.len(),
{
    if e.len() == 0 {
        seq![]
    } else {
        payload_bytes(e.drop_last()) + e.last().subrange(1, 32)
    }
}

pub open spec fn trim_start_nul(s: Seq<char>) -> Seq<char>
    decreases s.len(),
{
    if s.len() > 0 && s[0] == '\0' {
        trim_start_nul(s.drop_first())
    } else {
        s
    }
}

pub open spec fn trim_end_nul(s: Seq<char>) -> Seq<char>
    decreases s.len(),
{
    if s.len() > 0 && s.last() == '\0' {
        trim_end_nul(s.drop_last())
    } else {
        s
    }
}

/// `s` without its leading and trailing NUL characters.
pub open spec fn trim_nul(s: Seq<char>) -> Seq<char> {
    trim_end_nul(trim_start_nul(s))
}

/// The character of a decimal digit.
pub open spec fn decimal_digit(d: nat) -> char {
    seq!['0', '1', '2', '3', '4', '5', '6', '7', '8', '9'][d as int]
}

/// The decimal text of `n`, without leading zeros.
pub open spec fn decimal_text(n: nat) -> Seq<char>
    decreases n,
{
    if n < 10 {
        seq![decimal_digit(n)]
    } else {
        decimal_text(n / 10).push(decimal_digit(n % 10))
    }
}

/// The decimal text of the element with bytes `b`.
pub open spec fn felt_text(b: Seq<u8>) -> Seq<char> {
    decimal_text(be_value(b) % field_order())
}

/// How one element is shown when the whole payload is not text: its own 31
/// bytes as text followed by the element in parentheses, or the element alone.
pub open spec fn fallback_piece(e: Seq<u8>) -> Seq<char> {
    let p = e.subrange(1, 32);
    if valid_utf8(p) {
        trim_nul(decode_utf8(p)) + seq![' ', '('] + felt_text(e) + seq![')']
    } else {
        felt_text(e)
    }
}

/// The pieces of all elements, separated by `", "`.
pub open spec fn joined_pieces(e: Seq<Seq<u8>>) -> Seq<char>
    decreases e.len(),
{
    if e.len() == 0 {
        seq![]
    } else if e.len() == 1 {
        fallback_piece(e[0])
    } else {
        joined_pieces(e.drop_last()) + seq![',', ' '] + fallback_piece(e.last())
    }
}

/// The text that a sequence of elements decodes to.
pub open spec fn decode_spec(e: Seq<Seq<u8>>) -> Seq<char> {
    let p = payload_bytes(e);
    if valid_utf8(p) {
        trim_nul(decode_utf8(p))
    } else {
        seq!['['] + joined_pieces(e) + seq![']']
    }
}

/// `k` NUL characters.
pub open spec fn nuls(k: nat) -> Seq<char> {
    Seq::new(k, |i: int| '\0')
}

proof fn lemma_encode_utf8_append(x: Seq<char>, y: Seq<char>)
    ensures
        encode_utf8(x + y) == encode_utf8(x) + encode_utf8(y),
    decreases x.len(),
{
    if x.len() == 0 {
        assert(x + y =~= y);
    } else {
        lemma_encode_utf8_append(x.drop_first(), y);
        assert((x + y).drop_first() =~= x.drop_first() + y);
        assert((x + y)[0] == x[0]);
    }
}

proof fn lemma_encode_nuls(k: nat)
    ensures
        encode_utf8(nuls(k)) == Seq::new(k, |i: int| 0u8),
    decreases k,
{
    if k > 0 {
        lemma_encode_nuls((k - 1) as nat);
        assert(nuls(k).drop_first() =~= nuls((k - 1) as nat));
        assert(0u32 & 0x7Fu32 == 0u32) by (bit_vector);
        assert(nuls(k)[0] as u32 == 0u32);
        assert(encode_scalar(nuls(k)[0] as u32) =~= seq![0u8]);
        assert(encode_utf8(nuls(k)) =~= Seq::new(k, |i: int| 0u8));
    } else {
        assert(nuls(k) =~= Seq::<char>::empty());
        assert(encode_utf8(nuls(k)) =~= Seq::new(k, |i: int| 0u8));
    }
}

proof fn lemma_payload_prefix(b: Seq<u8>, m: nat)
    requires
        m <= chunk_count(b.len()),
    ensures
        payload_bytes(encode_bytes(b).take(m as int)) == Seq::new(
            31 * m,
            |j: int| if j < b.len() { b[j] } else { 0u8 },
        ),
    decreases m,
{
    let e = encode_bytes(b).take(m as int);
    if m == 0 {
        assert(e =~= Seq::<Seq<u8>>::empty());
        assert(payload_bytes(e) =~= Seq::new(0, |j: int| if j < b.len() { b[j] } else { 0u8 }));
    } else {
        let m1 = (m - 1) as nat;
        lemma_payload_prefix(b, m1);
        assert(e.drop_last() =~= encode_bytes(b).take(m1 as int));
        assert(payload_bytes(e) =~= Seq::new(
            31 * m,
            |j: int| if j < b.len() { b[j] } else { 0u8 },
        )) by {
            let lhs = payload_bytes(e);
            let last = e.last();
            assert(last == encoded_element(b, m1 as int));
            assert(lhs.len() == 31 * m);
            assert forall|j: int| 0 <= j < 31 * m implies lhs[j] == (if j < b.len() {
                b[j]
            } else {
                0u8
            }) by {
                if j >= 31 * m1 {
                    assert(lhs[j] == last.subrange(1, 32)[j - 31 * m1]);
                    assert(31 * m1 + (j - 31 * m1 + 1) - 1 == j);
                }
            }
        }
    }
}

proof fn lemma_trim_end_nuls(s: Seq<char>, k: nat)
    requires
        s.len() == 0 || s.last() != '\0',
    ensures
        trim_end_nul(s + nuls(k)) == s,
    decreases k,
{
    if k == 0 {
        assert(s + nuls(k) =~= s);
        if s.len() > 0 {
            assert(trim_end_nul(s) == s);
        }
    } else {
        let k1 = (k - 1) as nat;
        assert((s + nuls(k)).drop_last() =~= s + nuls(k1));
        lemma_trim_end_nuls(s, k1);
    }
}

proof fn lemma_trim_start_nuls(k: nat)
    ensures
        trim_start_nul(nuls(k)) == Seq::<char>::empty(),
    decreases k,
{
    if k > 0 {
        assert(nuls(k).drop_first() =~= nuls((k - 1) as nat));
        lemma_trim_start_nuls((k - 1) as nat);
    } else {
        assert(nuls(k) =~= Seq::<char>::empty());
    }
}

/// Decoding the encoding of a text without NUL characters gives the text back.
pub proof fn lemma_decode_encode(s: Seq<char>)
    requires
        forall|i: int| 0 <= i < s.len() ==> s[i] != '\0',
    ensures
        decode_spec(encode_bytes(encode_utf8(s))) == s,
{
    let b = encode_utf8(s);
    let c = chunk_count(b.len());
    let k = (31 * c - b.len()) as nat;
    assert(31 * c >= b.len());
    lemma_payload_prefix(b, c);
    assert(encode_bytes(b).take(c as int) =~= encode_bytes(b));
    lemma_encode_nuls(k);
    lemma_encode_utf8_append(s, nuls(k));
    let p = payload_bytes(encode_bytes(b));
    assert(p =~= b + Seq::new(k, |i: int| 0u8));
    assert(p == encode_utf8(s + nuls(k)));
    encode_utf8_decode_utf8(s + nuls(k));
    encode_utf8_valid_utf8(s + nuls(k));
    if s.len() == 0 {
        assert(s + nuls(k) =~= nuls(k));
        lemma_trim_start_nuls(k);
        assert(trim_end_nul(Seq::<char>::empty()) == Seq::<char>::empty());
        assert(s =~= Seq::<char>::empty());
    } else {
        assert((s + nuls(k))[0] == s[0]);
        assert(trim_start_nul(s + nuls(k)) == s + nuls(k));
        lemma_trim_end_nuls(s, k);
    }
}

/// Relies on String::from_utf8: `Ok` exactly for valid UTF-8, holding the
/// decoded characters.
#[verifier::external_body]
fn utf8_to_string(b: Vec<u8>) -> (r: Option<String>)
    ensures
        r is Some <==> valid_utf8(b@),
        r matches Some(s) ==> s@ == decode_utf8(b@),
{
    String::from_utf8(b).ok()
}

/// Relies on starknet_types_core's `Felt::from_bytes_be`, which reduces modulo
/// the field order, and its `Display`, which writes the value's decimal digits
/// without leading zeros ("0" for zero).
#[verifier::external_body]
fn felt_to_text(f: &Felt) -> (r: String)
    ensures
        r@ == felt_text(f@),
{
    starknet_types_core::felt::Felt::from_bytes_be(&f.bytes).to_string()
}

/// Splits the bytes of `msg` into 31-byte chunks, the last zero-padded, and
/// makes each chunk an element behind a zero leading byte.
pub fn encode_str_as_felts(msg: &str) -> (r: Vec<Felt>)
    ensures
        felt_views(r@) == encode_bytes(msg.spec_bytes()),
        forall|i: int| 0 <= i < r@.len() ==> (#[trigger] r@[i]).wf(),
{
    let b = msg.as_bytes();
    let n = b.len();
    let count: usize = if n % 31 == 0 { n / 31 } else { n / 31 + 1 };
    assert(count == chunk_count(n as nat));
    let ghost bs = msg.spec_bytes();
    let mut out: Vec<Felt> = Vec::new();
    let mut i: usize = 0;
    while i < count
        invariant
            b@ == bs,
            n == bs.len(),
            count == chunk_count(n as nat),
            i <= count,
            out@.len() == i,
            forall|k: int| 0 <= k < i ==> (#[trigger] out@[k])@ == encoded_element(bs, k),
            forall|k: int| 0 <= k < i ==> (#[trigger] out@[k]).wf(),
        decreases count - i,
    {
        assert(31 * i < n) by (nonlinear_arith)
            requires
                i < count,
                count == (n + 30) / 31,
        ;
        let base: usize = 31 * i;
        let mut chunk: [u8; 32] = [0u8; 32];
        let mut j: usize = 1;
        while j < 32
            invariant
                1 <= j <= 32,
                base == 31 * i,
                base < n,
                b@ == bs,
                n == bs.len(),
                chunk@[0] == 0,
                forall|t: int| 1 <= t < j ==> chunk@[t] == encoded_element(bs, i as int)[t],
                forall|t: int| j <= t < 32 ==> chunk@[t] == 0,
            decreases 32 - j,
        {
            if j - 1 < n - base {
                chunk[j] = b[base + j - 1];
            }
            j = j + 1;
        }
        let f = Felt { bytes: chunk };
        assert(f@ =~= encoded_element(bs, i as int));
        out.push(f);
        i = i + 1;
    }
    assert(felt_views(out@) =~= encode_bytes(bs));
    out
}

/// The characters of `s` without leading and trailing NUL characters.
fn trim_nul_string(s: &String) -> (r: String)
    ensures
        r@ == trim_nul(s@),
{
    let n = s.as_str().unicode_len();
    let mut a: usize = 0;
    assert(s@.subrange(0, n as int) =~= s@);
    while a < n && s.as_str().get_char(a) == '\0'
        invariant
            n == s@.len(),
            a <= n,
            trim_start_nul(s@) == trim_start_nul(s@.subrange(a as int, n as int)),
        decreases n - a,
    {
        assert(s@.subrange(a as int + 1, n as int) =~= s@.subrange(a as int, n as int).drop_first());
        a = a + 1;
    }
    let ghost t = s@.subrange(a as int, n as int);
    assert(trim_start_nul(t) == t);
    let mut b: usize = n;
    while b > a && s.as_str().get_char(b - 1) == '\0'
        invariant
            n == s@.len(),
            a <= b <= n,
            trim_end_nul(t) == trim_end_nul(s@.subrange(a as int, b as int)),
        decreases b - a,
    {
        assert(s@.subrange(a as int, b as int - 1) =~= s@.subrange(a as int, b as int).drop_last());
        b = b - 1;
    }
    let r = s.as_str().substring_char(a, b).to_owned();
    r
}

/// The texts `ps` with `sep` between each two.
pub open spec fn joined(ps: Seq<Seq<char>>, sep: Seq<char>) -> Seq<char>
    decreases ps.len(),
{
    if ps.len() == 0 {
        seq![]
    } else if ps.len() == 1 {
        ps[0]
    } else {
        joined(ps.drop_last(), sep) + sep + ps.last()
    }
}

/// Relies on itertools' `Itertools::join` over `String`s: the items' text with
/// `sep` between each two, empty for no items.
#[verifier::external_body]
fn join_strings(pieces: &Vec<String>, sep: &str) -> (r: String)
    ensures
        r@ == joined(pieces@.map_values(|p: String| p@), sep@),
{
    pieces.iter().join(sep)
}

proof fn lemma_joined_pieces(e: Seq<Seq<u8>>)
    ensures
        joined(e.map_values(|x: Seq<u8>| fallback_piece(x)), seq![',', ' ']) == joined_pieces(e),
    decreases e.len(),
{
    let ps = e.map_values(|x: Seq<u8>| fallback_piece(x));
    if e.len() > 1 {
        lemma_joined_pieces(e.drop_last());
        assert(ps.drop_last() =~= e.drop_last().map_values(|x: Seq<u8>| fallback_piece(x)));
    }
}

/// Each element shown on its own, joined by `", "` and wrapped in brackets.
fn decode_fallback(encoding: &[Felt]) -> (r: String)
    ensures
        r@ == seq!['['] + joined_pieces(felt_views(encoding@)) + seq![']'],
{
    let ghost ev = felt_views(encoding@);
    let mut pieces: Vec<String> = Vec::new();
    let mut i: usize = 0;
    while i < encoding.len()
        invariant
            i <= encoding@.len(),
            ev == felt_views(encoding@),
            pieces@.len() == i,
            forall|k: int| 0 <= k < i ==> (#[trigger] pieces@[k])@ == fallback_piece(ev[k]),
        decreases encoding@.len() - i,
    {
        let f = &encoding[i];
        let mut p: Vec<u8> = Vec::new();
        let mut j: usize = 1;
        while j < 32
            invariant
                1 <= j <= 32,
                p@ == f@.subrange(1, j as int),
            decreases 32 - j,
        {
            p.push(f.bytes[j]);
            assert(p@ =~= f@.subrange(1, j as int + 1));
            j = j + 1;
        }
        let text = felt_to_text(f);
        let piece = match utf8_to_string(p) {
            Some(s) => {
                let mut t = trim_nul_string(&s);
                t.append(" (");
                t.append(text.as_str());
                t.append(")");
                proof { reveal_strlit(" ("); reveal_strlit(")"); }
                t
            },
            None => text,
        };
        assert(ev[i as int] == f@);
        pieces.push(piece);
        i = i + 1;
    }
    let ghost ps = pieces@.map_values(|p: String| p@);
    assert(ps =~= ev.map_values(|x: Seq<u8>| fallback_piece(x)));
    proof { lemma_joined_pieces(ev); }
    let body = join_strings(&pieces, ", ");
    proof { reveal_strlit(", "); }
    assert(", "@ =~= seq![',', ' ']);
    let mut out = String::from_str("[");
    proof { reveal_strlit("["); }
    out.append(body.as_str());
    out.append("]");
    proof { reveal_strlit("]"); }
    out
}

/// Decodes elements into text: the trailing 31 bytes of all elements as UTF-8
/// without NUL padding; where those bytes are not UTF-8, each element on its own
/// (`"<text> (<element>)"`, or the element alone), joined by `", "` in brackets.
pub fn decode_felts_as_str(encoding: &[Felt]) -> (r: String)
    ensures
        r@ == decode_spec(felt_views(encoding@)),
{
    let ghost ev = felt_views(encoding@);
    let mut bytes: Vec<u8> = Vec::new();
    let mut i: usize = 0;
    while i < encoding.len()
        invariant
            i <= encoding@.len(),
            ev == felt_views(encoding@),
            bytes@ == payload_bytes(ev.take(i as int)),
        decreases encoding@.len() - i,
    {
        let f = &encoding[i];
        let ghost before = bytes@;
        let mut j: usize = 1;
        while j < 32
            invariant
                1 <= j <= 32,
                bytes@ == before + f@.subrange(1, j as int),
            decreases 32 - j,
        {
            bytes.push(f.bytes[j]);
            assert(bytes@ =~= before + f@.subrange(1, j as int + 1));
            j = j + 1;
        }
        assert(ev.take(i as int + 1).drop_last() =~= ev.take(i as int));
        assert(ev.take(i as int + 1).last() == f@);
        i = i + 1;
    }
    assert(ev.take(i as int) =~= ev);
    match utf8_to_string(bytes) {
        Some(s) => trim_nul_string(&s),
        None => decode_fallback(encoding),
    }
}

} // verus!
