//! How evidence detects tampering: the canonical context text determines
//! each hashed field, so evidence whose field was changed passes
//! verification only if SHA-256 maps two different texts to one digest.
use vstd::prelude::*;
use vstd::utf8::{encode_utf8, encode_utf8_decode_utf8, is_ascii_chars, is_ascii_chars_encode_utf8};

use crate::canonical::{
    digits, escape_byte, escaped, hex_lower, join, json_bytes, json_opt_string, json_outcome,
    json_string, json_uuid, lit, uuid_nibble,
};
use crate::canonical::{json_action, json_authority, json_context, json_decision, json_identity};
use crate::decision::DecisionOutcome;
use crate::digest::{hex_char, hex_text, sha256};
use crate::evidence::{EvidenceModel, is_intact};
use crate::framing::{
    lemma_action_injective, lemma_authority_injective, lemma_decision_injective,
    lemma_identity_injective,
};

verus! {

proof fn lemma_escaped_concat(a: Seq<u8>, b: Seq<u8>)
    ensures
        escaped(a + b) == escaped(a) + escaped(b),
    decreases b.len(),
{
    if b.len() == 0 {
        assert(a + b =~= a);
        assert(escaped(b) =~= Seq::<u8>::empty());
        assert(escaped(a) + escaped(b) =~= escaped(a));
    } else {
        assert((a + b).drop_last() =~= a + b.drop_last());
        assert((a + b).last() == b.last());
        lemma_escaped_concat(a, b.drop_last());
        assert(escaped(a + b) =~= escaped(a) + escaped(b));
    }
}

proof fn lemma_escaped_front(s: Seq<u8>)
    requires
        s.len() > 0,
    ensures
        escaped(s) == escape_byte(s[0]) + escaped(s.drop_first()),
{
    assert(s =~= seq![s[0]] + s.drop_first());
    lemma_escaped_concat(seq![s[0]], s.drop_first());
    let one = seq![s[0]];
    assert(one.drop_last() =~= Seq::<u8>::empty());
    assert(one.last() == s[0]);
    assert(escaped(one.drop_last()) =~= Seq::<u8>::empty());
    assert(escaped(one) == escaped(one.drop_last()) + escape_byte(one.last()));
    assert(escaped(one) =~= escape_byte(s[0]));
}

proof fn lemma_hex_lower_injective(a: nat, b: nat)
    requires
        a < 16,
        b < 16,
        hex_lower(a) == hex_lower(b),
    ensures
        a == b,
{
}

/// An escaped byte never starts with a bare quote, and its first bytes
/// determine the byte: the escaping is a prefix code.
proof fn lemma_escape_prefix_code(x: u8, y: u8, r1: Seq<u8>, r2: Seq<u8>)
    requires
        escape_byte(x) + r1 == escape_byte(y) + r2,
    ensures
        x == y,
        r1 == r2,
{
    let e1 = escape_byte(x);
    let e2 = escape_byte(y);
    let l = e1 + r1;
    assert(l[0] == e1[0]);
    assert(l[0] == e2[0]);
    if e1.len() >= 2 && e2.len() >= 2 {
        assert(l[1] == e1[1]);
        assert(l[1] == e2[1]);
        if e1.len() == 6 && e2.len() == 6 {
            assert(l[4] == e1[4] && l[4] == e2[4]);
            assert(l[5] == e1[5] && l[5] == e2[5]);
            lemma_hex_lower_injective((x / 16) as nat, (y / 16) as nat);
            lemma_hex_lower_injective((x % 16) as nat, (y % 16) as nat);
        }
    }
    assert(x == y);
    assert(r1 =~= l.subrange(e1.len() as int, l.len() as int));
    assert(r2 =~= l.subrange(e2.len() as int, l.len() as int));
}

proof fn lemma_escape_not_quote(x: u8)
    ensures
        escape_byte(x).len() > 0,
        escape_byte(x)[0] != 0x22u8,
{
}

/// In escaped bytes, every quote is escaped: it comes right after a
/// backslash.
pub(crate) proof fn lemma_escaped_quote(b: Seq<u8>, j: int)
    requires
        0 <= j < escaped(b).len(),
        escaped(b)[j] == 0x22u8,
    ensures
        j >= 1,
        escaped(b)[j - 1] == 0x5Cu8,
    decreases b.len(),
{
    if b.len() == 0 {
        assert(escaped(b) =~= Seq::<u8>::empty());
    } else {
        let pre = escaped(b.drop_last());
        let x = b.last();
        let e = escape_byte(x);
        assert(escaped(b) == pre + e);
        if j < pre.len() {
            assert(pre[j] == 0x22u8);
            lemma_escaped_quote(b.drop_last(), j);
            assert(escaped(b)[j - 1] == pre[j - 1]);
        } else {
            let k = j - pre.len();
            assert(e[k] == 0x22u8);
            if x < 0x20 && x != 0x08 && x != 0x09 && x != 0x0A && x != 0x0C && x != 0x0D {
                assert(hex_lower((x / 16) as nat) != 0x22u8);
                assert(hex_lower((x % 16) as nat) != 0x22u8);
            }
            assert(x == 0x22u8 && k == 1);
            assert(escaped(b)[j - 1] == e[0]);
        }
    }
}

/// Escaped bytes followed by a closing quote delimit themselves.
proof fn lemma_escaped_delimited(a: Seq<u8>, b: Seq<u8>, r1: Seq<u8>, r2: Seq<u8>)
    requires
        escaped(a) + seq![0x22u8] + r1 == escaped(b) + seq![0x22u8] + r2,
    ensures
        a == b,
        r1 == r2,
    decreases a.len(),
{
    let q = seq![0x22u8];
    if a.len() == 0 {
        assert(escaped(a) =~= Seq::<u8>::empty());
        if b.len() > 0 {
            lemma_escaped_front(b);
            lemma_escape_not_quote(b[0]);
            assert((escaped(a) + q + r1)[0] == 0x22u8);
            assert((escaped(b) + q + r2)[0] == escape_byte(b[0])[0]);
        }
        assert(escaped(b) =~= Seq::<u8>::empty());
        assert(a =~= b);
        assert(q + r1 =~= escaped(a) + q + r1);
        assert(q + r2 =~= escaped(b) + q + r2);
        assert(r1 =~= (q + r1).drop_first());
        assert(r2 =~= (q + r2).drop_first());
    } else {
        lemma_escaped_front(a);
        lemma_escape_not_quote(a[0]);
        if b.len() == 0 {
            assert(escaped(b) =~= Seq::<u8>::empty());
            assert((escaped(b) + q + r2)[0] == 0x22u8);
            assert((escaped(a) + q + r1)[0] == escape_byte(a[0])[0]);
        }
        lemma_escaped_front(b);
        let ra = escaped(a.drop_first()) + q + r1;
        let rb = escaped(b.drop_first()) + q + r2;
        assert(escape_byte(a[0]) + ra =~= escaped(a) + q + r1);
        assert(escape_byte(b[0]) + rb =~= escaped(b) + q + r2);
        lemma_escape_prefix_code(a[0], b[0], ra, rb);
        lemma_escaped_delimited(a.drop_first(), b.drop_first(), r1, r2);
        assert(a =~= seq![a[0]] + a.drop_first());
        assert(b =~= seq![b[0]] + b.drop_first());
    }
}

/// A JSON string delimits itself: whatever follows it, its text is
/// recovered from the bytes.
pub proof fn lemma_json_string_delimited(a: Seq<char>, b: Seq<char>, r1: Seq<u8>, r2: Seq<u8>)
    requires
        json_string(a) + r1 == json_string(b) + r2,
    ensures
        a == b,
        r1 == r2,
{
    let q = seq![0x22u8];
    let ea = escaped(encode_utf8(a));
    let eb = escaped(encode_utf8(b));
    assert(json_string(a) + r1 =~= q + (ea + q + r1));
    assert(json_string(b) + r2 =~= q + (eb + q + r2));
    assert(ea + q + r1 =~= (json_string(a) + r1).drop_first());
    assert(eb + q + r2 =~= (json_string(b) + r2).drop_first());
    lemma_escaped_delimited(encode_utf8(a), encode_utf8(b), r1, r2);
    encode_utf8_decode_utf8(a);
    encode_utf8_decode_utf8(b);
}

/// Equal common parts around two pieces make the pieces equal.
pub proof fn lemma_cancel(x: Seq<u8>, m1: Seq<u8>, m2: Seq<u8>, y: Seq<u8>)
    requires
        x + m1 + y == x + m2 + y,
    ensures
        m1 == m2,
{
    lemma_suffix_cancel(x + m1, x + m2, y);
    lemma_prefix_cancel(x, m1, m2);
}

pub(crate) proof fn lemma_null_bytes()
    ensures
        lit("null"@) == seq![0x6Eu8, 0x75u8, 0x6Cu8, 0x6Cu8],
{
    reveal_strlit("null");
    let c = "null"@;
    assert(is_ascii_chars(c));
    is_ascii_chars_encode_utf8(c);
    assert(lit(c) =~= seq![0x6Eu8, 0x75u8, 0x6Cu8, 0x6Cu8]);
}

proof fn lemma_outcome_bytes()
    ensures
        json_outcome(DecisionOutcome::Allow).len() > 1 && json_outcome(DecisionOutcome::Allow)[1]
            == 0x41u8,
        json_outcome(DecisionOutcome::Deny).len() > 1 && json_outcome(DecisionOutcome::Deny)[1]
            == 0x44u8,
        json_outcome(DecisionOutcome::RequireApproval).len() > 1 && json_outcome(
            DecisionOutcome::RequireApproval,
        )[1] == 0x52u8,
{
    reveal_strlit("\"Allow\"");
    reveal_strlit("\"Deny\"");
    reveal_strlit("\"RequireApproval\"");
    let a = "\"Allow\""@;
    let d = "\"Deny\""@;
    let r = "\"RequireApproval\""@;
    assert(is_ascii_chars(a));
    assert(is_ascii_chars(d));
    assert(is_ascii_chars(r));
    is_ascii_chars_encode_utf8(a);
    is_ascii_chars_encode_utf8(d);
    is_ascii_chars_encode_utf8(r);
    assert(a[1] == 'A');
    assert(d[1] == 'D');
    assert(r[1] == 'R');
}

/// Different outcomes are written differently, whatever follows them.
pub proof fn lemma_outcome_delimited(
    o1: DecisionOutcome,
    o2: DecisionOutcome,
    r1: Seq<u8>,
    r2: Seq<u8>,
)
    requires
        json_outcome(o1) + r1 == json_outcome(o2) + r2,
    ensures
        o1 == o2,
{
    lemma_outcome_bytes();
    assert((json_outcome(o1) + r1)[1] == json_outcome(o1)[1]);
    assert((json_outcome(o2) + r2)[1] == json_outcome(o2)[1]);
}

/// A JSON string is never `null`, and different optional texts are written
/// differently.
pub proof fn lemma_json_opt_string_injective(o1: Option<Seq<char>>, o2: Option<Seq<char>>)
    requires
        json_opt_string(o1) == json_opt_string(o2),
    ensures
        o1 == o2,
{
    lemma_null_bytes();
    match (o1, o2) {
        (Some(a), Some(b)) => {
            assert(json_string(a) + Seq::<u8>::empty() =~= json_string(b) + Seq::<u8>::empty());
            lemma_json_string_delimited(a, b, Seq::<u8>::empty(), Seq::<u8>::empty());
        },
        (Some(a), None) => {
            assert(json_string(a)[0] == 0x22u8);
        },
        (None, Some(b)) => {
            assert(json_string(b)[0] == 0x22u8);
        },
        (None, None) => {},
    }
}

proof fn lemma_nibbles_determine_value(v1: u128, v2: u128)
    by (bit_vector)
    requires
        (v1 >> 124u32) & 15u128 == (v2 >> 124u32) & 15u128,
        (v1 >> 120u32) & 15u128 == (v2 >> 120u32) & 15u128,
        (v1 >> 116u32) & 15u128 == (v2 >> 116u32) & 15u128,
        (v1 >> 112u32) & 15u128 == (v2 >> 112u32) & 15u128,
        (v1 >> 108u32) & 15u128 == (v2 >> 108u32) & 15u128,
        (v1 >> 104u32) & 15u128 == (v2 >> 104u32) & 15u128,
        (v1 >> 100u32) & 15u128 == (v2 >> 100u32) & 15u128,
        (v1 >> 96u32) & 15u128 == (v2 >> 96u32) & 15u128,
        (v1 >> 92u32) & 15u128 == (v2 >> 92u32) & 15u128,
        (v1 >> 88u32) & 15u128 == (v2 >> 88u32) & 15u128,
        (v1 >> 84u32) & 15u128 == (v2 >> 84u32) & 15u128,
        (v1 >> 80u32) & 15u128 == (v2 >> 80u32) & 15u128,
        (v1 >> 76u32) & 15u128 == (v2 >> 76u32) & 15u128,
        (v1 >> 72u32) & 15u128 == (v2 >> 72u32) & 15u128,
        (v1 >> 68u32) & 15u128 == (v2 >> 68u32) & 15u128,
        (v1 >> 64u32) & 15u128 == (v2 >> 64u32) & 15u128,
        (v1 >> 60u32) & 15u128 == (v2 >> 60u32) & 15u128,
        (v1 >> 56u32) & 15u128 == (v2 >> 56u32) & 15u128,
        (v1 >> 52u32) & 15u128 == (v2 >> 52u32) & 15u128,
        (v1 >> 48u32) & 15u128 == (v2 >> 48u32) & 15u128,
        (v1 >> 44u32) & 15u128 == (v2 >> 44u32) & 15u128,
        (v1 >> 40u32) & 15u128 == (v2 >> 40u32) & 15u128,
        (v1 >> 36u32) & 15u128 == (v2 >> 36u32) & 15u128,
        (v1 >> 32u32) & 15u128 == (v2 >> 32u32) & 15u128,
        (v1 >> 28u32) & 15u128 == (v2 >> 28u32) & 15u128,
        (v1 >> 24u32) & 15u128 == (v2 >> 24u32) & 15u128,
        (v1 >> 20u32) & 15u128 == (v2 >> 20u32) & 15u128,
        (v1 >> 16u32) & 15u128 == (v2 >> 16u32) & 15u128,
        (v1 >> 12u32) & 15u128 == (v2 >> 12u32) & 15u128,
        (v1 >> 8u32) & 15u128 == (v2 >> 8u32) & 15u128,
        (v1 >> 4u32) & 15u128 == (v2 >> 4u32) & 15u128,
        (v1 >> 0u32) & 15u128 == (v2 >> 0u32) & 15u128,
    ensures
        v1 == v2,
{
}

proof fn lemma_nibble_bound(v: u128, k: int)
    ensures
        uuid_nibble(v, k) < 16,
{
    let s = (124 - 4 * k) as u32;
    assert((v >> s) & 15u128 < 16u128) by (bit_vector);
}

/// Different UUIDs are written differently.
pub proof fn lemma_json_uuid_injective(v1: u128, v2: u128)
    requires
        json_uuid(v1) == json_uuid(v2),
    ensures
        v1 == v2,
{
    let t1 = json_uuid(v1);
    let t2 = json_uuid(v2);
    assert forall|k: int| 0 <= k < 32 implies uuid_nibble(v1, k) == uuid_nibble(v2, k) by {
        let pos: int = 1 + k + if k < 8 {
            0int
        } else if k < 12 {
            1int
        } else if k < 16 {
            2int
        } else if k < 20 {
            3int
        } else {
            4int
        };
        assert(t1[pos] == hex_lower(uuid_nibble(v1, k)));
        assert(t2[pos] == hex_lower(uuid_nibble(v2, k)));
        lemma_nibble_bound(v1, k);
        lemma_nibble_bound(v2, k);
        lemma_hex_lower_injective(uuid_nibble(v1, k), uuid_nibble(v2, k));
    }
    assert(uuid_nibble(v1, 0) == uuid_nibble(v2, 0));
    assert(uuid_nibble(v1, 1) == uuid_nibble(v2, 1));
    assert(uuid_nibble(v1, 2) == uuid_nibble(v2, 2));
    assert(uuid_nibble(v1, 3) == uuid_nibble(v2, 3));
    assert(uuid_nibble(v1, 4) == uuid_nibble(v2, 4));
    assert(uuid_nibble(v1, 5) == uuid_nibble(v2, 5));
    assert(uuid_nibble(v1, 6) == uuid_nibble(v2, 6));
    assert(uuid_nibble(v1, 7) == uuid_nibble(v2, 7));
    assert(uuid_nibble(v1, 8) == uuid_nibble(v2, 8));
    assert(uuid_nibble(v1, 9) == uuid_nibble(v2, 9));
    assert(uuid_nibble(v1, 10) == uuid_nibble(v2, 10));
    assert(uuid_nibble(v1, 11) == uuid_nibble(v2, 11));
    assert(uuid_nibble(v1, 12) == uuid_nibble(v2, 12));
    assert(uuid_nibble(v1, 13) == uuid_nibble(v2, 13));
    assert(uuid_nibble(v1, 14) == uuid_nibble(v2, 14));
    assert(uuid_nibble(v1, 15) == uuid_nibble(v2, 15));
    assert(uuid_nibble(v1, 16) == uuid_nibble(v2, 16));
    assert(uuid_nibble(v1, 17) == uuid_nibble(v2, 17));
    assert(uuid_nibble(v1, 18) == uuid_nibble(v2, 18));
    assert(uuid_nibble(v1, 19) == uuid_nibble(v2, 19));
    assert(uuid_nibble(v1, 20) == uuid_nibble(v2, 20));
    assert(uuid_nibble(v1, 21) == uuid_nibble(v2, 21));
    assert(uuid_nibble(v1, 22) == uuid_nibble(v2, 22));
    assert(uuid_nibble(v1, 23) == uuid_nibble(v2, 23));
    assert(uuid_nibble(v1, 24) == uuid_nibble(v2, 24));
    assert(uuid_nibble(v1, 25) == uuid_nibble(v2, 25));
    assert(uuid_nibble(v1, 26) == uuid_nibble(v2, 26));
    assert(uuid_nibble(v1, 27) == uuid_nibble(v2, 27));
    assert(uuid_nibble(v1, 28) == uuid_nibble(v2, 28));
    assert(uuid_nibble(v1, 29) == uuid_nibble(v2, 29));
    assert(uuid_nibble(v1, 30) == uuid_nibble(v2, 30));
    assert(uuid_nibble(v1, 31) == uuid_nibble(v2, 31));
    lemma_nibbles_determine_value(v1, v2);
}


pub(crate) proof fn lemma_digits_shape(n: nat)
    ensures
        digits(n).len() >= 1,
        n >= 10 ==> digits(n).len() >= 2,
        forall|i: int| 0 <= i < digits(n).len() ==> 48 <= #[trigger] digits(n)[i] <= 57,
    decreases n,
{
    if n >= 10 {
        lemma_digits_shape(n / 10);
        assert forall|i: int| 0 <= i < digits(n).len() implies 48 <= #[trigger] digits(n)[i]
            <= 57 by {
            if i < digits(n / 10).len() {
                assert(digits(n)[i] == digits(n / 10)[i]);
            }
        }
    }
}

pub(crate) proof fn lemma_digits_injective(n: nat, m: nat)
    requires
        digits(n) == digits(m),
    ensures
        n == m,
    decreases n,
{
    lemma_digits_shape(n);
    lemma_digits_shape(m);
    if n >= 10 && m >= 10 {
        let dn = digits(n);
        assert(dn.drop_last() =~= digits(n / 10));
        assert(digits(m).drop_last() =~= digits(m / 10));
        assert(dn.last() == (48 + n % 10) as u8);
        assert(digits(m).last() == (48 + m % 10) as u8);
        assert(dn.last() == digits(m).last());
        assert(((48 + n % 10) as u8) as int == 48 + n % 10);
        assert(((48 + m % 10) as u8) as int == 48 + m % 10);
        assert(n % 10 == m % 10);
        lemma_digits_injective(n / 10, m / 10);
        assert(n == 10 * (n / 10) + n % 10);
        assert(m == 10 * (m / 10) + m % 10);
        assert(n == m);
    } else if n < 10 && m < 10 {
        assert(digits(n) == seq![(48 + n) as u8]);
        assert(digits(m) == seq![(48 + m) as u8]);
        assert(digits(n)[0] == digits(m)[0]);
        assert(digits(n)[0] == (48 + n) as u8);
        assert(digits(m)[0] == (48 + m) as u8);
        assert(((48 + n) as u8) as int == 48 + n);
        assert(((48 + m) as u8) as int == 48 + m);
        assert(n == m);
    } else {
        assert(digits(n).len() != digits(m).len());
    }
}

/// Items that are non-empty and contain no comma.
pub open spec fn comma_free_items(items: Seq<Seq<u8>>) -> bool {
    forall|i: int, j: int|
        0 <= i < items.len() && 0 <= j < items[i].len() ==> #[trigger] items[i][j] != 0x2Cu8
}

pub open spec fn nonempty_items(items: Seq<Seq<u8>>) -> bool {
    forall|i: int| 0 <= i < items.len() ==> (#[trigger] items[i]).len() > 0
}

proof fn lemma_join_shape(items: Seq<Seq<u8>>)
    requires
        nonempty_items(items),
    ensures
        items.len() > 0 ==> join(items).len() > 0,
        items.len() >= 2 ==> join(items)[join(items.drop_last()).len() as int] == 0x2Cu8,
        items.len() >= 2 ==> join(items).len() == join(items.drop_last()).len() + 1
            + items.last().len(),
{
    if items.len() == 1 {
        assert(items[0].len() > 0);
    }
}

proof fn lemma_join_injective(a: Seq<Seq<u8>>, b: Seq<Seq<u8>>)
    requires
        nonempty_items(a),
        nonempty_items(b),
        comma_free_items(a),
        comma_free_items(b),
        join(a) == join(b),
    ensures
        a == b,
    decreases a.len() + b.len(),
{
    lemma_join_shape(a);
    lemma_join_shape(b);
    let j = join(a);
    if a.len() == 0 || b.len() == 0 {
        assert(a.len() == 0 && b.len() == 0);
        assert(a =~= b);
    } else if a.len() == 1 && b.len() >= 2 {
        let k = join(b.drop_last()).len() as int;
        assert(j == a[0]);
        assert(a[0][k] == 0x2Cu8);
    } else if a.len() >= 2 && b.len() == 1 {
        let k = join(a.drop_last()).len() as int;
        assert(j == b[0]);
        assert(b[0][k] == 0x2Cu8);
    } else if a.len() == 1 && b.len() == 1 {
        assert(a =~= b);
    } else {
        let la = a.last();
        let lb = b.last();
        let pa = join(a.drop_last());
        let pb = join(b.drop_last());
        assert(j == pa + seq![0x2Cu8] + la);
        assert(j == pb + seq![0x2Cu8] + lb);
        if la.len() < lb.len() {
            let k = pa.len() as int;
            assert(j[k] == 0x2Cu8);
            assert(j[k] == lb[k - pb.len() - 1]);
            assert(lb == b[b.len() - 1]);
        } else if lb.len() < la.len() {
            let k = pb.len() as int;
            assert(j[k] == 0x2Cu8);
            assert(j[k] == la[k - pa.len() - 1]);
            assert(la == a[a.len() - 1]);
        }
        assert(la =~= j.subrange((j.len() - la.len()) as int, j.len() as int));
        assert(lb =~= j.subrange((j.len() - lb.len()) as int, j.len() as int));
        assert(pa =~= j.subrange(0, pa.len() as int));
        assert(pb =~= j.subrange(0, pb.len() as int));
        assert forall|i: int, k: int|
            0 <= i < a.drop_last().len() && 0 <= k < a.drop_last()[i].len() implies #[trigger] a.drop_last()[i][k]
            != 0x2Cu8 by {
            assert(a.drop_last()[i] == a[i]);
        }
        assert forall|i: int, k: int|
            0 <= i < b.drop_last().len() && 0 <= k < b.drop_last()[i].len() implies #[trigger] b.drop_last()[i][k]
            != 0x2Cu8 by {
            assert(b.drop_last()[i] == b[i]);
        }
        assert forall|i: int| 0 <= i < a.drop_last().len() implies (#[trigger] a.drop_last()[i]).len() > 0 by {
            assert(a.drop_last()[i] == a[i]);
        }
        assert forall|i: int| 0 <= i < b.drop_last().len() implies (#[trigger] b.drop_last()[i]).len() > 0 by {
            assert(b.drop_last()[i] == b[i]);
        }
        lemma_join_injective(a.drop_last(), b.drop_last());
        assert(a =~= a.drop_last().push(la));
        assert(b =~= b.drop_last().push(lb));
    }
}

/// Different byte sequences are written as different JSON arrays.
pub proof fn lemma_json_bytes_injective(b1: Seq<u8>, b2: Seq<u8>)
    requires
        json_bytes(b1) == json_bytes(b2),
    ensures
        b1 == b2,
{
    let f = |b: u8| digits(b as nat);
    let i1 = b1.map_values(f);
    let i2 = b2.map_values(f);
    assert(json_bytes(b1) == seq![0x5Bu8] + join(i1) + seq![0x5Du8]);
    assert(json_bytes(b2) == seq![0x5Bu8] + join(i2) + seq![0x5Du8]);
    lemma_cancel(seq![0x5Bu8], join(i1), join(i2), seq![0x5Du8]);
    assert forall|i: int, j: int| 0 <= i < i1.len() && 0 <= j < i1[i].len() implies #[trigger] i1[i][j]
        != 0x2Cu8 by {
        lemma_digits_shape(b1[i] as nat);
    }
    assert forall|i: int, j: int| 0 <= i < i2.len() && 0 <= j < i2[i].len() implies #[trigger] i2[i][j]
        != 0x2Cu8 by {
        lemma_digits_shape(b2[i] as nat);
    }
    assert forall|i: int| 0 <= i < i1.len() implies (#[trigger] i1[i]).len() > 0 by {
        lemma_digits_shape(b1[i] as nat);
    }
    assert forall|i: int| 0 <= i < i2.len() implies (#[trigger] i2[i]).len() > 0 by {
        lemma_digits_shape(b2[i] as nat);
    }
    lemma_join_injective(i1, i2);
    assert forall|i: int| 0 <= i < b1.len() implies b1[i] == b2[i] by {
        assert(i1[i] == i2[i]);
        lemma_digits_injective(b1[i] as nat, b2[i] as nat);
    }
    assert(b1 =~= b2);
}


proof fn lemma_hex_char_injective(a: nat, b: nat)
    requires
        a < 16,
        b < 16,
        hex_char(a) == hex_char(b),
    ensures
        a == b,
{
    let ua: nat = if a < 10 {
        48 + a
    } else {
        87 + a
    };
    let ub: nat = if b < 10 {
        48 + b
    } else {
        87 + b
    };
    assert((ua as char) as u32 == ua);
    assert((ub as char) as u32 == ub);
}

/// Different byte sequences get different hexadecimal texts.
pub proof fn lemma_hex_text_injective(d1: Seq<u8>, d2: Seq<u8>)
    requires
        hex_text(d1) == hex_text(d2),
    ensures
        d1 == d2,
{
    assert(d1.len() == d2.len()) by {
        assert(hex_text(d1).len() == 2 * d1.len());
        assert(hex_text(d2).len() == 2 * d2.len());
    }
    assert forall|i: int| 0 <= i < d1.len() implies d1[i] == d2[i] by {
        let k = 2 * i;
        assert(k / 2 == i && k % 2 == 0);
        assert((k + 1) / 2 == i && (k + 1) % 2 == 1);
        assert(hex_text(d1)[k] == hex_char((d1[k / 2] / 16) as nat));
        assert(hex_text(d2)[k] == hex_char((d2[k / 2] / 16) as nat));
        assert(hex_text(d1)[k + 1] == hex_char((d1[(k + 1) / 2] % 16) as nat));
        assert(hex_text(d2)[k + 1] == hex_char((d2[(k + 1) / 2] % 16) as nat));
        lemma_hex_char_injective((d1[i] / 16) as nat, (d2[i] / 16) as nat);
        lemma_hex_char_injective((d1[i] % 16) as nat, (d2[i] % 16) as nat);
    }
    assert(d1 =~= d2);
}

/// The canonical context text of evidence.
pub open spec fn context_text(e: EvidenceModel) -> Seq<u8> {
    json_context(e.request_id, e.agent, e.authority, e.action, e.decision, e.trace_id)
}

/// Intact evidence verifies: two intact pieces of evidence that carry the
/// same context hash have context texts with the same SHA-256 digest. So
/// evidence altered after hashing, whose context text changed, passes
/// verification only if SHA-256 maps two different texts to one digest.
pub proof fn law_same_hash_means_same_digest(e1: EvidenceModel, e2: EvidenceModel)
    requires
        is_intact(e1),
        is_intact(e2),
        e1.context_hash == e2.context_hash,
    ensures
        sha256(context_text(e1)) == sha256(context_text(e2)),
{
    lemma_hex_text_injective(sha256(context_text(e1)), sha256(context_text(e2)));
}

pub(crate) proof fn lemma_prefix_cancel(x: Seq<u8>, y1: Seq<u8>, y2: Seq<u8>)
    requires
        x + y1 == x + y2,
    ensures
        y1 == y2,
{
    assert((x + y1).len() == (x + y2).len());
    assert((x + y1).len() == x.len() + y1.len());
    assert((x + y2).len() == x.len() + y2.len());
    assert(y1.len() == y2.len());
    assert forall|i: int| 0 <= i < y1.len() implies y1[i] == y2[i] by {
        assert((x + y1)[x.len() + i] == y1[i]);
        assert((x + y2)[x.len() + i] == y2[i]);
    }
    assert(y1 =~= y2);
}

pub(crate) proof fn lemma_suffix_cancel(y1: Seq<u8>, y2: Seq<u8>, x: Seq<u8>)
    requires
        y1 + x == y2 + x,
    ensures
        y1 == y2,
{
    assert((y1 + x).len() == (y2 + x).len());
    assert((y1 + x).len() == y1.len() + x.len());
    assert((y2 + x).len() == y2.len() + x.len());
    assert(y1.len() == y2.len());
    assert forall|i: int| 0 <= i < y1.len() implies y1[i] == y2[i] by {
        assert((y1 + x)[i] == y1[i]);
        assert((y2 + x)[i] == y2[i]);
    }
    assert(y1 =~= y2);
}

/// The context text from the trace id on.
spec fn from_trace_id(e: EvidenceModel) -> Seq<u8> {
    json_opt_string(e.trace_id) + lit("}"@)
}

/// The context text from the request id on.
spec fn from_request_id(e: EvidenceModel) -> Seq<u8> {
    json_uuid(e.request_id) + (lit(",\"trace_id\":"@) + from_trace_id(e))
}

/// The context text from the decision on.
spec fn from_decision(e: EvidenceModel) -> Seq<u8> {
    json_decision(e.decision) + (lit(",\"request_id\":"@) + from_request_id(e))
}

/// The context text from the authority on.
spec fn from_authority(e: EvidenceModel) -> Seq<u8> {
    json_authority(e.authority) + (lit(",\"decision\":"@) + from_decision(e))
}

/// The context text from the agent on.
spec fn from_agent(e: EvidenceModel) -> Seq<u8> {
    json_identity(e.agent) + (lit(",\"authority\":"@) + from_authority(e))
}

/// The context text from the action on.
spec fn from_action(e: EvidenceModel) -> Seq<u8> {
    json_action(e.action) + (lit(",\"agent\":"@) + from_agent(e))
}

/// Equal context texts, component by component from the front: the
/// components are written in a fixed order, each after a fixed key.
proof fn lemma_equal_texts_peel(e1: EvidenceModel, e2: EvidenceModel)
    requires
        context_text(e1) == context_text(e2),
    ensures
        from_action(e1) == from_action(e2),
        json_action(e1.action) == json_action(e2.action) ==> from_agent(e1) == from_agent(e2),
        json_identity(e1.agent) == json_identity(e2.agent) && from_agent(e1) == from_agent(e2)
            ==> from_authority(e1) == from_authority(e2),
        json_authority(e1.authority) == json_authority(e2.authority) && from_authority(e1)
            == from_authority(e2) ==> from_decision(e1) == from_decision(e2),
        json_decision(e1.decision) == json_decision(e2.decision) && from_decision(e1)
            == from_decision(e2) ==> from_request_id(e1) == from_request_id(e2),
        json_uuid(e1.request_id) == json_uuid(e2.request_id) && from_request_id(e1)
            == from_request_id(e2) ==> from_trace_id(e1) == from_trace_id(e2),
{
    lemma_prefix_cancel(lit("{\"action\":"@), from_action(e1), from_action(e2));
    if json_action(e1.action) == json_action(e2.action) {
        lemma_prefix_cancel(
            json_action(e1.action),
            lit(",\"agent\":"@) + from_agent(e1),
            lit(",\"agent\":"@) + from_agent(e2),
        );
        lemma_prefix_cancel(lit(",\"agent\":"@), from_agent(e1), from_agent(e2));
    }
    if json_identity(e1.agent) == json_identity(e2.agent) && from_agent(e1) == from_agent(e2) {
        lemma_prefix_cancel(
            json_identity(e1.agent),
            lit(",\"authority\":"@) + from_authority(e1),
            lit(",\"authority\":"@) + from_authority(e2),
        );
        lemma_prefix_cancel(lit(",\"authority\":"@), from_authority(e1), from_authority(e2));
    }
    if json_authority(e1.authority) == json_authority(e2.authority) && from_authority(e1)
        == from_authority(e2) {
        lemma_prefix_cancel(
            json_authority(e1.authority),
            lit(",\"decision\":"@) + from_decision(e1),
            lit(",\"decision\":"@) + from_decision(e2),
        );
        lemma_prefix_cancel(lit(",\"decision\":"@), from_decision(e1), from_decision(e2));
    }
    if json_decision(e1.decision) == json_decision(e2.decision) && from_decision(e1)
        == from_decision(e2) {
        lemma_prefix_cancel(
            json_decision(e1.decision),
            lit(",\"request_id\":"@) + from_request_id(e1),
            lit(",\"request_id\":"@) + from_request_id(e2),
        );
        lemma_prefix_cancel(lit(",\"request_id\":"@), from_request_id(e1), from_request_id(e2));
    }
    if json_uuid(e1.request_id) == json_uuid(e2.request_id) && from_request_id(e1)
        == from_request_id(e2) {
        lemma_prefix_cancel(
            json_uuid(e1.request_id),
            lit(",\"trace_id\":"@) + from_trace_id(e1),
            lit(",\"trace_id\":"@) + from_trace_id(e2),
        );
        lemma_prefix_cancel(lit(",\"trace_id\":"@), from_trace_id(e1), from_trace_id(e2));
    }
}

/// Changing the trace id of evidence changes its context text.
pub proof fn law_trace_id_is_bound(e1: EvidenceModel, e2: EvidenceModel)
    requires
        e2 == (EvidenceModel { trace_id: e2.trace_id, ..e1 }),
        e2.trace_id != e1.trace_id,
    ensures
        context_text(e1) != context_text(e2),
{
    if context_text(e1) == context_text(e2) {
        lemma_equal_texts_peel(e1, e2);
        lemma_suffix_cancel(json_opt_string(e1.trace_id), json_opt_string(e2.trace_id), lit("}"@));
        lemma_json_opt_string_injective(e1.trace_id, e2.trace_id);
    }
}

/// Changing the request id of evidence changes its context text.
pub proof fn law_request_id_is_bound(e1: EvidenceModel, e2: EvidenceModel)
    requires
        e2 == (EvidenceModel { request_id: e2.request_id, ..e1 }),
        e2.request_id != e1.request_id,
    ensures
        context_text(e1) != context_text(e2),
{
    if context_text(e1) == context_text(e2) {
        lemma_equal_texts_peel(e1, e2);
        lemma_suffix_cancel(
            json_uuid(e1.request_id),
            json_uuid(e2.request_id),
            lit(",\"trace_id\":"@) + from_trace_id(e1),
        );
        lemma_json_uuid_injective(e1.request_id, e2.request_id);
    }
}

/// Changing the action of evidence (its type, parameters or target) changes
/// its context text.
pub proof fn law_action_is_bound(e1: EvidenceModel, e2: EvidenceModel)
    requires
        e2 == (EvidenceModel { action: e2.action, ..e1 }),
        e2.action != e1.action,
    ensures
        context_text(e1) != context_text(e2),
{
    if context_text(e1) == context_text(e2) {
        lemma_equal_texts_peel(e1, e2);
        lemma_suffix_cancel(
            json_action(e1.action),
            json_action(e2.action),
            lit(",\"agent\":"@) + from_agent(e1),
        );
        lemma_action_injective(e1.action, e2.action);
    }
}

/// Changing the agent identity of evidence (its id, key algorithm or public
/// key) changes its context text.
pub proof fn law_agent_is_bound(e1: EvidenceModel, e2: EvidenceModel)
    requires
        e2 == (EvidenceModel { agent: e2.agent, ..e1 }),
        e2.agent != e1.agent,
    ensures
        context_text(e1) != context_text(e2),
{
    if context_text(e1) == context_text(e2) {
        lemma_equal_texts_peel(e1, e2);
        lemma_suffix_cancel(
            json_identity(e1.agent),
            json_identity(e2.agent),
            lit(",\"authority\":"@) + from_authority(e1),
        );
        lemma_identity_injective(e1.agent, e2.agent);
    }
}

/// Changing the authority of evidence (its id, subject, capabilities,
/// constraints, issuer, validity or version) changes its context text.
pub proof fn law_authority_is_bound(e1: EvidenceModel, e2: EvidenceModel)
    requires
        e2 == (EvidenceModel { authority: e2.authority, ..e1 }),
        e2.authority != e1.authority,
    ensures
        context_text(e1) != context_text(e2),
{
    if context_text(e1) == context_text(e2) {
        lemma_equal_texts_peel(e1, e2);
        lemma_suffix_cancel(
            json_authority(e1.authority),
            json_authority(e2.authority),
            lit(",\"decision\":"@) + from_decision(e1),
        );
        lemma_authority_injective(e1.authority, e2.authority);
    }
}

/// Changing the decision of evidence (its outcome, reason or contributions)
/// changes its context text.
pub proof fn law_decision_is_bound(e1: EvidenceModel, e2: EvidenceModel)
    requires
        e2 == (EvidenceModel { decision: e2.decision, ..e1 }),
        e2.decision != e1.decision,
    ensures
        context_text(e1) != context_text(e2),
{
    if context_text(e1) == context_text(e2) {
        lemma_equal_texts_peel(e1, e2);
        lemma_suffix_cancel(
            json_decision(e1.decision),
            json_decision(e2.decision),
            lit(",\"request_id\":"@) + from_request_id(e1),
        );
        lemma_decision_injective(e1.decision, e2.decision);
    }
}

/// Whether `e2` is `e1` with exactly one hashed component changed.
pub open spec fn one_component_changed(e1: EvidenceModel, e2: EvidenceModel) -> bool {
    ||| e2 == (EvidenceModel { request_id: e2.request_id, ..e1 }) && e2.request_id != e1.request_id
    ||| e2 == (EvidenceModel { agent: e2.agent, ..e1 }) && e2.agent != e1.agent
    ||| e2 == (EvidenceModel { authority: e2.authority, ..e1 }) && e2.authority != e1.authority
    ||| e2 == (EvidenceModel { action: e2.action, ..e1 }) && e2.action != e1.action
    ||| e2 == (EvidenceModel { decision: e2.decision, ..e1 }) && e2.decision != e1.decision
    ||| e2 == (EvidenceModel { trace_id: e2.trace_id, ..e1 }) && e2.trace_id != e1.trace_id
}

/// Tampering is detected: if intact evidence has one hashed component
/// changed, keeping its context hash, and still verifies, then SHA-256 maps
/// two different context texts to the same digest.
pub proof fn law_undetected_tampering_needs_a_collision(e1: EvidenceModel, e2: EvidenceModel)
    requires
        is_intact(e1),
        one_component_changed(e1, e2),
        is_intact(e2),
    ensures
        context_text(e1) != context_text(e2),
        sha256(context_text(e1)) == sha256(context_text(e2)),
{
    if e2 == (EvidenceModel { request_id: e2.request_id, ..e1 }) && e2.request_id
        != e1.request_id {
        law_request_id_is_bound(e1, e2);
    } else if e2 == (EvidenceModel { agent: e2.agent, ..e1 }) && e2.agent != e1.agent {
        law_agent_is_bound(e1, e2);
    } else if e2 == (EvidenceModel { authority: e2.authority, ..e1 }) && e2.authority
        != e1.authority {
        law_authority_is_bound(e1, e2);
    } else if e2 == (EvidenceModel { action: e2.action, ..e1 }) && e2.action != e1.action {
        law_action_is_bound(e1, e2);
    } else if e2 == (EvidenceModel { decision: e2.decision, ..e1 }) && e2.decision
        != e1.decision {
        law_decision_is_bound(e1, e2);
    } else {
        law_trace_id_is_bound(e1, e2);
    }
    law_same_hash_means_same_digest(e1, e2);
}

} // verus!
