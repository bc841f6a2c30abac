//! How the pieces of the canonical JSON text delimit themselves: a piece
//! written in front of any other bytes can be read back, together with what
//! follows it. From this, each component of an authorization context (agent,
//! authority, action, decision) is determined by its JSON text.
use vstd::prelude::*;
use vstd::utf8::{encode_utf8, encode_utf8_decode_utf8, is_ascii_chars, is_ascii_chars_encode_utf8};

use crate::action::ActionModel;
use crate::authority::{AuthorityModel, ConstraintModel, ValidityModel};
use crate::canonical::{
    digits, escaped, join, json_action, json_array, json_authority, json_bytes, json_constraint,
    json_contribution, json_decision, json_identity, json_opt_string, json_outcome, json_string,
    json_strings, json_uuid, json_validity, lit,
};
use crate::decision::{ContributionModel, DecisionModel};
use crate::identity::IdentityModel;
use crate::integrity::{
    lemma_digits_injective, lemma_escaped_quote, lemma_json_bytes_injective,
    lemma_json_opt_string_injective, lemma_json_string_delimited, lemma_json_uuid_injective, lemma_null_bytes,
    lemma_outcome_delimited, lemma_prefix_cancel, lemma_suffix_cancel,
};

verus! {

/// Whether an item encoding frames itself: every item is written as a
/// non-empty text that does not start with a closing bracket, and an item is
/// recovered from its text whatever follows it.
pub open spec fn frames<T>(f: spec_fn(T) -> Seq<u8>) -> bool {
    &&& forall|a: T| #[trigger] f(a).len() > 0 && f(a)[0] != 0x5Du8
    &&& forall|a: T, b: T, r1: Seq<u8>, r2: Seq<u8>|
        #![trigger f(a) + r1, f(b) + r2]
        f(a) + r1 == f(b) + r2 ==> a == b
}

/// An optional JSON string delimits itself.
pub proof fn lemma_opt_string_delimited(
    o1: Option<Seq<char>>,
    o2: Option<Seq<char>>,
    r1: Seq<u8>,
    r2: Seq<u8>,
)
    requires
        json_opt_string(o1) + r1 == json_opt_string(o2) + r2,
    ensures
        o1 == o2,
        r1 == r2,
{
    lemma_null_bytes();
    let t1 = json_opt_string(o1) + r1;
    let t2 = json_opt_string(o2) + r2;
    match (o1, o2) {
        (Some(a), Some(b)) => {
            lemma_json_string_delimited(a, b, r1, r2);
        },
        (Some(a), None) => {
            assert(t1[0] == 0x22u8);
            assert(t2[0] == 0x6Eu8);
        },
        (None, Some(b)) => {
            assert(t1[0] == 0x6Eu8);
            assert(t2[0] == 0x22u8);
        },
        (None, None) => {
            lemma_prefix_cancel(lit("null"@), r1, r2);
        },
    }
}

/// A UUID's JSON string has a fixed length, so it delimits itself.
pub proof fn lemma_uuid_delimited(v1: u128, v2: u128, r1: Seq<u8>, r2: Seq<u8>)
    requires
        json_uuid(v1) + r1 == json_uuid(v2) + r2,
    ensures
        v1 == v2,
        r1 == r2,
{
    let t = json_uuid(v1) + r1;
    assert(json_uuid(v1).len() == 38);
    assert(json_uuid(v2).len() == 38);
    assert(json_uuid(v1) =~= t.subrange(0, 38));
    assert(json_uuid(v2) =~= (json_uuid(v2) + r2).subrange(0, 38));
    lemma_json_uuid_injective(v1, v2);
    lemma_prefix_cancel(json_uuid(v1), r1, r2);
}

/// Joined items read from the front: the first item, then a comma and the
/// others.
proof fn lemma_join_front(items: Seq<Seq<u8>>)
    requires
        items.len() > 0,
    ensures
        items.len() == 1 ==> join(items) == items[0],
        items.len() >= 2 ==> join(items) == items[0] + (seq![0x2Cu8] + join(items.drop_first())),
    decreases items.len(),
{
    if items.len() == 2 {
        assert(items.drop_last() =~= seq![items[0]]);
        assert(items.drop_first() =~= seq![items[1]]);
        assert(join(items.drop_last()) == items[0]);
        assert(join(items.drop_first()) == items[1]);
        assert(join(items) == join(items.drop_last()) + seq![0x2Cu8] + items.last());
        assert(join(items) =~= items[0] + (seq![0x2Cu8] + join(items.drop_first())));
    } else if items.len() > 2 {
        let d = items.drop_last();
        lemma_join_front(d);
        assert(d.drop_first() =~= items.drop_first().drop_last());
        assert(items.drop_first().last() == items.last());
        assert(join(items) =~= items[0] + (seq![0x2Cu8] + join(items.drop_first())));
    }
}

/// Items of a framing encoding, joined by commas and closed by a bracket,
/// delimit themselves.
proof fn lemma_list_delimited<T>(
    f: spec_fn(T) -> Seq<u8>,
    xs: Seq<T>,
    ys: Seq<T>,
    r1: Seq<u8>,
    r2: Seq<u8>,
)
    requires
        frames(f),
        join(xs.map_values(f)) + (seq![0x5Du8] + r1) == join(ys.map_values(f)) + (seq![0x5Du8]
            + r2),
    ensures
        xs == ys,
        r1 == r2,
    decreases xs.len(),
{
    let xi = xs.map_values(f);
    let yi = ys.map_values(f);
    let close1 = seq![0x5Du8] + r1;
    let close2 = seq![0x5Du8] + r2;
    let t = join(xi) + close1;
    if xs.len() == 0 || ys.len() == 0 {
        if xs.len() > 0 {
            lemma_join_front(xi);
            assert(f(xs[0]).len() > 0 && f(xs[0])[0] != 0x5Du8);
            assert(xi[0] == f(xs[0]));
            assert(join(xi)[0] == f(xs[0])[0]);
            assert(t[0] == join(xi)[0]);
            assert(join(yi) =~= Seq::<u8>::empty());
            assert(t == close2);
            assert(close2[0] == 0x5Du8);
        } else if ys.len() > 0 {
            lemma_join_front(yi);
            assert(f(ys[0]).len() > 0 && f(ys[0])[0] != 0x5Du8);
            assert(yi[0] == f(ys[0]));
            assert(join(yi)[0] == f(ys[0])[0]);
            assert((join(yi) + close2)[0] == join(yi)[0]);
            assert(join(xi) =~= Seq::<u8>::empty());
            assert(t == close1);
            assert(close1[0] == 0x5Du8);
        } else {
            assert(join(xi) =~= Seq::<u8>::empty());
            assert(join(yi) =~= Seq::<u8>::empty());
            lemma_prefix_cancel(seq![0x5Du8], r1, r2);
            assert(xs =~= ys);
        }
    } else {
        lemma_join_front(xi);
        lemma_join_front(yi);
        let rest1 = if xs.len() == 1 {
            close1
        } else {
            seq![0x2Cu8] + (join(xi.drop_first()) + close1)
        };
        let rest2 = if ys.len() == 1 {
            close2
        } else {
            seq![0x2Cu8] + (join(yi.drop_first()) + close2)
        };
        assert(xi[0] == f(xs[0]));
        assert(yi[0] == f(ys[0]));
        assert(t =~= f(xs[0]) + rest1);
        assert(join(yi) + close2 =~= f(ys[0]) + rest2);
        assert(f(xs[0]) + rest1 == f(ys[0]) + rest2);
        assert(xs[0] == ys[0]);
        lemma_prefix_cancel(f(xs[0]), rest1, rest2);
        if xs.len() == 1 && ys.len() >= 2 {
            assert(rest1[0] == 0x5Du8);
            assert(rest2[0] == 0x2Cu8);
        } else if xs.len() >= 2 && ys.len() == 1 {
            assert(rest1[0] == 0x2Cu8);
            assert(rest2[0] == 0x5Du8);
        } else if xs.len() == 1 && ys.len() == 1 {
            lemma_prefix_cancel(seq![0x5Du8], r1, r2);
            assert(xs =~= ys);
        } else {
            lemma_prefix_cancel(
                seq![0x2Cu8],
                join(xi.drop_first()) + close1,
                join(yi.drop_first()) + close2,
            );
            assert(xi.drop_first() =~= xs.drop_first().map_values(f));
            assert(yi.drop_first() =~= ys.drop_first().map_values(f));
            lemma_list_delimited(f, xs.drop_first(), ys.drop_first(), r1, r2);
            assert(xs =~= seq![xs[0]] + xs.drop_first());
            assert(ys =~= seq![ys[0]] + ys.drop_first());
        }
    }
}

/// A JSON array of items of a framing encoding delimits itself.
pub proof fn lemma_array_delimited<T>(
    f: spec_fn(T) -> Seq<u8>,
    xs: Seq<T>,
    ys: Seq<T>,
    r1: Seq<u8>,
    r2: Seq<u8>,
)
    requires
        frames(f),
        json_array(xs.map_values(f)) + r1 == json_array(ys.map_values(f)) + r2,
    ensures
        xs == ys,
        r1 == r2,
{
    let o = seq![0x5Bu8];
    let c = seq![0x5Du8];
    assert(json_array(xs.map_values(f)) + r1 =~= o + (join(xs.map_values(f)) + (c + r1)));
    assert(json_array(ys.map_values(f)) + r2 =~= o + (join(ys.map_values(f)) + (c + r2)));
    lemma_prefix_cancel(o, join(xs.map_values(f)) + (c + r1), join(ys.map_values(f)) + (c + r2));
    lemma_list_delimited(f, xs, ys, r1, r2);
}

/// JSON strings frame themselves.
pub proof fn lemma_strings_frame()
    ensures
        frames(|s: Seq<char>| json_string(s)),
{
    let f = |s: Seq<char>| json_string(s);
    assert forall|a: Seq<char>| #[trigger] f(a).len() > 0 && f(a)[0] != 0x5Du8 by {
        assert(f(a)[0] == 0x22u8);
    }
    assert forall|a: Seq<char>, b: Seq<char>, r1: Seq<u8>, r2: Seq<u8>|
        #![trigger f(a) + r1, f(b) + r2]
        f(a) + r1 == f(b) + r2 implies a == b by {
        lemma_json_string_delimited(a, b, r1, r2);
    }
}

/// A JSON array of strings delimits itself.
pub proof fn lemma_json_strings_delimited(
    s1: Seq<Seq<char>>,
    s2: Seq<Seq<char>>,
    r1: Seq<u8>,
    r2: Seq<u8>,
)
    requires
        json_strings(s1) + r1 == json_strings(s2) + r2,
    ensures
        s1 == s2,
        r1 == r2,
{
    lemma_strings_frame();
    lemma_array_delimited(|s: Seq<char>| json_string(s), s1, s2, r1, r2);
}

proof fn lemma_brace_key()
    ensures
        lit("{\"key\":"@).len() > 0,
        lit("{\"key\":"@)[0] == 0x7Bu8,
{
    reveal_strlit("{\"key\":");
    let c = "{\"key\":"@;
    assert(is_ascii_chars(c));
    is_ascii_chars_encode_utf8(c);
    assert(c[0] == '{');
}

proof fn lemma_brace_outcome()
    ensures
        lit("{\"outcome\":"@).len() > 0,
        lit("{\"outcome\":"@)[0] == 0x7Bu8,
{
    reveal_strlit("{\"outcome\":");
    let c = "{\"outcome\":"@;
    assert(is_ascii_chars(c));
    is_ascii_chars_encode_utf8(c);
    assert(c[0] == '{');
}

proof fn lemma_constraint_parts(c: ConstraintModel, r: Seq<u8>)
    ensures
        json_constraint(c) + r == lit("{\"key\":"@) + (json_string(c.key) + (lit(",\"value\":"@)
            + (json_string(c.value) + (lit("}"@) + (r))))),
{
    let p0 = lit("{\"key\":"@);
    let p1 = json_string(c.key);
    let p2 = lit(",\"value\":"@);
    let p3 = json_string(c.value);
    let p4 = lit("}"@);
    let p5 = r;
    assert(json_constraint(c) + r == p0 + p1 + p2 + p3 + p4 + p5);
    let mut t = p5;
    lemma_assoc(p0 + p1 + p2 + p3, p4, t);
    t = p4 + t;
    lemma_assoc(p0 + p1 + p2, p3, t);
    t = p3 + t;
    lemma_assoc(p0 + p1, p2, t);
    t = p2 + t;
    lemma_assoc(p0, p1, t);
}

/// Constraints frame themselves.
pub proof fn lemma_constraints_frame()
    ensures
        frames(|c: ConstraintModel| json_constraint(c)),
{
    let f = |c: ConstraintModel| json_constraint(c);
    lemma_brace_key();
    assert forall|a: ConstraintModel| #[trigger] f(a).len() > 0 && f(a)[0] != 0x5Du8 by {
        assert(f(a) == lit("{\"key\":"@) + json_string(a.key) + lit(",\"value\":"@) + json_string(
            a.value,
        ) + lit("}"@));
        assert(f(a)[0] == lit("{\"key\":"@)[0]);
    }
    assert forall|a: ConstraintModel, b: ConstraintModel, r1: Seq<u8>, r2: Seq<u8>|
        #![trigger f(a) + r1, f(b) + r2]
        f(a) + r1 == f(b) + r2 implies a == b by {
        lemma_constraint_parts(a, r1);
        lemma_constraint_parts(b, r2);
        let k = lit("{\"key\":"@);
        let v = lit(",\"value\":"@);
        let c = lit("}"@);
        lemma_prefix_cancel(
            k,
            json_string(a.key) + (v + (json_string(a.value) + (c + r1))),
            json_string(b.key) + (v + (json_string(b.value) + (c + r2))),
        );
        lemma_json_string_delimited(
            a.key,
            b.key,
            v + (json_string(a.value) + (c + r1)),
            v + (json_string(b.value) + (c + r2)),
        );
        lemma_prefix_cancel(v, json_string(a.value) + (c + r1), json_string(b.value) + (c + r2));
        lemma_json_string_delimited(a.value, b.value, c + r1, c + r2);
    }
}

proof fn lemma_contribution_parts(x: ContributionModel, r: Seq<u8>)
    ensures
        json_contribution(x) + r == lit("{\"outcome\":"@) + (json_outcome(x.outcome)
            + (lit(",\"reason\":"@) + (json_string(x.reason) + (lit(",\"rule_id\":"@)
            + (json_string(x.rule_id) + (lit("}"@) + (r))))))),
{
    let p0 = lit("{\"outcome\":"@);
    let p1 = json_outcome(x.outcome);
    let p2 = lit(",\"reason\":"@);
    let p3 = json_string(x.reason);
    let p4 = lit(",\"rule_id\":"@);
    let p5 = json_string(x.rule_id);
    let p6 = lit("}"@);
    let p7 = r;
    assert(json_contribution(x) + r == p0 + p1 + p2 + p3 + p4 + p5 + p6 + p7);
    let mut t = p7;
    lemma_assoc(p0 + p1 + p2 + p3 + p4 + p5, p6, t);
    t = p6 + t;
    lemma_assoc(p0 + p1 + p2 + p3 + p4, p5, t);
    t = p5 + t;
    lemma_assoc(p0 + p1 + p2 + p3, p4, t);
    t = p4 + t;
    lemma_assoc(p0 + p1 + p2, p3, t);
    t = p3 + t;
    lemma_assoc(p0 + p1, p2, t);
    t = p2 + t;
    lemma_assoc(p0, p1, t);
}

/// Decision contributions frame themselves.
pub proof fn lemma_contributions_frame()
    ensures
        frames(|c: ContributionModel| json_contribution(c)),
{
    let f = |c: ContributionModel| json_contribution(c);
    lemma_brace_outcome();
    assert forall|a: ContributionModel| #[trigger] f(a).len() > 0 && f(a)[0] != 0x5Du8 by {
        lemma_contribution_parts(a, Seq::<u8>::empty());
        assert(f(a) == f(a) + Seq::<u8>::empty());
        let rest = json_outcome(a.outcome) + (lit(",\"reason\":"@) + (json_string(a.reason) + (lit(
            ",\"rule_id\":"@,
        ) + (json_string(a.rule_id) + (lit("}"@) + Seq::<u8>::empty())))));
        assert((lit("{\"outcome\":"@) + rest)[0] == lit("{\"outcome\":"@)[0]);
    }
    assert forall|a: ContributionModel, b: ContributionModel, r1: Seq<u8>, r2: Seq<u8>|
        #![trigger f(a) + r1, f(b) + r2]
        f(a) + r1 == f(b) + r2 implies a == b by {
        lemma_contribution_parts(a, r1);
        lemma_contribution_parts(b, r2);
        let o = lit("{\"outcome\":"@);
        let re = lit(",\"reason\":"@);
        let ru = lit(",\"rule_id\":"@);
        let c = lit("}"@);
        let t1 = re + (json_string(a.reason) + (ru + (json_string(a.rule_id) + (c + r1))));
        let t2 = re + (json_string(b.reason) + (ru + (json_string(b.rule_id) + (c + r2))));
        lemma_prefix_cancel(o, json_outcome(a.outcome) + t1, json_outcome(b.outcome) + t2);
        lemma_outcome_delimited(a.outcome, b.outcome, t1, t2);
        lemma_prefix_cancel(json_outcome(a.outcome), t1, t2);
        lemma_prefix_cancel(
            re,
            json_string(a.reason) + (ru + (json_string(a.rule_id) + (c + r1))),
            json_string(b.reason) + (ru + (json_string(b.rule_id) + (c + r2))),
        );
        lemma_json_string_delimited(
            a.reason,
            b.reason,
            ru + (json_string(a.rule_id) + (c + r1)),
            ru + (json_string(b.rule_id) + (c + r2)),
        );
        lemma_prefix_cancel(ru, json_string(a.rule_id) + (c + r1), json_string(b.rule_id) + (c + r2));
        lemma_json_string_delimited(a.rule_id, b.rule_id, c + r1, c + r2);
    }
}

proof fn lemma_validity_parts(v: ValidityModel, r: Seq<u8>)
    ensures
        json_validity(v) + r == lit("{\"not_after\":"@) + (json_opt_string(v.not_after)
            + (lit(",\"not_before\":"@) + (json_opt_string(v.not_before) + (lit("}"@) + (r))))),
{
    let p0 = lit("{\"not_after\":"@);
    let p1 = json_opt_string(v.not_after);
    let p2 = lit(",\"not_before\":"@);
    let p3 = json_opt_string(v.not_before);
    let p4 = lit("}"@);
    let p5 = r;
    assert(json_validity(v) + r == p0 + p1 + p2 + p3 + p4 + p5);
    let mut t = p5;
    lemma_assoc(p0 + p1 + p2 + p3, p4, t);
    t = p4 + t;
    lemma_assoc(p0 + p1 + p2, p3, t);
    t = p3 + t;
    lemma_assoc(p0 + p1, p2, t);
    t = p2 + t;
    lemma_assoc(p0, p1, t);
}

/// A validity window's JSON text delimits itself.
pub proof fn lemma_validity_delimited(v1: ValidityModel, v2: ValidityModel, r1: Seq<u8>, r2: Seq<u8>)
    requires
        json_validity(v1) + r1 == json_validity(v2) + r2,
    ensures
        v1 == v2,
        r1 == r2,
{
    lemma_validity_parts(v1, r1);
    lemma_validity_parts(v2, r2);
    let na = lit("{\"not_after\":"@);
    let nb = lit(",\"not_before\":"@);
    let c = lit("}"@);
    lemma_prefix_cancel(
        na,
        json_opt_string(v1.not_after) + (nb + (json_opt_string(v1.not_before) + (c + r1))),
        json_opt_string(v2.not_after) + (nb + (json_opt_string(v2.not_before) + (c + r2))),
    );
    lemma_opt_string_delimited(
        v1.not_after,
        v2.not_after,
        nb + (json_opt_string(v1.not_before) + (c + r1)),
        nb + (json_opt_string(v2.not_before) + (c + r2)),
    );
    lemma_prefix_cancel(
        nb,
        json_opt_string(v1.not_before) + (c + r1),
        json_opt_string(v2.not_before) + (c + r2),
    );
    lemma_opt_string_delimited(v1.not_before, v2.not_before, c + r1, c + r2);
    lemma_prefix_cancel(c, r1, r2);
}

proof fn lemma_identity_parts(m: IdentityModel)
    ensures
        json_identity(m) == lit("{\"id\":"@) + (json_uuid(m.id) + (lit(",\"key_algorithm\":"@)
            + (json_string(m.key_algorithm) + (lit(",\"public_key\":"@)
            + (json_bytes(m.public_key) + (lit("}"@))))))),
{
    reveal(json_identity);
    let p0 = lit("{\"id\":"@);
    let p1 = json_uuid(m.id);
    let p2 = lit(",\"key_algorithm\":"@);
    let p3 = json_string(m.key_algorithm);
    let p4 = lit(",\"public_key\":"@);
    let p5 = json_bytes(m.public_key);
    let p6 = lit("}"@);
    assert(json_identity(m) == p0 + p1 + p2 + p3 + p4 + p5 + p6);
    let mut t = p6;
    lemma_assoc(p0 + p1 + p2 + p3 + p4, p5, t);
    t = p5 + t;
    lemma_assoc(p0 + p1 + p2 + p3, p4, t);
    t = p4 + t;
    lemma_assoc(p0 + p1 + p2, p3, t);
    t = p3 + t;
    lemma_assoc(p0 + p1, p2, t);
    t = p2 + t;
    lemma_assoc(p0, p1, t);
}

/// An agent identity is determined by its JSON text.
pub proof fn lemma_identity_injective(m1: IdentityModel, m2: IdentityModel)
    requires
        json_identity(m1) == json_identity(m2),
    ensures
        m1 == m2,
{
    lemma_identity_parts(m1);
    lemma_identity_parts(m2);
    let i = lit("{\"id\":"@);
    let k = lit(",\"key_algorithm\":"@);
    let p = lit(",\"public_key\":"@);
    let c = lit("}"@);
    let a1 = k + (json_string(m1.key_algorithm) + (p + (json_bytes(m1.public_key) + c)));
    let a2 = k + (json_string(m2.key_algorithm) + (p + (json_bytes(m2.public_key) + c)));
    lemma_prefix_cancel(i, json_uuid(m1.id) + a1, json_uuid(m2.id) + a2);
    lemma_uuid_delimited(m1.id, m2.id, a1, a2);
    lemma_prefix_cancel(
        k,
        json_string(m1.key_algorithm) + (p + (json_bytes(m1.public_key) + c)),
        json_string(m2.key_algorithm) + (p + (json_bytes(m2.public_key) + c)),
    );
    lemma_json_string_delimited(
        m1.key_algorithm,
        m2.key_algorithm,
        p + (json_bytes(m1.public_key) + c),
        p + (json_bytes(m2.public_key) + c),
    );
    lemma_prefix_cancel(p, json_bytes(m1.public_key) + c, json_bytes(m2.public_key) + c);
    lemma_suffix_cancel(json_bytes(m1.public_key), json_bytes(m2.public_key), c);
    lemma_json_bytes_injective(m1.public_key, m2.public_key);
}

proof fn lemma_decision_parts(d: DecisionModel)
    ensures
        json_decision(d) == lit("{\"contributions\":"@)
            + (json_array(d.contributions.map_values(|c: ContributionModel| json_contribution(c)))
            + (lit(",\"outcome\":"@) + (json_outcome(d.outcome) + (lit(",\"reason\":"@)
            + (json_string(d.reason) + (lit("}"@))))))),
{
    reveal(json_decision);
    let p0 = lit("{\"contributions\":"@);
    let p1 = json_array(d.contributions.map_values(|c: ContributionModel| json_contribution(c)));
    let p2 = lit(",\"outcome\":"@);
    let p3 = json_outcome(d.outcome);
    let p4 = lit(",\"reason\":"@);
    let p5 = json_string(d.reason);
    let p6 = lit("}"@);
    assert(json_decision(d) == p0 + p1 + p2 + p3 + p4 + p5 + p6);
    let mut t = p6;
    lemma_assoc(p0 + p1 + p2 + p3 + p4, p5, t);
    t = p5 + t;
    lemma_assoc(p0 + p1 + p2 + p3, p4, t);
    t = p4 + t;
    lemma_assoc(p0 + p1 + p2, p3, t);
    t = p3 + t;
    lemma_assoc(p0 + p1, p2, t);
    t = p2 + t;
    lemma_assoc(p0, p1, t);
}

/// A decision is determined by its JSON text.
pub proof fn lemma_decision_injective(d1: DecisionModel, d2: DecisionModel)
    requires
        json_decision(d1) == json_decision(d2),
    ensures
        d1 == d2,
{
    lemma_decision_parts(d1);
    lemma_decision_parts(d2);
    lemma_contributions_frame();
    let f = |c: ContributionModel| json_contribution(c);
    let h = lit("{\"contributions\":"@);
    let o = lit(",\"outcome\":"@);
    let re = lit(",\"reason\":"@);
    let c = lit("}"@);
    let t1 = o + (json_outcome(d1.outcome) + (re + (json_string(d1.reason) + c)));
    let t2 = o + (json_outcome(d2.outcome) + (re + (json_string(d2.reason) + c)));
    lemma_prefix_cancel(
        h,
        json_array(d1.contributions.map_values(f)) + t1,
        json_array(d2.contributions.map_values(f)) + t2,
    );
    lemma_array_delimited(f, d1.contributions, d2.contributions, t1, t2);
    lemma_prefix_cancel(
        o,
        json_outcome(d1.outcome) + (re + (json_string(d1.reason) + c)),
        json_outcome(d2.outcome) + (re + (json_string(d2.reason) + c)),
    );
    lemma_outcome_delimited(
        d1.outcome,
        d2.outcome,
        re + (json_string(d1.reason) + c),
        re + (json_string(d2.reason) + c),
    );
    lemma_prefix_cancel(
        json_outcome(d1.outcome),
        re + (json_string(d1.reason) + c),
        re + (json_string(d2.reason) + c),
    );
    lemma_prefix_cancel(re, json_string(d1.reason) + c, json_string(d2.reason) + c);
    lemma_json_string_delimited(d1.reason, d2.reason, c, c);
}

/// An authority's JSON text from its identifier on.
spec fn authority_from_id(a: AuthorityModel) -> Seq<u8> {
    json_uuid(a.id) + (lit(",\"issuer\":"@) + (json_string(a.issuer) + (lit(",\"subject\":"@) + (
    json_uuid(a.subject) + (lit(",\"validity\":"@) + (json_validity(a.validity) + (lit(
        ",\"version\":"@,
    ) + (digits(a.version as nat) + lit("}"@)))))))))
}

proof fn lemma_assoc(a: Seq<u8>, b: Seq<u8>, c: Seq<u8>)
    ensures
        (a + b) + c == a + (b + c),
{
    assert((a + b) + c =~= a + (b + c));
}

proof fn lemma_authority_parts(a: AuthorityModel)
    ensures
        json_authority(a) == lit("{\"capabilities\":"@) + (json_strings(a.capabilities) + (lit(
            ",\"constraints\":"@,
        ) + (json_array(a.constraints.map_values(|c: ConstraintModel| json_constraint(c))) + (
        lit(",\"id\":"@) + authority_from_id(a))))),
{
    reveal(json_authority);
    let p0 = lit("{\"capabilities\":"@);
    let p1 = json_strings(a.capabilities);
    let p2 = lit(",\"constraints\":"@);
    let p3 = json_array(a.constraints.map_values(|c: ConstraintModel| json_constraint(c)));
    let p4 = lit(",\"id\":"@);
    let p5 = json_uuid(a.id);
    let p6 = lit(",\"issuer\":"@);
    let p7 = json_string(a.issuer);
    let p8 = lit(",\"subject\":"@);
    let p9 = json_uuid(a.subject);
    let p10 = lit(",\"validity\":"@);
    let p11 = json_validity(a.validity);
    let p12 = lit(",\"version\":"@);
    let p13 = digits(a.version as nat);
    let p14 = lit("}"@);
    let q1 = p0 + p1;
    let q2 = q1 + p2;
    let q3 = q2 + p3;
    let q4 = q3 + p4;
    let q5 = q4 + p5;
    let q6 = q5 + p6;
    let q7 = q6 + p7;
    let q8 = q7 + p8;
    let q9 = q8 + p9;
    let q10 = q9 + p10;
    let q11 = q10 + p11;
    let q12 = q11 + p12;
    let q13 = q12 + p13;
    assert(json_authority(a) == q13 + p14);
    let mut t = p14;
    lemma_assoc(q12, p13, t);
    t = p13 + t;
    lemma_assoc(q11, p12, t);
    t = p12 + t;
    lemma_assoc(q10, p11, t);
    t = p11 + t;
    lemma_assoc(q9, p10, t);
    t = p10 + t;
    lemma_assoc(q8, p9, t);
    t = p9 + t;
    lemma_assoc(q7, p8, t);
    t = p8 + t;
    lemma_assoc(q6, p7, t);
    t = p7 + t;
    lemma_assoc(q5, p6, t);
    t = p6 + t;
    lemma_assoc(q4, p5, t);
    t = p5 + t;
    assert(t == authority_from_id(a));
    lemma_assoc(q3, p4, t);
    t = p4 + t;
    lemma_assoc(q2, p3, t);
    t = p3 + t;
    lemma_assoc(q1, p2, t);
    t = p2 + t;
    lemma_assoc(p0, p1, t);
}

/// The tail of an authority's JSON text determines its identifier, issuer,
/// subject, validity and version.
proof fn lemma_authority_tail_injective(a1: AuthorityModel, a2: AuthorityModel)
    requires
        authority_from_id(a1) == authority_from_id(a2),
    ensures
        a1.id == a2.id,
        a1.issuer == a2.issuer,
        a1.subject == a2.subject,
        a1.validity == a2.validity,
        a1.version == a2.version,
{
    let is = lit(",\"issuer\":"@);
    let su = lit(",\"subject\":"@);
    let va = lit(",\"validity\":"@);
    let ve = lit(",\"version\":"@);
    let c = lit("}"@);
    let v1 = ve + (digits(a1.version as nat) + c);
    let v2 = ve + (digits(a2.version as nat) + c);
    let s1 = su + (json_uuid(a1.subject) + (va + (json_validity(a1.validity) + v1)));
    let s2 = su + (json_uuid(a2.subject) + (va + (json_validity(a2.validity) + v2)));
    lemma_uuid_delimited(a1.id, a2.id, is + (json_string(a1.issuer) + s1), is + (json_string(
        a2.issuer,
    ) + s2));
    lemma_prefix_cancel(is, json_string(a1.issuer) + s1, json_string(a2.issuer) + s2);
    lemma_json_string_delimited(a1.issuer, a2.issuer, s1, s2);
    lemma_prefix_cancel(
        su,
        json_uuid(a1.subject) + (va + (json_validity(a1.validity) + v1)),
        json_uuid(a2.subject) + (va + (json_validity(a2.validity) + v2)),
    );
    lemma_uuid_delimited(
        a1.subject,
        a2.subject,
        va + (json_validity(a1.validity) + v1),
        va + (json_validity(a2.validity) + v2),
    );
    lemma_prefix_cancel(va, json_validity(a1.validity) + v1, json_validity(a2.validity) + v2);
    lemma_validity_delimited(a1.validity, a2.validity, v1, v2);
    lemma_prefix_cancel(ve, digits(a1.version as nat) + c, digits(a2.version as nat) + c);
    lemma_suffix_cancel(digits(a1.version as nat), digits(a2.version as nat), c);
    lemma_digits_injective(a1.version as nat, a2.version as nat);
}

/// An authority is determined by its JSON text.
pub proof fn lemma_authority_injective(a1: AuthorityModel, a2: AuthorityModel)
    requires
        json_authority(a1) == json_authority(a2),
    ensures
        a1 == a2,
{
    lemma_authority_parts(a1);
    lemma_authority_parts(a2);
    lemma_constraints_frame();
    let f = |c: ConstraintModel| json_constraint(c);
    let ca = lit("{\"capabilities\":"@);
    let co = lit(",\"constraints\":"@);
    let id = lit(",\"id\":"@);
    let t1 = id + authority_from_id(a1);
    let t2 = id + authority_from_id(a2);
    let u1 = co + (json_array(a1.constraints.map_values(f)) + t1);
    let u2 = co + (json_array(a2.constraints.map_values(f)) + t2);
    lemma_prefix_cancel(ca, json_strings(a1.capabilities) + u1, json_strings(a2.capabilities) + u2);
    lemma_json_strings_delimited(a1.capabilities, a2.capabilities, u1, u2);
    lemma_prefix_cancel(
        co,
        json_array(a1.constraints.map_values(f)) + t1,
        json_array(a2.constraints.map_values(f)) + t2,
    );
    lemma_array_delimited(f, a1.constraints, a2.constraints, t1, t2);
    lemma_prefix_cancel(id, authority_from_id(a1), authority_from_id(a2));
    lemma_authority_tail_injective(a1, a2);
}

proof fn lemma_action_parts(a: ActionModel)
    ensures
        json_action(a) == lit("{\"action_type\":"@) + (json_string(a.action_type) + (lit(
            ",\"parameters\":"@,
        ) + (lit(a.parameters) + (lit(",\"target\":"@) + (json_opt_string(a.target) + lit(
            "}"@,
        )))))),
{
    reveal(json_action);
    let p0 = lit("{\"action_type\":"@);
    let p1 = json_string(a.action_type);
    let p2 = lit(",\"parameters\":"@);
    let p3 = lit(a.parameters);
    let p4 = lit(",\"target\":"@);
    let p5 = json_opt_string(a.target);
    let p6 = lit("}"@);
    assert(json_action(a) == p0 + p1 + p2 + p3 + p4 + p5 + p6);
    let mut t = p6;
    lemma_assoc(p0 + p1 + p2 + p3 + p4, p5, t);
    t = p5 + t;
    lemma_assoc(p0 + p1 + p2 + p3, p4, t);
    t = p4 + t;
    lemma_assoc(p0 + p1 + p2, p3, t);
    t = p3 + t;
    lemma_assoc(p0 + p1, p2, t);
    t = p2 + t;
    lemma_assoc(p0, p1, t);
}

proof fn lemma_target_key()
    ensures
        lit(",\"target\":"@).len() > 0,
        lit(",\"target\":"@).last() == 0x3Au8,
{
    reveal_strlit(",\"target\":");
    let c = ",\"target\":"@;
    assert(is_ascii_chars(c));
    is_ascii_chars_encode_utf8(c);
    assert(c[c.len() - 1] == ':');
}

/// An optional JSON string written after a colon cannot also be read as a
/// shorter one: the text would then hold, right before the shorter one's
/// opening quote, a colon inside the longer string, where every quote
/// follows a backslash.
proof fn lemma_no_shorter_target(u1: Seq<u8>, u2: Seq<u8>, t1: Option<Seq<char>>, t2: Option<
    Seq<char>,
>)
    requires
        u1 + json_opt_string(t1) == u2 + json_opt_string(t2),
        u1.len() > 0,
        u1.last() == 0x3Au8,
    ensures
        json_opt_string(t1).len() >= json_opt_string(t2).len(),
{
    if json_opt_string(t1).len() < json_opt_string(t2).len() {
        lemma_null_bytes();
        let o1 = json_opt_string(t1);
        let o2 = json_opt_string(t2);
        let w = u1 + o1;
        let n = w.len();
        let d = o2.len() - o1.len();
        assert(n == u1.len() + o1.len());
        assert(n == u2.len() + o2.len());
        assert forall|k: int| 0 <= k < o1.len() implies o1[k] == o2[d + k] by {
            assert(w[u1.len() + k] == o1[k]);
            assert((u2 + o2)[u2.len() + d + k] == o2[d + k]);
        }
        assert(o1.len() > 0);
        assert(o1[o1.len() - 1] == o2[o2.len() - 1]);
        match (t1, t2) {
            (Some(s1), Some(s2)) => {
                let e2 = escaped(encode_utf8(s2));
                assert(o2 == seq![0x22u8] + e2 + seq![0x22u8]);
                assert(o1[0] == 0x22u8);
                assert(o2[d] == 0x22u8);
                assert(1 <= d <= e2.len());
                assert(o2[d] == e2[d - 1]);
                lemma_escaped_quote(encode_utf8(s2), d - 1);
                assert(o2[d - 1] == e2[d - 2]);
                assert(o2[d - 1] == 0x5Cu8);
                assert(w[u1.len() - 1] == u1.last());
                assert((u2 + o2)[u2.len() + d - 1] == o2[d - 1]);
            },
            (None, Some(s2)) => {
                assert(o1[o1.len() - 1] == 0x6Cu8);
                assert(o2[o2.len() - 1] == 0x22u8);
            },
            (Some(s1), None) => {
                assert(o1[o1.len() - 1] == 0x22u8);
                assert(o2[o2.len() - 1] == 0x6Cu8);
            },
            (None, None) => {},
        }
    }
}

/// An optional JSON string written after a colon, at the end of a text,
/// is recovered from the text, and so is what comes before it.
proof fn lemma_target_at_end(u1: Seq<u8>, u2: Seq<u8>, t1: Option<Seq<char>>, t2: Option<
    Seq<char>,
>)
    requires
        u1 + json_opt_string(t1) == u2 + json_opt_string(t2),
        u1.len() > 0,
        u1.last() == 0x3Au8,
        u2.len() > 0,
        u2.last() == 0x3Au8,
    ensures
        t1 == t2,
        u1 == u2,
{
    let o1 = json_opt_string(t1);
    let o2 = json_opt_string(t2);
    lemma_no_shorter_target(u1, u2, t1, t2);
    lemma_no_shorter_target(u2, u1, t2, t1);
    let w = u1 + o1;
    assert(u1 =~= w.subrange(0, u1.len() as int));
    assert(u2 =~= (u2 + o2).subrange(0, u2.len() as int));
    lemma_prefix_cancel(u1, o1, o2);
    lemma_json_opt_string_injective(t1, t2);
}

/// An action is determined by its JSON text. Its parameters are embedded as
/// they stand, but its target ends the text after a colon, and a JSON
/// string or `null` there can be read in one way only.
pub proof fn lemma_action_injective(a1: ActionModel, a2: ActionModel)
    requires
        json_action(a1) == json_action(a2),
    ensures
        a1 == a2,
{
    lemma_action_parts(a1);
    lemma_action_parts(a2);
    lemma_target_key();
    let h = lit("{\"action_type\":"@);
    let pa = lit(",\"parameters\":"@);
    let ta = lit(",\"target\":"@);
    let c = lit("}"@);
    let o1 = json_opt_string(a1.target);
    let o2 = json_opt_string(a2.target);
    let t1 = ta + (o1 + c);
    let t2 = ta + (o2 + c);
    let r1 = pa + (lit(a1.parameters) + t1);
    let r2 = pa + (lit(a2.parameters) + t2);
    lemma_prefix_cancel(h, json_string(a1.action_type) + r1, json_string(a2.action_type) + r2);
    lemma_json_string_delimited(a1.action_type, a2.action_type, r1, r2);
    lemma_prefix_cancel(pa, lit(a1.parameters) + t1, lit(a2.parameters) + t2);
    let u1 = lit(a1.parameters) + ta;
    let u2 = lit(a2.parameters) + ta;
    lemma_assoc(lit(a1.parameters), ta, o1 + c);
    lemma_assoc(lit(a2.parameters), ta, o2 + c);
    lemma_assoc(u1, o1, c);
    lemma_assoc(u2, o2, c);
    lemma_suffix_cancel(u1 + o1, u2 + o2, c);
    assert(u1.last() == ta.last());
    assert(u2.last() == ta.last());
    lemma_target_at_end(u1, u2, a1.target, a2.target);
    lemma_suffix_cancel(lit(a1.parameters), lit(a2.parameters), ta);
    encode_utf8_decode_utf8(a1.parameters);
    encode_utf8_decode_utf8(a2.parameters);
}

} // verus!
