//! The canonical JSON text of an authorization context, byte for byte as
//! `serde_json` writes it: compact, object keys in sorted order, strings
//! escaped as `serde_json` escapes them, identifiers as hyphenated
//! lower-case UUIDs.
use vstd::prelude::*;
use vstd::utf8::encode_utf8;

use crate::action::{Action, ActionModel};
use crate::authority::{
    Authority, AuthorityConstraint, AuthorityModel, ConstraintModel, Validity, ValidityModel,
    constraint_models,
};
use crate::decision::{
    ContributionModel, Decision, DecisionContribution, DecisionModel, DecisionOutcome,
    contribution_models,
};
use crate::identity::{AgentIdentity, IdentityModel};
use crate::text::{opt_text, texts};

verus! {

/// UTF-8 bytes of a text.
pub open spec fn lit(s: Seq<char>) -> Seq<u8> {
    encode_utf8(s)
}

/// Lower-case hexadecimal digit of a value below 16.
pub open spec fn hex_lower(n: nat) -> u8 {
    if n < 10 {
        (48 + n) as u8
    } else {
        (87 + n) as u8
    }
}

/// How `serde_json` writes one byte of a string: quote, backslash and
/// control characters escaped, every other byte as it is.
pub open spec fn escape_byte(b: u8) -> Seq<u8> {
    if b == 0x22 {
        seq![0x5Cu8, 0x22u8]
    } else if b == 0x5C {
        seq![0x5Cu8, 0x5Cu8]
    } else if b == 0x08 {
        seq![0x5Cu8, 0x62u8]
    } else if b == 0x09 {
        seq![0x5Cu8, 0x74u8]
    } else if b == 0x0A {
        seq![0x5Cu8, 0x6Eu8]
    } else if b == 0x0C {
        seq![0x5Cu8, 0x66u8]
    } else if b == 0x0D {
        seq![0x5Cu8, 0x72u8]
    } else if b < 0x20 {
        seq![0x5Cu8, 0x75u8, 0x30u8, 0x30u8, hex_lower((b / 16) as nat), hex_lower((b % 16) as nat)]
    } else {
        seq![b]
    }
}

/// The escaped form of a byte sequence.
pub open spec fn escaped(bytes: Seq<u8>) -> Seq<u8>
    decreases bytes.len(),
{
    if bytes.len() == 0 {
        seq![]
    } else {
        escaped(bytes.drop_last()) + escape_byte(bytes.last())
    }
}

/// A JSON string: the text's UTF-8 bytes, escaped, between quotes.
pub open spec fn json_string(s: Seq<char>) -> Seq<u8> {
    seq![0x22u8] + escaped(encode_utf8(s)) + seq![0x22u8]
}

/// A JSON string, or `null` for none.
pub open spec fn json_opt_string(o: Option<Seq<char>>) -> Seq<u8> {
    match o {
        Some(s) => json_string(s),
        None => lit("null"@),
    }
}

/// Decimal digits of a natural number, as ASCII bytes.
pub open spec fn digits(n: nat) -> Seq<u8>
    decreases n,
{
    if n < 10 {
        seq![(48 + n) as u8]
    } else {
        digits(n / 10).push((48 + n % 10) as u8)
    }
}

/// The `k`-th hexadecimal digit (from the most significant) of a UUID's value.
pub open spec fn uuid_nibble(v: u128, k: int) -> nat {
    ((v >> ((124 - 4 * k) as u32)) & 15u128) as nat
}

/// Digits `from` up to `to` (excluded) of a UUID, in lower-case hexadecimal.
pub open spec fn uuid_digits(v: u128, from: int, to: int) -> Seq<u8> {
    Seq::new((to - from) as nat, |i: int| hex_lower(uuid_nibble(v, from + i)))
}

/// The hyphenated form of a UUID, in groups of 8, 4, 4, 4 and 12 digits.
pub open spec fn uuid_text(v: u128) -> Seq<u8> {
    uuid_digits(v, 0, 8) + seq![0x2Du8] + uuid_digits(v, 8, 12) + seq![0x2Du8] + uuid_digits(
        v,
        12,
        16,
    ) + seq![0x2Du8] + uuid_digits(v, 16, 20) + seq![0x2Du8] + uuid_digits(v, 20, 32)
}

/// A UUID as a JSON string.
pub open spec fn json_uuid(v: u128) -> Seq<u8> {
    seq![0x22u8] + uuid_text(v) + seq![0x22u8]
}

/// Items separated by commas.
pub open spec fn join(items: Seq<Seq<u8>>) -> Seq<u8>
    decreases items.len(),
{
    if items.len() == 0 {
        seq![]
    } else if items.len() == 1 {
        items[0]
    } else {
        join(items.drop_last()) + seq![0x2Cu8] + items.last()
    }
}

/// A JSON array of already written items.
pub open spec fn json_array(items: Seq<Seq<u8>>) -> Seq<u8> {
    seq![0x5Bu8] + join(items) + seq![0x5Du8]
}

pub open spec fn json_bytes(bs: Seq<u8>) -> Seq<u8> {
    json_array(bs.map_values(|b: u8| digits(b as nat)))
}

pub open spec fn json_strings(ss: Seq<Seq<char>>) -> Seq<u8> {
    json_array(ss.map_values(|s: Seq<char>| json_string(s)))
}

pub open spec fn json_outcome(o: DecisionOutcome) -> Seq<u8> {
    match o {
        DecisionOutcome::Allow => lit("\"Allow\""@),
        DecisionOutcome::RequireApproval => lit("\"RequireApproval\""@),
        DecisionOutcome::Deny => lit("\"Deny\""@),
    }
}

pub open spec fn json_constraint(c: ConstraintModel) -> Seq<u8> {
    lit("{\"key\":"@) + json_string(c.key) + lit(",\"value\":"@) + json_string(c.value) + lit(
        "}"@,
    )
}

pub open spec fn json_validity(v: ValidityModel) -> Seq<u8> {
    lit("{\"not_after\":"@) + json_opt_string(v.not_after) + lit(",\"not_before\":"@)
        + json_opt_string(v.not_before) + lit("}"@)
}

#[verifier::opaque]
pub open spec fn json_authority(a: AuthorityModel) -> Seq<u8> {
    lit("{\"capabilities\":"@) + json_strings(a.capabilities) + lit(",\"constraints\":"@)
        + json_array(a.constraints.map_values(|c: ConstraintModel| json_constraint(c))) + lit(
        ",\"id\":"@,
    ) + json_uuid(a.id) + lit(",\"issuer\":"@) + json_string(a.issuer) + lit(",\"subject\":"@)
        + json_uuid(a.subject) + lit(",\"validity\":"@) + json_validity(a.validity) + lit(
        ",\"version\":"@,
    ) + digits(a.version as nat) + lit("}"@)
}

#[verifier::opaque]
pub open spec fn json_identity(m: IdentityModel) -> Seq<u8> {
    lit("{\"id\":"@) + json_uuid(m.id) + lit(",\"key_algorithm\":"@) + json_string(
        m.key_algorithm,
    ) + lit(",\"public_key\":"@) + json_bytes(m.public_key) + lit("}"@)
}

/// An action; its parameters are embedded as the JSON text they hold.
#[verifier::opaque]
pub open spec fn json_action(a: ActionModel) -> Seq<u8> {
    lit("{\"action_type\":"@) + json_string(a.action_type) + lit(",\"parameters\":"@) + lit(
        a.parameters,
    ) + lit(",\"target\":"@) + json_opt_string(a.target) + lit("}"@)
}

pub open spec fn json_contribution(c: ContributionModel) -> Seq<u8> {
    lit("{\"outcome\":"@) + json_outcome(c.outcome) + lit(",\"reason\":"@) + json_string(c.reason)
        + lit(",\"rule_id\":"@) + json_string(c.rule_id) + lit("}"@)
}

#[verifier::opaque]
pub open spec fn json_decision(d: DecisionModel) -> Seq<u8> {
    lit("{\"contributions\":"@) + json_array(
        d.contributions.map_values(|c: ContributionModel| json_contribution(c)),
    ) + lit(",\"outcome\":"@) + json_outcome(d.outcome) + lit(",\"reason\":"@) + json_string(
        d.reason,
    ) + lit("}"@)
}

/// The canonical JSON text of an authorization context: request id, agent,
/// authority, action, decision and trace id.
pub open spec fn json_context(
    request_id: u128,
    agent: IdentityModel,
    authority: AuthorityModel,
    action: ActionModel,
    decision: DecisionModel,
    trace_id: Option<Seq<char>>,
) -> Seq<u8> {
    lit("{\"action\":"@) + (json_action(action) + (lit(",\"agent\":"@) + (json_identity(agent) + (
    lit(",\"authority\":"@) + (json_authority(authority) + (lit(",\"decision\":"@) + (
    json_decision(decision) + (lit(",\"request_id\":"@) + (json_uuid(request_id) + (lit(
        ",\"trace_id\":"@,
    ) + (json_opt_string(trace_id) + lit("}"@))))))))))))
}

proof fn lemma_join_push(items: Seq<Seq<u8>>, x: Seq<u8>)
    ensures
        join(items.push(x)) == if items.len() == 0 {
            x
        } else {
            join(items) + seq![0x2Cu8] + x
        },
{
    assert(items.push(x).drop_last() =~= items);
}

proof fn lemma_regroup(front: Seq<u8>, x: Seq<u8>, rest: Seq<u8>, whole: Seq<u8>)
    requires
        whole == (front + x) + rest,
    ensures
        whole == front + (x + rest),
{
    assert((front + x) + rest =~= front + (x + rest));
}

fn push_bytes(out: &mut Vec<u8>, bytes: &[u8])
    ensures
        final(out)@ == old(out)@ + bytes@,
{
    let ghost start = out@;
    let n = bytes.len();
    for i in 0..n
        invariant
            n == bytes@.len(),
            out@ == start + bytes@.take(i as int),
    {
        out.push(bytes[i]);
        assert(bytes@.take(i + 1) =~= bytes@.take(i as int).push(bytes@[i as int]));
    }
    assert(bytes@.take(n as int) =~= bytes@);
}

/// Appends the UTF-8 bytes of a text.
fn push_text(out: &mut Vec<u8>, s: &str)
    ensures
        final(out)@ == old(out)@ + lit(s@),
{
    push_bytes(out, s.as_bytes());
}

/// Writes a text as a JSON string with `serde_json::to_vec`.
///
/// The contract claims what `serde_json`'s string serializer does, as its
/// source shows: the text's UTF-8 bytes between quotes, with `"`, `\` and
/// the control characters escaped by its escape table (`\b`, `\t`, `\n`,
/// `\f`, `\r`, and `\u00` with two lower-case hexadecimal digits for the
/// others), every other byte as it is. Serializing a `str` into a `Vec`
/// does not fail: the serializer's only errors come from the writer, and
/// writing into a `Vec` does not fail.
#[verifier::external_body]
fn json_string_bytes(s: &str) -> (r: Vec<u8>)
    ensures
        r@ == json_string(s@),
{
    match serde_json::to_vec(s) {
        Ok(bytes) => bytes,
        Err(_) => Vec::new(),
    }
}

/// Writes a UUID's value (read big-endian, `uuid::Uuid::from_u128`) in its
/// hyphenated form (`Uuid::hyphenated`, displayed with `to_string`).
///
/// The contract claims what the crate's formatter does, as its source
/// shows: 32 lower-case hexadecimal digits, most significant first, in
/// groups of 8, 4, 4, 4 and 12 separated by hyphens.
#[verifier::external_body]
fn uuid_text_bytes(v: u128) -> (r: Vec<u8>)
    ensures
        r@ == uuid_text(v),
{
    uuid::Uuid::from_u128(v).hyphenated().to_string().into_bytes()
}

/// Appends a text as a JSON string.
fn push_json_string(out: &mut Vec<u8>, s: &str)
    ensures
        final(out)@ == old(out)@ + json_string(s@),
{
    let bytes = json_string_bytes(s);
    push_bytes(out, bytes.as_slice());
}

fn push_json_opt_string(out: &mut Vec<u8>, o: &Option<String>)
    ensures
        final(out)@ == old(out)@ + json_opt_string(opt_text(*o)),
{
    match o {
        Some(s) => push_json_string(out, s.as_str()),
        None => push_text(out, "null"),
    }
}

fn push_digits(out: &mut Vec<u8>, n: u64)
    ensures
        final(out)@ == old(out)@ + digits(n as nat),
    decreases n,
{
    let ghost start = out@;
    if n >= 10 {
        push_digits(out, n / 10);
    }
    out.push((48 + n % 10) as u8);
    assert(out@ =~= start + digits(n as nat));
}

fn push_json_uuid(out: &mut Vec<u8>, v: u128)
    ensures
        final(out)@ == old(out)@ + json_uuid(v),
{
    let ghost start = out@;
    out.push(0x22);
    let text = uuid_text_bytes(v);
    push_bytes(out, text.as_slice());
    out.push(0x22);
    assert(out@ =~= start + json_uuid(v));
}

fn push_json_bytes(out: &mut Vec<u8>, bs: &Vec<u8>)
    ensures
        final(out)@ == old(out)@ + json_bytes(bs@),
{
    let ghost start = out@;
    let ghost f = |b: u8| digits(b as nat);
    out.push(0x5B);
    let n = bs.len();
    assert(bs@.take(0).map_values(f) =~= Seq::<Seq<u8>>::empty());
    for i in 0..n
        invariant
            n == bs@.len(),
            f == (|b: u8| digits(b as nat)),
            out@ == start + seq![0x5Bu8] + join(bs@.take(i as int).map_values(f)),
    {
        proof {
            assert(bs@.take(i + 1).map_values(f) =~= bs@.take(i as int).map_values(f).push(
                f(bs@[i as int]),
            ));
            lemma_join_push(bs@.take(i as int).map_values(f), f(bs@[i as int]));
        }
        if i > 0 {
            out.push(0x2C);
        }
        push_digits(out, bs[i] as u64);
    }
    assert(bs@.take(n as int) =~= bs@);
    out.push(0x5D);
    assert(out@ =~= start + json_bytes(bs@));
}

fn push_json_strings(out: &mut Vec<u8>, ss: &Vec<String>)
    ensures
        final(out)@ == old(out)@ + json_strings(texts(ss@)),
{
    let ghost start = out@;
    let ghost f = |s: Seq<char>| json_string(s);
    let ghost m = texts(ss@);
    out.push(0x5B);
    let n = ss.len();
    assert(m.take(0).map_values(f) =~= Seq::<Seq<u8>>::empty());
    for i in 0..n
        invariant
            n == m.len(),
            m == texts(ss@),
            f == (|s: Seq<char>| json_string(s)),
            out@ == start + seq![0x5Bu8] + join(m.take(i as int).map_values(f)),
    {
        proof {
            assert(m.take(i + 1).map_values(f) =~= m.take(i as int).map_values(f).push(
                f(m[i as int]),
            ));
            lemma_join_push(m.take(i as int).map_values(f), f(m[i as int]));
        }
        if i > 0 {
            out.push(0x2C);
        }
        push_json_string(out, ss[i].as_str());
    }
    assert(m.take(n as int) =~= m);
    out.push(0x5D);
    assert(out@ =~= start + json_strings(m));
}

fn push_json_constraint(out: &mut Vec<u8>, c: &AuthorityConstraint)
    ensures
        final(out)@ == old(out)@ + json_constraint(c@),
{
    let ghost start = out@;
    push_text(out, "{\"key\":");
    push_json_string(out, c.key.as_str());
    push_text(out, ",\"value\":");
    push_json_string(out, c.value.as_str());
    push_text(out, "}");
    assert(out@ =~= start + json_constraint(c@));
}

fn push_json_constraints(out: &mut Vec<u8>, cs: &Vec<AuthorityConstraint>)
    ensures
        final(out)@ == old(out)@ + json_array(
            constraint_models(cs@).map_values(|c: ConstraintModel| json_constraint(c)),
        ),
{
    let ghost start = out@;
    let ghost f = |c: ConstraintModel| json_constraint(c);
    let ghost m = constraint_models(cs@);
    out.push(0x5B);
    let n = cs.len();
    assert(m.take(0).map_values(f) =~= Seq::<Seq<u8>>::empty());
    for i in 0..n
        invariant
            n == m.len(),
            m == constraint_models(cs@),
            f == (|c: ConstraintModel| json_constraint(c)),
            out@ == start + seq![0x5Bu8] + join(m.take(i as int).map_values(f)),
    {
        proof {
            assert(m.take(i + 1).map_values(f) =~= m.take(i as int).map_values(f).push(
                f(m[i as int]),
            ));
            lemma_join_push(m.take(i as int).map_values(f), f(m[i as int]));
        }
        if i > 0 {
            out.push(0x2C);
        }
        push_json_constraint(out, &cs[i]);
    }
    assert(m.take(n as int) =~= m);
    out.push(0x5D);
    assert(out@ =~= start + json_array(m.map_values(f)));
}

fn push_json_validity(out: &mut Vec<u8>, v: &Validity)
    ensures
        final(out)@ == old(out)@ + json_validity(v@),
{
    let ghost start = out@;
    push_text(out, "{\"not_after\":");
    push_json_opt_string(out, &v.not_after);
    push_text(out, ",\"not_before\":");
    push_json_opt_string(out, &v.not_before);
    push_text(out, "}");
    assert(out@ =~= start + json_validity(v@));
}

fn push_json_authority(out: &mut Vec<u8>, a: &Authority)
    ensures
        final(out)@ == old(out)@ + json_authority(a@),
{
    reveal(json_authority);
    let ghost start = out@;
    push_text(out, "{\"capabilities\":");
    push_json_strings(out, &a.capabilities);
    push_text(out, ",\"constraints\":");
    push_json_constraints(out, &a.constraints);
    let ghost e1 = lit("{\"capabilities\":"@) + json_strings(a@.capabilities) + lit(
        ",\"constraints\":"@,
    ) + json_array(a@.constraints.map_values(|c: ConstraintModel| json_constraint(c)));
    assert(out@ =~= start + e1);
    push_text(out, ",\"id\":");
    push_json_uuid(out, a.id.0);
    push_text(out, ",\"issuer\":");
    push_json_string(out, a.issuer.as_str());
    let ghost e2 = e1 + lit(",\"id\":"@) + json_uuid(a@.id) + lit(",\"issuer\":"@) + json_string(
        a@.issuer,
    );
    assert(out@ =~= start + e2);
    push_text(out, ",\"subject\":");
    push_json_uuid(out, a.subject.0);
    push_text(out, ",\"validity\":");
    push_json_validity(out, &a.validity);
    let ghost e3 = e2 + lit(",\"subject\":"@) + json_uuid(a@.subject) + lit(",\"validity\":"@)
        + json_validity(a@.validity);
    assert(out@ =~= start + e3);
    push_text(out, ",\"version\":");
    push_digits(out, a.version as u64);
    push_text(out, "}");
    let ghost e4 = e3 + lit(",\"version\":"@) + digits(a@.version as nat) + lit("}"@);
    assert(out@ =~= start + e4);
    assert(e4 == json_authority(a@));
}

fn push_json_identity(out: &mut Vec<u8>, m: &AgentIdentity)
    ensures
        final(out)@ == old(out)@ + json_identity(m@),
{
    reveal(json_identity);
    let ghost start = out@;
    push_text(out, "{\"id\":");
    push_json_uuid(out, m.id.0);
    push_text(out, ",\"key_algorithm\":");
    push_json_string(out, m.key_algorithm.as_str());
    push_text(out, ",\"public_key\":");
    push_json_bytes(out, &m.public_key);
    push_text(out, "}");
    assert(out@ =~= start + json_identity(m@));
}

fn push_json_action(out: &mut Vec<u8>, a: &Action)
    ensures
        final(out)@ == old(out)@ + json_action(a@),
{
    reveal(json_action);
    let ghost start = out@;
    push_text(out, "{\"action_type\":");
    push_json_string(out, a.action_type.as_str());
    push_text(out, ",\"parameters\":");
    push_text(out, a.parameters.as_str());
    push_text(out, ",\"target\":");
    push_json_opt_string(out, &a.target);
    push_text(out, "}");
    assert(out@ =~= start + json_action(a@));
}

fn push_json_outcome(out: &mut Vec<u8>, o: DecisionOutcome)
    ensures
        final(out)@ == old(out)@ + json_outcome(o),
{
    match o {
        DecisionOutcome::Allow => push_text(out, "\"Allow\""),
        DecisionOutcome::RequireApproval => push_text(out, "\"RequireApproval\""),
        DecisionOutcome::Deny => push_text(out, "\"Deny\""),
    }
}

fn push_json_contribution(out: &mut Vec<u8>, c: &DecisionContribution)
    ensures
        final(out)@ == old(out)@ + json_contribution(c@),
{
    let ghost start = out@;
    push_text(out, "{\"outcome\":");
    push_json_outcome(out, c.outcome);
    push_text(out, ",\"reason\":");
    push_json_string(out, c.reason.as_str());
    push_text(out, ",\"rule_id\":");
    push_json_string(out, c.rule_id.as_str());
    push_text(out, "}");
    assert(out@ =~= start + json_contribution(c@));
}

fn push_json_contributions(out: &mut Vec<u8>, cs: &Vec<DecisionContribution>)
    ensures
        final(out)@ == old(out)@ + json_array(
            contribution_models(cs@).map_values(|c: ContributionModel| json_contribution(c)),
        ),
{
    let ghost start = out@;
    let ghost f = |c: ContributionModel| json_contribution(c);
    let ghost m = contribution_models(cs@);
    out.push(0x5B);
    let n = cs.len();
    assert(m.take(0).map_values(f) =~= Seq::<Seq<u8>>::empty());
    for i in 0..n
        invariant
            n == m.len(),
            m == contribution_models(cs@),
            f == (|c: ContributionModel| json_contribution(c)),
            out@ == start + seq![0x5Bu8] + join(m.take(i as int).map_values(f)),
    {
        proof {
            assert(m.take(i + 1).map_values(f) =~= m.take(i as int).map_values(f).push(
                f(m[i as int]),
            ));
            lemma_join_push(m.take(i as int).map_values(f), f(m[i as int]));
        }
        if i > 0 {
            out.push(0x2C);
        }
        push_json_contribution(out, &cs[i]);
    }
    assert(m.take(n as int) =~= m);
    out.push(0x5D);
    assert(out@ =~= start + json_array(m.map_values(f)));
}

fn push_json_decision(out: &mut Vec<u8>, d: &Decision)
    ensures
        final(out)@ == old(out)@ + json_decision(d@),
{
    reveal(json_decision);
    let ghost start = out@;
    push_text(out, "{\"contributions\":");
    push_json_contributions(out, &d.contributions);
    push_text(out, ",\"outcome\":");
    push_json_outcome(out, d.outcome);
    push_text(out, ",\"reason\":");
    push_json_string(out, d.reason.as_str());
    push_text(out, "}");
    assert(out@ =~= start + json_decision(d@));
}

/// The canonical JSON text of an authorization context; see [`json_context`].
pub fn context_json(
    request_id: u128,
    agent: &AgentIdentity,
    authority: &Authority,
    action: &Action,
    decision: &Decision,
    trace_id: &Option<String>,
) -> (r: Vec<u8>)
    ensures
        r@ == json_context(request_id, agent@, authority@, action@, decision@, opt_text(*trace_id)),
{
    let mut out: Vec<u8> = Vec::new();
    let ghost tr = opt_text(*trace_id);
    push_text(&mut out, "{\"action\":");
    let ghost s1 = out@;
    push_json_action(&mut out, action);
    let ghost s2 = out@;
    push_text(&mut out, ",\"agent\":");
    let ghost s3 = out@;
    push_json_identity(&mut out, agent);
    let ghost s4 = out@;
    push_text(&mut out, ",\"authority\":");
    let ghost s5 = out@;
    push_json_authority(&mut out, authority);
    let ghost s6 = out@;
    push_text(&mut out, ",\"decision\":");
    let ghost s7 = out@;
    push_json_decision(&mut out, decision);
    let ghost s8 = out@;
    push_text(&mut out, ",\"request_id\":");
    let ghost s9 = out@;
    push_json_uuid(&mut out, request_id);
    let ghost s10 = out@;
    push_text(&mut out, ",\"trace_id\":");
    let ghost s11 = out@;
    push_json_opt_string(&mut out, trace_id);
    let ghost s12 = out@;
    push_text(&mut out, "}");
    proof {
        let mut tail = lit("}"@);
        lemma_regroup(s11, json_opt_string(tr), tail, out@);
        tail = json_opt_string(tr) + tail;
        lemma_regroup(s10, lit(",\"trace_id\":"@), tail, out@);
        tail = lit(",\"trace_id\":"@) + tail;
        lemma_regroup(s9, json_uuid(request_id), tail, out@);
        tail = json_uuid(request_id) + tail;
        lemma_regroup(s8, lit(",\"request_id\":"@), tail, out@);
        tail = lit(",\"request_id\":"@) + tail;
        lemma_regroup(s7, json_decision(decision@), tail, out@);
        tail = json_decision(decision@) + tail;
        lemma_regroup(s6, lit(",\"decision\":"@), tail, out@);
        tail = lit(",\"decision\":"@) + tail;
        lemma_regroup(s5, json_authority(authority@), tail, out@);
        tail = json_authority(authority@) + tail;
        lemma_regroup(s4, lit(",\"authority\":"@), tail, out@);
        tail = lit(",\"authority\":"@) + tail;
        lemma_regroup(s3, json_identity(agent@), tail, out@);
        tail = json_identity(agent@) + tail;
        lemma_regroup(s2, lit(",\"agent\":"@), tail, out@);
        tail = lit(",\"agent\":"@) + tail;
        lemma_regroup(s1, json_action(action@), tail, out@);
        tail = json_action(action@) + tail;
        assert(s1 =~= lit("{\"action\":"@));
        assert(out@ == lit("{\"action\":"@) + tail);
    }
    out
}

} // verus!
