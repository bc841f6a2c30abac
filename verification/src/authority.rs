use vstd::prelude::*;

use crate::error::{
    ErrorModel, PraetoreError, failure, first_failure, lemma_first_failure_none,
    lemma_first_failure_step, result_model,
};
use crate::identity::AgentId;
use crate::ids::{is_random_uuid, random_uuid};
use crate::text::{blank, is_blank, opt_text, texts};
use crate::timestamp::{parse_rfc3339, rfc3339_instant};

verus! {

/// Identifier of an authority: a UUID, held as its big-endian 128-bit value.
#[derive(Debug, Clone, Copy, PartialEq, Eq, Hash, Structural)]
pub struct AuthorityId(pub u128);

impl AuthorityId {
    /// A fresh random identifier.
    pub fn new() -> (r: Self)
        ensures
            is_random_uuid(r.0),
    {
        AuthorityId(random_uuid())
    }
}

impl Default for AuthorityId {
    fn default() -> (r: Self)
        ensures
            is_random_uuid(r.0),
    {
        AuthorityId::new()
    }
}

/// A constraint limiting where or how an authority may be exercised.
///
/// Constraints are explicit data. They are not executable expressions.
/// Evaluation belongs to the authorization layer.
#[derive(Debug, Clone, PartialEq, Eq)]
pub struct AuthorityConstraint {
    pub key: String,
    pub value: String,
}

/// Model of an [`AuthorityConstraint`].
pub struct ConstraintModel {
    pub key: Seq<char>,
    pub value: Seq<char>,
}

impl View for AuthorityConstraint {
    type V = ConstraintModel;

    open spec fn view(&self) -> ConstraintModel {
        ConstraintModel { key: self.key@, value: self.value@ }
    }
}

/// The rule a constraint breaks, if any: neither its key nor its value may be blank.
pub open spec fn constraint_error(c: ConstraintModel) -> Option<ErrorModel> {
    if is_blank(c.key) {
        Some(ErrorModel::InvalidRequest("authority constraint key cannot be empty"@))
    } else if is_blank(c.value) {
        Some(
            ErrorModel::InvalidRequest(
                "authority constraint '"@ + c.key + "' cannot have an empty value"@,
            ),
        )
    } else {
        None
    }
}

pub open spec fn constraint_check() -> spec_fn(ConstraintModel) -> Option<ErrorModel> {
    |c: ConstraintModel| constraint_error(c)
}

impl AuthorityConstraint {
    pub fn new(key: &str, value: &str) -> (r: Self)
        ensures
            r@ == (ConstraintModel { key: key@, value: value@ }),
    {
        AuthorityConstraint { key: key.to_owned(), value: value.to_owned() }
    }

    /// Checks the constraint; see [`constraint_error`].
    pub fn validate(&self) -> (r: Result<(), PraetoreError>)
        ensures
            failure(r) == constraint_error(self@),
    {
        if blank(self.key.as_str()) {
            return Err(
                PraetoreError::InvalidRequest("authority constraint key cannot be empty".to_owned()),
            );
        }
        if blank(self.value.as_str()) {
            let mut message = "authority constraint '".to_owned();
            message.append(self.key.as_str());
            message.append("' cannot have an empty value");
            return Err(PraetoreError::InvalidRequest(message));
        }
        Ok(())
    }
}

/// Validity interval for an authority, as RFC 3339 timestamps.
///
/// `None` means unbounded on that side.
#[derive(Debug, Clone, PartialEq, Eq)]
pub struct Validity {
    pub not_before: Option<String>,
    pub not_after: Option<String>,
}

/// Model of a [`Validity`].
pub struct ValidityModel {
    pub not_before: Option<Seq<char>>,
    pub not_after: Option<Seq<char>>,
}

impl View for Validity {
    type V = ValidityModel;

    open spec fn view(&self) -> ValidityModel {
        ValidityModel { not_before: opt_text(self.not_before), not_after: opt_text(self.not_after) }
    }
}

/// What reading one validity timestamp gives: the instant it denotes, or the
/// error for a blank or unparsable timestamp.
pub open spec fn timestamp_result(text: Seq<char>) -> Result<i128, ErrorModel> {
    if is_blank(text) {
        Err(ErrorModel::InvalidRequest("authority validity timestamp cannot be empty"@))
    } else {
        match rfc3339_instant(text) {
            Some(t) => Ok(t),
            None => Err(
                ErrorModel::InvalidRequest("authority validity timestamp must be valid RFC 3339"@),
            ),
        }
    }
}

/// What reading an optional bound gives.
pub open spec fn bound_result(bound: Option<Seq<char>>) -> Result<Option<i128>, ErrorModel> {
    match bound {
        None => Ok(None),
        Some(text) => match timestamp_result(text) {
            Ok(t) => Ok(Some(t)),
            Err(e) => Err(e),
        },
    }
}

/// The rule two read bounds break, if any: the end may not precede the start.
pub open spec fn bounds_error(not_before: Option<i128>, not_after: Option<i128>) -> Option<
    ErrorModel,
> {
    if not_before is Some && not_after is Some && not_after.unwrap() < not_before.unwrap() {
        Some(ErrorModel::InvalidRequest("authority validity not_before cannot be after not_after"@))
    } else {
        None
    }
}

/// Whether an instant lies within read bounds, both ends included.
pub open spec fn within_bounds(not_before: Option<i128>, not_after: Option<i128>, now: i128) -> bool {
    (not_before is None || now >= not_before.unwrap()) && (not_after is None || now
        <= not_after.unwrap())
}

/// The first rule a validity breaks, if any: each bound must read as an
/// RFC 3339 timestamp (start first), and the end may not precede the start.
pub open spec fn validity_error(v: ValidityModel) -> Option<ErrorModel> {
    match bound_result(v.not_before) {
        Err(e) => Some(e),
        Ok(nb) => match bound_result(v.not_after) {
            Err(e) => Some(e),
            Ok(na) => bounds_error(nb, na),
        },
    }
}

/// Whether a validity is in force at an instant, or the error met reading it.
pub open spec fn activity(v: ValidityModel, now: i128) -> Result<bool, ErrorModel> {
    match bound_result(v.not_before) {
        Err(e) => Err(e),
        Ok(nb) => match bound_result(v.not_after) {
            Err(e) => Err(e),
            Ok(na) => Ok(within_bounds(nb, na, now)),
        },
    }
}

/// Reads one validity timestamp; see [`timestamp_result`].
pub(crate) fn parse_timestamp(value: &str) -> (r: Result<i128, PraetoreError>)
    ensures
        result_model(r) == timestamp_result(value@),
{
    if blank(value) {
        return Err(
            PraetoreError::InvalidRequest(
                "authority validity timestamp cannot be empty".to_owned(),
            ),
        );
    }
    match parse_rfc3339(value) {
        Some(t) => Ok(t),
        None => Err(
            PraetoreError::InvalidRequest(
                "authority validity timestamp must be valid RFC 3339".to_owned(),
            ),
        ),
    }
}

fn parse_bound(bound: &Option<String>) -> (r: Result<Option<i128>, PraetoreError>)
    ensures
        result_model(r) == bound_result(opt_text(*bound)),
{
    match bound {
        None => Ok(None),
        Some(text) => match parse_timestamp(text.as_str()) {
            Ok(t) => Ok(Some(t)),
            Err(e) => Err(e),
        },
    }
}

impl Validity {
    pub fn unbounded() -> (r: Self)
        ensures
            r@ == (ValidityModel { not_before: None, not_after: None }),
    {
        Validity { not_before: None, not_after: None }
    }

    /// Checks the order of two read bounds; see [`bounds_error`].
    pub fn check_bounds(not_before: Option<i128>, not_after: Option<i128>) -> (r: Result<
        (),
        PraetoreError,
    >)
        ensures
            failure(r) == bounds_error(not_before, not_after),
    {
        if let (Some(start), Some(end)) = (not_before, not_after) {
            if end < start {
                return Err(
                    PraetoreError::InvalidRequest(
                        "authority validity not_before cannot be after not_after".to_owned(),
                    ),
                );
            }
        }
        Ok(())
    }

    /// Whether `now` lies within two read bounds; see [`within_bounds`].
    pub fn within(not_before: Option<i128>, not_after: Option<i128>, now: i128) -> (r: bool)
        ensures
            r == within_bounds(not_before, not_after, now),
    {
        let after_start = match not_before {
            Some(start) => now >= start,
            None => true,
        };
        let before_end = match not_after {
            Some(end) => now <= end,
            None => true,
        };
        after_start && before_end
    }

    /// Checks the validity; see [`validity_error`].
    pub fn validate(&self) -> (r: Result<(), PraetoreError>)
        ensures
            failure(r) == validity_error(self@),
    {
        let not_before = match parse_bound(&self.not_before) {
            Ok(t) => t,
            Err(e) => return Err(e),
        };
        let not_after = match parse_bound(&self.not_after) {
            Ok(t) => t,
            Err(e) => return Err(e),
        };
        Validity::check_bounds(not_before, not_after)
    }

    /// Whether the validity is in force at `now` (nanoseconds since the Unix
    /// epoch), both ends included; see [`activity`].
    pub fn is_active_at(&self, now: i128) -> (r: Result<bool, PraetoreError>)
        ensures
            result_model(r) == activity(self@, now),
    {
        let not_before = match parse_bound(&self.not_before) {
            Ok(t) => t,
            Err(e) => return Err(e),
        };
        let not_after = match parse_bound(&self.not_after) {
            Ok(t) => t,
            Err(e) => return Err(e),
        };
        Ok(Validity::within(not_before, not_after, now))
    }
}

/// A validity that passes its check can be read at every instant: asking
/// whether it is in force never fails.
pub proof fn law_valid_validity_reads_at_every_instant(v: ValidityModel, now: i128)
    requires
        validity_error(v) is None,
    ensures
        activity(v, now) is Ok,
{
}

/// An unbounded validity is valid and in force at every instant.
pub proof fn law_unbounded_validity_always_active(now: i128)
    ensures
        validity_error(ValidityModel { not_before: None, not_after: None }) is None,
        activity(ValidityModel { not_before: None, not_after: None }, now) == Ok::<
            bool,
            ErrorModel,
        >(true),
{
}

/// A delegated authority granted to an agent.
///
/// Authority answers "what may this identity potentially do?"
/// Authorization answers "may it do this specific action now?"
#[derive(Debug, Clone)]
pub struct Authority {
    pub id: AuthorityId,
    pub subject: AgentId,
    pub capabilities: Vec<String>,
    pub constraints: Vec<AuthorityConstraint>,
    pub issuer: String,
    pub validity: Validity,
    pub version: u32,
}

/// Model of an [`Authority`].
pub struct AuthorityModel {
    pub id: u128,
    pub subject: u128,
    pub capabilities: Seq<Seq<char>>,
    pub constraints: Seq<ConstraintModel>,
    pub issuer: Seq<char>,
    pub validity: ValidityModel,
    pub version: u32,
}

/// Models of a sequence of constraints.
pub open spec fn constraint_models(cs: Seq<AuthorityConstraint>) -> Seq<ConstraintModel> {
    cs.map_values(|c: AuthorityConstraint| c@)
}

impl View for Authority {
    type V = AuthorityModel;

    open spec fn view(&self) -> AuthorityModel {
        AuthorityModel {
            id: self.id.0,
            subject: self.subject.0,
            capabilities: texts(self.capabilities@),
            constraints: constraint_models(self.constraints@),
            issuer: self.issuer@,
            validity: self.validity@,
            version: self.version,
        }
    }
}

/// The rule a capability breaks, if any: it may not be blank.
pub open spec fn capability_error(c: Seq<char>) -> Option<ErrorModel> {
    if is_blank(c) {
        Some(ErrorModel::InvalidRequest("authority capability cannot be empty"@))
    } else {
        None
    }
}

pub open spec fn capability_check() -> spec_fn(Seq<char>) -> Option<ErrorModel> {
    |c: Seq<char>| capability_error(c)
}

/// The first rule an authority breaks, if any, in this order: a non-blank
/// issuer, a positive version, non-blank capabilities, valid constraints
/// (first failing one), and a valid validity interval.
pub open spec fn authority_error(a: AuthorityModel) -> Option<ErrorModel> {
    if is_blank(a.issuer) {
        Some(ErrorModel::InvalidRequest("authority issuer cannot be empty"@))
    } else if a.version == 0 {
        Some(ErrorModel::InvalidRequest("authority version must be greater than zero"@))
    } else if first_failure(a.capabilities, capability_check()) is Some {
        first_failure(a.capabilities, capability_check())
    } else if first_failure(a.constraints, constraint_check()) is Some {
        first_failure(a.constraints, constraint_check())
    } else {
        validity_error(a.validity)
    }
}

impl Authority {
    /// A new authority: fresh random id, no constraints, unbounded validity, version 1.
    pub fn new(subject: AgentId, issuer: &str, capabilities: Vec<String>) -> (r: Self)
        ensures
            is_random_uuid(r.id.0),
            r@ == (AuthorityModel {
                id: r.id.0,
                subject: subject.0,
                capabilities: texts(capabilities@),
                constraints: Seq::empty(),
                issuer: issuer@,
                validity: ValidityModel { not_before: None, not_after: None },
                version: 1,
            }),
    {
        let r = Authority {
            id: AuthorityId::new(),
            subject,
            capabilities,
            constraints: Vec::new(),
            issuer: issuer.to_owned(),
            validity: Validity::unbounded(),
            version: 1,
        };
        assert(r@.constraints =~= Seq::<ConstraintModel>::empty());
        r
    }

    /// Whether the authority declares `capability`, compared exactly.
    pub fn permits(&self, capability: &str) -> (r: bool)
        ensures
            r == self@.capabilities.contains(capability@),
    {
        let wanted = capability.to_owned();
        let n = self.capabilities.len();
        for i in 0..n
            invariant
                n == self.capabilities@.len(),
                wanted@ == capability@,
                forall|j: int| 0 <= j < i ==> self@.capabilities[j] != capability@,
        {
            if self.capabilities[i] == wanted {
                assert(self@.capabilities[i as int] == capability@);
                return true;
            }
        }
        assert(!self@.capabilities.contains(capability@));
        false
    }

    /// Adds a constraint after those already present.
    pub fn with_constraint(self, key: &str, value: &str) -> (r: Self)
        ensures
            r@ == (AuthorityModel {
                constraints: self@.constraints.push(ConstraintModel { key: key@, value: value@ }),
                ..self@
            }),
    {
        let mut a = self;
        a.constraints.push(AuthorityConstraint::new(key, value));
        assert(constraint_models(a.constraints@) =~= self@.constraints.push(
            ConstraintModel { key: key@, value: value@ },
        ));
        a
    }

    /// Replaces the validity interval.
    pub fn with_validity(self, validity: Validity) -> (r: Self)
        ensures
            r@ == (AuthorityModel { validity: validity@, ..self@ }),
    {
        let mut a = self;
        a.validity = validity;
        a
    }

    /// Checks the authority; see [`authority_error`].
    pub fn validate(&self) -> (r: Result<(), PraetoreError>)
        ensures
            failure(r) == authority_error(self@),
    {
        if blank(self.issuer.as_str()) {
            return Err(PraetoreError::InvalidRequest("authority issuer cannot be empty".to_owned()));
        }
        if self.version == 0 {
            return Err(
                PraetoreError::InvalidRequest(
                    "authority version must be greater than zero".to_owned(),
                ),
            );
        }
        let ghost caps = self@.capabilities;
        let n = self.capabilities.len();
        assert(caps.skip(0) =~= caps);
        for i in 0..n
            invariant
                n == caps.len(),
                caps == self@.capabilities,
                !is_blank(self@.issuer),
                self.version != 0,
                first_failure(caps, capability_check()) == first_failure(
                    caps.skip(i as int),
                    capability_check(),
                ),
        {
            proof {
                lemma_first_failure_step(caps, capability_check(), i as int);
                assert(caps[i as int] == self.capabilities@[i as int]@);
                assert(capability_check()(caps[i as int]) == capability_error(caps[i as int]));
            }
            if blank(self.capabilities[i].as_str()) {
                return Err(
                    PraetoreError::InvalidRequest("authority capability cannot be empty".to_owned()),
                );
            }
        }
        assert(caps.skip(n as int) =~= Seq::<Seq<char>>::empty());
        let ghost cons = self@.constraints;
        let m = self.constraints.len();
        assert(cons.skip(0) =~= cons);
        for i in 0..m
            invariant
                m == cons.len(),
                cons == self@.constraints,
                caps == self@.capabilities,
                !is_blank(self@.issuer),
                self.version != 0,
                first_failure(caps, capability_check()) is None,
                first_failure(cons, constraint_check()) == first_failure(
                    cons.skip(i as int),
                    constraint_check(),
                ),
        {
            proof {
                lemma_first_failure_step(cons, constraint_check(), i as int);
                assert(cons[i as int] == self.constraints@[i as int]@);
                assert(constraint_check()(cons[i as int]) == constraint_error(cons[i as int]));
            }
            match self.constraints[i].validate() {
                Ok(()) => {},
                Err(e) => return Err(e),
            }
        }
        assert(cons.skip(m as int) =~= Seq::<ConstraintModel>::empty());
        self.validity.validate()
    }
}

/// A validity passes its check exactly when each bound it has is a
/// non-blank RFC 3339 timestamp and, when it has both, the end is not
/// before the start.
pub proof fn law_validity_check_is_exact(v: ValidityModel)
    ensures
        validity_error(v) is None <==> {
            &&& (v.not_before matches Some(t) ==> !is_blank(t) && rfc3339_instant(t) is Some)
            &&& (v.not_after matches Some(t) ==> !is_blank(t) && rfc3339_instant(t) is Some)
            &&& (v.not_before matches Some(s) ==> v.not_after matches Some(e) ==> rfc3339_instant(
                s,
            )->0 <= rfc3339_instant(e)->0)
        },
{
}

/// An authority passes its check exactly when its issuer is not blank, its
/// version is positive, none of its capabilities is blank, every constraint
/// has a non-blank key and value, and its validity passes its check.
pub proof fn law_authority_check_is_exact(a: AuthorityModel)
    ensures
        authority_error(a) is None <==> {
            &&& !is_blank(a.issuer)
            &&& a.version != 0
            &&& forall|i: int| 0 <= i < a.capabilities.len() ==> !is_blank(#[trigger] a.capabilities[i])
            &&& forall|j: int|
                0 <= j < a.constraints.len() ==> !is_blank((#[trigger] a.constraints[j]).key)
                    && !is_blank(a.constraints[j].value)
            &&& validity_error(a.validity) is None
        },
{
    lemma_first_failure_none(a.capabilities, capability_check());
    lemma_first_failure_none(a.constraints, constraint_check());
    assert((forall|i: int| 0 <= i < a.capabilities.len() ==> !is_blank(#[trigger] a.capabilities[i]))
        <==> (forall|i: int|
        0 <= i < a.capabilities.len() ==> (#[trigger] capability_check()(a.capabilities[i])) is None)) by {
        assert forall|i: int| 0 <= i < a.capabilities.len() implies (!is_blank(a.capabilities[i])
            <==> (capability_check()(a.capabilities[i])) is None) by {}
    }
    assert((forall|j: int|
        0 <= j < a.constraints.len() ==> !is_blank((#[trigger] a.constraints[j]).key) && !is_blank(
            a.constraints[j].value,
        )) <==> (forall|j: int|
        0 <= j < a.constraints.len() ==> (#[trigger] constraint_check()(a.constraints[j])) is None)) by {
        assert forall|j: int| 0 <= j < a.constraints.len() implies ((!is_blank(a.constraints[j].key)
            && !is_blank(a.constraints[j].value)) <==> (constraint_check()(a.constraints[j])) is None) by {}
    }
}

/// Every capability is checked: an authority with a non-blank issuer and a
/// positive version that has a blank capability, wherever it stands, fails
/// with the capability error.
pub proof fn law_blank_capability_is_rejected(a: AuthorityModel, i: int)
    requires
        !is_blank(a.issuer),
        a.version != 0,
        0 <= i < a.capabilities.len(),
        is_blank(a.capabilities[i]),
    ensures
        authority_error(a) == Some(ErrorModel::InvalidRequest("authority capability cannot be empty"@)),
{
    lemma_first_failure_none(a.capabilities, capability_check());
    assert(capability_check()(a.capabilities[i]) is Some);
    lemma_capability_failure(a.capabilities);
}

/// The first failing capability always gives the capability error.
proof fn lemma_capability_failure(caps: Seq<Seq<char>>)
    ensures
        first_failure(caps, capability_check()) is Some ==> first_failure(caps, capability_check())
            == Some(ErrorModel::InvalidRequest("authority capability cannot be empty"@)),
    decreases caps.len(),
{
    if caps.len() > 0 {
        lemma_capability_failure(caps.drop_first());
    }
}

/// Whether a validity is in force at an instant: reading it fails exactly
/// when a bound it has is blank or not an RFC 3339 timestamp; otherwise it
/// is in force exactly when `now` is not before its start and not after its
/// end.
pub proof fn law_activity_is_exact(v: ValidityModel, now: i128)
    ensures
        activity(v, now) is Err <==> {
            ||| v.not_before matches Some(t) && (is_blank(t) || rfc3339_instant(t) is None)
            ||| v.not_after matches Some(t) && (is_blank(t) || rfc3339_instant(t) is None)
        },
        activity(v, now) is Ok ==> (activity(v, now)->Ok_0 <==> {
            &&& (v.not_before matches Some(t) ==> rfc3339_instant(t)->0 <= now)
            &&& (v.not_after matches Some(t) ==> now <= rfc3339_instant(t)->0)
        }),
{
}

} // verus!
