use vstd::prelude::*;

verus! {

/// Errors raised by the authorization pipeline.
#[derive(Debug)]
pub enum PraetoreError {
    IdentityVerificationFailed,
    InvalidIdentity(String),
    AuthorityVerificationFailed,
    AuthorizationDenied(String),
    InvalidRequest(String),
    PolicyEvaluationFailed(String),
    EvidenceError(String),
}

/// The result of the pipeline's fallible operations.
pub type Result<T> = std::result::Result<T, PraetoreError>;

/// Mathematical model of [`PraetoreError`]: the same variants, with the
/// messages taken as character sequences.
pub enum ErrorModel {
    IdentityVerificationFailed,
    InvalidIdentity(Seq<char>),
    AuthorityVerificationFailed,
    AuthorizationDenied(Seq<char>),
    InvalidRequest(Seq<char>),
    PolicyEvaluationFailed(Seq<char>),
    EvidenceError(Seq<char>),
}

impl View for PraetoreError {
    type V = ErrorModel;

    open spec fn view(&self) -> ErrorModel {
        match self {
            PraetoreError::IdentityVerificationFailed => ErrorModel::IdentityVerificationFailed,
            PraetoreError::InvalidIdentity(m) => ErrorModel::InvalidIdentity(m@),
            PraetoreError::AuthorityVerificationFailed => ErrorModel::AuthorityVerificationFailed,
            PraetoreError::AuthorizationDenied(m) => ErrorModel::AuthorizationDenied(m@),
            PraetoreError::InvalidRequest(m) => ErrorModel::InvalidRequest(m@),
            PraetoreError::PolicyEvaluationFailed(m) => ErrorModel::PolicyEvaluationFailed(m@),
            PraetoreError::EvidenceError(m) => ErrorModel::EvidenceError(m@),
        }
    }
}

/// The error a result carries, as a model; `None` when the result is `Ok`.
pub open spec fn failure<T>(r: std::result::Result<T, PraetoreError>) -> Option<ErrorModel> {
    match r {
        Ok(_) => None,
        Err(e) => Some(e@),
    }
}

/// A result with its error taken as a model.
pub open spec fn result_model<T>(r: std::result::Result<T, PraetoreError>) -> std::result::Result<
    T,
    ErrorModel,
> {
    match r {
        Ok(v) => Ok(v),
        Err(e) => Err(e@),
    }
}

/// A result with its value and its error taken as models.
pub open spec fn result_view<T: View>(r: std::result::Result<T, PraetoreError>) -> std::result::Result<
    T::V,
    ErrorModel,
> {
    match r {
        Ok(v) => Ok(v@),
        Err(e) => Err(e@),
    }
}

/// The first failure that `check` finds in `s`, scanning from the front.
pub open spec fn first_failure<A>(s: Seq<A>, check: spec_fn(A) -> Option<ErrorModel>) -> Option<
    ErrorModel,
>
    decreases s.len(),
{
    if s.len() == 0 {
        None
    } else if check(s[0]) is Some {
        check(s[0])
    } else {
        first_failure(s.drop_first(), check)
    }
}

/// Scanning one more element: the first failure of `s.skip(i)` is that of
/// `s[i]`, or else the first failure of `s.skip(i + 1)`.
pub proof fn lemma_first_failure_step<A>(s: Seq<A>, check: spec_fn(A) -> Option<ErrorModel>, i: int)
    requires
        0 <= i < s.len(),
    ensures
        first_failure(s.skip(i), check) == if check(s[i]) is Some {
            check(s[i])
        } else {
            first_failure(s.skip(i + 1), check)
        },
{
    assert(s.skip(i).drop_first() =~= s.skip(i + 1));
    assert(s.skip(i)[0] == s[i]);
}

/// There is no first failure exactly when no element fails.
pub proof fn lemma_first_failure_none<A>(s: Seq<A>, check: spec_fn(A) -> Option<ErrorModel>)
    ensures
        (forall|i: int| 0 <= i < s.len() ==> (#[trigger] check(s[i])) is None) <==> first_failure(
            s,
            check,
        ) is None,
    decreases s.len(),
{
    if s.len() > 0 {
        lemma_first_failure_none(s.drop_first(), check);
        if forall|i: int| 0 <= i < s.len() ==> (#[trigger] check(s[i])) is None {
            assert forall|i: int| 0 <= i < s.drop_first().len() implies (#[trigger] check(
                s.drop_first()[i],
            )) is None by {
                assert(s.drop_first()[i] == s[i + 1]);
            }
        }
        if first_failure(s, check) is None {
            assert forall|i: int| 0 <= i < s.len() implies (#[trigger] check(s[i])) is None by {
                if i > 0 {
                    assert(s.drop_first()[i - 1] == s[i]);
                }
            }
        }
    }
}

} // verus!
