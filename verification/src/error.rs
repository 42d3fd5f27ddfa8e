//! Error categories and the error type.
//!
//! The categories follow how a caller should react: an authorization denial,
//! a routing refusal, an overreaching write and a semantic refusal each have a
//! variant of their own, so callers branch on the kind, never on the text.
//! A detail names the problem; it never repeats the text the caller gave.
use vstd::prelude::*;

verus! {

/// Error category: how the caller should react.
#[non_exhaustive]
#[derive(Debug, Clone, Copy, PartialEq, Eq, Hash, Structural)]
pub enum JapanCbErrorKind {
    /// The input's shape or value is illegal (fix the data; retrying is useless).
    Invalid,
    /// A required item is missing.
    Missing,
    /// The authorization decision did not pass (the fail-closed outcome).
    AuthorizationDenied,
    /// The product does not belong to this domain and is routed elsewhere.
    RoutedElsewhere,
    /// An authoritative write that belongs to another domain.
    WriteAuthorityDenied,
    /// Parsable, but semantically not accepted (an undeclared metric code or frequency).
    SemanticallyRejected,
    /// A planned capability that this layer does not provide.
    NotApplicable,
    /// An invariant was broken (a bug in the library).
    Invariant,
}

/// An error of this library: its category and a readable detail.
#[non_exhaustive]
#[derive(Debug, Clone)]
pub enum JapanCbError {
    /// Illegal input.
    Invalid(String),
    /// A required item is missing.
    Missing(String),
    /// The authorization decision did not pass.
    AuthorizationDenied(String),
    /// The product does not belong to this domain.
    RoutedElsewhere(String),
    /// An overreaching write.
    WriteAuthorityDenied(String),
    /// A semantic refusal.
    SemanticallyRejected(String),
    /// A planned capability that is not provided.
    NotApplicable(String),
    /// A broken invariant.
    Invariant(String),
}

/// Results of this library.
pub type JapanCbResult<T> = Result<T, JapanCbError>;

/// The text that the display form of an error of kind `kind` starts with.
pub open spec fn display_prefix(kind: JapanCbErrorKind) -> Seq<char> {
    match kind {
        JapanCbErrorKind::Invalid => "输入非法："@,
        JapanCbErrorKind::Missing => "缺少必需项："@,
        JapanCbErrorKind::AuthorizationDenied => "授权判定未通过："@,
        JapanCbErrorKind::RoutedElsewhere => "不属于本域，已路由他处："@,
        JapanCbErrorKind::WriteAuthorityDenied => "越权写入被拒绝："@,
        JapanCbErrorKind::SemanticallyRejected => "语义不被接受："@,
        JapanCbErrorKind::NotApplicable => "规划能力尚未实现："@,
        JapanCbErrorKind::Invariant => "不变量被破坏："@,
    }
}

impl JapanCbError {
    /// The category of this error.
    pub open spec fn kind_spec(&self) -> JapanCbErrorKind {
        match self {
            JapanCbError::Invalid(_) => JapanCbErrorKind::Invalid,
            JapanCbError::Missing(_) => JapanCbErrorKind::Missing,
            JapanCbError::AuthorizationDenied(_) => JapanCbErrorKind::AuthorizationDenied,
            JapanCbError::RoutedElsewhere(_) => JapanCbErrorKind::RoutedElsewhere,
            JapanCbError::WriteAuthorityDenied(_) => JapanCbErrorKind::WriteAuthorityDenied,
            JapanCbError::SemanticallyRejected(_) => JapanCbErrorKind::SemanticallyRejected,
            JapanCbError::NotApplicable(_) => JapanCbErrorKind::NotApplicable,
            JapanCbError::Invariant(_) => JapanCbErrorKind::Invariant,
        }
    }

    /// The readable detail carried by this error.
    pub open spec fn detail(&self) -> Seq<char> {
        match self {
            JapanCbError::Invalid(m) => m@,
            JapanCbError::Missing(m) => m@,
            JapanCbError::AuthorizationDenied(m) => m@,
            JapanCbError::RoutedElsewhere(m) => m@,
            JapanCbError::WriteAuthorityDenied(m) => m@,
            JapanCbError::SemanticallyRejected(m) => m@,
            JapanCbError::NotApplicable(m) => m@,
            JapanCbError::Invariant(m) => m@,
        }
    }

    /// An error of the given kind carrying `detail`.
    pub fn of_kind(kind: JapanCbErrorKind, detail: String) -> (e: JapanCbError)
        ensures
            e.kind_spec() == kind,
            e.detail() == detail@,
    {
        match kind {
            JapanCbErrorKind::Invalid => JapanCbError::Invalid(detail),
            JapanCbErrorKind::Missing => JapanCbError::Missing(detail),
            JapanCbErrorKind::AuthorizationDenied => JapanCbError::AuthorizationDenied(detail),
            JapanCbErrorKind::RoutedElsewhere => JapanCbError::RoutedElsewhere(detail),
            JapanCbErrorKind::WriteAuthorityDenied => JapanCbError::WriteAuthorityDenied(detail),
            JapanCbErrorKind::SemanticallyRejected => JapanCbError::SemanticallyRejected(detail),
            JapanCbErrorKind::NotApplicable => JapanCbError::NotApplicable(detail),
            JapanCbErrorKind::Invariant => JapanCbError::Invariant(detail),
        }
    }

    /// The category, so callers branch on how to react.
    #[verifier::when_used_as_spec(kind_spec)]
    pub fn kind(&self) -> (k: JapanCbErrorKind)
        ensures
            k == self.kind_spec(),
    {
        match self {
            JapanCbError::Invalid(_) => JapanCbErrorKind::Invalid,
            JapanCbError::Missing(_) => JapanCbErrorKind::Missing,
            JapanCbError::AuthorizationDenied(_) => JapanCbErrorKind::AuthorizationDenied,
            JapanCbError::RoutedElsewhere(_) => JapanCbErrorKind::RoutedElsewhere,
            JapanCbError::WriteAuthorityDenied(_) => JapanCbErrorKind::WriteAuthorityDenied,
            JapanCbError::SemanticallyRejected(_) => JapanCbErrorKind::SemanticallyRejected,
            JapanCbError::NotApplicable(_) => JapanCbErrorKind::NotApplicable,
            JapanCbError::Invariant(_) => JapanCbErrorKind::Invariant,
        }
    }

    /// Whether retrying could help. This layer has no network, so only a broken
    /// invariant is worth a retry.
    pub fn is_retryable(&self) -> (r: bool)
        ensures
            r == (self.kind_spec() == JapanCbErrorKind::Invariant),
    {
        match self {
            JapanCbError::Invariant(_) => true,
            _ => false,
        }
    }

    /// The display form: the category's phrase, then the detail.
    pub fn to_string(&self) -> (r: String)
        ensures
            r@ == display_prefix(self.kind_spec()) + self.detail(),
    {
        let (prefix, detail) = match self {
            JapanCbError::Invalid(m) => ("输入非法：", m),
            JapanCbError::Missing(m) => ("缺少必需项：", m),
            JapanCbError::AuthorizationDenied(m) => ("授权判定未通过：", m),
            JapanCbError::RoutedElsewhere(m) => ("不属于本域，已路由他处：", m),
            JapanCbError::WriteAuthorityDenied(m) => ("越权写入被拒绝：", m),
            JapanCbError::SemanticallyRejected(m) => ("语义不被接受：", m),
            JapanCbError::NotApplicable(m) => ("规划能力尚未实现：", m),
            JapanCbError::Invariant(m) => ("不变量被破坏：", m),
        };
        let mut out = String::from_str(prefix);
        out.append(detail.as_str());
        out
    }
}

} // verus!
