//! The errors of the runtime and their classification for connectors.
use vstd::prelude::*;

verus! {

#[derive(Clone, Copy, Debug, PartialEq, Eq, Structural)]
pub enum ConnectorClass {
    Auth,
    RateLimit,
    Timeout,
    Unavailable,
    InvalidQuery,
    MalformedData,
    Policy,
}

impl ConnectorClass {
    /// The name under which the class is written.
    pub open spec fn name(self) -> Seq<char> {
        match self {
            ConnectorClass::Auth => "auth"@,
            ConnectorClass::RateLimit => "rate_limit"@,
            ConnectorClass::Timeout => "timeout"@,
            ConnectorClass::Unavailable => "unavailable"@,
            ConnectorClass::InvalidQuery => "invalid_query"@,
            ConnectorClass::MalformedData => "malformed_data"@,
            ConnectorClass::Policy => "policy"@,
        }
    }

    pub fn as_str(self) -> (r: &'static str)
        ensures
            r@ == self.name(),
    {
        match self {
            ConnectorClass::Auth => "auth",
            ConnectorClass::RateLimit => "rate_limit",
            ConnectorClass::Timeout => "timeout",
            ConnectorClass::Unavailable => "unavailable",
            ConnectorClass::InvalidQuery => "invalid_query",
            ConnectorClass::MalformedData => "malformed_data",
            ConnectorClass::Policy => "policy",
        }
    }

    /// A request of this class may be sent again.
    pub open spec fn may_retry(self) -> bool {
        self is RateLimit || self is Timeout || self is Unavailable
    }

    pub fn retryable(self) -> (r: bool)
        ensures
            r == self.may_retry(),
    {
        matches!(
            self,
            ConnectorClass::RateLimit | ConnectorClass::Timeout | ConnectorClass::Unavailable
        )
    }
}

#[derive(Debug)]
pub enum OpsCodexError {
    Model(String),
    Tool(String),
    Policy(String),
    Storage(String),
    Protocol(String),
    Cancelled,
    MaxStepsExceeded,
    TurnAlreadyRunning,
    NeedsReconciliation(String),
    NotFound(String),
    Timeout(String),
    Connector { class: ConnectorClass, message: String },
}

/// What an error says.
pub enum ErrorView {
    Model(Seq<char>),
    Tool(Seq<char>),
    Policy(Seq<char>),
    Storage(Seq<char>),
    Protocol(Seq<char>),
    Cancelled,
    MaxStepsExceeded,
    TurnAlreadyRunning,
    NeedsReconciliation(Seq<char>),
    NotFound(Seq<char>),
    Timeout(Seq<char>),
    Connector(ConnectorClass, Seq<char>),
}

/// The result of an operation of the runtime.
pub type OpsResult<T> = core::result::Result<T, OpsCodexError>;

/// `r` is the error `error`.
pub open spec fn fails<T>(r: core::result::Result<T, OpsCodexError>, error: ErrorView) -> bool {
    r matches Err(e) && e@ == error
}

impl ErrorView {
    /// The text of the error.
    pub open spec fn text(self) -> Seq<char> {
        match self {
            ErrorView::Model(m) => "model error: "@ + m,
            ErrorView::Tool(m) => "tool error: "@ + m,
            ErrorView::Policy(m) => "policy error: "@ + m,
            ErrorView::Storage(m) => "storage error: "@ + m,
            ErrorView::Protocol(m) => "protocol error: "@ + m,
            ErrorView::Cancelled => "turn cancelled"@,
            ErrorView::MaxStepsExceeded => "maximum agent steps exceeded"@,
            ErrorView::TurnAlreadyRunning => "thread already has an active turn"@,
            ErrorView::NeedsReconciliation(m) => "needs reconciliation: "@ + m,
            ErrorView::NotFound(m) => "resource not found: "@ + m,
            ErrorView::Timeout(m) => "operation timed out: "@ + m,
            ErrorView::Connector(class, m) => class.name() + ": "@ + m,
        }
    }

    /// The class under which a connector reports the error.
    pub open spec fn class(self) -> ConnectorClass {
        match self {
            ErrorView::Timeout(_) => ConnectorClass::Timeout,
            ErrorView::Policy(_) => ConnectorClass::Policy,
            ErrorView::Connector(class, _) => class,
            _ => ConnectorClass::Unavailable,
        }
    }
}

/// A string literal followed by a message.
fn labelled(label: &str, message: &String) -> (r: String)
    ensures
        r@ == label@ + message@,
{
    let mut r = label.to_owned();
    r.append(message.as_str());
    r
}

impl Clone for OpsCodexError {
    fn clone(&self) -> (r: Self)
        ensures
            r == *self,
    {
        match self {
            OpsCodexError::Model(m) => OpsCodexError::Model(m.clone()),
            OpsCodexError::Tool(m) => OpsCodexError::Tool(m.clone()),
            OpsCodexError::Policy(m) => OpsCodexError::Policy(m.clone()),
            OpsCodexError::Storage(m) => OpsCodexError::Storage(m.clone()),
            OpsCodexError::Protocol(m) => OpsCodexError::Protocol(m.clone()),
            OpsCodexError::Cancelled => OpsCodexError::Cancelled,
            OpsCodexError::MaxStepsExceeded => OpsCodexError::MaxStepsExceeded,
            OpsCodexError::TurnAlreadyRunning => OpsCodexError::TurnAlreadyRunning,
            OpsCodexError::NeedsReconciliation(m) => OpsCodexError::NeedsReconciliation(m.clone()),
            OpsCodexError::NotFound(m) => OpsCodexError::NotFound(m.clone()),
            OpsCodexError::Timeout(m) => OpsCodexError::Timeout(m.clone()),
            OpsCodexError::Connector { class, message } => OpsCodexError::Connector {
                class: *class,
                message: message.clone(),
            },
        }
    }
}

impl OpsCodexError {
    pub open spec fn view(&self) -> ErrorView {
        match self {
            OpsCodexError::Model(m) => ErrorView::Model(m@),
            OpsCodexError::Tool(m) => ErrorView::Tool(m@),
            OpsCodexError::Policy(m) => ErrorView::Policy(m@),
            OpsCodexError::Storage(m) => ErrorView::Storage(m@),
            OpsCodexError::Protocol(m) => ErrorView::Protocol(m@),
            OpsCodexError::Cancelled => ErrorView::Cancelled,
            OpsCodexError::MaxStepsExceeded => ErrorView::MaxStepsExceeded,
            OpsCodexError::TurnAlreadyRunning => ErrorView::TurnAlreadyRunning,
            OpsCodexError::NeedsReconciliation(m) => ErrorView::NeedsReconciliation(m@),
            OpsCodexError::NotFound(m) => ErrorView::NotFound(m@),
            OpsCodexError::Timeout(m) => ErrorView::Timeout(m@),
            OpsCodexError::Connector { class, message } => ErrorView::Connector(*class, message@),
        }
    }

    /// The text of the error.
    pub fn to_string(&self) -> (r: String)
        ensures
            r@ == self@.text(),
    {
        match self {
            OpsCodexError::Model(m) => labelled("model error: ", m),
            OpsCodexError::Tool(m) => labelled("tool error: ", m),
            OpsCodexError::Policy(m) => labelled("policy error: ", m),
            OpsCodexError::Storage(m) => labelled("storage error: ", m),
            OpsCodexError::Protocol(m) => labelled("protocol error: ", m),
            OpsCodexError::Cancelled => "turn cancelled".to_owned(),
            OpsCodexError::MaxStepsExceeded => "maximum agent steps exceeded".to_owned(),
            OpsCodexError::TurnAlreadyRunning => "thread already has an active turn".to_owned(),
            OpsCodexError::NeedsReconciliation(m) => labelled("needs reconciliation: ", m),
            OpsCodexError::NotFound(m) => labelled("resource not found: ", m),
            OpsCodexError::Timeout(m) => labelled("operation timed out: ", m),
            OpsCodexError::Connector { class, message } => {
                let mut r = class.as_str().to_owned();
                r.append(": ");
                r.append(message.as_str());
                r
            },
        }
    }

    pub fn connector(class: ConnectorClass, message: String) -> (r: Self)
        ensures
            r@ == ErrorView::Connector(class, message@),
    {
        OpsCodexError::Connector { class, message }
    }

    pub fn connector_class(&self) -> (r: ConnectorClass)
        ensures
            r == self@.class(),
    {
        match self {
            OpsCodexError::Timeout(_) => ConnectorClass::Timeout,
            OpsCodexError::Policy(_) => ConnectorClass::Policy,
            OpsCodexError::Connector { class, .. } => *class,
            _ => ConnectorClass::Unavailable,
        }
    }

    pub fn retryable(&self) -> (r: bool)
        ensures
            r == self@.class().may_retry(),
    {
        self.connector_class().retryable()
    }
}

} // verus!
