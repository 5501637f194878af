//! Value types of the action-dispatch pipeline: the execution context a
//! caller hands in, the observability record that comes back, the error
//! taxonomy, and the basic validator limits. The dispatcher itself — the
//! registry of async handlers and middleware — lives with the embedding
//! application.

use vstd::prelude::*;

verus! {

/// The key-value pairs of an association list, as sequences of characters.
pub open spec fn meta_view(m: Seq<(String, String)>) -> Seq<(Seq<char>, Seq<char>)> {
    m.map_values(|p: (String, String)| (p.0@, p.1@))
}

/// The association list without any entry under the key `k`, order kept.
pub open spec fn meta_remove(
    m: Seq<(Seq<char>, Seq<char>)>,
    k: Seq<char>,
) -> Seq<(Seq<char>, Seq<char>)>
    decreases m.len(),
{
    if m.len() == 0 {
        Seq::empty()
    } else {
        let rest = meta_remove(m.drop_last(), k);
        if m.last().0 != k {
            rest.push(m.last())
        } else {
            rest
        }
    }
}

/// Insertion into an association list: any entry under the same key is
/// dropped, and the new pair goes to the end.
pub open spec fn meta_insert(
    m: Seq<(Seq<char>, Seq<char>)>,
    k: Seq<char>,
    v: Seq<char>,
) -> Seq<(Seq<char>, Seq<char>)> {
    meta_remove(m, k).push((k, v))
}

/// Execution context of one dispatched action: who asked, in which
/// session, with what request metadata.
#[derive(Debug)]
pub struct ActionContext {
    pub user_id: String,
    pub session_id: String,
    pub security_label: Option<String>,
    pub request_metadata: Vec<(String, String)>,
}

impl ActionContext {
    /// A fresh context for the given user and session, without metadata.
    pub fn new(user_id: &str, session_id: &str) -> (r: ActionContext)
        ensures
            r.user_id@ == user_id@,
            r.session_id@ == session_id@,
            r.security_label is None,
            r.request_metadata@.len() == 0,
    {
        ActionContext {
            user_id: user_id.to_owned(),
            session_id: session_id.to_owned(),
            security_label: None,
            request_metadata: Vec::new(),
        }
    }

    /// The context with one metadata entry set: an existing entry under
    /// the same key is replaced.
    pub fn with_metadata(self, key: &str, value: &str) -> (r: ActionContext)
        ensures
            r.user_id == self.user_id,
            r.session_id == self.session_id,
            r.security_label == self.security_label,
            meta_view(r.request_metadata@) == meta_insert(
                meta_view(self.request_metadata@),
                key@,
                value@,
            ),
    {
        let needle: String = key.to_owned();
        let mut kept: Vec<(String, String)> = Vec::new();
        let n = self.request_metadata.len();
        let mut i: usize = 0;
        while i < n
            invariant
                n == self.request_metadata@.len(),
                0 <= i <= n,
                needle@ == key@,
                meta_view(kept@) == meta_remove(
                    meta_view(self.request_metadata@.take(i as int)),
                    key@,
                ),
            decreases n - i,
        {
            let keep = !self.request_metadata[i].0.eq(&needle);
            if keep {
                let pair = (
                    self.request_metadata[i].0.clone(),
                    self.request_metadata[i].1.clone(),
                );
                let ghost before = kept@;
                kept.push(pair);
                proof {
                    assert(meta_view(kept@) =~= meta_view(before).push(
                        (self.request_metadata@[i as int].0@, self.request_metadata@[i as int].1@),
                    ));
                }
            }
            proof {
                let pref = self.request_metadata@.take(i + 1);
                assert(pref.drop_last() =~= self.request_metadata@.take(i as int));
                assert(pref.last() == self.request_metadata@[i as int]);
                assert(meta_view(pref) =~= meta_view(self.request_metadata@.take(i as int)).push(
                    (self.request_metadata@[i as int].0@, self.request_metadata@[i as int].1@),
                ));
                assert(meta_view(pref).drop_last() =~= meta_view(
                    self.request_metadata@.take(i as int),
                ));
            }
            i += 1;
        }
        proof {
            assert(self.request_metadata@.take(n as int) =~= self.request_metadata@);
        }
        let ghost before = kept@;
        kept.push((key.to_owned(), value.to_owned()));
        proof {
            assert(meta_view(kept@) =~= meta_view(before).push((key@, value@)));
        }
        ActionContext {
            user_id: self.user_id,
            session_id: self.session_id,
            security_label: self.security_label,
            request_metadata: kept,
        }
    }
}

/// Observability record of one action execution.
#[derive(Debug, Clone)]
pub struct ObservabilityMetadata {
    pub operation_id: String,
    pub instrumentation_applied: bool,
    pub audit_logged: bool,
    pub metrics_recorded: bool,
    pub performance_budget_status: String,
    pub middleware_executed: Vec<String>,
}

/// The ways dispatching an action can fail.
#[derive(Debug)]
pub enum ActionError {
    HandlerNotFound { action_type: String },
    ValidationError { field: String, message: String },
    ExecutionError { message: String },
    MiddlewareError { middleware: String, message: String },
    Timeout,
    SerializationError { message: String },
    AuthorizationError { message: String },
    SystemError { message: String },
}

/// Basic validation limits applied to every incoming action.
#[derive(Debug)]
pub struct ActionValidator {
    pub max_payload_size: usize,
    pub allowed_action_types: Option<Vec<String>>,
}

/// Default cap on an action payload, in bytes.
pub const DEFAULT_MAX_PAYLOAD_SIZE: usize = 1048576;

impl ActionValidator {
    /// A validator with the default payload cap and no action-type
    /// restriction.
    pub fn new() -> (r: ActionValidator)
        ensures
            r.max_payload_size == DEFAULT_MAX_PAYLOAD_SIZE,
            r.allowed_action_types is None,
    {
        ActionValidator {
            max_payload_size: DEFAULT_MAX_PAYLOAD_SIZE,
            allowed_action_types: None,
        }
    }

    /// Whether a payload of `size` bytes passes the size limit.
    pub fn payload_size_ok(&self, size: usize) -> (r: bool)
        ensures
            r == (size <= self.max_payload_size),
    {
        size <= self.max_payload_size
    }
}

/// Handler of grid actions; its async execution lives with the embedding
/// application.
#[derive(Debug)]
pub struct GridActionHandler;

/// Middleware that logs every action before and after execution; its async
/// hooks live with the embedding application.
#[derive(Debug)]
pub struct LoggingMiddleware;

} // verus!
