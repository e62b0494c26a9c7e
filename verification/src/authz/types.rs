//! Authorization core types: resources, actions, permissions, roles, subjects.
use vstd::prelude::*;
use crate::domain::user::UserDomain;
use crate::ids::{UserId, SessionId};
use crate::text::{str_eq, concat2, concat3};
use crate::authz::value::{AttrMap, AttrValue, JsonView, jv};

verus! {

/// Authorization errors.
#[derive(Debug)]
pub enum AuthzError {
    AccessDenied,
    PermissionDenied(String),
    RoleNotFound(String),
    InvalidPolicy(String),
    EvaluationError(String),
    StorageError(String),
    InvalidResource(String),
    CircularDependency,
}

impl AuthzError {
    /// Human-readable message of the error.
    pub fn message(&self) -> (s: String)
        ensures
            match self {
                AuthzError::AccessDenied => s@ == "Access denied"@,
                AuthzError::PermissionDenied(m) => s@ == "Permission denied: "@ + m@,
                AuthzError::RoleNotFound(m) => s@ == "Role not found: "@ + m@,
                AuthzError::InvalidPolicy(m) => s@ == "Invalid policy: "@ + m@,
                AuthzError::EvaluationError(m) => s@ == "Policy evaluation error: "@ + m@,
                AuthzError::StorageError(m) => s@ == "Storage error: "@ + m@,
                AuthzError::InvalidResource(m) => s@ == "Invalid resource: "@ + m@,
                AuthzError::CircularDependency => s@ == "Circular role dependency detected"@,
            },
    {
        match self {
            AuthzError::AccessDenied => String::from_str("Access denied"),
            AuthzError::PermissionDenied(m) => concat2("Permission denied: ", m.as_str()),
            AuthzError::RoleNotFound(m) => concat2("Role not found: ", m.as_str()),
            AuthzError::InvalidPolicy(m) => concat2("Invalid policy: ", m.as_str()),
            AuthzError::EvaluationError(m) => concat2("Policy evaluation error: ", m.as_str()),
            AuthzError::StorageError(m) => concat2("Storage error: ", m.as_str()),
            AuthzError::InvalidResource(m) => concat2("Invalid resource: ", m.as_str()),
            AuthzError::CircularDependency => String::from_str("Circular role dependency detected"),
        }
    }
}

/// Resource type in the system.
#[derive(Debug, Clone, PartialEq, Eq, Hash)]
pub enum ResourceType {
    Order,
    Account,
    Position,
    MarketData,
    Config,
    AuditLog,
    User,
    ApiKey,
    Credential,
    Session,
    Custom(String),
}

/// Mathematical view of a resource type.
pub enum ResourceKind {
    Order,
    Account,
    Position,
    MarketData,
    Config,
    AuditLog,
    User,
    ApiKey,
    Credential,
    Session,
    Custom(Seq<char>),
}

impl View for ResourceType {
    type V = ResourceKind;

    open spec fn view(&self) -> ResourceKind {
        match self {
            ResourceType::Order => ResourceKind::Order,
            ResourceType::Account => ResourceKind::Account,
            ResourceType::Position => ResourceKind::Position,
            ResourceType::MarketData => ResourceKind::MarketData,
            ResourceType::Config => ResourceKind::Config,
            ResourceType::AuditLog => ResourceKind::AuditLog,
            ResourceType::User => ResourceKind::User,
            ResourceType::ApiKey => ResourceKind::ApiKey,
            ResourceType::Credential => ResourceKind::Credential,
            ResourceType::Session => ResourceKind::Session,
            ResourceType::Custom(s) => ResourceKind::Custom(s@),
        }
    }
}

/// The resource type named by a text.
pub open spec fn resource_kind_of(s: Seq<char>) -> ResourceKind {
    if s == "order"@ { ResourceKind::Order }
    else if s == "account"@ { ResourceKind::Account }
    else if s == "position"@ { ResourceKind::Position }
    else if s == "market_data"@ { ResourceKind::MarketData }
    else if s == "config"@ { ResourceKind::Config }
    else if s == "audit_log"@ { ResourceKind::AuditLog }
    else if s == "user"@ { ResourceKind::User }
    else if s == "api_key"@ { ResourceKind::ApiKey }
    else if s == "credential"@ { ResourceKind::Credential }
    else if s == "session"@ { ResourceKind::Session }
    else { ResourceKind::Custom(s) }
}

/// The text name of a resource type, as `from_str` reads it.
pub open spec fn resource_kind_text(k: ResourceKind) -> Seq<char> {
    match k {
        ResourceKind::Order => "order"@,
        ResourceKind::Account => "account"@,
        ResourceKind::Position => "position"@,
        ResourceKind::MarketData => "market_data"@,
        ResourceKind::Config => "config"@,
        ResourceKind::AuditLog => "audit_log"@,
        ResourceKind::User => "user"@,
        ResourceKind::ApiKey => "api_key"@,
        ResourceKind::Credential => "credential"@,
        ResourceKind::Session => "session"@,
        ResourceKind::Custom(s) => s,
    }
}

impl ResourceType {
    /// Parses a resource type; unknown names become `Custom`.
    pub fn from_str(s: &str) -> (r: ResourceType)
        ensures
            r@ == resource_kind_of(s@),
    {
        if str_eq(s, "order") { ResourceType::Order }
        else if str_eq(s, "account") { ResourceType::Account }
        else if str_eq(s, "position") { ResourceType::Position }
        else if str_eq(s, "market_data") { ResourceType::MarketData }
        else if str_eq(s, "config") { ResourceType::Config }
        else if str_eq(s, "audit_log") { ResourceType::AuditLog }
        else if str_eq(s, "user") { ResourceType::User }
        else if str_eq(s, "api_key") { ResourceType::ApiKey }
        else if str_eq(s, "credential") { ResourceType::Credential }
        else if str_eq(s, "session") { ResourceType::Session }
        else { ResourceType::Custom(String::from_str(s)) }
    }

    /// Equality by value.
    pub fn same(&self, other: &ResourceType) -> (b: bool)
        ensures
            b == (self@ == other@),
    {
        match (self, other) {
            (ResourceType::Order, ResourceType::Order) => true,
            (ResourceType::Account, ResourceType::Account) => true,
            (ResourceType::Position, ResourceType::Position) => true,
            (ResourceType::MarketData, ResourceType::MarketData) => true,
            (ResourceType::Config, ResourceType::Config) => true,
            (ResourceType::AuditLog, ResourceType::AuditLog) => true,
            (ResourceType::User, ResourceType::User) => true,
            (ResourceType::ApiKey, ResourceType::ApiKey) => true,
            (ResourceType::Credential, ResourceType::Credential) => true,
            (ResourceType::Session, ResourceType::Session) => true,
            (ResourceType::Custom(a), ResourceType::Custom(b)) => *a == *b,
            _ => false,
        }
    }

    /// A copy with the same view.
    pub fn copy(&self) -> (r: ResourceType)
        ensures
            r@ == self@,
    {
        match self {
            ResourceType::Order => ResourceType::Order,
            ResourceType::Account => ResourceType::Account,
            ResourceType::Position => ResourceType::Position,
            ResourceType::MarketData => ResourceType::MarketData,
            ResourceType::Config => ResourceType::Config,
            ResourceType::AuditLog => ResourceType::AuditLog,
            ResourceType::User => ResourceType::User,
            ResourceType::ApiKey => ResourceType::ApiKey,
            ResourceType::Credential => ResourceType::Credential,
            ResourceType::Session => ResourceType::Session,
            ResourceType::Custom(s) => ResourceType::Custom(s.clone()),
        }
    }

    /// The text name of the resource type ("order", "market_data", ...).
    pub fn name(&self) -> (s: String)
        ensures
            s@ == resource_kind_text(self@),
    {
        match self {
            ResourceType::Order => String::from_str("order"),
            ResourceType::Account => String::from_str("account"),
            ResourceType::Position => String::from_str("position"),
            ResourceType::MarketData => String::from_str("market_data"),
            ResourceType::Config => String::from_str("config"),
            ResourceType::AuditLog => String::from_str("audit_log"),
            ResourceType::User => String::from_str("user"),
            ResourceType::ApiKey => String::from_str("api_key"),
            ResourceType::Credential => String::from_str("credential"),
            ResourceType::Session => String::from_str("session"),
            ResourceType::Custom(c) => c.clone(),
        }
    }
}

/// Action being performed.
#[derive(Debug, Clone, PartialEq, Eq, Hash)]
pub enum Action {
    Read,
    Create,
    Update,
    Delete,
    Execute,
    Approve,
    Reject,
    Cancel,
    Export,
    Custom(String),
}

/// Mathematical view of an action.
pub enum ActionKind {
    Read,
    Create,
    Update,
    Delete,
    Execute,
    Approve,
    Reject,
    Cancel,
    Export,
    Custom(Seq<char>),
}

impl View for Action {
    type V = ActionKind;

    open spec fn view(&self) -> ActionKind {
        match self {
            Action::Read => ActionKind::Read,
            Action::Create => ActionKind::Create,
            Action::Update => ActionKind::Update,
            Action::Delete => ActionKind::Delete,
            Action::Execute => ActionKind::Execute,
            Action::Approve => ActionKind::Approve,
            Action::Reject => ActionKind::Reject,
            Action::Cancel => ActionKind::Cancel,
            Action::Export => ActionKind::Export,
            Action::Custom(s) => ActionKind::Custom(s@),
        }
    }
}

/// The action named by a text.
pub open spec fn action_kind_of(s: Seq<char>) -> ActionKind {
    if s == "read"@ { ActionKind::Read }
    else if s == "create"@ { ActionKind::Create }
    else if s == "update"@ { ActionKind::Update }
    else if s == "delete"@ { ActionKind::Delete }
    else if s == "execute"@ { ActionKind::Execute }
    else if s == "approve"@ { ActionKind::Approve }
    else if s == "reject"@ { ActionKind::Reject }
    else if s == "cancel"@ { ActionKind::Cancel }
    else if s == "export"@ { ActionKind::Export }
    else { ActionKind::Custom(s) }
}

/// The text name of an action, as `from_str` reads it.
pub open spec fn action_kind_text(k: ActionKind) -> Seq<char> {
    match k {
        ActionKind::Read => "read"@,
        ActionKind::Create => "create"@,
        ActionKind::Update => "update"@,
        ActionKind::Delete => "delete"@,
        ActionKind::Execute => "execute"@,
        ActionKind::Approve => "approve"@,
        ActionKind::Reject => "reject"@,
        ActionKind::Cancel => "cancel"@,
        ActionKind::Export => "export"@,
        ActionKind::Custom(s) => s,
    }
}

impl Action {
    /// Parses an action; unknown names become `Custom`.
    pub fn from_str(s: &str) -> (r: Action)
        ensures
            r@ == action_kind_of(s@),
    {
        if str_eq(s, "read") { Action::Read }
        else if str_eq(s, "create") { Action::Create }
        else if str_eq(s, "update") { Action::Update }
        else if str_eq(s, "delete") { Action::Delete }
        else if str_eq(s, "execute") { Action::Execute }
        else if str_eq(s, "approve") { Action::Approve }
        else if str_eq(s, "reject") { Action::Reject }
        else if str_eq(s, "cancel") { Action::Cancel }
        else if str_eq(s, "export") { Action::Export }
        else { Action::Custom(String::from_str(s)) }
    }

    /// Equality by value.
    pub fn same(&self, other: &Action) -> (b: bool)
        ensures
            b == (self@ == other@),
    {
        match (self, other) {
            (Action::Read, Action::Read) => true,
            (Action::Create, Action::Create) => true,
            (Action::Update, Action::Update) => true,
            (Action::Delete, Action::Delete) => true,
            (Action::Execute, Action::Execute) => true,
            (Action::Approve, Action::Approve) => true,
            (Action::Reject, Action::Reject) => true,
            (Action::Cancel, Action::Cancel) => true,
            (Action::Export, Action::Export) => true,
            (Action::Custom(a), Action::Custom(b)) => *a == *b,
            _ => false,
        }
    }

    /// A copy with the same view.
    pub fn copy(&self) -> (r: Action)
        ensures
            r@ == self@,
    {
        match self {
            Action::Read => Action::Read,
            Action::Create => Action::Create,
            Action::Update => Action::Update,
            Action::Delete => Action::Delete,
            Action::Execute => Action::Execute,
            Action::Approve => Action::Approve,
            Action::Reject => Action::Reject,
            Action::Cancel => Action::Cancel,
            Action::Export => Action::Export,
            Action::Custom(s) => Action::Custom(s.clone()),
        }
    }

    /// The text name of the action ("read", "export", ...).
    pub fn name(&self) -> (s: String)
        ensures
            s@ == action_kind_text(self@),
    {
        match self {
            Action::Read => String::from_str("read"),
            Action::Create => String::from_str("create"),
            Action::Update => String::from_str("update"),
            Action::Delete => String::from_str("delete"),
            Action::Execute => String::from_str("execute"),
            Action::Approve => String::from_str("approve"),
            Action::Reject => String::from_str("reject"),
            Action::Cancel => String::from_str("cancel"),
            Action::Export => String::from_str("export"),
            Action::Custom(c) => c.clone(),
        }
    }
}

/// Permission: an action on a resource type.
#[derive(Debug, Clone, PartialEq, Eq, Hash)]
pub struct Permission {
    pub resource_type: ResourceType,
    pub action: Action,
}

/// Mathematical view of a permission.
pub type PermissionView = (ResourceKind, ActionKind);

impl View for Permission {
    type V = PermissionView;

    open spec fn view(&self) -> PermissionView {
        (self.resource_type@, self.action@)
    }
}

/// Number of occurrences of `c` in `s`.
pub open spec fn count_char(s: Seq<char>, c: char) -> nat
    decreases s.len(),
{
    if s.len() == 0 {
        0
    } else {
        count_char(s.drop_last(), c) + (if s.last() == c { 1nat } else { 0nat })
    }
}

/// Index of the first occurrence of `c` in `s` (or the length when absent).
pub open spec fn first_char_index(s: Seq<char>, c: char) -> int
    decreases s.len(),
{
    if s.len() == 0 {
        0
    } else if s[0] == c {
        0
    } else {
        1 + first_char_index(s.drop_first(), c)
    }
}

/// Result of parsing a permission written "resource:action".
pub open spec fn permission_parse(s: Seq<char>) -> Option<PermissionView> {
    if count_char(s, ':') == 1 {
        let i = first_char_index(s, ':');
        Some((resource_kind_of(s.subrange(0, i)), action_kind_of(s.subrange(i + 1, s.len() as int))))
    } else {
        None
    }
}

proof fn lemma_count_char_push(s: Seq<char>, x: char, c: char)
    ensures
        count_char(s.push(x), c) == count_char(s, c) + (if x == c { 1nat } else { 0nat }),
{
    assert(s.push(x).drop_last() == s);
}

proof fn lemma_first_char_index(s: Seq<char>, c: char, i: int)
    requires
        0 <= i < s.len(),
        s[i] == c,
        forall|j: int| 0 <= j < i ==> s[j] != c,
    ensures
        first_char_index(s, c) == i,
    decreases i,
{
    if i > 0 {
        assert forall|j: int| 0 <= j < i - 1 implies s.drop_first()[j] != c by {
            assert(s.drop_first()[j] == s[j + 1]);
        }
        lemma_first_char_index(s.drop_first(), c, i - 1);
    }
}

/// The text "resource:action" of a permission.
pub open spec fn permission_text(p: PermissionView) -> Seq<char> {
    resource_kind_text(p.0) + ":"@ + action_kind_text(p.1)
}

/// `s` holds no ':'.
pub open spec fn colon_free(s: Seq<char>) -> bool {
    forall|j: int| 0 <= j < s.len() ==> s[j] != ':'
}

/// A permission whose text reads back as itself: a custom part holds no ':'
/// and is not the name of a known resource type or action.
pub open spec fn permission_text_invertible(p: PermissionView) -> bool {
    &&& (p.0 matches ResourceKind::Custom(s) ==> colon_free(s) && resource_kind_of(s) == ResourceKind::Custom(s))
    &&& (p.1 matches ActionKind::Custom(s) ==> colon_free(s) && action_kind_of(s) == ActionKind::Custom(s))
}

proof fn lemma_count_char_free(s: Seq<char>, c: char)
    requires
        forall|j: int| 0 <= j < s.len() ==> s[j] != c,
    ensures
        count_char(s, c) == 0,
    decreases s.len(),
{
    if s.len() > 0 {
        lemma_count_char_free(s.drop_last(), c);
    }
}

proof fn lemma_count_char_concat(a: Seq<char>, b: Seq<char>, c: char)
    ensures
        count_char(a + b, c) == count_char(a, c) + count_char(b, c),
    decreases b.len(),
{
    if b.len() > 0 {
        assert((a + b).drop_last() == a + b.drop_last());
        lemma_count_char_concat(a, b.drop_last(), c);
    } else {
        assert(a + b == a);
    }
}

proof fn lemma_resource_text_inverse(k: ResourceKind)
    requires
        k matches ResourceKind::Custom(s) ==> colon_free(s) && resource_kind_of(s) == ResourceKind::Custom(s),
    ensures
        resource_kind_of(resource_kind_text(k)) == k,
        colon_free(resource_kind_text(k)),
{
    reveal_strlit("order");
    reveal_strlit("account");
    reveal_strlit("position");
    reveal_strlit("market_data");
    reveal_strlit("config");
    reveal_strlit("audit_log");
    reveal_strlit("user");
    reveal_strlit("api_key");
    reveal_strlit("credential");
    reveal_strlit("session");
    match k {
        ResourceKind::Order => {},
        ResourceKind::Account => {
            assert("account"@.len() != "order"@.len());
        },
        ResourceKind::Position => {
            assert("position"@.len() != "order"@.len());
            assert("position"@.len() != "account"@.len());
        },
        ResourceKind::MarketData => {
            assert("market_data"@.len() != "order"@.len());
            assert("market_data"@.len() != "account"@.len());
            assert("market_data"@.len() != "position"@.len());
        },
        ResourceKind::Config => {
            assert("config"@.len() != "order"@.len());
            assert("config"@.len() != "account"@.len());
            assert("config"@.len() != "position"@.len());
            assert("config"@.len() != "market_data"@.len());
        },
        ResourceKind::AuditLog => {
            assert("audit_log"@.len() != "order"@.len());
            assert("audit_log"@.len() != "account"@.len());
            assert("audit_log"@.len() != "position"@.len());
            assert("audit_log"@.len() != "market_data"@.len());
            assert("audit_log"@.len() != "config"@.len());
        },
        ResourceKind::User => {
            assert("user"@.len() != "order"@.len());
            assert("user"@.len() != "account"@.len());
            assert("user"@.len() != "position"@.len());
            assert("user"@.len() != "market_data"@.len());
            assert("user"@.len() != "config"@.len());
            assert("user"@.len() != "audit_log"@.len());
        },
        ResourceKind::ApiKey => {
            assert("api_key"@.len() != "order"@.len());
            assert("api_key"@[1] != "account"@[1]);
            assert("api_key"@.len() != "position"@.len());
            assert("api_key"@.len() != "market_data"@.len());
            assert("api_key"@.len() != "config"@.len());
            assert("api_key"@.len() != "audit_log"@.len());
            assert("api_key"@.len() != "user"@.len());
        },
        ResourceKind::Credential => {
            assert("credential"@.len() != "order"@.len());
            assert("credential"@.len() != "account"@.len());
            assert("credential"@.len() != "position"@.len());
            assert("credential"@.len() != "market_data"@.len());
            assert("credential"@.len() != "config"@.len());
            assert("credential"@.len() != "audit_log"@.len());
            assert("credential"@.len() != "user"@.len());
            assert("credential"@.len() != "api_key"@.len());
        },
        ResourceKind::Session => {
            assert("session"@.len() != "order"@.len());
            assert("session"@[0] != "account"@[0]);
            assert("session"@.len() != "position"@.len());
            assert("session"@.len() != "market_data"@.len());
            assert("session"@.len() != "config"@.len());
            assert("session"@.len() != "audit_log"@.len());
            assert("session"@.len() != "user"@.len());
            assert("session"@[0] != "api_key"@[0]);
            assert("session"@.len() != "credential"@.len());
        },
        ResourceKind::Custom(_) => {},
    }
}

proof fn lemma_action_text_inverse(k: ActionKind)
    requires
        k matches ActionKind::Custom(s) ==> colon_free(s) && action_kind_of(s) == ActionKind::Custom(s),
    ensures
        action_kind_of(action_kind_text(k)) == k,
        colon_free(action_kind_text(k)),
{
    reveal_strlit("read");
    reveal_strlit("create");
    reveal_strlit("update");
    reveal_strlit("delete");
    reveal_strlit("execute");
    reveal_strlit("approve");
    reveal_strlit("reject");
    reveal_strlit("cancel");
    reveal_strlit("export");
    match k {
        ActionKind::Read => {},
        ActionKind::Create => {
            assert("create"@.len() != "read"@.len());
        },
        ActionKind::Update => {
            assert("update"@.len() != "read"@.len());
            assert("update"@[0] != "create"@[0]);
        },
        ActionKind::Delete => {
            assert("delete"@.len() != "read"@.len());
            assert("delete"@[0] != "create"@[0]);
            assert("delete"@[0] != "update"@[0]);
        },
        ActionKind::Execute => {
            assert("execute"@.len() != "read"@.len());
            assert("execute"@.len() != "create"@.len());
            assert("execute"@.len() != "update"@.len());
            assert("execute"@.len() != "delete"@.len());
        },
        ActionKind::Approve => {
            assert("approve"@.len() != "read"@.len());
            assert("approve"@.len() != "create"@.len());
            assert("approve"@.len() != "update"@.len());
            assert("approve"@.len() != "delete"@.len());
            assert("approve"@[0] != "execute"@[0]);
        },
        ActionKind::Reject => {
            assert("reject"@.len() != "read"@.len());
            assert("reject"@[0] != "create"@[0]);
            assert("reject"@[0] != "update"@[0]);
            assert("reject"@[0] != "delete"@[0]);
            assert("reject"@.len() != "execute"@.len());
            assert("reject"@.len() != "approve"@.len());
        },
        ActionKind::Cancel => {
            assert("cancel"@.len() != "read"@.len());
            assert("cancel"@[1] != "create"@[1]);
            assert("cancel"@[0] != "update"@[0]);
            assert("cancel"@[0] != "delete"@[0]);
            assert("cancel"@.len() != "execute"@.len());
            assert("cancel"@.len() != "approve"@.len());
            assert("cancel"@[0] != "reject"@[0]);
        },
        ActionKind::Export => {
            assert("export"@.len() != "read"@.len());
            assert("export"@[0] != "create"@[0]);
            assert("export"@[0] != "update"@[0]);
            assert("export"@[0] != "delete"@[0]);
            assert("export"@.len() != "execute"@.len());
            assert("export"@.len() != "approve"@.len());
            assert("export"@[0] != "reject"@[0]);
            assert("export"@[0] != "cancel"@[0]);
        },
        ActionKind::Custom(_) => {},
    }
}

/// The text of a permission parses back to the same permission, whenever each
/// custom part holds no ':' and is not the name of a known resource type or action.
pub proof fn lemma_permission_text_roundtrip(p: PermissionView)
    requires
        permission_text_invertible(p),
    ensures
        permission_parse(permission_text(p)) == Some(p),
{
    let a = resource_kind_text(p.0);
    let b = action_kind_text(p.1);
    lemma_resource_text_inverse(p.0);
    lemma_action_text_inverse(p.1);
    reveal_strlit(":");
    let t = a + ":"@ + b;
    lemma_count_char_free(a, ':');
    lemma_count_char_free(b, ':');
    lemma_count_char_concat(a, ":"@, ':');
    lemma_count_char_concat(a + ":"@, b, ':');
    assert(count_char(":"@, ':') == 1) by {
        assert(":"@.drop_last() =~= Seq::<char>::empty());
        assert(count_char(Seq::<char>::empty(), ':') == 0);
    }
    assert(t[a.len() as int] == ':');
    assert forall|j: int| 0 <= j < a.len() implies t[j] != ':' by {
        assert(t[j] == a[j]);
    }
    lemma_first_char_index(t, ':', a.len() as int);
    assert(t.subrange(0, a.len() as int) =~= a);
    assert(t.subrange(a.len() as int + 1, t.len() as int) =~= b);
}

impl Permission {
    /// A permission for `action` on `resource_type`.
    pub fn new(resource_type: ResourceType, action: Action) -> (p: Permission)
        ensures
            p.resource_type == resource_type,
            p.action == action,
    {
        Permission { resource_type, action }
    }

    /// Parses "resource:action"; a text without exactly one ':' is refused.
    pub fn from_string(s: &str) -> (r: Result<Permission, AuthzError>)
        ensures
            match permission_parse(s@) {
                Some(pv) => r matches Ok(p) && p@ == pv,
                None => r matches Err(AuthzError::InvalidPolicy(m)) && m@ == "Invalid permission format: "@ + s@,
            },
    {
        let n = s.unicode_len();
        let mut count: usize = 0;
        let mut first: usize = n;
        let mut i: usize = 0;
        while i < n
            invariant
                n == s@.len(),
                i <= n,
                count == count_char(s@.subrange(0, i as int), ':'),
                count <= i,
                first <= n,
                count == 0 ==> first == n,
                count > 0 ==> first < i && s@[first as int] == ':' && forall|j: int| 0 <= j < first ==> s@[j] != ':',
                count == 0 ==> forall|j: int| 0 <= j < i ==> s@[j] != ':',
            decreases n - i,
        {
            let ch = s.get_char(i);
            proof {
                assert(s@.subrange(0, i + 1) == s@.subrange(0, i as int).push(ch));
                lemma_count_char_push(s@.subrange(0, i as int), ch, ':');
            }
            if ch == ':' {
                if count == 0 {
                    first = i;
                }
                count = count + 1;
            }
            i += 1;
        }
        assert(s@.subrange(0, n as int) == s@);
        if count != 1 {
            proof { reveal_strlit("Invalid permission format: "); }
            return Err(AuthzError::InvalidPolicy(concat2("Invalid permission format: ", s)));
        }
        proof { lemma_first_char_index(s@, ':', first as int); }
        let left = s.substring_char(0, first);
        let right = s.substring_char(first + 1, n);
        Ok(Permission { resource_type: ResourceType::from_str(left), action: Action::from_str(right) })
    }

    /// The text "resource:action" that `from_string` reads.
    pub fn to_string(&self) -> (s: String)
        ensures
            s@ == permission_text(self@),
    {
        let r = self.resource_type.name();
        let a = self.action.name();
        concat3(r.as_str(), ":", a.as_str())
    }

    /// Equality by value.
    pub fn same(&self, other: &Permission) -> (b: bool)
        ensures
            b == (self@ == other@),
    {
        self.resource_type.same(&other.resource_type) && self.action.same(&other.action)
    }

    /// A copy with the same view.
    pub fn copy(&self) -> (r: Permission)
        ensures
            r@ == self@,
    {
        Permission { resource_type: self.resource_type.copy(), action: self.action.copy() }
    }
}

/// Role in the system: a name within a user domain.
#[derive(Debug, Clone, PartialEq, Eq, Hash)]
pub struct Role {
    pub name: String,
    pub domain: UserDomain,
}

/// Mathematical view of a role.
pub type RoleView = (Seq<char>, UserDomain);

impl View for Role {
    type V = RoleView;

    open spec fn view(&self) -> RoleView {
        (self.name@, self.domain)
    }
}

impl Role {
    /// A role named `name` in `domain`.
    pub fn new(name: String, domain: UserDomain) -> (r: Role)
        ensures
            r.name == name,
            r.domain == domain,
    {
        Role { name, domain }
    }

    /// The administrator role.
    pub fn admin() -> (r: Role)
        ensures
            r@ == ("admin"@, UserDomain::Admin),
    {
        Role::new(String::from_str("admin"), UserDomain::Admin)
    }

    /// The retail trader role.
    pub fn retail_trader() -> (r: Role)
        ensures
            r@ == ("retail_trader"@, UserDomain::Retail),
    {
        Role::new(String::from_str("retail_trader"), UserDomain::Retail)
    }

    /// The institutional trader role.
    pub fn institutional_trader() -> (r: Role)
        ensures
            r@ == ("institutional_trader"@, UserDomain::Institutional),
    {
        Role::new(String::from_str("institutional_trader"), UserDomain::Institutional)
    }

    /// The compliance role.
    pub fn compliance() -> (r: Role)
        ensures
            r@ == ("compliance"@, UserDomain::Compliance),
    {
        Role::new(String::from_str("compliance"), UserDomain::Compliance)
    }

    /// The service account role.
    pub fn service() -> (r: Role)
        ensures
            r@ == ("service"@, UserDomain::Service),
    {
        Role::new(String::from_str("service"), UserDomain::Service)
    }

    /// Equality by value.
    pub fn same(&self, other: &Role) -> (b: bool)
        ensures
            b == (self@ == other@),
    {
        self.name == other.name && self.domain == other.domain
    }

    /// A copy with the same view.
    pub fn copy(&self) -> (r: Role)
        ensures
            r@ == self@,
    {
        Role { name: self.name.clone(), domain: self.domain }
    }
}

/// The views of a sequence of roles.
pub open spec fn role_views(v: Seq<Role>) -> Seq<RoleView> {
    v.map_values(|r: Role| r@)
}

/// Resource being accessed.
#[derive(Debug)]
pub struct Resource {
    pub resource_type: ResourceType,
    pub resource_id: Option<String>,
    pub owner_id: Option<UserId>,
    pub attributes: AttrMap,
}

impl Resource {
    /// A resource of the given type with no identifier, owner or attributes.
    pub fn new(resource_type: ResourceType) -> (r: Resource)
        ensures
            r.resource_type == resource_type,
            r.resource_id is None,
            r.owner_id is None,
            r.attributes@ == Map::<Seq<char>, JsonView>::empty(),
    {
        Resource { resource_type, resource_id: None, owner_id: None, attributes: AttrMap::new() }
    }

    /// Sets the resource identifier.
    pub fn with_id(self, id: String) -> (r: Resource)
        ensures
            r == (Resource { resource_id: Some(id), ..self }),
    {
        Resource { resource_id: Some(id), ..self }
    }

    /// Sets the owner.
    pub fn with_owner(self, owner_id: UserId) -> (r: Resource)
        ensures
            r == (Resource { owner_id: Some(owner_id), ..self }),
    {
        Resource { owner_id: Some(owner_id), ..self }
    }

    /// Adds an attribute, replacing a previous value of the same name.
    pub fn with_attribute(self, key: String, value: AttrValue) -> (r: Resource)
        ensures
            r.attributes@ == self.attributes@.insert(key@, jv(value)),
            r.resource_type == self.resource_type,
            r.resource_id == self.resource_id,
            r.owner_id == self.owner_id,
    {
        let mut s = self;
        s.attributes.insert(key, value);
        s
    }
}

/// Subject performing the action.
#[derive(Debug)]
pub struct Subject {
    pub user_id: UserId,
    pub domain: UserDomain,
    pub roles: Vec<Role>,
    pub session_id: Option<SessionId>,
    pub attributes: AttrMap,
}

impl Subject {
    /// A subject with no roles, session or attributes.
    pub fn new(user_id: UserId, domain: UserDomain) -> (s: Subject)
        ensures
            s.user_id == user_id,
            s.domain == domain,
            s.roles@.len() == 0,
            s.session_id is None,
            s.attributes@ == Map::<Seq<char>, JsonView>::empty(),
    {
        Subject { user_id, domain, roles: Vec::new(), session_id: None, attributes: AttrMap::new() }
    }

    /// Adds a role.
    pub fn with_role(self, role: Role) -> (s: Subject)
        ensures
            s.roles@ == self.roles@.push(role),
            s.user_id == self.user_id,
            s.domain == self.domain,
            s.session_id == self.session_id,
            s.attributes == self.attributes,
    {
        let mut s = self;
        s.roles.push(role);
        s
    }

    /// Sets the session.
    pub fn with_session(self, session_id: SessionId) -> (s: Subject)
        ensures
            s == (Subject { session_id: Some(session_id), ..self }),
    {
        Subject { session_id: Some(session_id), ..self }
    }

    /// Adds an attribute, replacing a previous value of the same name.
    pub fn with_attribute(self, key: String, value: AttrValue) -> (s: Subject)
        ensures
            s.attributes@ == self.attributes@.insert(key@, jv(value)),
            s.user_id == self.user_id,
            s.domain == self.domain,
            s.roles == self.roles,
            s.session_id == self.session_id,
    {
        let mut s = self;
        s.attributes.insert(key, value);
        s
    }

    /// A copy: same user, domain, roles (by view), session and attributes.
    pub fn copy(&self) -> (s: Subject)
        ensures
            s.user_id == self.user_id,
            s.domain == self.domain,
            role_views(s.roles@) == role_views(self.roles@),
            s.session_id == self.session_id,
            s.attributes@ == self.attributes@,
    {
        let mut roles: Vec<Role> = Vec::new();
        let mut i: usize = 0;
        while i < self.roles.len()
            invariant
                i <= self.roles@.len(),
                roles@.len() == i,
                forall|j: int| 0 <= j < i ==> (#[trigger] roles@[j])@ == self.roles@[j]@,
            decreases self.roles@.len() - i,
        {
            roles.push(self.roles[i].copy());
            i += 1;
        }
        assert(role_views(roles@) =~= role_views(self.roles@));
        Subject {
            user_id: self.user_id,
            domain: self.domain,
            roles,
            session_id: self.session_id,
            attributes: self.attributes.copy(),
        }
    }

    /// Whether the subject holds `role`.
    pub fn has_role(&self, role: &Role) -> (b: bool)
        ensures
            b == role_views(self.roles@).contains(role@),
    {
        let mut i: usize = 0;
        while i < self.roles.len()
            invariant
                i <= self.roles@.len(),
                forall|j: int| 0 <= j < i ==> self.roles@[j]@ != role@,
            decreases self.roles.len() - i,
        {
            if self.roles[i].same(role) {
                assert(role_views(self.roles@)[i as int] == role@);
                return true;
            }
            i += 1;
        }
        assert forall|j: int| 0 <= j < role_views(self.roles@).len() implies role_views(self.roles@)[j] != role@ by {
            assert(role_views(self.roles@)[j] == self.roles@[j]@);
        }
        false
    }

    /// Whether the subject holds some role named `name`.
    pub fn has_role_name(&self, name: &str) -> (b: bool)
        ensures
            b == (exists|j: int| 0 <= j < self.roles@.len() && (#[trigger] self.roles@[j]).name@ == name@),
    {
        let target = String::from_str(name);
        let mut i: usize = 0;
        while i < self.roles.len()
            invariant
                i <= self.roles@.len(),
                target@ == name@,
                forall|j: int| 0 <= j < i ==> (#[trigger] self.roles@[j]).name@ != name@,
            decreases self.roles.len() - i,
        {
            if self.roles[i].name == target {
                return true;
            }
            i += 1;
        }
        false
    }
}

/// Full context of an authorization decision.
#[derive(Debug)]
pub struct AuthzContext {
    pub subject: Subject,
    pub action: Action,
    pub resource: Resource,
    pub environment: AttrMap,
}

impl AuthzContext {
    /// A context with an empty environment.
    pub fn new(subject: Subject, action: Action, resource: Resource) -> (c: AuthzContext)
        ensures
            c.subject == subject,
            c.action == action,
            c.resource == resource,
            c.environment@ == Map::<Seq<char>, JsonView>::empty(),
    {
        AuthzContext { subject, action, resource, environment: AttrMap::new() }
    }

    /// Adds an environment attribute, replacing a previous value of the same name.
    pub fn with_env(self, key: String, value: AttrValue) -> (c: AuthzContext)
        ensures
            c.environment@ == self.environment@.insert(key@, jv(value)),
            c.subject == self.subject,
            c.action == self.action,
            c.resource == self.resource,
    {
        let mut c = self;
        c.environment.insert(key, value);
        c
    }
}

} // verus!
