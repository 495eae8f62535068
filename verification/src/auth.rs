//! The access-control gate that dependent services build on the validation
//! protocol: interpreting a remote verdict, authenticating a request, and
//! the stricter admin tier.
//!
//! The remote call itself is performed outside the library; these functions
//! take its outcome as an argument and make every trust decision, so that a
//! transport failure and a negative verdict can never be conflated.

use vstd::prelude::*;

verus! {

use vstd::string::*;
use crate::store::Role;
use crate::store::SubscriptionStatus;

/// The identity reported back by the validation service.
#[derive(Clone, Debug)]
pub struct UserInfo {
    pub id: i64,
    pub email: String,
    pub role: Role,
    pub subscription_status: SubscriptionStatus,
}

/// The transport layer could not complete the validation round trip. The
/// failure's cause is deliberately not carried: it must never influence an
/// authorization decision.
pub struct TransportFailure;

/// Why a request was turned away, each with its HTTP status: missing or
/// rejected credentials are unauthorized, an unreachable verifier is a
/// service failure, and an authenticated non-admin is forbidden.
#[derive(Clone, Copy, PartialEq, Eq, Structural, Debug)]
pub enum AuthRejection {
    /// No secret was presented at all.
    MissingApiKey,
    /// The verifier completed and rejected the secret.
    InvalidApiKey,
    /// The verifier could not be reached; distinct from a rejection.
    ServiceUnavailable,
    /// Authenticated, but the operation needs the admin role.
    AdminRequired,
}

/// The authenticated caller attached to a request.
#[derive(Clone, Debug)]
pub struct UserContext {
    pub user_id: i64,
    pub email: String,
    pub role: Role,
    pub is_admin: bool,
}

/// The stricter context for administrative operations.
#[derive(Clone, Debug)]
pub struct AdminContext {
    pub user_id: i64,
    pub email: String,
}

impl AuthRejection {
    /// The HTTP status this rejection terminates the request with.
    pub fn status_code(&self) -> (s: u16)
        ensures
            s == (match self {
                AuthRejection::MissingApiKey => 401u16,
                AuthRejection::InvalidApiKey => 401u16,
                AuthRejection::ServiceUnavailable => 503u16,
                AuthRejection::AdminRequired => 403u16,
            }),
    {
        match self {
            AuthRejection::MissingApiKey => 401,
            AuthRejection::InvalidApiKey => 401,
            AuthRejection::ServiceUnavailable => 503,
            AuthRejection::AdminRequired => 403,
        }
    }

    /// The message accompanying the status.
    pub fn message(&self) -> (m: &'static str)
        ensures
            m@ == (match self {
                AuthRejection::MissingApiKey => "Missing X-API-Key header"@,
                AuthRejection::InvalidApiKey => "Invalid API key"@,
                AuthRejection::ServiceUnavailable => "Identity service unavailable"@,
                AuthRejection::AdminRequired => "Admin access required"@,
            }),
    {
        match self {
            AuthRejection::MissingApiKey => "Missing X-API-Key header",
            AuthRejection::InvalidApiKey => "Invalid API key",
            AuthRejection::ServiceUnavailable => "Identity service unavailable",
            AuthRejection::AdminRequired => "Admin access required",
        }
    }
}

/// Interprets a completed validation reply: the bound identity when the
/// verdict is positive, nothing otherwise. A reply that claims `valid` but
/// carries no identity yields nothing.
pub fn interpret_validation(valid: bool, user: Option<UserInfo>) -> (r: Option<UserInfo>)
    ensures
        r == (if valid {
            user
        } else {
            None::<UserInfo>
        }),
{
    if valid {
        user
    } else {
        None
    }
}

/// The first gate: a request without a presented secret is turned away
/// before any remote call is made.
pub fn require_api_key(header: Option<String>) -> (r: Result<String, AuthRejection>)
    ensures
        match header {
            None => r == Err::<String, AuthRejection>(AuthRejection::MissingApiKey),
            Some(k) => r == Ok::<String, AuthRejection>(k),
        },
{
    match header {
        None => Err(AuthRejection::MissingApiKey),
        Some(k) => Ok(k),
    }
}

/// The authentication tier: turns the outcome of the remote validation call
/// into a caller context. A transport failure surfaces as service
/// unavailability, a negative verdict as an authentication failure, and a
/// positive verdict yields the caller's identity, with the admin flag set
/// exactly for the admin role.
pub fn user_context_from_validation(outcome: Result<Option<UserInfo>, TransportFailure>) -> (r:
    Result<UserContext, AuthRejection>)
    ensures
        match outcome {
            Err(_) => r == Err::<UserContext, AuthRejection>(AuthRejection::ServiceUnavailable),
            Ok(None) => r == Err::<UserContext, AuthRejection>(AuthRejection::InvalidApiKey),
            Ok(Some(u)) => r == Ok::<UserContext, AuthRejection>(
                (UserContext {
                    user_id: u.id,
                    email: u.email,
                    role: u.role,
                    is_admin: u.role == Role::Admin,
                }),
            ),
        },
{
    match outcome {
        Err(_) => Err(AuthRejection::ServiceUnavailable),
        Ok(None) => Err(AuthRejection::InvalidApiKey),
        Ok(Some(u)) => {
            let is_admin = matches!(u.role, Role::Admin);
            Ok(UserContext { user_id: u.id, email: u.email, role: u.role, is_admin })
        },
    }
}

/// The authorization tier: an authenticated caller passes exactly when the
/// admin flag is set; anyone else is forbidden even though they
/// authenticated successfully.
pub fn admin_context(user: UserContext) -> (r: Result<AdminContext, AuthRejection>)
    ensures
        r == (if user.is_admin {
            Ok::<AdminContext, AuthRejection>(
                (AdminContext { user_id: user.user_id, email: user.email }),
            )
        } else {
            Err::<AdminContext, AuthRejection>(AuthRejection::AdminRequired)
        }),
{
    if user.is_admin {
        Ok(AdminContext { user_id: user.user_id, email: user.email })
    } else {
        Err(AuthRejection::AdminRequired)
    }
}

/// The two tiers compose into a closed gate: a caller reaches an
/// administrative operation exactly when the remote verdict was positive and
/// named the admin role.
pub proof fn lemma_admin_gate_is_closed(u: UserInfo, ctx: UserContext)
    requires
        ctx == (UserContext {
            user_id: u.id,
            email: u.email,
            role: u.role,
            is_admin: u.role == Role::Admin,
        }),
    ensures
        ctx.is_admin <==> u.role == Role::Admin,
{
}

} // verus!
