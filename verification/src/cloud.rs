//! Cloud account data and the decisions about a stored session at start-up.
use vstd::prelude::*;
use crate::text;

verus! {

/// Credentials sent to register or log in.
#[derive(Clone, Debug)]
pub struct AuthRequest {
    pub username: String,
    pub password: String,
    pub device_id: Option<String>,
    pub device_name: Option<String>,
    pub client_version: Option<String>,
}

/// A user account as the cloud reports it.
#[derive(Clone, Debug)]
pub struct CloudUser {
    pub id: String,
    pub username: String,
    pub created_at: i64,
    pub display_name: Option<String>,
    pub has_avatar: Option<bool>,
    pub avatar_public_id: Option<String>,
    pub avatar_url: Option<String>,
    pub avatar_version: Option<i64>,
    pub avatar_key: Option<String>,
    pub avatar_updated_at: Option<i64>,
}

/// The cloud's answer to an avatar upload or removal.
#[derive(Clone, Debug)]
pub struct CloudAvatarResponse {
    pub success: bool,
    pub has_avatar: bool,
    pub avatar_public_id: Option<String>,
    pub avatar_url: Option<String>,
    pub avatar_version: Option<i64>,
    pub avatar_key: Option<String>,
    pub avatar_updated_at: Option<i64>,
    pub error: Option<String>,
}

/// A session as the cloud describes it after authentication.
#[derive(Clone, Debug)]
pub struct RemoteSessionMetadata {
    pub id: String,
    pub device_id: String,
    pub device_name: String,
    pub client_version: Option<String>,
    pub created_at: Option<i64>,
    pub idle_expires_at: i64,
    pub absolute_expires_at: i64,
}

/// The cloud's answer to a registration or login.
#[derive(Clone, Debug)]
pub struct AuthResponse {
    pub success: bool,
    pub user: Option<CloudUser>,
    pub token: Option<String>,
    pub session: Option<RemoteSessionMetadata>,
    pub error: Option<String>,
}

/// One of the user's sessions, as listed by the cloud.
#[derive(Clone, Debug)]
pub struct SessionInfo {
    pub id: String,
    pub device_id: String,
    pub device_name: String,
    pub client_version: String,
    pub created_at: i64,
    pub last_used_at: i64,
    pub idle_expires_at: i64,
    pub absolute_expires_at: i64,
    pub is_current: bool,
}

/// The cloud's list of the user's sessions.
#[derive(Clone, Debug)]
pub struct SessionListResponse {
    pub success: bool,
    pub sessions: Vec<SessionInfo>,
    pub error: Option<String>,
}

/// Why a session stopped being valid.
#[derive(Clone, Copy, Debug, PartialEq, Eq, Structural)]
pub enum SessionExpiredReason {
    IdleTimeout,
    AbsoluteTimeout,
    Revoked,
    Unknown,
}

/// The authentication state of the application.
#[derive(Clone, Debug)]
pub enum AuthSessionState {
    SignedOut,
    Authenticating,
    OnlineAuthenticated { user: CloudUser, session_id: String },
    OfflineAuthenticated { user: CloudUser, session_id: String },
    SessionExpired { reason: SessionExpiredReason },
    CloudUnavailable,
    SyncPaused,
}

/// A playlist as stored in the cloud.
#[derive(Clone, Debug)]
pub struct CloudPlaylist {
    pub id: String,
    pub user_id: String,
    pub name: String,
    pub description: Option<String>,
    pub is_smart_mix: i64,
    pub mix_type: Option<String>,
    pub created_at: i64,
    pub updated_at: i64,
}

/// A playlist membership as stored in the cloud.
#[derive(Clone, Debug)]
pub struct CloudPlaylistSong {
    pub id: String,
    pub user_id: String,
    pub playlist_id: String,
    pub song_id: String,
    pub position: i64,
    pub added_at: i64,
}

/// A user setting as stored in the cloud.
#[derive(Clone, Debug)]
pub struct CloudUserSetting {
    pub id: String,
    pub user_id: String,
    pub key: String,
    pub value: String,
    pub updated_at: i64,
}

/// A reference to a deleted playlist membership.
#[derive(Clone, Debug)]
pub struct CloudPlaylistSongRef {
    pub playlist_id: String,
    pub song_id: String,
}

/// The cloud's answer to a pushed sync.
#[derive(Clone, Debug)]
pub struct SyncPushResponse {
    pub success: bool,
    pub user_id: Option<String>,
    pub synced_at: Option<i64>,
    pub error: Option<String>,
}

/// The locally kept metadata of the active cloud session (never the token).
#[derive(Clone, Debug)]
pub struct CloudSessionMetadata {
    pub user_id: String,
    pub username: String,
    pub session_id: String,
    pub device_id: String,
    pub device_name: String,
    pub idle_expires_at: i64,
    pub absolute_expires_at: i64,
    pub last_cloud_validation_at: Option<i64>,
    pub worker_url: String,
    pub synced_at: Option<i64>,
    pub authenticated_before: i64,
    pub created_at: i64,
}

/// The cloud connection status shown to the user.
#[derive(Clone, Debug)]
pub struct CloudSyncStatus {
    pub connected: bool,
    pub worker_url: String,
    pub user_id: Option<String>,
    pub username: Option<String>,
    pub session_id: Option<String>,
    pub device_name: Option<String>,
    pub idle_expires_at: Option<i64>,
    pub absolute_expires_at: Option<i64>,
    pub last_synced_at: Option<i64>,
    pub session_state: Option<AuthSessionState>,
}

/// Counts reported by one two-way synchronisation.
#[derive(Clone, Debug, Default)]
pub struct SyncReport {
    pub cloud_playlists_returned: usize,
    pub cloud_playlist_songs_returned: usize,
    pub local_playlists_before: usize,
    pub playlists_inserted_updated: usize,
    pub playlist_memberships_inserted_updated: usize,
    pub pending_local_changes_uploaded: usize,
    pub local_playlists_after: usize,
    pub synced_at: i64,
}

// ---------------------------------------------------------------- start-up decisions

/// What to do with a stored session at start-up.
#[derive(Clone, Copy, Debug, PartialEq, Eq, Structural)]
pub enum StartupDecision {
    /// The token is missing or the session belongs to another cloud: forget it
    /// and sign out.
    Reset,
    /// The session has expired locally: forget it and report why.
    Expire(SessionExpiredReason),
    /// Ask the cloud whether the session is still valid.
    Validate,
}

/// The start-up decision for a stored session, in order of precedence:
/// a missing token or another cloud resets; a passed absolute expiry, then a
/// passed idle expiry, expires (an expiry of 0 or less means none); else validate.
pub open spec fn startup_decision(
    session: CloudSessionMetadata,
    has_token: bool,
    worker_url: Seq<char>,
    now: i64,
) -> StartupDecision {
    if !has_token || session.worker_url@ != worker_url {
        StartupDecision::Reset
    } else if session.absolute_expires_at > 0 && now >= session.absolute_expires_at {
        StartupDecision::Expire(SessionExpiredReason::AbsoluteTimeout)
    } else if session.idle_expires_at > 0 && now >= session.idle_expires_at {
        StartupDecision::Expire(SessionExpiredReason::IdleTimeout)
    } else {
        StartupDecision::Validate
    }
}

/// Decides what to do with the stored session at start-up.
pub fn decide_startup(session: &CloudSessionMetadata, has_token: bool, worker_url: &str, now: i64) -> (d: StartupDecision)
    ensures
        d == startup_decision(*session, has_token, worker_url@, now),
{
    let stored = text::chars_of(session.worker_url.as_str());
    let current = text::chars_of(worker_url);
    if !has_token || !text::chars_eq(&stored, &current) {
        StartupDecision::Reset
    } else if session.absolute_expires_at > 0 && now >= session.absolute_expires_at {
        StartupDecision::Expire(SessionExpiredReason::AbsoluteTimeout)
    } else if session.idle_expires_at > 0 && now >= session.idle_expires_at {
        StartupDecision::Expire(SessionExpiredReason::IdleTimeout)
    } else {
        StartupDecision::Validate
    }
}

/// How the cloud answered the validation of a session.
#[derive(Clone, Debug)]
pub enum ValidationOutcome {
    /// The cloud confirmed the session and reported the user.
    Confirmed(CloudUser),
    /// The cloud rejected the session (revoked, expired or unknown user).
    Rejected,
    /// The cloud could not be reached.
    Unreachable,
    /// Any other failure.
    Failed,
}

/// The user a stored session stands for when the cloud cannot be reached.
pub open spec fn offline_user(session: CloudSessionMetadata, u: CloudUser) -> bool {
    &&& u.id == session.user_id
    &&& u.username == session.username
    &&& u.created_at == session.created_at
    &&& u.display_name is None
    &&& u.has_avatar is None
    &&& u.avatar_public_id is None
    &&& u.avatar_url is None
    &&& u.avatar_version is None
    &&& u.avatar_key is None
    &&& u.avatar_updated_at is None
}

/// Whether `state` is the state reached after validating `session` with `outcome`:
/// confirmed means online with the reported user; rejected means expired
/// (revoked); unreachable means offline with the stored user if the session was
/// authenticated before, else cloud unavailable; any other failure signs out.
pub open spec fn state_after_validation(
    session: CloudSessionMetadata,
    outcome: ValidationOutcome,
    state: AuthSessionState,
) -> bool {
    match outcome {
        ValidationOutcome::Confirmed(u) => state matches AuthSessionState::OnlineAuthenticated {
            user,
            session_id,
        } && user == u && session_id == session.session_id,
        ValidationOutcome::Rejected => state == AuthSessionState::SessionExpired {
            reason: SessionExpiredReason::Revoked,
        },
        ValidationOutcome::Unreachable => if session.authenticated_before == 1 {
            state matches AuthSessionState::OfflineAuthenticated { user, session_id } && offline_user(
                session,
                user,
            ) && session_id == session.session_id
        } else {
            state == AuthSessionState::CloudUnavailable
        },
        ValidationOutcome::Failed => state == AuthSessionState::SignedOut,
    }
}

/// The authentication state after the cloud answered the validation of `session`.
pub fn resolve_validation(session: &CloudSessionMetadata, outcome: ValidationOutcome) -> (state: AuthSessionState)
    ensures
        state_after_validation(*session, outcome, state),
{
    match outcome {
        ValidationOutcome::Confirmed(u) => AuthSessionState::OnlineAuthenticated {
            user: u,
            session_id: session.session_id.clone(),
        },
        ValidationOutcome::Rejected => AuthSessionState::SessionExpired {
            reason: SessionExpiredReason::Revoked,
        },
        ValidationOutcome::Unreachable => if session.authenticated_before == 1 {
            let user = CloudUser {
                id: session.user_id.clone(),
                username: session.username.clone(),
                created_at: session.created_at,
                display_name: None,
                has_avatar: None,
                avatar_public_id: None,
                avatar_url: None,
                avatar_version: None,
                avatar_key: None,
                avatar_updated_at: None,
            };
            AuthSessionState::OfflineAuthenticated { user, session_id: session.session_id.clone() }
        } else {
            AuthSessionState::CloudUnavailable
        },
        ValidationOutcome::Failed => AuthSessionState::SignedOut,
    }
}

/// The idle and absolute expiry of a new session: as the cloud reported them,
/// else 30 and 90 days from `now`.
pub fn new_session_expiries(meta: &Option<RemoteSessionMetadata>, now: i64) -> (r: (i64, i64))
    requires
        meta is None ==> now <= i64::MAX - 90 * 86400,
    ensures
        match meta {
            Some(m) => r.0 == m.idle_expires_at && r.1 == m.absolute_expires_at,
            None => r.0 == now + 30 * 86400 && r.1 == now + 90 * 86400,
        },
{
    match meta {
        Some(m) => (m.idle_expires_at, m.absolute_expires_at),
        None => (now + 30 * 86400, now + 90 * 86400),
    }
}


/// A stored session past its idle or absolute expiry is never sent for
/// validation at start-up.
pub proof fn law_expired_sessions_are_never_validated(
    session: CloudSessionMetadata,
    has_token: bool,
    worker_url: Seq<char>,
    now: i64,
)
    requires
        (session.absolute_expires_at > 0 && now >= session.absolute_expires_at) || (session.idle_expires_at > 0
            && now >= session.idle_expires_at),
    ensures
        startup_decision(session, has_token, worker_url, now) != StartupDecision::Validate,
{
}

} // verus!
