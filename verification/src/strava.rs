//! Data model of the activity-platform integration: configuration, token
//! exchange results, auth status, sync reports and chart samples. The
//! network calls around these values, and the float-typed stream
//! downsampling that fills the chart samples, live outside the library.

use vstd::prelude::*;

verus! {

/// OAuth client configuration of the activity platform.
#[derive(Debug, Clone, PartialEq)]
pub struct StravaConfig {
    /// OAuth client identifier.
    pub client_id: String,
    /// OAuth client secret.
    pub client_secret: String,
    /// Redirect URI the callback listener serves.
    pub redirect_uri: String,
}

/// A token-exchange answer.
#[derive(Debug, Clone, PartialEq)]
pub struct TokenResponse {
    /// Bearer token for API calls.
    pub access_token: String,
    /// Token for refreshing the access token.
    pub refresh_token: String,
    /// Unix timestamp at which the access token expires.
    pub expires_at: i64,
    /// Token type, normally "Bearer".
    pub token_type: String,
    /// Athlete info returned with the tokens, when present.
    pub athlete: Option<AthleteInfo>,
}

/// Basic athlete info returned with tokens.
#[derive(Debug, Clone, PartialEq)]
pub struct AthleteInfo {
    /// Athlete identifier.
    pub id: i64,
    /// First name, when shared.
    pub firstname: Option<String>,
    /// Last name, when shared.
    pub lastname: Option<String>,
}

/// The authorization code the callback listener captured.
#[derive(Debug, Clone, PartialEq)]
pub struct CallbackResult {
    /// The authorization code.
    pub code: String,
}

/// Whether the connection is live, for the settings screen.
#[derive(Debug, Clone, PartialEq)]
pub struct StravaAuthStatus {
    /// A token is stored.
    pub is_authenticated: bool,
    /// When the token expires, rendered.
    pub expires_at: Option<String>,
    /// The token should be refreshed.
    pub needs_refresh: bool,
}

/// What one sync run brought in.
#[derive(Debug, Clone, Copy, PartialEq, Eq, Structural)]
pub struct SyncResult {
    /// Activities newly stored.
    pub new_activities: usize,
    /// Activities the platform returned.
    pub total_fetched: usize,
}

/// Downsampled workout samples for charts. Pace is in hundredths of a
/// minute per kilometre; heart rate and power are whole units.
#[derive(Debug, Clone, PartialEq)]
pub struct WorkoutSamples {
    /// Average heart rate per bucket.
    pub hr: Vec<i64>,
    /// Average power per bucket.
    pub watts: Vec<i64>,
    /// Average pace per bucket, in centi-min/km.
    pub pace: Vec<i64>,
}

impl WorkoutSamples {
    /// No samples at all.
    pub fn is_empty(&self) -> (r: bool)
        ensures
            r == (self.hr@.len() == 0 && self.watts@.len() == 0 && self.pace@.len() == 0),
    {
        self.hr.is_empty() && self.watts.is_empty() && self.pace.is_empty()
    }
}

} // verus!
