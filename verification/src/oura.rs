//! Data model of the sleep-platform integration: configuration, token
//! exchange results, API response rows and sync reports. The network and
//! storage calls around these values live outside the library; the
//! library holds and validates the plain values.

use vstd::prelude::*;

verus! {

/// OAuth client configuration of the sleep platform.
#[derive(Debug, Clone, PartialEq)]
pub struct OuraConfig {
    /// OAuth client identifier.
    pub client_id: String,
    /// OAuth client secret.
    pub client_secret: String,
    /// Redirect URI the callback listener serves.
    pub redirect_uri: String,
}

/// A token-exchange answer.
#[derive(Debug, Clone, PartialEq)]
pub struct TokenResponse {
    /// Bearer token for API calls.
    pub access_token: String,
    /// Token for refreshing the access token.
    pub refresh_token: String,
    /// Seconds until the access token expires.
    pub expires_in: i64,
    /// Token type, normally "bearer".
    pub token_type: String,
}

/// A failure of the sleep-platform integration.
#[derive(Debug, Clone, PartialEq)]
pub enum OuraError {
    /// A configuration value is missing.
    MissingConfig(String),
    /// The request could not be sent.
    Request(String),
    /// The OAuth flow failed.
    OAuth(String),
    /// The callback listener failed.
    Server(String),
    /// The persistence layer failed.
    Database(String),
    /// The API answered with an error.
    Api(String),
}

impl OuraError {
    /// A human-readable message.
    pub fn message(&self) -> (r: String)
        ensures
            match self {
                OuraError::MissingConfig(m) => r@ == "Missing configuration: "@ + m@,
                OuraError::Request(m) => r@ == "HTTP request failed: "@ + m@,
                OuraError::OAuth(m) => r@ == "OAuth error: "@ + m@,
                OuraError::Server(m) => r@ == "Callback server error: "@ + m@,
                OuraError::Database(m) => r@ == "Database error: "@ + m@,
                OuraError::Api(m) => r@ == "API error: "@ + m@,
            },
    {
        let (head, tail): (&'static str, &String) = match self {
            OuraError::MissingConfig(m) => ("Missing configuration: ", m),
            OuraError::Request(m) => ("HTTP request failed: ", m),
            OuraError::OAuth(m) => ("OAuth error: ", m),
            OuraError::Server(m) => ("Callback server error: ", m),
            OuraError::Database(m) => ("Database error: ", m),
            OuraError::Api(m) => ("API error: ", m),
        };
        let mut s = String::from_str(head);
        s.append(tail.as_str());
        s
    }
}

/// The authorization code the callback listener captured.
#[derive(Debug, Clone, PartialEq)]
pub struct CallbackResult {
    /// The authorization code.
    pub code: String,
}

/// Daily sleep rows of one API answer.
#[derive(Debug, Clone, PartialEq)]
pub struct DailySleepResponse {
    /// One row per day.
    pub data: Vec<DailySleepData>,
}

/// One day's sleep summary.
#[derive(Debug, Clone, PartialEq)]
pub struct DailySleepData {
    /// ISO date (YYYY-MM-DD).
    pub day: String,
    /// The day's sleep contributors.
    pub contributors: SleepContributors,
}

/// The sleep durations of one day, in seconds.
#[derive(Debug, Clone, PartialEq)]
pub struct SleepContributors {
    /// Deep sleep in seconds.
    pub deep_sleep: Option<i64>,
    /// REM sleep in seconds.
    pub rem_sleep: Option<i64>,
    /// Light sleep in seconds.
    pub light_sleep: Option<i64>,
    /// Total sleep in seconds.
    pub total_sleep: Option<i64>,
    /// Sleep efficiency in percent (0-100).
    pub sleep_efficiency: Option<i64>,
}

/// Daily readiness rows of one API answer.
#[derive(Debug, Clone, PartialEq)]
pub struct DailyReadinessResponse {
    /// One row per day.
    pub data: Vec<DailyReadinessData>,
}

/// One day's readiness summary.
#[derive(Debug, Clone, PartialEq)]
pub struct DailyReadinessData {
    /// ISO date (YYYY-MM-DD).
    pub day: String,
    /// The day's readiness contributors.
    pub contributors: ReadinessContributors,
}

/// The readiness readings of one day.
#[derive(Debug, Clone, PartialEq)]
pub struct ReadinessContributors {
    /// Resting heart rate in beats per minute.
    pub resting_heart_rate: Option<i64>,
}

/// Whether the connection is live, for the settings screen.
#[derive(Debug, Clone, PartialEq)]
pub struct OuraAuthStatus {
    /// A token is stored.
    pub is_authenticated: bool,
    /// When the token expires, rendered.
    pub expires_at: Option<String>,
    /// The token should be refreshed.
    pub needs_refresh: bool,
}

/// What one sync run brought in.
#[derive(Debug, Clone, Copy, PartialEq, Eq, Structural)]
pub struct OuraSyncResult {
    /// Sleep rows written.
    pub sleep_records: usize,
    /// HRV rows written.
    pub hrv_records: usize,
    /// Resting heart-rate rows written.
    pub resting_hr_records: usize,
}

} // verus!
