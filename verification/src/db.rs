use vstd::prelude::*;

verus! {

/// A stored user row: platform identity and role.
pub struct User {
    pub id: i64,
    pub telegram_id: String,
    pub username: Option<String>,
    pub role: String,
    pub created_at: String,
}

/// A stored rate-limit row: one recorded query.
pub struct RateLimitEntry {
    pub id: i64,
    pub user_id: i64,
    pub timestamp: String,
    pub query_type: String,
}

/// Per-user personalization settings.
pub struct UserSettings {
    pub language: String,
    pub timezone: String,
    pub system_prompt: Option<String>,
    pub preferences: String,
}

impl Default for UserSettings {
    fn default() -> (r: UserSettings)
        ensures
            r.language@ == Seq::<char>::empty(),
            r.timezone@ == Seq::<char>::empty(),
            r.system_prompt is None,
            r.preferences@ == Seq::<char>::empty(),
    {
        UserSettings {
            language: String::new(),
            timezone: String::new(),
            system_prompt: None,
            preferences: String::new(),
        }
    }
}

/// The per-minute and per-hour ceilings on recorded queries.
pub open spec fn query_limits() -> (int, int) {
    (1int, 20int)
}

/// May another query be recorded, given how many were counted in the last
/// minute and hour? Owners are never limited.
pub fn within_query_limits(is_owner: bool, minute_count: i64, hour_count: i64) -> (r: bool)
    ensures
        r == (is_owner || (minute_count < query_limits().0 && hour_count < query_limits().1)),
{
    if is_owner {
        return true;
    }
    minute_count < 1 && hour_count < 20
}

} // verus!
