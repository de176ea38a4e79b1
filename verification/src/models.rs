//! Data model: games, accounts, levels, purchase events and per-account
//! progress records, together with the create/update request shapes that the
//! storage services accept.

use vstd::prelude::*;

verus! {

/// A game owns levels and purchase events.
#[derive(Debug, Clone)]
pub struct Game {
    pub id: i64,
    pub name: String,
    pub created_at: Option<String>,
}

#[derive(Debug)]
pub struct CreateGameRequest {
    pub name: String,
}

#[derive(Debug)]
pub struct UpdateGameRequest {
    pub id: i64,
    pub name: Option<String>,
}

/// An account belongs to one game. `start_date` is textual, in one of two
/// supported forms (ISO `YYYY-MM-DD`, or a short day-month form such as
/// `14-Dec`); `request_template` is raw text with `{placeholder}` tokens.
#[derive(Debug, Clone)]
pub struct Account {
    pub id: i64,
    pub game_id: i64,
    pub name: String,
    pub start_date: String,
    pub start_time: String,
    pub request_template: String,
    pub created_at: Option<String>,
}

#[derive(Debug)]
pub struct CreateAccountRequest {
    pub game_id: i64,
    pub name: String,
    pub start_date: String,
    pub start_time: String,
    pub request_template: String,
}

#[derive(Debug)]
pub struct UpdateAccountRequest {
    pub id: i64,
    pub name: Option<String>,
    pub start_date: Option<String>,
    pub start_time: Option<String>,
    pub request_template: Option<String>,
}

/// A level milestone: due on day `days_offset` after the account's start,
/// with `time_spent` as the base duration for synthesized durations.
#[derive(Debug, Clone)]
pub struct Level {
    pub id: i64,
    pub game_id: i64,
    pub event_token: String,
    pub level_name: String,
    pub days_offset: i32,
    pub time_spent: i32,
    pub is_bonus: bool,
}

#[derive(Debug)]
pub struct CreateLevelRequest {
    pub game_id: i64,
    pub event_token: String,
    pub level_name: String,
    pub days_offset: i32,
    pub time_spent: i32,
    pub is_bonus: bool,
}

#[derive(Debug)]
pub struct UpdateLevelRequest {
    pub id: i64,
    pub game_id: Option<i64>,
    pub event_token: Option<String>,
    pub level_name: Option<String>,
    pub days_offset: Option<i32>,
    pub time_spent: Option<i32>,
    pub is_bonus: Option<bool>,
}

/// A purchase-event milestone in a game's catalog. Scheduling data for it
/// lives on the per-account progress row, not here.
#[derive(Debug, Clone)]
pub struct PurchaseEvent {
    pub id: i64,
    pub game_id: i64,
    pub event_token: String,
    pub is_restricted: bool,
    pub max_days_offset: Option<i32>,
    pub days_offset: Option<i32>,
    pub created_at: Option<String>,
}

#[derive(Debug)]
pub struct CreatePurchaseEventRequest {
    pub game_id: i64,
    pub event_token: String,
    pub is_restricted: bool,
    pub max_days_offset: Option<i32>,
    pub days_offset: Option<i32>,
}

#[derive(Debug)]
pub struct UpdatePurchaseEventRequest {
    pub id: i64,
    pub event_token: Option<String>,
    pub is_restricted: Option<bool>,
    pub max_days_offset: Option<i32>,
    pub days_offset: Option<i32>,
}

/// Per-account completion state of one level.
#[derive(Debug, Clone)]
pub struct AccountLevelProgress {
    pub account_id: i64,
    pub level_id: i64,
    pub is_completed: bool,
    pub completed_at: Option<String>,
}

#[derive(Debug)]
pub struct CreateAccountLevelProgressRequest {
    pub account_id: i64,
    pub level_id: i64,
}

#[derive(Debug)]
pub struct UpdateAccountLevelProgressRequest {
    pub account_id: i64,
    pub level_id: i64,
    pub is_completed: bool,
}

/// Per-account state of one purchase event. Unlike levels, the scheduling
/// values (`days_offset`, `time_spent`) are per-account overrides carried on
/// this row.
#[derive(Debug, Clone)]
pub struct AccountPurchaseEventProgress {
    pub account_id: i64,
    pub purchase_event_id: i64,
    pub is_completed: bool,
    pub days_offset: i32,
    pub time_spent: i32,
    pub completed_at: Option<String>,
}

#[derive(Debug)]
pub struct CreateAccountPurchaseEventProgressRequest {
    pub account_id: i64,
    pub purchase_event_id: i64,
    pub days_offset: i32,
    pub time_spent: i32,
}

#[derive(Debug)]
pub struct UpdateAccountPurchaseEventProgressRequest {
    pub account_id: i64,
    pub purchase_event_id: i64,
    pub is_completed: Option<bool>,
    pub days_offset: Option<i32>,
    pub time_spent: Option<i32>,
}

} // verus!
