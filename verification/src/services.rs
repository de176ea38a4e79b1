//! The entity services. Storage itself is a collaborator outside this
//! library; what is verified here is the services' own logic: which columns a
//! partial update request sets, in a fixed field-to-column order, including
//! the rule that whenever a progress row's completion flag changes,
//! `completed_at` is rewritten too -- to the current time on completion,
//! cleared otherwise -- so that `completed_at` stays populated exactly when
//! `is_completed` is true.

use vstd::prelude::*;

use crate::models::{
    UpdateAccountLevelProgressRequest, UpdateAccountPurchaseEventProgressRequest,
    UpdateAccountRequest, UpdateGameRequest, UpdateLevelRequest, UpdatePurchaseEventRequest,
};

verus! {

/// The updatable columns of an account row.
#[derive(Clone, Copy, PartialEq, Eq, Structural, Debug)]
pub enum AccountColumn {
    Name,
    StartDate,
    StartTime,
    RequestTemplate,
}

/// The updatable columns of a game row.
#[derive(Clone, Copy, PartialEq, Eq, Structural, Debug)]
pub enum GameColumn {
    Name,
}

/// The updatable columns of a level row.
#[derive(Clone, Copy, PartialEq, Eq, Structural, Debug)]
pub enum LevelColumn {
    GameId,
    EventToken,
    LevelName,
    DaysOffset,
    TimeSpent,
    IsBonus,
}

/// The updatable columns of a purchase-event row.
#[derive(Clone, Copy, PartialEq, Eq, Structural, Debug)]
pub enum PurchaseEventColumn {
    EventToken,
    IsRestricted,
    MaxDaysOffset,
}

/// The updatable columns of a level progress row.
#[derive(Clone, Copy, PartialEq, Eq, Structural, Debug)]
pub enum LevelProgressColumn {
    IsCompleted,
    CompletedAt,
}

/// What an update writes into `completed_at` whenever it writes the column.
#[derive(Clone, Copy, PartialEq, Eq, Structural, Debug)]
pub enum CompletionStamp {
    CurrentTime,
    Clear,
}

/// The updatable columns of a purchase-event progress row.
#[derive(Clone, Copy, PartialEq, Eq, Structural, Debug)]
pub enum PurchaseEventProgressColumn {
    IsCompleted,
    CompletedAt,
    DaysOffset,
    TimeSpent,
}

/// The columns an account update sets, in the fixed column order.
pub open spec fn spec_account_update_columns(r: UpdateAccountRequest) -> Seq<AccountColumn> {
    (if r.name is Some {
        seq![AccountColumn::Name]
    } else {
        Seq::empty()
    }) + (if r.start_date is Some {
        seq![AccountColumn::StartDate]
    } else {
        Seq::empty()
    }) + (if r.start_time is Some {
        seq![AccountColumn::StartTime]
    } else {
        Seq::empty()
    }) + (if r.request_template is Some {
        seq![AccountColumn::RequestTemplate]
    } else {
        Seq::empty()
    })
}

/// The columns a game update sets.
pub open spec fn spec_game_update_columns(r: UpdateGameRequest) -> Seq<GameColumn> {
    if r.name is Some {
        seq![GameColumn::Name]
    } else {
        Seq::empty()
    }
}

/// The columns a level update sets, in the fixed column order.
pub open spec fn spec_level_update_columns(r: UpdateLevelRequest) -> Seq<LevelColumn> {
    (if r.game_id is Some {
        seq![LevelColumn::GameId]
    } else {
        Seq::empty()
    }) + (if r.event_token is Some {
        seq![LevelColumn::EventToken]
    } else {
        Seq::empty()
    }) + (if r.level_name is Some {
        seq![LevelColumn::LevelName]
    } else {
        Seq::empty()
    }) + (if r.days_offset is Some {
        seq![LevelColumn::DaysOffset]
    } else {
        Seq::empty()
    }) + (if r.time_spent is Some {
        seq![LevelColumn::TimeSpent]
    } else {
        Seq::empty()
    }) + (if r.is_bonus is Some {
        seq![LevelColumn::IsBonus]
    } else {
        Seq::empty()
    })
}

/// The columns a purchase-event update sets, in the fixed column order.
pub open spec fn spec_purchase_event_update_columns(r: UpdatePurchaseEventRequest) -> Seq<
    PurchaseEventColumn,
> {
    (if r.event_token is Some {
        seq![PurchaseEventColumn::EventToken]
    } else {
        Seq::empty()
    }) + (if r.is_restricted is Some {
        seq![PurchaseEventColumn::IsRestricted]
    } else {
        Seq::empty()
    }) + (if r.max_days_offset is Some {
        seq![PurchaseEventColumn::MaxDaysOffset]
    } else {
        Seq::empty()
    })
}

/// The columns a purchase-event progress update sets: whenever the request
/// changes the completion flag, `completed_at` is rewritten as well (see
/// `completion_stamp`), keeping it populated exactly when `is_completed` is
/// true.
pub open spec fn spec_purchase_event_progress_update_columns(
    r: UpdateAccountPurchaseEventProgressRequest,
) -> Seq<PurchaseEventProgressColumn> {
    (if r.is_completed is Some {
        seq![
            PurchaseEventProgressColumn::IsCompleted,
            PurchaseEventProgressColumn::CompletedAt,
        ]
    } else {
        Seq::empty()
    }) + (if r.days_offset is Some {
        seq![PurchaseEventProgressColumn::DaysOffset]
    } else {
        Seq::empty()
    }) + (if r.time_spent is Some {
        seq![PurchaseEventProgressColumn::TimeSpent]
    } else {
        Seq::empty()
    })
}

/// CRUD service for accounts; the storage calls live with the caller.
pub struct AccountService;

impl AccountService {
    /// Construct the stateless service.
    pub fn new() -> (s: Self)
        ensures
            s == (AccountService {  }),
    {
        AccountService
    }

    /// The columns an update request sets, in the fixed column order; an
    /// empty result means there is nothing to update.
    pub fn update_columns(request: &UpdateAccountRequest) -> (cols: Vec<AccountColumn>)
        ensures
            cols@ == spec_account_update_columns(*request),
    {
        let mut cols: Vec<AccountColumn> = Vec::new();
        if request.name.is_some() {
            cols.push(AccountColumn::Name);
        }
        if request.start_date.is_some() {
            cols.push(AccountColumn::StartDate);
        }
        if request.start_time.is_some() {
            cols.push(AccountColumn::StartTime);
        }
        if request.request_template.is_some() {
            cols.push(AccountColumn::RequestTemplate);
        }
        proof {
            assert(cols@ =~= spec_account_update_columns(*request));
        }
        cols
    }
}

/// CRUD service for games; the storage calls live with the caller.
pub struct GameService;

impl GameService {
    /// Construct the stateless service.
    pub fn new() -> (s: Self)
        ensures
            s == (GameService {  }),
    {
        GameService
    }

    /// The columns an update request sets.
    pub fn update_columns(request: &UpdateGameRequest) -> (cols: Vec<GameColumn>)
        ensures
            cols@ == spec_game_update_columns(*request),
    {
        let mut cols: Vec<GameColumn> = Vec::new();
        if request.name.is_some() {
            cols.push(GameColumn::Name);
        }
        proof {
            assert(cols@ =~= spec_game_update_columns(*request));
        }
        cols
    }
}

/// CRUD service for levels; the storage calls live with the caller.
pub struct LevelService;

impl LevelService {
    /// Construct the stateless service.
    pub fn new() -> (s: Self)
        ensures
            s == (LevelService {  }),
    {
        LevelService
    }

    /// The columns an update request sets, in the fixed column order.
    pub fn update_columns(request: &UpdateLevelRequest) -> (cols: Vec<LevelColumn>)
        ensures
            cols@ == spec_level_update_columns(*request),
    {
        let mut cols: Vec<LevelColumn> = Vec::new();
        if request.game_id.is_some() {
            cols.push(LevelColumn::GameId);
        }
        if request.event_token.is_some() {
            cols.push(LevelColumn::EventToken);
        }
        if request.level_name.is_some() {
            cols.push(LevelColumn::LevelName);
        }
        if request.days_offset.is_some() {
            cols.push(LevelColumn::DaysOffset);
        }
        if request.time_spent.is_some() {
            cols.push(LevelColumn::TimeSpent);
        }
        if request.is_bonus.is_some() {
            cols.push(LevelColumn::IsBonus);
        }
        proof {
            assert(cols@ =~= spec_level_update_columns(*request));
        }
        cols
    }
}

/// CRUD service for purchase events; the storage calls live with the caller.
pub struct PurchaseEventService;

impl PurchaseEventService {
    /// Construct the stateless service.
    pub fn new() -> (s: Self)
        ensures
            s == (PurchaseEventService {  }),
    {
        PurchaseEventService
    }

    /// The columns an update request sets, in the fixed column order.
    pub fn update_columns(request: &UpdatePurchaseEventRequest) -> (cols: Vec<PurchaseEventColumn>)
        ensures
            cols@ == spec_purchase_event_update_columns(*request),
    {
        let mut cols: Vec<PurchaseEventColumn> = Vec::new();
        if request.event_token.is_some() {
            cols.push(PurchaseEventColumn::EventToken);
        }
        if request.is_restricted.is_some() {
            cols.push(PurchaseEventColumn::IsRestricted);
        }
        if request.max_days_offset.is_some() {
            cols.push(PurchaseEventColumn::MaxDaysOffset);
        }
        proof {
            assert(cols@ =~= spec_purchase_event_update_columns(*request));
        }
        cols
    }
}

/// CRUD service for progress rows; the storage calls live with the caller.
pub struct ProgressService;

impl ProgressService {
    /// Construct the stateless service.
    pub fn new() -> (s: Self)
        ensures
            s == (ProgressService {  }),
    {
        ProgressService
    }

    /// The value an update writes into `completed_at` whenever it writes the
    /// completion flag: the current time on completion, NULL otherwise, so
    /// that `completed_at` stays populated exactly when `is_completed` is
    /// true.
    pub fn completion_stamp(is_completed: bool) -> (stamp: CompletionStamp)
        ensures
            stamp == (if is_completed {
                CompletionStamp::CurrentTime
            } else {
                CompletionStamp::Clear
            }),
    {
        if is_completed {
            CompletionStamp::CurrentTime
        } else {
            CompletionStamp::Clear
        }
    }

    /// The columns a level-progress update writes: always both the completion
    /// flag and `completed_at`, whose value `completion_stamp` decides.
    pub fn level_progress_update_columns(_request: &UpdateAccountLevelProgressRequest) -> (cols:
        Vec<LevelProgressColumn>)
        ensures
            cols@ == seq![LevelProgressColumn::IsCompleted, LevelProgressColumn::CompletedAt],
    {
        let mut cols: Vec<LevelProgressColumn> = Vec::new();
        cols.push(LevelProgressColumn::IsCompleted);
        cols.push(LevelProgressColumn::CompletedAt);
        proof {
            assert(cols@ =~= seq![
                LevelProgressColumn::IsCompleted,
                LevelProgressColumn::CompletedAt,
            ]);
        }
        cols
    }

    /// The columns a purchase-event progress update sets: a change of the
    /// completion flag rewrites `completed_at` as well, so that it stays
    /// populated exactly when `is_completed` holds.
    pub fn purchase_event_progress_update_columns(
        request: &UpdateAccountPurchaseEventProgressRequest,
    ) -> (cols: Vec<PurchaseEventProgressColumn>)
        ensures
            cols@ == spec_purchase_event_progress_update_columns(*request),
    {
        let mut cols: Vec<PurchaseEventProgressColumn> = Vec::new();
        if request.is_completed.is_some() {
            cols.push(PurchaseEventProgressColumn::IsCompleted);
            cols.push(PurchaseEventProgressColumn::CompletedAt);
        }
        if request.days_offset.is_some() {
            cols.push(PurchaseEventProgressColumn::DaysOffset);
        }
        if request.time_spent.is_some() {
            cols.push(PurchaseEventProgressColumn::TimeSpent);
        }
        proof {
            assert(cols@ =~= spec_purchase_event_progress_update_columns(*request));
        }
        cols
    }
}

} // verus!
