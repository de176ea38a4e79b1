use milestone_scheduler::models::{
    UpdateAccountLevelProgressRequest, UpdateAccountPurchaseEventProgressRequest,
    UpdateAccountRequest, UpdateGameRequest, UpdateLevelRequest, UpdatePurchaseEventRequest,
};
use milestone_scheduler::services::{
    AccountColumn, AccountService, CompletionStamp, GameColumn, GameService, LevelColumn,
    LevelProgressColumn, LevelService, ProgressService, PurchaseEventColumn,
    PurchaseEventProgressColumn, PurchaseEventService,
};

#[test]
fn account_update_lists_only_the_set_fields_in_order() {
    let _service = AccountService::new();
    let req = UpdateAccountRequest {
        id: 1,
        name: None,
        start_date: Some("2025-01-01".to_string()),
        start_time: None,
        request_template: Some("t".to_string()),
    };
    assert_eq!(
        AccountService::update_columns(&req),
        vec![AccountColumn::StartDate, AccountColumn::RequestTemplate]
    );
    let empty = UpdateAccountRequest {
        id: 1,
        name: None,
        start_date: None,
        start_time: None,
        request_template: None,
    };
    assert!(AccountService::update_columns(&empty).is_empty());
}

#[test]
fn game_update_lists_the_name_field() {
    let _service = GameService::new();
    let req = UpdateGameRequest { id: 1, name: Some("g".to_string()) };
    assert_eq!(GameService::update_columns(&req), vec![GameColumn::Name]);
    let empty = UpdateGameRequest { id: 1, name: None };
    assert!(GameService::update_columns(&empty).is_empty());
}

#[test]
fn level_update_lists_all_set_fields_in_column_order() {
    let _service = LevelService::new();
    let req = UpdateLevelRequest {
        id: 1,
        game_id: Some(2),
        event_token: None,
        level_name: Some("L".to_string()),
        days_offset: Some(4),
        time_spent: None,
        is_bonus: Some(true),
    };
    assert_eq!(
        LevelService::update_columns(&req),
        vec![
            LevelColumn::GameId,
            LevelColumn::LevelName,
            LevelColumn::DaysOffset,
            LevelColumn::IsBonus
        ]
    );
}

#[test]
fn purchase_event_update_lists_the_set_fields() {
    let _service = PurchaseEventService::new();
    let req = UpdatePurchaseEventRequest {
        id: 1,
        event_token: Some("t".to_string()),
        is_restricted: None,
        max_days_offset: Some(9),
        days_offset: None,
    };
    assert_eq!(
        PurchaseEventService::update_columns(&req),
        vec![
            PurchaseEventColumn::EventToken,
            PurchaseEventColumn::MaxDaysOffset
        ]
    );
}

#[test]
fn marking_completed_also_writes_the_completion_time() {
    let _service = ProgressService::new();
    let req = UpdateAccountPurchaseEventProgressRequest {
        account_id: 1,
        purchase_event_id: 2,
        is_completed: Some(true),
        days_offset: None,
        time_spent: Some(5),
    };
    assert_eq!(
        ProgressService::purchase_event_progress_update_columns(&req),
        vec![
            PurchaseEventProgressColumn::IsCompleted,
            PurchaseEventProgressColumn::CompletedAt,
            PurchaseEventProgressColumn::TimeSpent
        ]
    );
    let uncomplete = UpdateAccountPurchaseEventProgressRequest {
        account_id: 1,
        purchase_event_id: 2,
        is_completed: Some(false),
        days_offset: Some(3),
        time_spent: None,
    };
    // Un-completing rewrites completed_at too (to NULL), keeping it
    // populated exactly when is_completed is true.
    assert_eq!(
        ProgressService::purchase_event_progress_update_columns(&uncomplete),
        vec![
            PurchaseEventProgressColumn::IsCompleted,
            PurchaseEventProgressColumn::CompletedAt,
            PurchaseEventProgressColumn::DaysOffset
        ]
    );
    let untouched = UpdateAccountPurchaseEventProgressRequest {
        account_id: 1,
        purchase_event_id: 2,
        is_completed: None,
        days_offset: Some(3),
        time_spent: None,
    };
    assert_eq!(
        ProgressService::purchase_event_progress_update_columns(&untouched),
        vec![PurchaseEventProgressColumn::DaysOffset]
    );
}

#[test]
fn level_progress_update_always_writes_both_columns() {
    let req = UpdateAccountLevelProgressRequest {
        account_id: 1,
        level_id: 2,
        is_completed: false,
    };
    assert_eq!(
        ProgressService::level_progress_update_columns(&req),
        vec![LevelProgressColumn::IsCompleted, LevelProgressColumn::CompletedAt]
    );
}

#[test]
fn completion_stamp_sets_time_exactly_on_completion() {
    assert_eq!(ProgressService::completion_stamp(true), CompletionStamp::CurrentTime);
    assert_eq!(ProgressService::completion_stamp(false), CompletionStamp::Clear);
}
