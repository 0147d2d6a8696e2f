use std::cell::RefCell;

use lol_assistant::application::{
    clear_activity_entries, create_activity_note, delete_rune_config, get_stored_rune_config,
    list_activity_entries, require_clear_confirmation, save_rune_config, ActivityListInput, ActivityNoteInput,
    AppStore, ApplicationError,
};
use lol_assistant::domain::{ActivityEntry, ActivityKind, ChampionRuneConfig, NewActivityEntry, RunePage};

struct FakeStore {
    activity_entries: RefCell<Vec<ActivityEntry>>,
    created_entries: RefCell<Vec<NewActivityEntry>>,
    last_activity_query: RefCell<Option<(i64, Option<ActivityKind>)>>,
    clear_count: RefCell<usize>,
    rune_configs: RefCell<Vec<ChampionRuneConfig>>,
    rune_calls: RefCell<usize>,
    fail_with: Option<String>,
}

impl FakeStore {
    fn new() -> Self {
        FakeStore {
            activity_entries: RefCell::new(Vec::new()),
            created_entries: RefCell::new(Vec::new()),
            last_activity_query: RefCell::new(None),
            clear_count: RefCell::new(0),
            rune_configs: RefCell::new(Vec::new()),
            rune_calls: RefCell::new(0),
            fail_with: None,
        }
    }

    fn failing(message: &str) -> Self {
        FakeStore { fail_with: Some(message.to_string()), ..FakeStore::new() }
    }
}

impl AppStore for FakeStore {
    fn list_activity_entries(&self, limit: i64, kind: Option<ActivityKind>) -> Result<Vec<ActivityEntry>, String> {
        self.last_activity_query.replace(Some((limit, kind)));
        if let Some(message) = &self.fail_with {
            return Err(message.clone());
        }
        Ok(self
            .activity_entries
            .borrow()
            .iter()
            .filter(|entry| kind.is_none_or(|value| entry.kind == value))
            .take(limit as usize)
            .cloned()
            .collect())
    }

    fn create_activity_entry(&self, entry: NewActivityEntry) -> Result<ActivityEntry, String> {
        self.created_entries.borrow_mut().push(entry.clone());
        if let Some(message) = &self.fail_with {
            return Err(message.clone());
        }
        Ok(ActivityEntry {
            id: self.created_entries.borrow().len() as i64,
            kind: entry.kind,
            title: entry.title,
            body: entry.body,
            created_at: "2026-04-18 00:00:00".to_string(),
        })
    }

    fn clear_activity_entries(&self) -> Result<i64, String> {
        *self.clear_count.borrow_mut() += 1;
        if let Some(message) = &self.fail_with {
            return Err(message.clone());
        }
        let deleted_count = self.activity_entries.borrow().len() as i64;
        self.activity_entries.borrow_mut().clear();
        Ok(deleted_count)
    }

    fn get_champion_rune_config(&self, champion_id: i64) -> Result<Option<ChampionRuneConfig>, String> {
        *self.rune_calls.borrow_mut() += 1;
        if let Some(message) = &self.fail_with {
            return Err(message.clone());
        }
        Ok(self.rune_configs.borrow().iter().find(|c| c.champion_id == champion_id).cloned())
    }

    fn save_champion_rune_config(&self, champion_id: i64, page: RunePage) -> Result<ChampionRuneConfig, String> {
        *self.rune_calls.borrow_mut() += 1;
        if let Some(message) = &self.fail_with {
            return Err(message.clone());
        }
        let config = ChampionRuneConfig { champion_id, page, saved_at: "2026-04-18 00:00:00".to_string() };
        self.rune_configs.borrow_mut().retain(|c| c.champion_id != champion_id);
        self.rune_configs.borrow_mut().push(config.clone());
        Ok(config)
    }

    fn delete_champion_rune_config(&self, champion_id: i64) -> Result<bool, String> {
        *self.rune_calls.borrow_mut() += 1;
        if let Some(message) = &self.fail_with {
            return Err(message.clone());
        }
        let before = self.rune_configs.borrow().len();
        self.rune_configs.borrow_mut().retain(|c| c.champion_id != champion_id);
        Ok(self.rune_configs.borrow().len() < before)
    }
}

fn sample_page() -> RunePage {
    RunePage { primary_style_id: 8100, sub_style_id: 8200, selected_perk_ids: vec![8112, 8139, 8138, 8135, 8226, 8210, 5008, 5008, 5002] }
}

fn sample_activity(id: i64) -> ActivityEntry {
    ActivityEntry {
        id,
        kind: ActivityKind::Note,
        title: format!("Activity {id}"),
        body: None,
        created_at: "2026-04-18 00:00:00".to_string(),
    }
}

#[test]
fn create_activity_note_trims_input() {
    let store = FakeStore::new();

    let result = create_activity_note(
        &store,
        ActivityNoteInput { title: "  First note  ".to_string(), body: Some("  Body  ".to_string()) },
    )
    .expect("activity note is created");

    assert_eq!(result.title, "First note");
    assert_eq!(result.body.as_deref(), Some("Body"));
}

#[test]
fn list_activity_entries_passes_filter_to_store() {
    let store = FakeStore::new();

    let _ = list_activity_entries(&store, ActivityListInput { limit: Some(25), kind: Some(ActivityKind::Note) })
        .expect("activity entries list");

    assert_eq!(*store.last_activity_query.borrow(), Some((25, Some(ActivityKind::Note))));
}

#[test]
fn clear_activity_requires_confirmation() {
    let store = FakeStore::new();

    let result = clear_activity_entries(&store, false);

    assert!(matches!(result, Err(ApplicationError::Validation(_))));
    assert_eq!(*store.clear_count.borrow(), 0);
}

#[test]
fn clear_activity_returns_deleted_count() {
    let store = FakeStore::new();
    store.activity_entries.borrow_mut().push(sample_activity(1));
    store.activity_entries.borrow_mut().push(sample_activity(2));

    let result = clear_activity_entries(&store, true).expect("activity clears");

    assert_eq!(result.deleted_count, 2);
    assert_eq!(*store.clear_count.borrow(), 1);
}

#[test]
fn confirmation_rule_accepts_a_confirmed_clear() {
    assert_eq!(require_clear_confirmation(true), Ok(()));
    assert_eq!(
        require_clear_confirmation(false),
        Err(ApplicationError::Validation("Activity clear confirmation is required".to_string()))
    );
}

#[test]
fn activity_list_uses_the_default_size() {
    let store = FakeStore::new();
    store.activity_entries.borrow_mut().push(sample_activity(1));

    let listed = list_activity_entries(&store, ActivityListInput { limit: None, kind: None }).expect("list");

    assert_eq!(listed.records, vec![sample_activity(1)]);
    assert_eq!(*store.last_activity_query.borrow(), Some((100, None)));
}

#[test]
fn activity_list_refuses_an_oversized_request_without_asking_the_store() {
    let store = FakeStore::new();

    let result = list_activity_entries(&store, ActivityListInput { limit: Some(501), kind: None });

    assert_eq!(
        result,
        Err(ApplicationError::Validation("Activity limit must be between 1 and 500".to_string()))
    );
    assert_eq!(*store.last_activity_query.borrow(), None);
}

#[test]
fn blank_note_title_is_refused_before_storing() {
    let store = FakeStore::new();

    let result = create_activity_note(&store, ActivityNoteInput { title: "   ".to_string(), body: None });

    assert_eq!(result, Err(ApplicationError::Validation("Activity note title is required".to_string())));
    assert!(store.created_entries.borrow().is_empty());
}

#[test]
fn store_failures_name_the_operation() {
    let store = FakeStore::failing("disk full");

    assert_eq!(
        clear_activity_entries(&store, true),
        Err(ApplicationError::Storage("clear activity entries failed: disk full".to_string()))
    );
    assert_eq!(
        list_activity_entries(&store, ActivityListInput { limit: Some(10), kind: None }),
        Err(ApplicationError::Storage("list activity entries failed: disk full".to_string()))
    );
    assert_eq!(
        create_activity_note(&store, ActivityNoteInput { title: "Note".to_string(), body: None }),
        Err(ApplicationError::Storage("create activity note failed: disk full".to_string()))
    );
}

#[test]
fn saved_rune_page_is_read_back_and_deleted() {
    let store = FakeStore::new();

    let saved = save_rune_config(&store, 103, sample_page()).expect("page saves");
    assert_eq!(saved.champion_id, 103);
    assert_eq!(saved.page, sample_page());

    let read = get_stored_rune_config(&store, 103).expect("page reads");
    assert_eq!(read, Some(saved));
    assert_eq!(get_stored_rune_config(&store, 1).expect("no page"), None);

    assert_eq!(delete_rune_config(&store, 103), Ok(true));
    assert_eq!(delete_rune_config(&store, 103), Ok(false));
    assert_eq!(get_stored_rune_config(&store, 103), Ok(None));
}

#[test]
fn rune_config_refuses_a_champion_id_that_is_not_positive() {
    let store = FakeStore::new();

    let refused = Err(ApplicationError::Validation("Champion id must be greater than 0".to_string()));
    assert_eq!(save_rune_config(&store, 0, sample_page()).map(|c| c.champion_id), refused.clone());
    assert_eq!(delete_rune_config(&store, -4).map(|_| 0), refused);
    assert_eq!(*store.rune_calls.borrow(), 0);
}

#[test]
fn rune_config_store_failure_is_a_storage_error() {
    let store = FakeStore::failing("locked");

    assert_eq!(get_stored_rune_config(&store, 103), Err(ApplicationError::Storage("locked".to_string())));
    assert_eq!(delete_rune_config(&store, 103), Err(ApplicationError::Storage("locked".to_string())));
}
