use dotfiles_tools::model::Action;
use dotfiles_tools::prediction::{HistoryRead, PredictionEntry, PredictionStore, StoredPrediction};

fn command_prediction(index: u64) -> StoredPrediction {
    StoredPrediction {
        key: format!("cmd:command-{index}"),
        title: format!("command-{index}"),
        subtitle: "Execute in the background with sh -lc".to_string(),
        source: "Commands".to_string(),
        icon_name: "utilities-terminal-symbolic".to_string(),
        action: Action::RunCommand {
            command: format!("command-{index}"),
        },
    }
}

#[test]
fn prediction_boost_combines_frequency_and_recency() {
    let mut store = PredictionStore::disabled();
    let prediction = StoredPrediction {
        key: "ssh:prometheus".to_string(),
        title: "prometheus".to_string(),
        subtitle: "Open an SSH session".to_string(),
        source: "SSH".to_string(),
        icon_name: "network-server-symbolic".to_string(),
        action: Action::Ssh {
            host: "prometheus".to_string(),
        },
    };

    store.record(prediction, 10_000);

    assert!(store.boost_for_key("ssh:prometheus", 10_100) > 0);
    assert_eq!(store.boost_for_key("ssh:unknown", 10_100), 0);
    assert!(
        store.boost_for_key("ssh:prometheus", 10_100)
            > store.boost_for_key("ssh:prometheus", 10_000 + 40 * 24 * 60 * 60)
    );
}

#[test]
fn history_is_pruned_to_recent_entries() {
    let mut store = PredictionStore::disabled();

    for index in 0..510 {
        store.record(command_prediction(index), index);
    }

    assert_eq!(store.len(), 500);
    assert!(store.entry("cmd:command-0").is_none());
    assert!(store.entry("cmd:command-509").is_some());
}

#[test]
fn top_predictions_are_returned_as_result_items() {
    let mut store = PredictionStore::disabled();
    store.record(
        StoredPrediction {
            key: "app:firefox.desktop".to_string(),
            title: "Firefox".to_string(),
            subtitle: "Browser".to_string(),
            source: "Applications".to_string(),
            icon_name: "firefox".to_string(),
            action: Action::LaunchApp {
                desktop_id: "firefox.desktop".to_string(),
            },
        },
        1_000,
    );

    let results = store.top_results(10, 1_100);

    assert_eq!(results.len(), 1);
    assert_eq!(results[0].title, "Firefox");
    assert_eq!(results[0].source, "Applications");
    assert!(matches!(results[0].action, Action::LaunchApp { .. }));
}

#[test]
fn recording_twice_increments_count_and_updates_last_used() {
    let mut store = PredictionStore::disabled();
    store.record(command_prediction(1), 1_000);
    store.record(command_prediction(1), 2_000);
    let entry = store.entry("cmd:command-1").expect("stored entry");
    assert_eq!(entry.count, 2);
    assert_eq!(entry.last_used, 2_000);
    assert_eq!(store.len(), 1);
}

#[test]
fn boost_follows_the_recency_buckets() {
    let mut store = PredictionStore::disabled();
    store.record(command_prediction(1), 0);
    assert_eq!(store.boost_for_key("cmd:command-1", 3_600), 25 + 250);
    assert_eq!(store.boost_for_key("cmd:command-1", 3_601), 25 + 180);
    assert_eq!(store.boost_for_key("cmd:command-1", 86_401), 25 + 100);
    assert_eq!(store.boost_for_key("cmd:command-1", 604_801), 25 + 40);
    assert_eq!(store.boost_for_key("cmd:command-1", 2_592_001), 25);
}

#[test]
fn top_results_rank_by_boost_then_recency_and_limit() {
    let mut store = PredictionStore::disabled();
    store.record(command_prediction(1), 100);
    store.record(command_prediction(2), 200);
    store.record(command_prediction(2), 300);
    store.record(command_prediction(3), 50);
    let results = store.top_results(2, 400);
    assert_eq!(results.len(), 2);
    assert_eq!(results[0].title, "command-2");
    assert_eq!(results[0].score, 2_000 + 50 + 250);
    assert_eq!(results[1].title, "command-1");
    assert_eq!(results[0].prediction_key.as_deref(), Some("cmd:command-2"));
    let unknown = StoredPrediction { source: "Other".to_string(), ..command_prediction(9) };
    store.record(unknown, 500);
    let all = store.top_results(10, 500);
    assert_eq!(all.len(), 4);
    assert_eq!(all[0].source, "Commands");
    let other = all.iter().find(|r| r.title == "command-9").expect("recorded entry");
    assert_eq!(other.source, "Predictions");
}

#[test]
fn missing_history_loads_as_empty() {
    let store = PredictionStore::load_from_path("/tmp/launcher-history-missing.json".to_string(), HistoryRead::Missing)
        .expect("load missing history");

    assert_eq!(store.len(), 0);
}

#[test]
fn invalid_history_loads_as_empty() {
    let store = PredictionStore::load_from_path("/tmp/launcher-history-invalid.json".to_string(), HistoryRead::Invalid)
        .expect("load invalid history");

    assert_eq!(store.len(), 0);
}

#[test]
fn unreadable_history_is_an_error() {
    let loaded = PredictionStore::load_from_path(
        "/tmp/launcher-history-denied.json".to_string(),
        HistoryRead::Failed("permission denied".to_string()),
    );
    assert!(loaded.is_err());
}

#[test]
fn recording_a_prediction_increments_count_and_updates_last_used() {
    let mut store = PredictionStore::load_from_path("/tmp/launcher-history-record.json".to_string(), HistoryRead::Missing)
        .expect("load history");
    let prediction = StoredPrediction {
        key: "app:firefox.desktop".to_string(),
        title: "Firefox".to_string(),
        subtitle: "Browser".to_string(),
        source: "Applications".to_string(),
        icon_name: "firefox".to_string(),
        action: Action::LaunchApp { desktop_id: "firefox.desktop".to_string() },
    };

    store.record(prediction.clone(), 1_000);
    store.record(prediction, 2_000);

    let entry = store.entry("app:firefox.desktop").expect("stored entry");
    assert_eq!(entry.count, 2);
    assert_eq!(entry.last_used, 2_000);
}

fn stored(index: u64, count: u32, last_used: u64) -> PredictionEntry {
    PredictionEntry { prediction: command_prediction(index), count, last_used }
}

#[test]
fn a_loaded_history_keeps_the_names_it_was_saved_under() {
    let mut store = PredictionStore::with_entries(None, vec![("legacy".to_string(), stored(1, 3, 1_000))]);
    assert_eq!(store.len(), 1);
    assert!(store.entry("legacy").is_some());
    assert!(store.entry("cmd:command-1").is_none());
    assert_eq!(store.boost_for_key("legacy", 1_000), 3 * 25 + 250);
    assert_eq!(store.boost_for_key("cmd:command-1", 1_000), 0);
    let shown = store.top_results(5, 1_000);
    assert_eq!(shown.len(), 1);
    assert_eq!(shown[0].score, 2_000);
    assert_eq!(shown[0].prediction_key.as_deref(), Some("cmd:command-1"));
    store.record(command_prediction(1), 2_000);
    assert_eq!(store.len(), 2);
    assert_eq!(store.entry("cmd:command-1").expect("recorded").count, 1);
}

#[test]
fn a_later_entry_with_the_same_name_replaces_the_earlier() {
    let store = PredictionStore::with_entries(
        None,
        vec![
            ("cmd:command-1".to_string(), stored(1, 1, 10)),
            ("cmd:command-2".to_string(), stored(2, 1, 20)),
            ("cmd:command-1".to_string(), stored(1, 7, 30)),
        ],
    );
    assert_eq!(store.len(), 2);
    let entry = store.entry("cmd:command-1").expect("stored entry");
    assert_eq!(entry.count, 7);
    assert_eq!(entry.last_used, 30);
}

#[test]
fn pruning_removes_names_of_the_oldest_prediction_keys_only() {
    let entries = (0..500).map(|index| (format!("name-{index}"), stored(index, 1, index))).collect::<Vec<_>>();
    let mut store = PredictionStore::with_entries(None, entries);
    store.record(command_prediction(900), 10_000);
    assert_eq!(store.len(), 501);
    assert!(store.entry("name-0").is_some());

    let mut consistent = PredictionStore::with_entries(
        None,
        (0..500).map(|index| (format!("cmd:command-{index}"), stored(index, 1, index))).collect::<Vec<_>>(),
    );
    consistent.record(command_prediction(900), 10_000);
    assert_eq!(consistent.len(), 500);
    assert!(consistent.entry("cmd:command-0").is_none());
    assert!(consistent.entry("cmd:command-900").is_some());
}
