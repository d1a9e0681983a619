use ollama_pro::store::{DownloadProgress, ProgressTable};

fn record(channel: &str, completed: i64) -> DownloadProgress {
    DownloadProgress {
        model_name: "modelX".to_string(),
        channel_id: channel.to_string(),
        completed_bytes: completed,
        total_bytes: 1000,
        last_updated: 1_700_000_000,
    }
}

#[test]
fn save_then_load_round_trip() {
    let mut table = ProgressTable::new();
    let id = "m1".to_string();
    table.save(&id, record("m1", 500));
    assert_eq!(table.load(&id), Some(record("m1", 500)));
    // Saving again replaces the record.
    table.save(&id, record("m1", 700));
    assert_eq!(table.load(&id), Some(record("m1", 700)));
    assert_eq!(table.len(), 1);
}

#[test]
fn clear_then_load_gives_nothing() {
    let mut table = ProgressTable::new();
    let id = "m1".to_string();
    let other = "m2".to_string();
    table.save(&id, record("m1", 500));
    table.save(&other, record("m2", 20));
    table.clear(&id);
    assert_eq!(table.load(&id), None);
    assert_eq!(table.load(&other), Some(record("m2", 20)));
    // Clearing a missing record does nothing.
    table.clear(&id);
    assert_eq!(table.len(), 1);
}

#[test]
fn entries_list_every_record() {
    let mut table = ProgressTable::new();
    table.save(&"a".to_string(), record("a", 1));
    table.save(&"b".to_string(), record("b", 2));
    let mut seen = Vec::new();
    for i in 0..table.len() {
        let (k, v) = table.entry(i);
        seen.push((k.clone(), v.completed_bytes));
    }
    assert_eq!(seen, vec![("a".to_string(), 1), ("b".to_string(), 2)]);
}
