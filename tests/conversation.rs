use realtime_voice::conversation::{
    ConversationItem, ConversationItemContent, ConversationItemContentType, ConversationItemRole,
    ConversationItemStatus, ConversationTracker, ItemError,
};
use realtime_voice::events::{decode_event, RawContent, RawEvent, RawItem};

fn item(id: &str, role: &str, status: &str) -> ConversationItem {
    ConversationItem::new(id.to_string(), role.to_string(), status.to_string(), Vec::new()).unwrap()
}

fn event(event_type: &str) -> RawEvent {
    RawEvent {
        event_type: event_type.to_string(),
        item: None,
        previous_item_id: None,
        item_id: None,
        content_index: None,
        delta: None,
        transcript: None,
    }
}

fn created(id: &str, role: &str) -> RawEvent {
    let mut e = event("conversation.item.created");
    e.item = Some(RawItem {
        id: id.to_string(),
        role: role.to_string(),
        status: "in_progress".to_string(),
        content: Vec::new(),
    });
    e
}

fn delta(id: &str, index: u64, text: &str) -> RawEvent {
    let mut e = event("response.audio_transcript.delta");
    e.item_id = Some(id.to_string());
    e.content_index = Some(index);
    e.delta = Some(text.to_string());
    e
}

fn done(id: &str, index: u64, text: &str) -> RawEvent {
    let mut e = event("response.audio_transcript.done");
    e.item_id = Some(id.to_string());
    e.content_index = Some(index);
    e.transcript = Some(text.to_string());
    e
}

fn transcript_at(tracker: &ConversationTracker, id: &str, index: usize) -> Option<String> {
    tracker.get_item(id).unwrap().content[index].transcript.clone()
}

#[test]
fn deltas_then_done_settle_the_transcript() {
    let mut tracker = ConversationTracker::new();
    for raw in [created("a", "user"), delta("a", 0, "He"), delta("a", 0, "llo"), done("a", 0, "Hello!")] {
        tracker.apply(decode_event(&raw).unwrap());
    }
    assert_eq!(transcript_at(&tracker, "a", 0), Some("Hello!".to_string()));
    assert_eq!(tracker.get_item("a").unwrap().status, ConversationItemStatus::Completed);
    assert_eq!(tracker.render_line(0), Some("0 User: Hello!".to_string()));
}

#[test]
fn deltas_accumulate_before_done() {
    let mut tracker = ConversationTracker::new();
    tracker.add_item(item("a", "assistant", "in_progress"));
    tracker.update_item_content_transcript("a", 0, "He");
    tracker.update_item_content_transcript("a", 0, "llo");
    assert_eq!(transcript_at(&tracker, "a", 0), Some("Hello".to_string()));
    assert_eq!(tracker.get_item("a").unwrap().content.len(), 1);
    assert_eq!(tracker.get_item("a").unwrap().content[0].content_type, ConversationItemContentType::Text);
    assert_eq!(tracker.render_line(0), Some("0 Assistant: Hello…".to_string()));
}

#[test]
fn delta_appends_to_an_existing_part() {
    let part = ConversationItemContent::new("audio".to_string(), None, Some("AAAA".to_string()), None).unwrap();
    let it = ConversationItem::new("b".to_string(), "assistant".to_string(), "in_progress".to_string(), vec![part]).unwrap();
    let mut tracker = ConversationTracker::new();
    tracker.add_item(it);
    tracker.update_item_content_transcript("b", 0, "Hi");
    tracker.update_item_content_transcript("b", 0, " there");
    assert_eq!(transcript_at(&tracker, "b", 0), Some("Hi there".to_string()));
    assert_eq!(tracker.get_item("b").unwrap().content.len(), 1);
    assert_eq!(tracker.get_item("b").unwrap().get_content_transcript(), Some("Hi there".to_string()));
}

#[test]
fn done_past_the_last_part_changes_no_content() {
    let mut tracker = ConversationTracker::new();
    tracker.add_item(item("a", "user", "in_progress"));
    tracker.apply(decode_event(&done("a", 3, "late")).unwrap());
    let it = tracker.get_item("a").unwrap();
    assert!(it.content.is_empty());
    assert_eq!(it.status, ConversationItemStatus::Completed);
    assert_eq!(it.get_content_transcript(), None);
}

#[test]
fn unknown_items_are_left_alone() {
    let mut tracker = ConversationTracker::new();
    tracker.update_item_content_transcript("zzz", 0, "x");
    tracker.item_content_transcript_done("zzz", 0, "x");
    tracker.update_item_status("zzz", ConversationItemStatus::Failed);
    assert!(tracker.get_item("zzz").is_none());
    assert_eq!(tracker.len(), 0);
}

#[test]
fn items_keep_arrival_order() {
    let mut tracker = ConversationTracker::new();
    tracker.add_item(item("x", "user", "completed"));
    tracker.add_item(item("y", "assistant", "in_progress"));
    tracker.add_item(item("z", "system", "incomplete"));
    assert_eq!(tracker.len(), 3);
    assert_eq!(tracker.item_id_at(0), "x");
    assert_eq!(tracker.item_id_at(2), "z");
    assert_eq!(tracker.render_line(1), Some("1 Assistant: …".to_string()));
    assert_eq!(tracker.render_line(2), Some("2 System: <incomplete>".to_string()));
}

#[test]
fn re_added_id_replaces_its_item() {
    let mut tracker = ConversationTracker::new();
    tracker.add_item(item("x", "user", "in_progress"));
    tracker.add_item(item("x", "assistant", "completed"));
    assert_eq!(tracker.len(), 2);
    assert_eq!(tracker.get_item("x").unwrap().role, ConversationItemRole::Assistant);
}

#[test]
fn status_updates() {
    let mut tracker = ConversationTracker::new();
    tracker.add_item(item("x", "user", "in_progress"));
    tracker.update_item_status("x", ConversationItemStatus::Failed);
    assert_eq!(tracker.render_line(0), Some("0 User: <failed>".to_string()));
}

#[test]
fn joined_transcript_skips_parts_without_one() {
    let parts = vec![
        ConversationItemContent::new("input_audio".to_string(), None, None, Some("Hey ".to_string())).unwrap(),
        ConversationItemContent::new("input_text".to_string(), Some("typed".to_string()), None, None).unwrap(),
        ConversationItemContent::new("text".to_string(), None, None, Some("you".to_string())).unwrap(),
    ];
    let it = ConversationItem::new("q".to_string(), "user".to_string(), "completed".to_string(), parts).unwrap();
    assert_eq!(it.get_content_transcript(), Some("Hey you".to_string()));
}

#[test]
fn wire_fields_are_checked() {
    assert_eq!(
        ConversationItemContent::new("video".to_string(), None, None, None).err(),
        Some(ItemError::UnknownContentType)
    );
    assert_eq!(
        ConversationItem::new("a".to_string(), "robot".to_string(), "completed".to_string(), Vec::new()).err(),
        Some(ItemError::UnknownRole)
    );
    assert_eq!(
        ConversationItem::new("a".to_string(), "user".to_string(), "done".to_string(), Vec::new()).err(),
        Some(ItemError::UnknownStatus)
    );
    assert_eq!(ConversationItemStatus::parse("failed"), Some(ConversationItemStatus::Failed));
    assert_eq!(ConversationItemRole::System.name(), "System");
}

#[test]
fn created_event_carries_its_content() {
    let mut raw = created("c", "assistant");
    raw.item.as_mut().unwrap().content.push(RawContent {
        content_type: "audio".to_string(),
        text: None,
        audio: None,
        transcript: Some("Sure".to_string()),
    });
    let mut tracker = ConversationTracker::new();
    tracker.apply(decode_event(&raw).unwrap());
    assert_eq!(tracker.render_line(0), Some("0 Assistant: Sure…".to_string()));
}

#[test]
fn created_item_follows_the_named_previous_item() {
    let mut tracker = ConversationTracker::new();
    tracker.apply(decode_event(&created("a", "user")).unwrap());
    tracker.apply(decode_event(&created("c", "assistant")).unwrap());
    let mut raw = created("b", "assistant");
    raw.previous_item_id = Some("a".to_string());
    tracker.apply(decode_event(&raw).unwrap());
    let mut raw = created("d", "user");
    raw.previous_item_id = Some("nowhere".to_string());
    tracker.apply(decode_event(&raw).unwrap());
    let order: Vec<String> = (0..tracker.len()).map(|i| tracker.item_id_at(i).clone()).collect();
    assert_eq!(order, vec!["a", "b", "c", "d"]);
}
