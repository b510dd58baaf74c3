use occurances::errors::{error_message, OccuError};
use occurances::events::{render_event, render_occurance, Event, Occurance};
use occurances::ids::{extract_timestamp, render_id_hyphenated};
use occurances::last_four_chars;
use occurances::store::EventStore;

#[test]
fn identifiers_are_non_decreasing_in_generation_order() {
    let mut previous: Option<u128> = None;
    let mut previous_millis: Option<u64> = None;
    for _ in 0..50 {
        let event = Event::new(String::from("t"), String::from("d"));
        let (secs, nanos) = extract_timestamp(event.id).expect("a fresh identifier is timestamped");
        let millis = secs * 1000 + (nanos / 1_000_000) as u64;
        if let Some(p) = previous {
            assert!(p <= event.id);
        }
        if let Some(pm) = previous_millis {
            assert!(pm <= millis);
        }
        previous = Some(event.id);
        previous_millis = Some(millis);
    }
}

#[test]
fn embedded_timestamp_round_trips_near_the_wall_clock() {
    let before = chrono::Utc::now().timestamp_millis();
    let event = Event::new(String::from("t"), String::from("d"));
    let after = chrono::Utc::now().timestamp_millis();
    let (secs, nanos) = extract_timestamp(event.id).expect("a fresh identifier is timestamped");
    let millis = (secs * 1000 + (nanos / 1_000_000) as u64) as i64;
    // the generator's resolution is one millisecond; allow generous slack
    // around the two wall-clock readings on either side
    assert!(millis >= before - 16);
    assert!(millis <= after + 16);
}

#[test]
fn extract_timestamp_reads_the_top_bits_of_a_v7_id() {
    let millis: u128 = 1_234_567;
    let id: u128 = (millis << 80) | (0x7u128 << 76) | (0x2u128 << 62);
    assert_eq!(extract_timestamp(id), Some((1234, 567_000_000)));
    let not_v7: u128 = (millis << 80) | (0x4u128 << 76) | (0x2u128 << 62);
    assert_eq!(extract_timestamp(not_v7), None);
}

#[test]
fn hyphenated_rendering_matches_the_canonical_form() {
    let id: u128 = 0x0123456789abcdef0123456789abcdef;
    assert_eq!(render_id_hyphenated(id), "01234567-89ab-cdef-0123-456789abcdef");
    assert_eq!(render_id_hyphenated(0), "00000000-0000-0000-0000-000000000000");
}

#[test]
fn last_four_chars_keeps_short_strings_whole() {
    assert_eq!(last_four_chars(String::from("abc")), "abc");
    assert_eq!(last_four_chars(String::from("abcd")), "abcd");
    assert_eq!(last_four_chars(String::from("abcdef")), "cdef");
    assert_eq!(last_four_chars(String::from("")), "");
}

#[test]
fn render_event_shows_id_tail_and_title() {
    let event = Event {
        id: 0x0123456789abcdef0123456789abcdef,
        title: String::from("T"),
        description: String::from("D"),
        occurances: Vec::new(),
    };
    assert_eq!(render_event(&event), "Event ( uuid: cdef, title: T )");
}

#[test]
fn render_event_lists_occurances_one_per_line() {
    let mut event = Event::new(String::from("T"), String::from("D"));
    event.occur(String::from("a"), String::from("b"));
    event.occur(String::from("c"), String::from("d"));
    let rendered = render_event(&event);
    let tail = render_id_hyphenated(event.id);
    let expected_head = format!("Event ( uuid: {}, title: T )", &tail[32..]);
    assert_eq!(
        rendered,
        format!("{}\nOccurance [ a: 'b' ]\nOccurance [ c: 'd' ]\n", expected_head)
    );
}

#[test]
fn occur_appends_in_order_near_the_clock() {
    let before = chrono::Local::now().timestamp_millis();
    let mut event = Event::new(String::from("T"), String::from("D"));
    event.occur(String::from("first"), String::from("1"));
    event.occur(String::from("second"), String::from("2"));
    let after = chrono::Local::now().timestamp_millis();
    assert_eq!(event.occurances.len(), 2);
    assert_eq!(event.occurances[0].title, "first");
    assert_eq!(event.occurances[1].title, "second");
    for occurance in &event.occurances {
        assert!(occurance.created_at_millis >= before);
        assert!(occurance.created_at_millis <= after);
        assert!(occurance.metadata.is_empty());
    }
}

#[test]
fn render_occurance_shows_title_and_description() {
    let occurance = Occurance {
        title: String::from("note"),
        description: String::from("text"),
        created_at_millis: 0,
        metadata: Vec::new(),
    };
    assert_eq!(render_occurance(&occurance), "Occurance [ note: 'text' ]");
}

#[test]
fn metadata_validity_rejects_reserved_characters() {
    let mut occurance = Occurance {
        title: String::from("t"),
        description: String::from("d"),
        created_at_millis: 0,
        metadata: vec![(String::from("clean key"), String::from("v"))],
    };
    assert!(occurance.is_valid_metadata());
    occurance.metadata.push((String::from("bad:key"), String::from("v")));
    assert!(!occurance.is_valid_metadata());
    occurance.metadata.pop();
    occurance.metadata.push((String::from("bad\nkey"), String::from("v")));
    assert!(!occurance.is_valid_metadata());
    // the reserved characters are only forbidden in keys
    occurance.metadata.pop();
    occurance.metadata.push((String::from("k"), String::from("va:lue\n")));
    assert!(occurance.is_valid_metadata());
}

#[test]
fn new_for_map_yields_the_events_own_id() {
    let (id, event) = Event::new_for_map(String::from("t"), String::from("d"));
    assert_eq!(id, event.id);
    assert_eq!(event.title().as_str(), "t");
    assert_eq!(event.description, "d");
    assert!(event.occurances.is_empty());
}

#[test]
fn store_rejects_a_duplicate_identifier() {
    let mut store = EventStore::new();
    let first = Event {
        id: 7,
        title: String::from("a"),
        description: String::from("x"),
        occurances: Vec::new(),
    };
    let second = Event {
        id: 7,
        title: String::from("b"),
        description: String::from("y"),
        occurances: Vec::new(),
    };
    assert_eq!(store.insert(7, first), Ok(()));
    assert_eq!(store.insert(7, second), Err(OccuError::EventExists));
    assert_eq!(store.len(), 1);
    let (_, kept) = store.get_by_index(0).expect("the first entry stays");
    assert_eq!(kept.title().as_str(), "a");
}

#[test]
fn store_positions_follow_insertion_order() {
    let mut store = EventStore::new();
    for (key, name) in [(3u128, "first"), (1u128, "second"), (2u128, "third")] {
        let event = Event {
            id: key,
            title: String::from(name),
            description: String::new(),
            occurances: Vec::new(),
        };
        assert_eq!(store.insert(key, event), Ok(()));
    }
    assert_eq!(store.len(), 3);
    let (k0, e0) = store.get_by_index(0).unwrap();
    let (k2, e2) = store.get_by_index(2).unwrap();
    assert_eq!((k0, e0.title().as_str()), (3, "first"));
    assert_eq!((k2, e2.title().as_str()), (2, "third"));
    assert!(store.get_by_index(3).is_none());

    store.remove_by_index(0);
    assert_eq!(store.len(), 2);
    let (k0, e0) = store.get_by_index(0).unwrap();
    assert_eq!((k0, e0.title().as_str()), (1, "second"));
    // out of bounds: a silent no-op
    store.remove_by_index(9);
    assert_eq!(store.len(), 2);
}

#[test]
fn listing_aborts_partway_on_an_untimestamped_identifier() {
    let mut store = EventStore::new();
    let good_id: u128 = (1_700_000_000_000u128 << 80) | (0x7u128 << 76) | (0x2u128 << 62);
    let good = Event {
        id: good_id,
        title: String::from("good"),
        description: String::new(),
        occurances: Vec::new(),
    };
    // version nibble 4: no embedded timestamp to recover
    let bad = Event {
        id: 0x4u128 << 76,
        title: String::from("bad"),
        description: String::new(),
        occurances: Vec::new(),
    };
    assert_eq!(store.insert(good_id, good), Ok(()));
    assert_eq!(store.insert(0x4u128 << 76, bad), Ok(()));

    let (lines, err) = occurances::shell::list_events(&store);
    assert_eq!(err, Some(OccuError::InvalidUuidTimestamp));
    // the entry before the bad one stays listed; the bad one never appears
    assert_eq!(lines.len(), 2);
    assert_eq!(lines[0], "====== Events ======");
    assert!(lines[1].contains("good"));
}

#[test]
fn error_messages_are_exact() {
    assert_eq!(error_message(&OccuError::EventExists), "Duplicate Event exists in memory.");
    assert_eq!(
        error_message(&OccuError::InvalidUuidTimestamp),
        "Couldn't parse timestamp from UUID v7."
    );
    assert_eq!(error_message(&OccuError::InvalidIndex), "Invalid index.");
    assert_eq!(error_message(&OccuError::RequiresArgs(2)), "Command requires 2 argument(s).");
    assert_eq!(error_message(&OccuError::RequiresArgs(13)), "Command requires 13 argument(s).");
}
