use rustle::cache::{Fingerprint, ReplyCache};
use rustle::question::DNSQueryQuestion;
use rustle::block_list::{entry_of_line, parse_block_list, BlockList};
use rustle::dispatch::{handle_query, handle_upstream_reply, ClientAction, DropReason, InFlight, UpstreamAction};
use rustle::pending::{InsertOutcome, PendingTable};
use rustle::question::DecodeError;
use rustle::refresh::{snapshot_file_name, CalendarTime, RefreshSchedule};
use rustle::service::{get_default_db_path, NotIndexed, QueryService, Ready, Response};

fn query(id: u16, name: &[&str], q_type: u16) -> Vec<u8> {
    let mut b = vec![(id >> 8) as u8, id as u8, 0x01, 0x00, 0, 1, 0, 0, 0, 0, 0, 0];
    for label in name {
        b.push(label.len() as u8);
        b.extend_from_slice(label.as_bytes());
    }
    b.push(0);
    b.extend_from_slice(&[(q_type >> 8) as u8, q_type as u8, 0, 1]);
    b
}

fn ready(seed: &str) -> QueryService<Ready, u32> {
    QueryService::<NotIndexed, u32>::new(get_default_db_path())
        .index_db(seed.as_bytes())
        .register_for_periodic_update(7)
}

fn entry(line: &str) -> Option<String> {
    entry_of_line(line.as_bytes()).map(|v| String::from_utf8(v).unwrap())
}

#[test]
fn blocked_a_query_gets_sinkhole_reply() {
    let service = ready("example.com\n");
    let mut table: PendingTable<&str> = PendingTable::with_defaults();
    let b = query(0x1234, &["ads", "example", "com"], 1);
    match handle_query(&service, &mut table, &b, "client", 0) {
        ClientAction::Reply { bytes, to } => {
            assert_eq!(to, "client");
            assert_eq!(&bytes[0..2], &[0x12, 0x34]);
            assert_eq!(bytes[2] & 0x80, 0x80);
            assert_eq!(bytes[3] & 0x0f, 0);
            assert_eq!(&bytes[6..8], &[0, 1]);
            let n = bytes.len();
            assert_eq!(&bytes[n - 10..n - 6], &[0, 0, 0x01, 0x2c]);
            assert_eq!(&bytes[n - 6..], &[0, 4, 0, 0, 0, 0]);
        }
        _ => panic!("expected a reply"),
    }
    assert_eq!(table.len(), 0);
}

#[test]
fn allowed_query_forwarded_and_relayed() {
    let service = ready("");
    let mut table: PendingTable<&str> = PendingTable::with_defaults();
    let b = query(0x55aa, &["www", "allowed", "test"], 1);
    match handle_query(&service, &mut table, &b, "client", 100) {
        ClientAction::Forward { bytes } => assert_eq!(bytes, b),
        _ => panic!("expected a forward"),
    }
    let mut reply = b.clone();
    reply[2] |= 0x80;
    reply.extend_from_slice(&[0xc0, 0x0c, 0, 1, 0, 1, 0, 0, 0, 60, 0, 4, 93, 184, 216, 34]);
    match handle_upstream_reply(&mut table, &reply, true, 200) {
        UpstreamAction::Relay { bytes, to } => {
            assert_eq!(to, "client");
            assert_eq!(bytes, reply);
        }
        _ => panic!("expected a relay"),
    }
    assert_eq!(table.len(), 0);
}

#[test]
fn txid_collision_drops_second_query() {
    let service = ready("");
    let mut table: PendingTable<&str> = PendingTable::with_defaults();
    let first = query(0x0001, &["a", "test"], 1);
    let second = query(0x0001, &["b", "test"], 1);
    assert!(matches!(handle_query(&service, &mut table, &first, "one", 0), ClientAction::Forward { .. }));
    assert!(matches!(
        handle_query(&service, &mut table, &second, "two", 10),
        ClientAction::Drop(DropReason::PendingCollision)
    ));
    match handle_upstream_reply(&mut table, &first, true, 20) {
        UpstreamAction::Relay { to, .. } => assert_eq!(to, "one"),
        _ => panic!("expected a relay"),
    }
    assert!(matches!(
        handle_upstream_reply(&mut table, &first, true, 30),
        UpstreamAction::Drop(DropReason::Unmatched)
    ));
}

#[test]
fn refresh_swaps_whole_list() {
    let mut service = ready("example.com\n");
    let b = query(9, &["ads", "example", "com"], 1);
    assert!(matches!(service.process_bytes(&b), Ok(Response::Hit(_))));
    let old = service.update_db(parse_block_list(b""));
    assert!(old.contains_exact(b"example.com"));
    assert!(matches!(service.process_bytes(&b), Ok(Response::Miss(9))));
}

#[test]
fn malformed_datagram_dropped() {
    let service = ready("");
    let mut table: PendingTable<&str> = PendingTable::with_defaults();
    assert!(matches!(
        handle_query(&service, &mut table, &[1, 2, 3], "c", 0),
        ClientAction::Drop(DropReason::Malformed(DecodeError::TooShort))
    ));
    assert_eq!(table.len(), 0);
}

#[test]
fn expired_pending_entry_drops_reply() {
    let service = ready("");
    let mut table: PendingTable<&str> = PendingTable::with_defaults();
    let b = query(0xbeef, &["slow", "test"], 1);
    assert!(matches!(handle_query(&service, &mut table, &b, "c", 1000), ClientAction::Forward { .. }));
    assert!(matches!(
        handle_upstream_reply(&mut table, &b, true, 6000),
        UpstreamAction::Drop(DropReason::Unmatched)
    ));
    assert_eq!(table.len(), 0);
}

#[test]
fn reply_from_elsewhere_dropped() {
    let mut table: PendingTable<&str> = PendingTable::with_defaults();
    assert_eq!(table.insert(5, "c", 0), InsertOutcome::Inserted);
    let b = query(5, &["x"], 1);
    assert!(matches!(
        handle_upstream_reply(&mut table, &b, false, 1),
        UpstreamAction::Drop(DropReason::NotFromUpstream)
    ));
    assert!(matches!(
        handle_upstream_reply(&mut table, &[5], true, 1),
        UpstreamAction::Drop(DropReason::Malformed(DecodeError::TooShort))
    ));
    assert_eq!(table.len(), 1);
}

#[test]
fn pending_table_rules() {
    let mut table: PendingTable<u32> = PendingTable::new(2, 100);
    assert_eq!(table.insert(1, 10, 0), InsertOutcome::Inserted);
    assert_eq!(table.insert(1, 11, 50), InsertOutcome::Collision);
    assert_eq!(table.insert(2, 20, 50), InsertOutcome::Inserted);
    assert_eq!(table.insert(3, 30, 50), InsertOutcome::Full);
    // the entry for 1 has expired at 100: it is replaced, the table is not full for it
    assert_eq!(table.insert(1, 12, 100), InsertOutcome::Inserted);
    assert_eq!(table.take(1, 150), Some(12));
    assert_eq!(table.take(1, 150), None);
    table.sweep(160);
    assert_eq!(table.len(), 0);
    assert_eq!(table.insert(4, 40, 0), InsertOutcome::Inserted);
    assert_eq!(table.insert(5, 50, 90), InsertOutcome::Inserted);
    table.sweep(120);
    assert_eq!(table.len(), 1);
    assert!(table.is_live(5, 120));
    assert_eq!(table.take(4, 120), None);
}

#[test]
fn in_flight_saturates() {
    let mut gauge = InFlight::new(2);
    assert!(gauge.try_acquire());
    assert!(gauge.try_acquire());
    assert!(!gauge.try_acquire());
    assert_eq!(gauge.count(), 2);
    gauge.release();
    assert!(gauge.try_acquire());
}

#[test]
fn block_list_lines() {
    assert_eq!(entry("example.com"), Some("example.com".to_string()));
    assert_eq!(entry("  Ads.Example.COM.\r"), Some("ads.example.com".to_string()));
    assert_eq!(entry("||tracker.net^"), Some("tracker.net".to_string()));
    assert_eq!(entry("||tracker.net^$third-party"), Some("tracker.net".to_string()));
    assert_eq!(entry("||tracker.net/path"), None);
    assert_eq!(entry("*.wild.org"), Some("*.wild.org".to_string()));
    assert_eq!(entry("! comment"), None);
    assert_eq!(entry("# comment"), None);
    assert_eq!(entry("[Adblock Plus 2.0]"), None);
    assert_eq!(entry("##.banner"), None);
    assert_eq!(entry("/something/something/"), None);
    assert_eq!(entry(""), None);
    assert_eq!(entry("."), None);
}

#[test]
fn block_list_matching() {
    let list: BlockList = parse_block_list(b"example.com\n*.wild.org\n! note\n||ads.net^\n");
    let names = |n: &[&str]| n.iter().map(|l| l.as_bytes().to_vec()).collect::<Vec<_>>();
    assert!(list.blocks_labels(&names(&["example", "com"])));
    assert!(list.blocks_labels(&names(&["ads", "EXAMPLE", "com"])));
    assert!(!list.blocks_labels(&names(&["wild", "org"])));
    assert!(list.blocks_labels(&names(&["a", "wild", "org"])));
    assert!(list.blocks_labels(&names(&["x", "ads", "net"])));
    assert!(!list.blocks_labels(&names(&["notexample", "com"])));
    assert!(!list.blocks_labels(&names(&[])));
    assert!(list.contains_exact(b"ads.net"));
    assert!(!list.contains_exact(b"note"));
}

#[test]
fn block_list_insert_normalizes() {
    let mut list = BlockList::new();
    list.insert(b"MiXed.Example.");
    assert!(list.contains_exact(b"mixed.example"));
    list.insert(b".");
    assert!(!list.contains_exact(b""));
}

#[test]
fn backoff_doubles_to_an_hour() {
    let mut s = RefreshSchedule::new(604800);
    let waits: Vec<u64> = (0..8).map(|_| s.after_failure()).collect();
    assert_eq!(waits, vec![60, 120, 240, 480, 960, 1920, 3600, 3600]);
    assert_eq!(s.after_success(), 604800);
    assert_eq!(s.after_failure(), 60);
}

#[test]
fn snapshot_names() {
    let t = CalendarTime { year: 2024, month: 3, day: 5, hour: 7, minute: 8, second: 9 };
    assert_eq!(snapshot_file_name(&t), Some("block_list_2024-03-05-07:08:09.txt".to_string()));
    let t = CalendarTime { year: 987, month: 12, day: 31, hour: 23, minute: 59, second: 59 };
    assert_eq!(snapshot_file_name(&t), Some("block_list_0987-12-31-23:59:59.txt".to_string()));
    let t = CalendarTime { year: 2023, month: 2, day: 30, hour: 0, minute: 0, second: 0 };
    assert_eq!(snapshot_file_name(&t), None);
    let t = CalendarTime { year: 10000, month: 1, day: 1, hour: 0, minute: 0, second: 0 };
    assert_eq!(snapshot_file_name(&t), None);
}

#[test]
fn lifecycle_hands_out_handle_once() {
    let mut service = ready("example.com");
    assert_eq!(service.gib_update_task_handle(), Some(7));
    assert_eq!(service.gib_update_task_handle(), None);
    assert_eq!(service.db_file_path(), "./var/db/init.txt");
    assert_eq!(get_default_db_path(), "./var/db/init.txt");
}

#[test]
fn nxdomain_configured_reply() {
    let service = QueryService::<NotIndexed, ()>::new(get_default_db_path())
        .with_reply(3, 60)
        .index_db(b"blocked.test")
        .register_for_periodic_update(());
    let b = query(2, &["blocked", "test"], 1);
    match service.process_bytes(&b) {
        Ok(Response::Hit(bytes)) => {
            assert_eq!(bytes[3] & 0x0f, 3);
            let n = bytes.len();
            assert_eq!(&bytes[n - 10..n - 6], &[0, 0, 0, 60]);
        }
        _ => panic!("expected a hit"),
    }
}

#[test]
fn reply_cache_files_by_fingerprint() {
    let b = query(3, &["WWW", "Example", "com"], 28);
    let q = DNSQueryQuestion::try_from(&b).unwrap();
    let key = Fingerprint::of(&q);
    assert_eq!(key.name, b"www.example.com".to_vec());
    assert_eq!(key.q_type, 28);
    assert_eq!(key.q_class, 1);
    let mut cache = ReplyCache::new();
    assert!(cache.get(&key).is_none());
    cache.insert(Fingerprint::of(&q), vec![1, 2, 3]);
    cache.insert(Fingerprint::of(&q), vec![4, 5]);
    assert_eq!(cache.get(&key), Some(&vec![4, 5]));
    let other = Fingerprint { name: b"www.example.com".to_vec(), q_type: 1, q_class: 1 };
    assert!(cache.get(&other).is_none());
    let service = ready("");
    assert!(service.cache().get(&key).is_none());
}
