use record_store::errors::RecordError;
use record_store::item::{Caller, Item, Principal};
use record_store::record::{Record, RECORD_CAPACITY};

fn principal(tag: u8) -> Principal {
    Principal { id: [tag; 32] }
}

fn caller(tag: u8) -> Caller {
    Caller { principal: principal(tag), authenticated: true }
}

fn unauthenticated(tag: u8) -> Caller {
    Caller { principal: principal(tag), authenticated: false }
}

#[test]
fn fresh_record_is_empty() {
    let rec = Record::create(&caller(1)).unwrap();
    assert_eq!(rec.total_items(), 0);
    assert!(rec.items().is_empty());
    assert_eq!(rec.capacity(), RECORD_CAPACITY);
    assert_eq!(rec.capacity(), 10000);
}

#[test]
fn unfunded_create_rejected() {
    let result = Record::create(&unauthenticated(1));
    assert_eq!(result.err(), Some(RecordError::AllocationError));
}

#[test]
fn single_append_stores_item() {
    let a = caller(0xaa);
    let mut rec = Record::create(&a).unwrap();
    rec.append(&a, String::from("ipfs://abc")).unwrap();
    assert_eq!(rec.total_items(), 1);
    assert_eq!(rec.items().len(), 1);
    assert_eq!(rec.items()[0].content, "ipfs://abc");
    assert_eq!(rec.items()[0].owner, principal(0xaa));
}

#[test]
fn two_appends_preserve_order() {
    let a = caller(0xaa);
    let b = caller(0xbb);
    let mut rec = Record::create(&a).unwrap();
    rec.append(&a, String::from("x")).unwrap();
    rec.append(&b, String::from("y")).unwrap();
    assert_eq!(rec.total_items(), 2);
    assert_eq!(rec.items().len(), 2);
    assert_eq!(rec.items()[0].content, "x");
    assert_eq!(rec.items()[0].owner, principal(0xaa));
    assert_eq!(rec.items()[1].content, "y");
    assert_eq!(rec.items()[1].owner, principal(0xbb));
}

#[test]
fn commit_order_decides_item_order() {
    // two appends submitted together are committed by the host one after the
    // other, in either order; both orders keep both items exactly once
    let a = caller(0xaa);
    let b = caller(0xbb);

    let mut first_a = Record::create(&a).unwrap();
    first_a.append(&a, String::from("from-a")).unwrap();
    first_a.append(&b, String::from("from-b")).unwrap();
    assert_eq!(first_a.total_items(), 2);
    assert_eq!(first_a.items()[0].content, "from-a");
    assert_eq!(first_a.items()[1].content, "from-b");

    let mut first_b = Record::create(&a).unwrap();
    first_b.append(&b, String::from("from-b")).unwrap();
    first_b.append(&a, String::from("from-a")).unwrap();
    assert_eq!(first_b.total_items(), 2);
    assert_eq!(first_b.items()[0].content, "from-b");
    assert_eq!(first_b.items()[1].content, "from-a");

    let count = |rec: &Record, text: &str| {
        rec.items().iter().filter(|item| item.content == text).count()
    };
    assert_eq!(count(&first_a, "from-a"), 1);
    assert_eq!(count(&first_a, "from-b"), 1);
    assert_eq!(count(&first_b, "from-a"), 1);
    assert_eq!(count(&first_b, "from-b"), 1);
}

#[test]
fn unauthorized_append_rejected() {
    let a = caller(0xaa);
    let mut rec = Record::create(&a).unwrap();
    rec.append(&a, String::from("kept")).unwrap();
    let before = rec.items().clone();

    let result = rec.append(&unauthenticated(0xcc), String::from("dropped"));
    assert_eq!(result, Err(RecordError::AuthorizationError));
    assert_eq!(rec.total_items(), 1);
    assert_eq!(rec.items(), &before);
}

#[test]
fn over_budget_append_rejected() {
    let a = caller(0xaa);
    let mut rec = Record::create(&a).unwrap();
    let content = "g".repeat(1000);

    // each item costs 4 + 1000 + 32 = 1036 bytes on top of the 8-byte
    // counter, so exactly 9 fit within 10,000 bytes: 8 + 9 * 1036 = 9332
    let mut committed: u64 = 0;
    let first_failure = loop {
        match rec.append(&a, content.clone()) {
            Ok(()) => committed += 1,
            Err(e) => break e,
        }
        assert!(committed <= 9, "an over-budget append was accepted");
    };
    assert_eq!(first_failure, RecordError::CapacityExceeded);
    assert_eq!(committed, 9);
    assert_eq!(rec.serialized_len(), 9332);

    // the rejected append left the record exactly as it was
    assert_eq!(rec.total_items(), 9);
    assert_eq!(rec.items().len(), 9);
    for item in rec.items() {
        assert_eq!(item.content, content);
    }

    // a failed append is no terminal state: a smaller item still fits
    rec.append(&a, String::from("s")).unwrap();
    assert_eq!(rec.total_items(), 10);
    assert_eq!(rec.serialized_len(), 9332 + 4 + 1 + 32);
}

#[test]
fn counter_tracks_items_after_each_operation() {
    let a = caller(0xaa);
    let mut rec = Record::create(&a).unwrap();
    assert_eq!(rec.total_items() as usize, rec.items().len());
    for i in 0..20 {
        let result = rec.append(&a, format!("entry-{}", i));
        assert!(result.is_ok());
        assert_eq!(rec.total_items() as usize, rec.items().len());
    }
    // failed operations leave the pair in step too
    let _ = rec.append(&unauthenticated(0xdd), String::from("nope"));
    assert_eq!(rec.total_items() as usize, rec.items().len());
    let _ = rec.append(&a, "g".repeat(20000));
    assert_eq!(rec.total_items() as usize, rec.items().len());
    assert_eq!(rec.total_items(), 20);
}

#[test]
fn oversized_single_payload_rejected() {
    let a = caller(0xaa);
    let mut rec = Record::create(&a).unwrap();
    let result = rec.append(&a, "g".repeat(RECORD_CAPACITY + 1));
    assert_eq!(result, Err(RecordError::CapacityExceeded));
    assert_eq!(rec.total_items(), 0);
    assert!(rec.items().is_empty());
}

#[test]
fn capacity_counts_utf8_bytes() {
    let a = caller(0xaa);
    let mut rec = Record::create(&a).unwrap();
    // a two-byte character: one char, two bytes in the layout
    rec.append(&a, String::from("\u{e9}")).unwrap();
    assert_eq!(rec.serialized_len(), 8 + 4 + 2 + 32);
}
