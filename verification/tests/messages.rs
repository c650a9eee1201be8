use water::ClaimTable;
use water::CloneMessage;
use water::Message;
use water::RawMessage;
use water::SyncMessage;

#[test]
fn claimtable_one_shot() {
    let mut claims = ClaimTable::new();
    assert_eq!(claims.len(), 0);
    let c = claims.issue();
    assert_eq!(c, 0);
    assert!(claims.peek(c));
    assert!(claims.take(c));
    assert!(!claims.peek(c));
    assert!(!claims.take(c));
}

#[test]
fn syncmessage_claim_shared_by_copies() {
    let mut claims = ClaimTable::new();
    let mut payload = RawMessage::new(4);
    payload.writeu32(0, 99);
    let m = SyncMessage::new(0xaaa, payload, &mut claims);
    assert!(m.is_type(0xaaa));
    assert!(!m.is_type(0xbbb));

    let copy = m.internal_clone();
    assert!(m.takeasvalid(&mut claims));
    // the copy shares the claim, so it finds it taken
    assert!(!copy.takeasvalid(&mut claims));
    assert_eq!(m.get_payload(0xaaa).readu32(0), 99);
}

#[test]
fn clonemessage_copies_are_equal() {
    let mut payload = RawMessage::new(2);
    payload.writeu16(0, 0x1234);
    let m = CloneMessage::new(7, payload);
    let copy = m.internal_clone();
    assert!(copy.is_type(7));
    assert_eq!(m.get_payload(7).readu16(0), 0x1234);
    assert_eq!(copy.get_payload(7).readu16(0), 0x1234);
}

#[test]
fn message_dup_ifok_keeps_nonraw() {
    let payload = RawMessage::new(1);
    let m = Message::new_clone(5, payload);
    let m = m.dup_ifok();
    assert!(m.is_clone());

    let mut raw = Message::new_raw(3);
    raw.get_rawmutref().writeu8(0, 9);
    raw.get_rawmutref().setlen(1);
    let d = raw.dup_ifok();
    assert!(d.is_raw());
    // duplication resets the length to the capacity, keeping the bytes
    assert_eq!(d.get_rawref().len(), 3);
    assert_eq!(d.get_rawref().readu8(0), 9);
}

#[test]
fn message_refs_reach_payload() {
    let mut claims = ClaimTable::new();
    let mut net_payload = RawMessage::new(4);
    net_payload.writeu32(0, 11);
    let m = Message::new_sync(3, net_payload, &mut claims);
    assert!(m.get_syncref().is_type(3));
    let sm = m.get_sync();
    assert_eq!(sm.get_payload(3).readu32(0), 11);

    let m = Message::new_clone(4, RawMessage::new(1));
    assert!(m.get_cloneref().is_type(4));
    assert!(m.get_clone().is_type(4));
}

#[test]
fn message_shallow_clone_clears_loopback() {
    let mut m = Message::new_raw(1);
    m.canloop = true;
    m.srcsid = 8;
    let c = m.shallow_clone();
    assert!(!c.canloop);
    assert_eq!(c.srcsid, 8);
}

#[test]
fn rawmessage_slices() {
    let mut m = RawMessage::new(6);
    m.setlen(0);
    m.write_from_slice(0, &[10, 20, 30]);
    assert_eq!(m.as_slice(), &[10, 20, 30]);
    assert_eq!(m.to_vec(), vec![10, 20, 30]);
    let f = RawMessage::new_fromslice(&[1, 2]);
    assert_eq!(f.as_slice(), &[1, 2]);
}
