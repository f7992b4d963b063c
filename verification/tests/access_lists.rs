use decentralized_access_control::access_list::AccessList;
use decentralized_access_control::endpoint::EndpointId;

fn id(b: u8) -> EndpointId {
    EndpointId::from_bytes([b; 32])
}

#[test]
fn insert_reports_new_members_only() {
    let mut list = AccessList::new();
    assert_eq!(list.len(), 0);
    assert!(list.insert(id(1)));
    assert!(list.insert(id(2)));
    assert!(!list.insert(id(1)));
    assert_eq!(list.len(), 2);
    assert!(list.contains(&id(1)));
    assert!(list.contains(&id(2)));
    assert!(!list.contains(&id(3)));
    assert_eq!(list.members(), vec![id(1), id(2)]);
}

#[test]
fn from_members_drops_repeats() {
    let list = AccessList::from_members(&vec![id(3), id(1), id(3), id(1)]);
    assert_eq!(list.len(), 2);
    assert_eq!(list.members(), vec![id(3), id(1)]);
}

#[test]
fn append_to_missing_list_creates_it() {
    let (list, changed) = AccessList::append_member(None, id(5));
    assert!(changed);
    assert_eq!(list.members(), vec![id(5)]);
}

#[test]
fn append_twice_changes_nothing_the_second_time() {
    let (list, changed) = AccessList::append_member(None, id(5));
    assert!(changed);
    let (list, changed) = AccessList::append_member(Some(list), id(5));
    assert!(!changed);
    assert_eq!(list.members(), vec![id(5)]);
    let (list, changed) = AccessList::append_member(Some(list), id(6));
    assert!(changed);
    assert_eq!(list.members(), vec![id(5), id(6)]);
}

#[test]
fn endpoint_ids_compare_by_bytes() {
    let mut a = [0u8; 32];
    a[31] = 1;
    assert_eq!(EndpointId::from_bytes(a), EndpointId::from_bytes(a));
    assert_ne!(EndpointId::from_bytes(a), EndpointId::from_bytes([0u8; 32]));
    assert_eq!(EndpointId::from_bytes(a).to_bytes(), a);
}

#[test]
fn cloned_list_has_same_members() {
    let list = AccessList::from_members(&vec![id(1), id(2)]);
    let copy = list.clone();
    assert_eq!(copy.members(), list.members());
}

#[test]
fn endpoint_ids_from_keys_and_text() {
    let key = ed25519_dalek::SigningKey::from_bytes(&[5u8; 32]).verifying_key().to_bytes();
    assert_eq!(EndpointId::from_key(&key), Some(EndpointId::from_bytes(key)));
    let bad = (0u8..=255)
        .map(|b| [b; 32])
        .find(|k| ed25519_dalek::VerifyingKey::from_bytes(k).is_err())
        .unwrap();
    assert_eq!(EndpointId::from_key(&bad), None);

    let hex: String = key.iter().map(|b| format!("{b:02x}")).collect();
    assert_eq!(EndpointId::from_argument(&Some(hex)), Some(EndpointId::from_bytes(key)));
    assert_eq!(EndpointId::from_argument(&Some(String::from("not a key"))), None);
    assert_eq!(EndpointId::from_argument(&None), None);
}

#[test]
fn stored_list_reads_back() {
    let a = EndpointId::from_bytes(ed25519_dalek::SigningKey::from_bytes(&[1u8; 32]).verifying_key().to_bytes());
    let b = EndpointId::from_bytes(ed25519_dalek::SigningKey::from_bytes(&[2u8; 32]).verifying_key().to_bytes());
    let list = AccessList::from_members(&vec![a, b]);
    let bytes = list.to_json().unwrap();
    let back = AccessList::from_json(&bytes).unwrap();
    assert_eq!(back.len(), 2);
    assert!(back.contains(&a));
    assert!(back.contains(&b));
}

#[test]
fn stored_list_is_json_of_hex_keys() {
    let a = ed25519_dalek::SigningKey::from_bytes(&[1u8; 32]).verifying_key().to_bytes();
    let hex: String = a.iter().map(|x| format!("{x:02x}")).collect();
    let bytes = format!("[\"{hex}\"]").into_bytes();
    let list = AccessList::from_json(&bytes).unwrap();
    assert_eq!(list.members(), vec![EndpointId::from_bytes(a)]);
    assert_eq!(list.to_json().unwrap(), bytes);
    assert!(AccessList::from_json(b"not json").is_none());
    assert_eq!(AccessList::from_json(b"[]").unwrap().len(), 0);
}

#[test]
fn list_with_a_non_key_is_not_stored() {
    let bad = (0u8..=255)
        .map(|b| [b; 32])
        .find(|k| ed25519_dalek::VerifyingKey::from_bytes(k).is_err())
        .unwrap();
    let list = AccessList::from_members(&vec![EndpointId::from_bytes(bad)]);
    assert!(list.to_json().is_none());
}
