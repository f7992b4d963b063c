use decentralized_access_control::status::Status;
use decentralized_access_control::store::order::{name_le, sorted_order};
use decentralized_access_control::store::storage_manager::{StorageManager, UploadError};
use rs_merkle::algorithms::Sha256;
use rs_merkle::Hasher;

type Manager = StorageManager<()>;

fn names(list: &[&str]) -> Vec<Vec<u8>> {
    list.iter().map(|s| s.as_bytes().to_vec()).collect()
}

#[test]
fn new_manager_keeps_its_store() {
    let m = StorageManager::new(42u32);
    assert_eq!(*m.iroh_instance(), 42);
}

#[test]
fn tags_join_resource_and_file_with_a_slash() {
    assert_eq!(Manager::tag_for("res", "file.txt"), "res/file.txt");
    assert_eq!(Manager::tag_for("", ""), "/");
    assert_eq!(Manager::tag_for("a/b", "c"), "a/b/c");
}

#[test]
fn lookup_reply_status() {
    assert_eq!(Manager::reply_for_lookup(true), Status::Allowed);
    assert_eq!(Manager::reply_for_lookup(false), Status::FileNotFound);
}

#[test]
fn names_compare_bytewise() {
    assert!(name_le(&b"a".to_vec(), &b"b".to_vec()));
    assert!(!name_le(&b"b".to_vec(), &b"a".to_vec()));
    assert!(name_le(&b"ab".to_vec(), &b"abc".to_vec()));
    assert!(!name_le(&b"abc".to_vec(), &b"ab".to_vec()));
    assert!(name_le(&b"same".to_vec(), &b"same".to_vec()));
    assert!(name_le(&b"".to_vec(), &b"x".to_vec()));
    assert!(name_le(&b"Z".to_vec(), &b"a".to_vec()));
}

#[test]
fn sorted_order_lists_positions_by_name() {
    assert_eq!(sorted_order(&names(&["b.mp4", "a.mp4", "c.mp4"])), vec![1, 0, 2]);
    assert_eq!(sorted_order(&names(&["10", "9", "1"])), vec![2, 0, 1]);
    assert_eq!(sorted_order(&names(&[])), Vec::<usize>::new());
}

#[test]
fn sorted_order_keeps_equal_names_in_place() {
    assert_eq!(sorted_order(&names(&["x", "a", "x", "a"])), vec![1, 3, 0, 2]);
}

#[test]
fn sorted_order_does_not_depend_on_listing_order() {
    let first = names(&["c", "a", "b"]);
    let second = names(&["b", "c", "a"]);
    let pick = |ns: &Vec<Vec<u8>>| -> Vec<Vec<u8>> {
        sorted_order(ns).into_iter().map(|i| ns[i].clone()).collect()
    };
    assert_eq!(pick(&first), pick(&second));
    assert_eq!(pick(&first), names(&["a", "b", "c"]));
}

#[test]
fn leaf_needs_exactly_32_bytes() {
    let raw = [3u8; 32];
    assert_eq!(Manager::leaf_from_digest(&raw), Some(raw));
    assert_eq!(Manager::leaf_from_digest(&[3u8; 31]), None);
}

#[test]
fn hex_digest_is_not_a_leaf() {
    // A SHA-256 digest written in hexadecimal has 64 bytes, not 32.
    let hex = "ca978112ca1bbdcafac231b39a23dc4da786eff8147c4e72b9807785afee48bb";
    assert_eq!(Manager::leaf_from_digest(hex.as_bytes()), None);
}

#[test]
fn empty_directory_has_no_root() {
    assert_eq!(Manager::plan_upload(&vec![]).unwrap_err(), UploadError::NoRootHash);
}

#[test]
fn plan_for_three_files() {
    let files = vec![
        (String::from("a"), Sha256::hash("a".as_bytes())),
        (String::from("b"), Sha256::hash("b".as_bytes())),
        (String::from("c"), Sha256::hash("c".as_bytes())),
    ];
    let plan = Manager::plan_upload(&files).unwrap();
    let root = "7075152d03a5cd92104887b476862778ec0c87be5c2fa1c0a90f87c49fad6eff";
    assert_eq!(plan.root, root);
    assert_eq!(
        plan.file_tags,
        vec![format!("{root}/a"), format!("{root}/b"), format!("{root}/c")]
    );
    let mut blob = Vec::new();
    for (_, leaf) in &files {
        blob.extend_from_slice(leaf);
    }
    assert_eq!(plan.leaves_blob, blob);
    assert_eq!(plan.leaves_blob.len(), 96);
}

#[test]
fn plan_for_one_file() {
    let files = vec![(String::from("video.mp4"), Sha256::hash("a".as_bytes()))];
    let plan = Manager::plan_upload(&files).unwrap();
    let root = "ca978112ca1bbdcafac231b39a23dc4da786eff8147c4e72b9807785afee48bb";
    assert_eq!(plan.root, root);
    assert_eq!(plan.file_tags, vec![format!("{root}/video.mp4")]);
    assert_eq!(plan.leaves_blob, Sha256::hash("a".as_bytes()).to_vec());
}

#[test]
fn tags_of_different_uploads_differ() {
    let one = Manager::plan_upload(&vec![(String::from("a"), [1u8; 32])]).unwrap();
    let two = Manager::plan_upload(&vec![(String::from("a"), [2u8; 32])]).unwrap();
    assert_ne!(one.root, two.root);
    assert_eq!(one.root.len(), 64);
    assert_ne!(one.file_tags[0], two.file_tags[0]);
    assert_eq!(Manager::tag_for(&one.root, "a"), one.file_tags[0]);
}
