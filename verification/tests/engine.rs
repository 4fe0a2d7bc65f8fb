use findsame::corpus::Corpus;
use findsame::dedup::run;
use findsame::hexcode::DecodeError;
use findsame::hexcode::decode_fingerprint;
use findsame::index::ColorIndex;
use findsame::index::SHARD_CAPACITY;
use findsame::judge::same;
use findsame::record::Status;
use findsame::record::channel_permille;
use findsame::record::derive_color;

fn decode(s: &str) -> Vec<u8> {
    decode_fingerprint(s).expect("valid fingerprint text")
}

// A 192-byte fingerprint, used with id 7811 below.
const FP_A: &str = "8d7451917955937b59856c546d584660584852514443443a9582649e896aa1896e9f7c699173687e858668787e5055559a8c77a89079ac8b76af8575a68a83a0b0ba8ba5b5666f779c8e7eb08a75b68572bb8c7fb28a82a39592929a9b7d858895897baa8572b17b65c28b78bb897da98a849f9d9d959a9f74746f8a796ea17360b87c69b67f70a27b75908d9289919a42494e5f5a5b936e698d5f588c5f59976d6e77707d58657719202e4f46518d73814d414f43364281616c7a63763a3c55";

// Differs from FP_A by at most 1 per byte; used with id 420670.
const FP_B: &str = "8d7550927955947b59866d546d584660584852514443443a9582659e8a6ba18a6e9f7c6a9173687e868669797f5055559b8d78a99179ac8c77af8575a78a83a1b0bb8ca6b66770779d8e7eb18b76b68572bb8d80b38a82a49692939a9b7e858996897caa8572b27b66c38b79bc8a7da98a85a09d9e969ba07574708a7a6ea17460b97d69b67f71a27b75918e938a929a42494e5f5a5b946e698d5f588d5f5a986e6e77707e586577181f2e4f45528d73814d404f42364281616d7b6477393c55";

// Many bytes differ from FP_A by well over 30; used with id 114.
const FP_C: &str = "d8a486d39e80a8775c744d3967422d6f412593582da26331dba688d5a081ae7b5e9c6b52845741582f1a7e47239b5e2ed39c7ad39b7ad39b7ad2997ab582678e5f468e593591562a936e56a37961daa587f0bc9de9b698c1917583594054331c4b44416d5a52c1937deaba9df1c0a1c0917473503c2e211a423f3e695751916d5dc39982f3c2a3e1af8fa2785d4b372a3d393868544c634c42957563e2b095e7b498cc9a7d845e482e26235e483f4b39326f584aa27e6ba5806ca47d687b5744";

fn add(c: &mut Corpus, id: u64, fp: &[u8], status: Status) {
    c.add(id, 100, 100, 1000, fp.to_vec(), status);
}

#[test]
fn color_determinism_half_max_half_zero() {
    let mut fp = vec![0xffu8; 96];
    fp.extend(vec![0u8; 96]);
    let c = derive_color(&fp);
    assert_eq!(c.triplets, 64);
    assert_eq!((c.r, c.g, c.b), (8160, 8160, 8160));
    let mag: f32 = 255.0 * 64.0;
    assert_eq!(
        (c.r as f32 / mag, c.g as f32 / mag, c.b as f32 / mag),
        (0.5, 0.5, 0.5)
    );
}

#[test]
fn judge_symmetry_concrete() {
    let a = decode(FP_A);
    let b = decode(FP_B);
    let c = decode(FP_C);
    assert_eq!(same(&a, &b), same(&b, &a));
    assert_eq!(same(&a, &c), same(&c, &a));
    let short = vec![10u8; 10];
    assert_eq!(same(&a, &short), same(&short, &a));
}

#[test]
fn judge_rejects_single_diff_of_31() {
    let a = vec![100u8; 192];
    let mut b = a.clone();
    b[17] = 131;
    assert!(!same(&a, &b));
    assert!(!same(&b, &a));
}

#[test]
fn judge_accepts_diff_of_30() {
    let a = vec![100u8; 192];
    let mut b = a.clone();
    b[17] = 130;
    assert!(same(&a, &b));
}

#[test]
fn judge_accepts_diff_of_1_everywhere() {
    let a = vec![100u8; 192];
    let b = vec![101u8; 192];
    assert!(same(&a, &b));
}

#[test]
fn judge_rejects_empty() {
    let a: Vec<u8> = vec![];
    let b = vec![1u8, 2, 3];
    assert!(!same(&a, &b));
    assert!(!same(&b, &a));
    assert!(!same(&a, &a));
}

#[test]
fn judge_rejects_cumulative_drift() {
    // Every byte differs by 11: each under the per-byte cap, but the sum
    // 192 * 11 = 2112 exceeds the cumulative tolerance 1920.
    let a = vec![100u8; 192];
    let b = vec![111u8; 192];
    assert!(!same(&a, &b));
}

#[test]
fn query_never_returns_the_querying_key() {
    let mut index = ColorIndex::new();
    let color = derive_color(&decode(FP_A));
    index.insert(color);
    index.insert(color);
    index.insert(color);
    let res = index.query(&color, 0);
    assert!(!res.contains(&0));
    assert_eq!(res, vec![1, 2]);
    assert_eq!(index.len(), 3);
    assert_eq!(index.shard_count(), 1);
}

#[test]
fn query_spans_all_shards() {
    let mut index = ColorIndex::new();
    let color = derive_color(&decode(FP_A));
    for _ in 0..(SHARD_CAPACITY + 1) {
        index.insert(color);
    }
    assert_eq!(index.len(), SHARD_CAPACITY + 1);
    assert_eq!(index.shard_count(), 2);
    let res = index.query(&color, 0);
    // every stored key but the querying one, across both shards, ascending
    assert_eq!(res.len(), SHARD_CAPACITY);
    assert_eq!(res[0], 1);
    assert_eq!(res[res.len() - 1], SHARD_CAPACITY);
    assert!(!res.contains(&0));
}

#[test]
fn empty_corpus_emits_nothing() {
    let c = Corpus::new();
    let groups = run(&c, 0);
    assert!(groups.is_empty());
}

#[test]
fn at_most_one_centering() {
    let mut c = Corpus::new();
    let fp = decode(FP_A);
    add(&mut c, 10, &fp, Status::Filed);
    add(&mut c, 1000, &fp, Status::Filed);
    add(&mut c, 5000, &fp, Status::Filed);
    let groups = run(&c, 0);
    // One group centered on key 0 claims keys 1 and 2; no second group.
    assert_eq!(groups.len(), 1);
    assert_eq!(groups[0].center, 0);
    assert_eq!(groups[0].members, vec![1, 2]);
}

#[test]
fn discarded_records_are_never_materialized() {
    let mut c = Corpus::new();
    let fp = decode(FP_A);
    add(&mut c, 10, &fp, Status::Discarded);
    assert_eq!(c.len(), 0);
    add(&mut c, 20, &fp, Status::Filed);
    add(&mut c, 9000, &fp, Status::Filed);
    assert_eq!(c.len(), 2);
    let groups = run(&c, 0);
    assert_eq!(groups.len(), 1);
    assert_eq!(groups[0].center, 0);
    assert_eq!(groups[0].members, vec![1]);
}

#[test]
fn deleted_records_neither_center_nor_member() {
    let mut c = Corpus::new();
    let fp = decode(FP_A);
    add(&mut c, 10, &fp, Status::Deleted);
    add(&mut c, 1000, &fp, Status::Filed);
    add(&mut c, 9000, &fp, Status::Filed);
    let groups = run(&c, 0);
    // Key 0 is Deleted: it stays in the index geometry but is filtered
    // from both centering and membership.
    assert_eq!(groups.len(), 1);
    assert_eq!(groups[0].center, 1);
    assert_eq!(groups[0].members, vec![2]);
}

#[test]
fn adjacent_ids_never_match() {
    let mut c = Corpus::new();
    let fp = decode(FP_A);
    add(&mut c, 100, &fp, Status::Filed);
    add(&mut c, 101, &fp, Status::Filed);
    let groups = run(&c, 0);
    assert!(groups.is_empty());
}

#[test]
fn skip_keeps_low_keys_from_centering_but_not_from_membership() {
    let mut c = Corpus::new();
    let fp = decode(FP_A);
    add(&mut c, 10, &fp, Status::Filed);
    add(&mut c, 9000, &fp, Status::Filed);
    let groups = run(&c, 1);
    // Key 0 lies below the skip offset: it cannot center a group, yet it
    // is listed as a member of the group centered on key 1.
    assert_eq!(groups.len(), 1);
    assert_eq!(groups[0].center, 1);
    assert_eq!(groups[0].members, vec![0]);
}

#[test]
fn end_to_end_near_duplicates_grouped() {
    let mut c = Corpus::new();
    add(&mut c, 7811, &decode(FP_A), Status::Filed);
    add(&mut c, 420670, &decode(FP_B), Status::Filed);
    add(&mut c, 114, &decode(FP_C), Status::Filed);
    let groups = run(&c, 0);
    assert_eq!(groups.len(), 1);
    assert_eq!(groups[0].center, 0);
    assert_eq!(groups[0].members, vec![1]);
}

#[test]
fn decode_reports_each_error() {
    assert_eq!(decode_fingerprint("abc"), Err(DecodeError::OddLength));
    assert_eq!(
        decode_fingerprint("zz"),
        Err(DecodeError::InvalidChar { c: 'z', index: 0 })
    );
    assert_eq!(decode_fingerprint("ff00"), Ok(vec![255u8, 0u8]));
    assert_eq!(decode_fingerprint(""), Ok(vec![]));
}

#[test]
fn permille_rounds_to_nearest() {
    assert_eq!(channel_permille(8160, 64), 500);
    assert_eq!(channel_permille(8774, 64), 538);
    assert_eq!(channel_permille(7554, 64), 463);
    assert_eq!(channel_permille(7119, 64), 436);
    assert_eq!(channel_permille(0, 0), 0);
    assert_eq!(channel_permille(16320, 64), 1000);
}

#[test]
fn status_text() {
    assert_eq!(Status::Filed.to_str(), "filed");
    assert_eq!(Status::Deleted.to_str(), "deleted");
    assert_eq!(Status::Discarded.to_str(), "discarded");
    assert_eq!(Status::Pending.to_str(), "pending");
}

#[test]
fn and_array_empty_sides() {
    let empty: Vec<u64> = vec![];
    let some = vec![1u64, 2, 3];
    assert_eq!(findsame::intersect::and_array(&empty, &some), empty);
    assert_eq!(findsame::intersect::and_array(&some, &empty), empty);
}
