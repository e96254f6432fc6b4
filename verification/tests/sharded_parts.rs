use std::collections::hash_map::DefaultHasher;
use std::hash::{Hash, Hasher};

use bytes::{Buf, Bytes};
use mononoke::nonzero::NonZeroUsize;
use mononoke::sharded::cache_key::CacheKey;
use mononoke::sharded::counters::PerfCounterType;
use mononoke::sharded::data::{BlobstoreBytes, BlobstoreGetData, BlobstoreMetadata};
use mononoke::sharded::frame::{
    decoded, get_from_cache, known_to_be_present_in_blobstore, presence_marker, read_frame,
    CacheData, CacheError, Entry, Frame, MAX_CACHELIB_VALUE_SIZE,
};
use mononoke::sharded::get::{GetAction, GetEvent, GetState};
use mononoke::sharded::inner::{allow_all_filter, AllowAll, CacheFilter, VirtuallyShardedBlobstore};
use mononoke::sharded::present::{PresentAction, PresentEvent, PresentState};
use mononoke::sharded::put::{PutAction, PutEvent, PutState};
use mononoke::sharded::shards::{shard_index, Shards};
use mononoke::sharded::store::{StoreAction, StoreEvent, StoreState};

fn data_of(value: &'static [u8]) -> BlobstoreGetData {
    BlobstoreGetData::new(
        BlobstoreMetadata::new(Some(5)),
        BlobstoreBytes(Bytes::from_static(value)),
    )
}

#[test]
fn cache_keys_have_a_prefix() {
    let key = CacheKey::from_key("foo");
    assert_eq!(key.0, "vsb.foo");
    assert_eq!(key.as_ref(), b"vsb.foo");
    assert_eq!(CacheKey::from_key("").0, "vsb.");
    assert_eq!(CacheKey::from_key("\u{e9}").as_ref(), "vsb.\u{e9}".as_bytes());
    assert_ne!(CacheKey::from_key("a").0, CacheKey::from_key("b").0);
}

#[test]
fn the_limit_leaves_room_below_four_mebibytes() {
    assert_eq!(MAX_CACHELIB_VALUE_SIZE, 4_193_280);
}

#[test]
fn a_stored_entry_gives_back_its_bytes() {
    let mut chained = match Entry::stored(Bytes::from_static(b"blob")) {
        Entry::Stored(chained) => chained,
        Entry::NotStorable(_) => panic!("not stored"),
    };
    let entry = chained.to_bytes();
    assert_eq!(&entry[..], b"\x01blob");
    match read_frame(entry) {
        Some(Frame::Stored(bytes)) => assert_eq!(&bytes[..], b"blob"),
        _ => panic!("not stored"),
    }
}

#[test]
fn an_entry_can_say_that_the_blob_does_not_fit() {
    let entry = match Entry::not_storable() {
        Entry::NotStorable(bytes) => bytes,
        Entry::Stored(_) => panic!("stored"),
    };
    assert_eq!(&entry[..], &[0]);
    assert!(matches!(read_frame(entry), Some(Frame::NotStorable)));
}

#[test]
fn only_the_first_byte_tells_the_kind() {
    let entry = Bytes::from_static(&[0, 1, 2]);
    assert!(matches!(read_frame(entry), Some(Frame::NotStorable)));
    assert!(read_frame(Bytes::from_static(&[2, 1])).is_none());
    match read_frame(Bytes::from_static(&[1])) {
        Some(Frame::Stored(bytes)) => assert!(bytes.is_empty()),
        _ => panic!("not stored"),
    }
}

#[test]
fn the_presence_marker_is_one_letter() {
    assert_eq!(&presence_marker()[..], b"P");
}

#[test]
fn replies_of_the_blob_pool() {
    let decode = |bytes: Bytes| {
        if &bytes[..] == b"good" {
            Ok(data_of(b"decoded"))
        } else {
            Err(())
        }
    };
    let from = |entry: &'static [u8]| get_from_cache(Ok::<_, u8>(Some(Bytes::from_static(entry))), decode);
    match from(b"\x01good") {
        Ok(Some(CacheData::Stored(data))) => assert_eq!(&data.as_bytes().0[..], b"decoded"),
        _ => panic!("not stored"),
    }
    assert!(matches!(from(b"\x01bad"), Err(CacheError::CouldNotDecode)));
    assert!(matches!(from(b"\x00good"), Ok(Some(CacheData::NotStorable))));
    assert!(matches!(from(b"good"), Err(CacheError::InvalidPrefix)));
    assert!(matches!(get_from_cache(Ok::<_, u8>(None), decode), Ok(None)));
    assert!(matches!(get_from_cache(Err(7u8), decode), Err(CacheError::Pool(7))));
}

#[test]
fn cache_error_messages() {
    assert_eq!(
        CacheError::<()>::CouldNotDecode.message(),
        Some("Could not decode")
    );
    assert_eq!(
        CacheError::<()>::InvalidPrefix.message(),
        Some("Invalid prefix")
    );
    assert_eq!(CacheError::Pool(()).message(), None);
    assert!(matches!(decoded::<()>(Err(())), Err(CacheError::CouldNotDecode)));
}

#[test]
fn replies_of_the_presence_pool() {
    let entry = Bytes::from_static(b"anything");
    assert_eq!(known_to_be_present_in_blobstore(Ok::<_, u8>(Some(entry))), Ok(true));
    assert_eq!(known_to_be_present_in_blobstore(Ok::<_, u8>(None)), Ok(false));
    assert_eq!(known_to_be_present_in_blobstore(Err(3u8)), Err(3));
}

#[test]
fn blobs_are_cloned_with_their_bytes() {
    let copy = data_of(b"blob").clone();
    assert_eq!(copy.meta, BlobstoreMetadata::new(Some(5)));
    assert_eq!(&copy.as_bytes().0[..], b"blob");
}

#[test]
fn the_slice_is_the_remainder_of_the_hash() {
    assert_eq!(shard_index(17, 5), 2);
    assert_eq!(shard_index(u64::MAX, 1), 0);
    assert_eq!(shard_index(u64::MAX, 2), 1);
}

#[test]
fn a_key_always_falls_into_the_same_slice() {
    let shards = Shards::new(
        NonZeroUsize::new(16).unwrap(),
        PerfCounterType::BlobGetsShardAccessWait,
    );
    assert_eq!(shards.len(), 16);
    assert_eq!(shards.perf_counter_type(), PerfCounterType::BlobGetsShardAccessWait);
    let one = shards.semaphore_for("foo");
    let again = shards.semaphore_for("foo");
    assert!(std::ptr::eq(one, again));
    let keys: Vec<String> = (0..64).map(|i| format!("key{}", i)).collect();
    assert!(keys
        .iter()
        .any(|key| !std::ptr::eq(shards.semaphore_for(key), one)));
}

#[test]
fn keys_share_a_slice_when_their_hashes_have_one_remainder() {
    let shards = Shards::new(
        NonZeroUsize::new(7).unwrap(),
        PerfCounterType::BlobGetsShardAccessWait,
    );
    let remainder = |key: &str| {
        let mut hasher = DefaultHasher::new();
        key.hash(&mut hasher);
        hasher.finish() % 7
    };
    let keys: Vec<String> = (0..50).map(|i| format!("key{}", i)).collect();
    for a in &keys {
        for b in &keys {
            assert_eq!(
                std::ptr::eq(shards.semaphore_for(a), shards.semaphore_for(b)),
                remainder(a) == remainder(b)
            );
        }
    }
}

#[test]
fn a_slice_has_one_permit() {
    let shards = Shards::new(
        NonZeroUsize::new(3).unwrap(),
        PerfCounterType::BlobPutsShardAccessWait,
    );
    for key in ["a", "b", "c", "d"].iter() {
        let semaphore = shards.semaphore_for(key);
        assert_eq!(semaphore.available_permits(), 1);
        let permit = semaphore.try_acquire();
        assert!(permit.is_ok());
        assert!(shards.semaphore_for(key).try_acquire().is_err());
    }
}

#[test]
fn there_is_no_layer_without_slices() {
    assert!(NonZeroUsize::new(0).is_none());
    assert_eq!(NonZeroUsize::new(2).unwrap().get(), 2);
}

#[test]
fn a_layer_holds_what_it_is_made_of() {
    let layer = VirtuallyShardedBlobstore::new("store", "blobs", "presence", NonZeroUsize::new(4).unwrap());
    let handle = layer.clone();
    assert_eq!(handle.inner.blobstore, "store");
    assert_eq!(handle.inner.blob_pool, "blobs");
    assert_eq!(handle.inner.presence_pool, "presence");
    assert_eq!(handle.inner.read_shards.len(), 4);
    assert_eq!(handle.inner.write_shards.len(), 4);
    assert_eq!(
        handle.inner.read_shards.perf_counter_type(),
        PerfCounterType::BlobGetsShardAccessWait
    );
    assert_eq!(
        handle.inner.write_shards.perf_counter_type(),
        PerfCounterType::BlobPutsShardAccessWait
    );
    assert!(std::sync::Arc::ptr_eq(&layer.inner, &handle.inner));
}

#[test]
fn the_default_filter_lets_everything_pass() {
    let encoded = Bytes::from_static(b"x");
    assert_eq!(allow_all_filter(&encoded), Ok(()));
    assert_eq!(AllowAll.check(&encoded), Ok(()));
}

#[test]
fn a_failing_cache_ends_a_read() {
    let state = GetState::<()>::start::<&str>().state;
    let step = state.step(GetEvent::Cache(Err("pool")));
    assert!(matches!(step.action, GetAction::Return(Err("pool"))));
    let state = GetState::<()>::start::<&str>().state;
    let state = state.step(GetEvent::<(), &str>::Cache(Ok(None))).state;
    let state = state.step(GetEvent::<(), &str>::Permit(())).state;
    let step = state.step(GetEvent::Cache(Err("again")));
    assert!(matches!(step.action, GetAction::Return(Err("again"))));
}

#[test]
fn a_failing_blobstore_ends_a_read_or_a_write() {
    let state = GetState::<u8>::Reading(Some(1));
    let step = state.step(GetEvent::<u8, &str>::Blob(Err("down")));
    assert!(matches!(step.action, GetAction::Return(Err("down"))));
    let bytes = BlobstoreBytes(Bytes::from_static(b"x"));
    let step = PutState::Writing(1u8, bytes).step(PutEvent::Written(Err("down")));
    assert!(matches!(step.action, PutAction::Return(Err("down"))));
    let next = PresentState::Asking.step(PresentEvent::Exists(Err("down")));
    assert!(matches!(next.1, PresentAction::Return(Err("down"))));
}

#[test]
fn a_failing_presence_pool_is_taken_for_not_known() {
    let bytes = BlobstoreBytes(Bytes::from_static(b"x"));
    let state = PutState::<u8>::start::<&str>(bytes).state;
    let step = state.step(PutEvent::Known(Err("pool")));
    assert!(matches!(step.action, PutAction::AcquirePermit));
    let step = step.state.step(PutEvent::<u8, &str>::Permit(1));
    assert!(matches!(step.action, PutAction::CheckPresence));
    let step = step.state.step(PutEvent::Known(Err("pool")));
    assert!(matches!(step.action, PutAction::WriteBlobstore(_)));
    let next = PresentState::Checking.step(PresentEvent::Known(Err("pool")));
    assert!(matches!(next.1, PresentAction::AskBlobstore));
}

#[test]
fn a_write_of_a_known_blob_is_counted_and_over() {
    let bytes = BlobstoreBytes(Bytes::from_static(b"x"));
    let step = PutState::<u8>::start::<()>(bytes)
        .state
        .step(PutEvent::<u8, ()>::Known(Ok(true)));
    assert_eq!(step.counter, Some(PerfCounterType::BlobPutsDeduplicated));
    assert!(matches!(step.action, PutAction::Return(Ok(()))));
}

#[test]
fn an_entry_that_the_cache_does_not_take_is_replaced() {
    let (state, action) = StoreState::set_in_cache::<&str>(data_of(b"blob"));
    assert!(matches!(action, StoreAction::SetPresent(ref marker) if &marker[..] == b"P"));
    let (state, action) = state.step(StoreEvent::<&str>::Taken(Ok(false)));
    assert!(matches!(action, StoreAction::Encode(_, 4_193_280)));
    let (state, _) = state.step(StoreEvent::<&str>::Encoded(Ok(Bytes::from_static(b"e"))));
    let (state, action) = state.step(StoreEvent::<&str>::Filtered(true));
    assert!(matches!(action, StoreAction::SetBlob(Entry::Stored(_))));
    let (state, action) = state.step(StoreEvent::<&str>::Taken(Err("full")));
    assert!(matches!(action, StoreAction::SetBlob(Entry::NotStorable(_))));
    let (_, action) = state.step(StoreEvent::Taken(Err("down")));
    assert!(matches!(action, StoreAction::Return(Err("down"))));
}

#[test]
fn a_key_that_cannot_be_marked_is_not_cached() {
    let (state, _) = StoreState::set_in_cache::<&str>(data_of(b"blob"));
    let (_, action) = state.step(StoreEvent::Taken(Err("down")));
    assert!(matches!(action, StoreAction::Return(Err("down"))));
}
