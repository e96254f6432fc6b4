use std::collections::HashMap;

use bytes::{Buf, Bytes};
use mononoke::nonzero::NonZeroUsize;
use mononoke::sharded::cache_key::CacheKey;
use mononoke::sharded::counters::PerfCounterType;
use mononoke::sharded::data::{BlobstoreBytes, BlobstoreGetData, BlobstoreMetadata};
use mononoke::sharded::frame::{get_from_cache, known_to_be_present_in_blobstore, Entry};
use mononoke::sharded::get::{GetAction, GetEvent, GetState};
use mononoke::sharded::inner::{AllowAll, CacheFilter, Inner, Rejected};
use mononoke::sharded::present::{PresentAction, PresentEvent, PresentState};
use mononoke::sharded::put::{PutAction, PutEvent, PutState};
use mononoke::sharded::store::{StoreAction, StoreEvent, StoreState};
use tokio::sync::SemaphorePermit;

/// What the blobstore underneath holds of a key.
#[derive(Default)]
struct Blob {
    puts: u64,
    gets: u64,
    data: Option<Vec<u8>>,
}

/// Everything around the layer: the blobstore, the cache pools and the counters.
struct World {
    blobs: HashMap<String, Blob>,
    blob_pool: HashMap<Vec<u8>, Vec<u8>>,
    presence_pool: HashMap<Vec<u8>, Vec<u8>>,
    counters: Vec<PerfCounterType>,
    /// Reads of the blobstore wait until they are released.
    held: bool,
    /// The cache pools keep nothing.
    forgetful: bool,
}

impl World {
    fn new() -> Self {
        World {
            blobs: HashMap::new(),
            blob_pool: HashMap::new(),
            presence_pool: HashMap::new(),
            counters: Vec::new(),
            held: false,
            forgetful: false,
        }
    }

    fn blob(&mut self, key: &str) -> &mut Blob {
        self.blobs.entry(key.to_string()).or_default()
    }

    fn count(&self, counter: PerfCounterType) -> usize {
        self.counters.iter().filter(|c| **c == counter).count()
    }
}

struct RejectAll;

impl CacheFilter for RejectAll {
    fn check(&self, _: &Bytes) -> Result<(), Rejected> {
        Err(Rejected)
    }
}

type Layer<F> = Inner<(), (), F>;

fn layer<F>(filter: F) -> Layer<F> {
    Inner::new((), (), (), NonZeroUsize::new(2).unwrap(), filter)
}

fn bytes_of(value: &[u8]) -> BlobstoreBytes {
    BlobstoreBytes(Bytes::from(value.to_vec()))
}

fn data_of(value: &[u8]) -> BlobstoreGetData {
    BlobstoreGetData::new(BlobstoreMetadata::new(None), bytes_of(value))
}

fn encode(data: &BlobstoreGetData, limit: u64) -> Result<Bytes, ()> {
    let mut encoded = vec![b'#'];
    encoded.extend_from_slice(&data.as_bytes().0);
    if encoded.len() as u64 > limit {
        return Err(());
    }
    Ok(Bytes::from(encoded))
}

fn decode(encoded: Bytes) -> Result<BlobstoreGetData, ()> {
    if encoded.is_empty() || encoded[0] != b'#' {
        return Err(());
    }
    Ok(data_of(&encoded[1..]))
}

fn entry_bytes(entry: Entry) -> Vec<u8> {
    match entry {
        Entry::Stored(mut chained) => chained.to_bytes().to_vec(),
        Entry::NotStorable(bytes) => bytes.to_vec(),
    }
}

fn cache_key(key: &str) -> Vec<u8> {
    CacheKey::from_key(key).as_ref().to_vec()
}

fn set_in_cache<F: CacheFilter>(
    world: &mut World,
    layer: &Layer<F>,
    key: &str,
    data: BlobstoreGetData,
) -> Result<(), String> {
    let (mut state, mut action) = StoreState::set_in_cache::<String>(data);
    loop {
        let event = match action {
            StoreAction::SetPresent(marker) => {
                if !world.forgetful {
                    world.presence_pool.insert(cache_key(key), marker.to_vec());
                }
                StoreEvent::Taken(Ok(true))
            }
            StoreAction::Encode(blob, limit) => StoreEvent::Encoded(encode(&blob, limit)),
            StoreAction::Filter(encoded) => {
                StoreEvent::Filtered(layer.cache_filter.check(&encoded).is_ok())
            }
            StoreAction::SetBlob(entry) => {
                if !world.forgetful {
                    world.blob_pool.insert(cache_key(key), entry_bytes(entry));
                }
                StoreEvent::Taken(Ok(true))
            }
            StoreAction::Return(result) => return result,
        };
        assert!(state.expects(&event));
        let next = state.step(event);
        state = next.0;
        action = next.1;
    }
}

fn known(world: &World, key: &str) -> Result<bool, String> {
    let reply = world.presence_pool.get(&cache_key(key));
    known_to_be_present_in_blobstore(Ok(reply.map(|entry| Bytes::from(entry.clone()))))
}

/// A read on its way.
struct Reader<'a> {
    state: Option<GetState<SemaphorePermit<'a>>>,
    action: Option<GetAction<BlobstoreGetData, String>>,
    /// The blobstore was asked, and has not answered yet.
    at_blobstore: bool,
    released: bool,
    result: Option<Result<Option<BlobstoreGetData>, String>>,
}

impl<'a> Reader<'a> {
    fn new() -> Self {
        let step = GetState::start();
        Reader {
            state: Some(step.state),
            action: Some(step.action),
            at_blobstore: false,
            released: false,
            result: None,
        }
    }

    /// Goes on until it has to wait. Tells whether it got anywhere.
    fn run<F: CacheFilter>(&mut self, world: &mut World, layer: &'a Layer<F>, key: &str) -> bool {
        let mut moved = false;
        while let Some(action) = self.action.take() {
            let event = match action {
                GetAction::LookUpCache => {
                    let entry = world.blob_pool.get(&cache_key(key));
                    let reply: Result<Option<Bytes>, String> =
                        Ok(entry.map(|e| Bytes::from(e.clone())));
                    GetEvent::Cache(
                        get_from_cache(reply, decode)
                            .map_err(|e| e.message().unwrap_or("pool").to_string()),
                    )
                }
                GetAction::AcquirePermit => match layer.read_shards.semaphore_for(key).try_acquire()
                {
                    Ok(permit) => GetEvent::Permit(permit),
                    Err(_) => {
                        self.action = Some(GetAction::AcquirePermit);
                        return moved;
                    }
                },
                GetAction::ReadBlobstore => {
                    if !self.at_blobstore {
                        self.at_blobstore = true;
                        world.blob(key).gets += 1;
                        moved = true;
                    }
                    if world.held && !self.released {
                        self.action = Some(GetAction::ReadBlobstore);
                        return moved;
                    }
                    self.at_blobstore = false;
                    GetEvent::Blob(Ok(world.blob(key).data.as_ref().map(|d| data_of(d))))
                }
                GetAction::SetInCache(data) => {
                    let _ = set_in_cache(world, layer, key, data);
                    GetEvent::Cached
                }
                GetAction::Return(result) => {
                    self.result = Some(result);
                    self.state = None;
                    return true;
                }
            };
            moved = true;
            let state = self.state.take().unwrap();
            assert!(state.expects(&event));
            let step = state.step(event);
            world.counters.extend(step.counter);
            self.state = Some(step.state);
            self.action = Some(step.action);
        }
        moved
    }
}

/// Runs the readers, one after the other and again, until none gets anywhere.
fn run_readers<'a, F: CacheFilter>(
    readers: &mut Vec<Reader<'a>>,
    world: &mut World,
    layer: &'a Layer<F>,
    key: &str,
) {
    let mut moved = true;
    while moved {
        moved = false;
        for reader in readers.iter_mut() {
            moved = reader.run(world, layer, key) || moved;
        }
    }
}

/// Reads the key so many times at once.
fn get<F: CacheFilter>(
    world: &mut World,
    layer: &Layer<F>,
    key: &str,
    times: usize,
) -> Vec<Option<Vec<u8>>> {
    let mut readers: Vec<Reader> = (0..times).map(|_| Reader::new()).collect();
    run_readers(&mut readers, world, layer, key);
    readers
        .into_iter()
        .map(|r| r.result.unwrap().unwrap())
        .map(|data| data.map(|d| d.as_bytes().0.to_vec()))
        .collect()
}

/// Writes the key so many times at once: every write begins before any goes on.
fn put<F: CacheFilter>(
    world: &mut World,
    layer: &Layer<F>,
    key: &str,
    value: &[u8],
    times: usize,
) {
    let mut writers: Vec<_> = (0..times)
        .map(|_| {
            let step = PutState::<SemaphorePermit>::start::<String>(bytes_of(value));
            Some((step.state, step.action))
        })
        .collect();
    while writers.iter().any(|w| w.is_some()) {
        for writer in writers.iter_mut() {
            let (state, action) = match writer.take() {
                Some(writer) => writer,
                None => continue,
            };
            let event = match action {
                PutAction::CheckPresence => PutEvent::Known(known(world, key)),
                PutAction::AcquirePermit => {
                    match layer.write_shards.semaphore_for(key).try_acquire() {
                        Ok(permit) => PutEvent::Permit(permit),
                        Err(_) => {
                            *writer = Some((state, PutAction::AcquirePermit));
                            continue;
                        }
                    }
                }
                PutAction::WriteBlobstore(bytes) => {
                    let slice = layer.write_shards.semaphore_for(key);
                    assert_eq!(slice.available_permits(), 0);
                    let blob = world.blob(key);
                    blob.puts += 1;
                    blob.data = Some(bytes.0.to_vec());
                    PutEvent::Written(Ok(()))
                }
                PutAction::SetInCache(data) => {
                    let _ = set_in_cache(world, layer, key, data);
                    PutEvent::Cached
                }
                PutAction::Return(result) => {
                    result.unwrap();
                    continue;
                }
            };
            assert!(state.expects(&event));
            let step = state.step(event);
            world.counters.extend(step.counter);
            *writer = Some((step.state, step.action));
        }
    }
}

fn is_present(world: &mut World, key: &str) -> bool {
    let (mut state, mut action) = PresentState::start::<String>();
    loop {
        let event = match action {
            PresentAction::CheckPresence => PresentEvent::Known(known(world, key)),
            PresentAction::AskBlobstore => {
                PresentEvent::Exists(Ok(world.blob(key).data.is_some()))
            }
            PresentAction::SetPresent(marker) => {
                world.presence_pool.insert(cache_key(key), marker.to_vec());
                PresentEvent::Marked
            }
            PresentAction::Return(result) => return result.unwrap(),
        };
        assert!(state.expects(&event));
        let next = state.step(event);
        state = next.0;
        action = next.1;
    }
}

#[test]
fn test_dedupe_reads() {
    let mut world = World::new();
    let layer = layer(AllowAll);
    get(&mut world, &layer, "foo", 10);
    assert_eq!(world.blob("foo").gets, 10);
    world.blob("foo").data = Some(b"foo".to_vec());
    get(&mut world, &layer, "foo", 10);
    assert_eq!(world.blob("foo").gets, 11);
    for _ in 0..10 {
        assert!(is_present(&mut world, "foo"));
    }
    assert_eq!(world.blob("foo").gets, 11);
}

#[test]
fn test_cache_read() {
    let mut world = World::new();
    let layer = layer(AllowAll);
    world.blob("foo").data = Some(b"foo".to_vec());
    let v1 = get(&mut world, &layer, "foo", 1).remove(0);
    let v2 = get(&mut world, &layer, "foo", 1).remove(0);
    assert_eq!(world.blob("foo").gets, 1);
    assert_eq!(v1.unwrap(), b"foo".to_vec());
    assert_eq!(v2.unwrap(), b"foo".to_vec());
    assert_eq!(world.count(PerfCounterType::CachelibMisses), 1);
    assert_eq!(world.count(PerfCounterType::CachelibHits), 1);
}

#[test]
fn test_read_after_write() {
    let mut world = World::new();
    let layer = layer(AllowAll);
    put(&mut world, &layer, "foo", b"foo", 1);
    let v1 = get(&mut world, &layer, "foo", 1).remove(0);
    assert_eq!(world.blob("foo").gets, 0);
    assert_eq!(v1.unwrap(), b"foo".to_vec());
}

#[test]
fn test_do_not_serialize_not_storable() {
    let mut world = World::new();
    let layer = layer(RejectAll);
    world.blob("foo").data = Some(b"foo".to_vec());
    world.held = true;

    // The first read goes alone, since the blob is not known yet not to be cacheable.
    let mut early: Vec<Reader> = (0..10).map(|_| Reader::new()).collect();
    run_readers(&mut early, &mut world, &layer, "foo");
    assert_eq!(early.iter().filter(|r| r.at_blobstore).count(), 1);
    for reader in early.iter_mut().filter(|r| r.at_blobstore) {
        reader.released = true;
    }

    // Now that it is known, the other ones go together.
    run_readers(&mut early, &mut world, &layer, "foo");
    assert_eq!(early.iter().filter(|r| r.at_blobstore).count(), 9);

    // So do reads that begin now, which never wait for a permit.
    let mut late: Vec<Reader> = (0..10).map(|_| Reader::new()).collect();
    run_readers(&mut late, &mut world, &layer, "foo");
    assert_eq!(late.iter().filter(|r| r.at_blobstore).count(), 10);

    world.held = false;
    run_readers(&mut early, &mut world, &layer, "foo");
    run_readers(&mut late, &mut world, &layer, "foo");
    for reader in early.into_iter().chain(late) {
        let data = reader.result.unwrap().unwrap().unwrap();
        assert_eq!(data.as_bytes().0.to_vec(), b"foo".to_vec());
    }
    assert_eq!(world.blob("foo").gets, 20);
}

#[test]
fn test_dedupe_writes() {
    let mut world = World::new();
    let layer = layer(AllowAll);
    put(&mut world, &layer, "foo", b"foo", 10);
    assert_eq!(world.blob("foo").puts, 1);
    assert_eq!(world.blob("foo").data, Some(b"foo".to_vec()));
    assert_eq!(world.count(PerfCounterType::BlobPutsDeduplicated), 9);
    get(&mut world, &layer, "foo", 10);
    assert_eq!(world.blob("foo").gets, 0);
}

#[test]
fn waiting_reads_are_answered_by_the_cache() {
    let mut world = World::new();
    let layer = layer(AllowAll);
    world.blob("foo").data = Some(b"foo".to_vec());
    world.held = true;
    let mut readers: Vec<Reader> = (0..5).map(|_| Reader::new()).collect();
    run_readers(&mut readers, &mut world, &layer, "foo");
    assert_eq!(readers.iter().filter(|r| r.at_blobstore).count(), 1);
    world.held = false;
    run_readers(&mut readers, &mut world, &layer, "foo");
    assert_eq!(world.blob("foo").gets, 1);
    assert_eq!(world.count(PerfCounterType::CachelibMisses), 5);
    assert_eq!(world.count(PerfCounterType::BlobGetsDeduplicated), 4);
    assert_eq!(world.count(PerfCounterType::CachelibHits), 0);
}

#[test]
fn a_blob_that_is_too_large_is_returned_all_the_same() {
    let mut world = World::new();
    let layer = layer(AllowAll);
    let large = vec![7u8; 4 * 1024 * 1024];
    world.blob("foo").data = Some(large.clone());
    assert_eq!(get(&mut world, &layer, "foo", 1), vec![Some(large.clone())]);
    assert_eq!(world.blob_pool[&b"vsb.foo".to_vec()], vec![0]);
    assert_eq!(world.presence_pool[&b"vsb.foo".to_vec()], b"P".to_vec());
    assert_eq!(get(&mut world, &layer, "foo", 1), vec![Some(large)]);
    assert_eq!(world.blob("foo").gets, 2);
}

#[test]
fn a_spoilt_entry_is_an_error() {
    let mut world = World::new();
    let layer = layer(AllowAll);
    world.blob_pool.insert(b"vsb.foo".to_vec(), vec![9, 9]);
    world.blob_pool.insert(b"vsb.bar".to_vec(), vec![1, 9]);
    let mut reader = Reader::new();
    reader.run(&mut world, &layer, "foo");
    assert_eq!(reader.result.unwrap().err().unwrap(), "Invalid prefix");
    let mut reader = Reader::new();
    reader.run(&mut world, &layer, "bar");
    assert_eq!(reader.result.unwrap().err().unwrap(), "Could not decode");
}

#[test]
fn presence_is_remembered() {
    let mut world = World::new();
    assert!(!is_present(&mut world, "foo"));
    assert!(world.presence_pool.is_empty());
    world.blob("foo").data = Some(b"foo".to_vec());
    assert!(is_present(&mut world, "foo"));
    world.blob("foo").data = None;
    assert!(is_present(&mut world, "foo"));
}

#[test]
fn reads_are_serialized_even_where_the_cache_forgets() {
    let mut world = World::new();
    let layer = layer(AllowAll);
    world.blob("foo").data = Some(b"foo".to_vec());
    world.held = true;
    world.forgetful = true;
    let mut readers: Vec<Reader> = (0..4).map(|_| Reader::new()).collect();
    for _ in 0..4 {
        run_readers(&mut readers, &mut world, &layer, "foo");
        let mut waiting: Vec<&mut Reader> =
            readers.iter_mut().filter(|r| r.at_blobstore).collect();
        assert_eq!(waiting.len(), 1);
        waiting[0].released = true;
    }
    run_readers(&mut readers, &mut world, &layer, "foo");
    assert!(readers.iter().all(|r| r.result.is_some()));
    assert_eq!(world.blob("foo").gets, 4);
}

#[test]
fn a_forgetful_cache_lets_every_write_through() {
    let mut world = World::new();
    let layer = layer(AllowAll);
    world.forgetful = true;
    put(&mut world, &layer, "foo", b"foo", 4);
    assert_eq!(world.blob("foo").puts, 4);
    assert_eq!(layer.write_shards.semaphore_for("foo").available_permits(), 1);
}

#[test]
fn a_write_is_spared_once_presence_is_learnt() {
    let mut world = World::new();
    let layer = layer(AllowAll);
    world.blob("foo").data = Some(b"foo".to_vec());
    get(&mut world, &layer, "foo", 1);
    put(&mut world, &layer, "foo", b"foo", 1);
    assert_eq!(world.blob("foo").puts, 0);
    world.blob("bar").data = Some(b"bar".to_vec());
    assert!(is_present(&mut world, "bar"));
    put(&mut world, &layer, "bar", b"bar", 1);
    assert_eq!(world.blob("bar").puts, 0);
    assert_eq!(world.count(PerfCounterType::BlobPutsDeduplicated), 2);
}

#[test]
fn a_read_answers_as_the_blobstore_does() {
    let mut world = World::new();
    let layer = layer(AllowAll);
    assert_eq!(get(&mut world, &layer, "foo", 2), vec![None, None]);
    world.blob("foo").data = Some(b"foo".to_vec());
    let expected = Some(b"foo".to_vec());
    assert_eq!(get(&mut world, &layer, "foo", 1), vec![expected.clone()]);
    assert_eq!(get(&mut world, &layer, "foo", 1), vec![expected]);
}
