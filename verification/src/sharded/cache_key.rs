//! The keys under which the layer caches.

use vstd::prelude::*;
use vstd::string::*;

verus! {

/// The key of a blob in the cache pools.
#[derive(Debug)]
pub struct CacheKey(pub String);

/// The cache key of a blobstore key.
pub open spec fn cache_key_of(key: Seq<char>) -> Seq<char> {
    "vsb."@ + key
}

impl CacheKey {
    /// The key under which the blob with this blobstore key is cached.
    pub fn from_key(key: &str) -> (cache_key: CacheKey)
        ensures
            cache_key.0@ == "vsb."@ + key@,
            cache_key.0@ == cache_key_of(key@),
    {
        let mut text = "vsb.".to_owned();
        text.append(key);
        CacheKey(text)
    }

    /// The bytes of the key.
    pub fn as_ref(&self) -> (bytes: &[u8])
        ensures
            bytes@ == vstd::utf8::encode_utf8(self.0@),
    {
        self.0.as_str().as_bytes()
    }
}

/// Two blobstore keys never share a cache key.
pub proof fn cache_keys_are_distinct(a: Seq<char>, b: Seq<char>)
    requires
        cache_key_of(a) == cache_key_of(b),
    ensures
        a == b,
{
    let n = "vsb."@.len() as int;
    assert(a =~= cache_key_of(a).skip(n));
    assert(b =~= cache_key_of(b).skip(n));
}

/// A cache key is a prefix that is the same for all keys, and behind it the whole
/// blobstore key.
pub proof fn a_cache_key_holds_the_whole_key(key: Seq<char>)
    ensures
        cache_key_of(key).take(4) == seq!['v', 's', 'b', '.'],
        cache_key_of(key).skip(4) == key,
{
    reveal_strlit("vsb.");
    assert(cache_key_of(key).take(4) =~= seq!['v', 's', 'b', '.']);
    assert(cache_key_of(key).skip(4) =~= key);
}

} // verus!
