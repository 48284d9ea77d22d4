use vstd::prelude::*;

use vstd::string::StringSliceAdditionalSpecFns;

use crate::text::{hex_spec, is_lower_hex, join_path, join_path_spec, lemma_hex_digits, lemma_hex_injective, to_hex_lower};

verus! {

/// The BLAKE3 digest of a byte string, as `blake3::hash` computes it.
pub uninterp spec fn blake3_digest(input: Seq<u8>) -> Seq<u8>;

/// `blake3::hash`: the 32-byte BLAKE3 digest of `input`.  The contract names the
/// digest and states its length (`blake3::OUT_LEN`); nothing else of the hash
/// function is stated.
#[verifier::external_body]
fn blake3_hash(input: &[u8]) -> (digest: Vec<u8>)
    ensures
        digest@ == blake3_digest(input@),
        digest@.len() == 32,
{
    blake3::hash(input).as_bytes().to_vec()
}

/// The name of the sub-directory of the user's cache directory that holds the entries.
pub open spec fn cache_subdir() -> Seq<char> {
    "ai-assist"@
}

/// The directory of the cache under the user's cache directory (`.` when there is none).
pub open spec fn cache_dir_spec(base: Option<Seq<char>>) -> Seq<char> {
    join_path_spec(
        match base {
            Some(b) => b,
            None => "."@,
        },
        cache_subdir(),
    )
}

/// The file name under which a key is stored: the lower-case hexadecimal
/// BLAKE3 digest of the key's UTF-8 bytes.
pub open spec fn entry_name_spec(key_bytes: Seq<u8>) -> Seq<char> {
    hex_spec(blake3_digest(key_bytes))
}

/// A cache of answers kept as one file per key in a directory.
#[derive(Clone, Debug, PartialEq)]
pub struct Cache {
    dir: String,
}

impl Cache {
    /// The directory that holds the entries.
    pub closed spec fn dir_view(&self) -> Seq<char> {
        self.dir@
    }

    /// The cache under the user's cache directory `base` (or `.` when there is none).
    pub fn new(base: Option<String>) -> (c: Cache)
        ensures
            c.dir_view() == cache_dir_spec(
                match base {
                    Some(b) => Some(b@),
                    None => None,
                },
            ),
    {
        let root = match base {
            Some(b) => b,
            None => String::from_str("."),
        };
        Cache { dir: join_path(root.as_str(), "ai-assist") }
    }

    /// The directory that holds the entries.
    pub fn dir(&self) -> (d: &str)
        ensures
            d@ == self.dir_view(),
    {
        self.dir.as_str()
    }

    /// The file name of the entry for `key`.
    pub fn entry_name(key: &str) -> (name: String)
        ensures
            name@ == entry_name_spec(key.spec_bytes()),
            name@.len() == 64,
            is_lower_hex(name@),
    {
        let digest = blake3_hash(key.as_bytes());
        proof {
            lemma_hex_digits(digest@);
        }
        to_hex_lower(digest.as_slice())
    }

    /// The path of the file that holds the entry for `key`; `get` reads it and `put` writes it.
    pub fn entry_path(&self, key: &str) -> (path: String)
        ensures
            path@ == join_path_spec(self.dir_view(), entry_name_spec(key.spec_bytes())),
    {
        let name = Cache::entry_name(key);
        join_path(self.dir.as_str(), name.as_str())
    }
}

/// Keys with different digests are stored under different names.
pub proof fn lemma_distinct_digests_distinct_entries(a: Seq<u8>, b: Seq<u8>)
    requires
        blake3_digest(a) != blake3_digest(b),
    ensures
        entry_name_spec(a) != entry_name_spec(b),
{
    if entry_name_spec(a) == entry_name_spec(b) {
        lemma_hex_injective(blake3_digest(a), blake3_digest(b));
    }
}

/// Every entry lies directly inside the cache directory: its path is the
/// directory, a separator where one is needed, and a name without separators.
pub proof fn lemma_entry_inside_dir(dir: Seq<char>, key_bytes: Seq<u8>)
    ensures
        ({
            let name = entry_name_spec(key_bytes);
            &&& !name.contains('/')
            &&& join_path_spec(dir, name) == if dir.len() == 0 || dir.last() == '/' {
                dir + name
            } else {
                dir + seq!['/'] + name
            }
        }),
{
    let name = entry_name_spec(key_bytes);
    lemma_hex_digits(blake3_digest(key_bytes));
    if name.contains('/') {
        let k = choose|k: int| 0 <= k < name.len() && name[k] == '/';
        assert('0' <= name[k] <= '9' || 'a' <= name[k] <= 'f');
    }
    if name.len() > 0 {
        assert(name[0] != '/');
    }
}

} // verus!
