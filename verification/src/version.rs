//! The keyring and the derivation of the stream key from a file name.

use crate::errors::{ErrorKind, ErrorView, GICSError, GICSResult};
use crate::text::{cut_at_dot, DOT};
use vstd::prelude::*;
use vstd::string::StringExecFns;
use vstd::utf8::{decode_utf8, encode_utf8};

verus! {

/// The key that stands for a sum whose low 56 bits are all zero.
pub const ZERO_KEY: u64 = 0x100_0000_0000_0000;

/// One entry of the keyring: a build, the videos it covers, and its key.
pub struct Data {
    version: String,
    videos: Vec<String>,
    key: u64,
}

/// The mathematical content of a [`Data`]: names are held as their UTF-8
/// bytes.
pub ghost struct DataView {
    pub version: Seq<u8>,
    pub videos: Seq<Seq<u8>>,
    pub key: u64,
}

impl View for Data {
    type V = DataView;

    closed spec fn view(&self) -> DataView {
        DataView {
            version: encode_utf8(self.version@),
            videos: Seq::new(self.videos@.len(), |i: int| encode_utf8(self.videos@[i]@)),
            key: self.key,
        }
    }
}

impl DataView {
    /// Whether the entry lists the video `name`.
    pub open spec fn lists(self, name: Seq<u8>) -> bool {
        exists|i: int| 0 <= i < self.videos.len() && self.videos[i] == name
    }
}

/// The views of a slice of keyring entries.
pub open spec fn entry_views(entries: Seq<Data>) -> Seq<DataView> {
    Seq::new(entries.len(), |i: int| entries[i]@)
}

/// The names of the three intro cutscenes.
pub open spec fn is_intro(name: Seq<u8>) -> bool {
    ||| name == encode_utf8("MDAQ001_OPNew_Part1.usm"@)
    ||| name == encode_utf8("MDAQ001_OPNew_Part2_PlayerBoy.usm"@)
    ||| name == encode_utf8("MDAQ001_OPNew_Part2_PlayerGirl.usm"@)
}

/// The name that stands for all three intro cutscenes.
pub open spec fn intro_name() -> Seq<u8> {
    encode_utf8("MDAQ001_OP"@)
}

/// The number of bytes before the first full stop of `name`, or its length
/// when it holds none.
pub open spec fn stem_len(name: Seq<u8>) -> nat
    decreases name.len(),
{
    if name.len() == 0 || name[0] == DOT {
        0
    } else {
        1 + stem_len(name.drop_first())
    }
}

/// The part of `name` before its first full stop.
pub open spec fn basename(name: Seq<u8>) -> Seq<u8> {
    name.take(stem_len(name) as int)
}

/// The bytes folded by `acc <- 3 acc + byte`, modulo `2^64`.
pub open spec fn folded_sum(bytes: Seq<u8>) -> int
    decreases bytes.len(),
{
    if bytes.len() == 0 {
        0
    } else {
        (3 * folded_sum(bytes.drop_last()) + bytes.last()) % 0x1_0000_0000_0000_0000
    }
}

/// A sum reduced to a key: its low 56 bits, or `2^56` when these are zero.
pub open spec fn reduced(sum: int) -> int {
    if sum % 0x100_0000_0000_0000 == 0 {
        0x100_0000_0000_0000
    } else {
        sum % 0x100_0000_0000_0000
    }
}

/// The key that the file name alone gives. The three intro cutscenes share
/// one name for this purpose.
pub open spec fn filename_key(name: Seq<u8>) -> int {
    reduced(
        folded_sum(
            basename(
                if is_intro(name) {
                    intro_name()
                } else {
                    name
                },
            ),
        ),
    )
}

/// The index of the first keyring entry at or after `from` that lists the
/// video `name`, or the number of entries when none does.
pub open spec fn first_entry(entries: Seq<DataView>, name: Seq<u8>, from: int) -> int
    decreases entries.len() - from,
{
    if from < 0 || from >= entries.len() {
        entries.len() as int
    } else if entries[from].lists(name) {
        from
    } else {
        first_entry(entries, name, from + 1)
    }
}

/// The key of the first keyring entry that lists the part of `name` before
/// its first full stop.
pub open spec fn version_key(name: Seq<u8>, entries: Seq<DataView>) -> Option<u64> {
    let i = first_entry(entries, basename(name), 0);
    if i < entries.len() {
        Some(entries[i].key)
    } else {
        None
    }
}

/// The 64-bit key of a file: the file-name key and the version key added and
/// reduced.
pub open spec fn combined_key(name: Seq<u8>, entries: Seq<DataView>) -> Option<int> {
    match version_key(name, entries) {
        None => None,
        Some(k) => Some(reduced(filename_key(name) + k)),
    }
}

/// The two halves of a 64-bit key: the upper 32 bits, then the lower.
pub open spec fn halves(key: int) -> (u32, u32) {
    ((key / 0x1_0000_0000) as u32, (key % 0x1_0000_0000) as u32)
}

/// The error, of the given kind, for a file name whose video no keyring
/// entry lists.
pub open spec fn no_key(name: Seq<u8>, kind: ErrorKind) -> ErrorView {
    ErrorView {
        kind,
        message: "Unable to find decryption key for \""@ + decode_utf8(basename(name))
            + "\" in version keys file"@,
    }
}

/// The error for a missing keyring.
pub open spec fn missing_key() -> ErrorView {
    ErrorView {
        kind: ErrorKind::MissingKey,
        message: "No key file provided and at least one of the keys missing : unable to extract keys."@,
    }
}

/// How many bytes of `name` come before its first full stop.
fn stem_length(name: &[u8]) -> (n: usize)
    ensures
        n == stem_len(name@),
        n <= name.len(),
{
    let mut i: usize = 0;
    proof {
        assert(name@.skip(0) =~= name@);
    }
    while i < name.len() && name[i] != DOT
        invariant
            i <= name.len(),
            stem_len(name@) == i + stem_len(name@.skip(i as int)),
        decreases name.len() - i,
    {
        proof {
            assert(name@.skip(i as int).drop_first() =~= name@.skip(i + 1));
        }
        i += 1;
    }
    i
}

/// The part of `filename` before its first full stop.
fn stem_of<'a>(filename: &'a str) -> (stem: &'a str)
    ensures
        encode_utf8(stem@) == basename(encode_utf8(filename@)),
        stem@ == decode_utf8(basename(encode_utf8(filename@))),
{
    let n = stem_length(filename.as_bytes());
    proof {
        lemma_stem_ends_at_dot(encode_utf8(filename@));
    }
    cut_at_dot(filename, n)
}

/// The stem of a name ends at a full stop or at the end of the name.
pub proof fn lemma_stem_ends_at_dot(name: Seq<u8>)
    ensures
        stem_len(name) <= name.len(),
        stem_len(name) < name.len() ==> name[stem_len(name) as int] == DOT,
        forall|i: int| 0 <= i < stem_len(name) ==> name[i] != DOT,
    decreases name.len(),
{
    if name.len() > 0 && name[0] != DOT {
        lemma_stem_ends_at_dot(name.drop_first());
        assert forall|i: int| 0 <= i < stem_len(name) implies name[i] != DOT by {
            if i > 0 {
                assert(name.drop_first()[i - 1] == name[i]);
            }
        }
    }
}

/// Whether two byte strings are equal.
fn same_bytes(a: &[u8], b: &[u8]) -> (r: bool)
    ensures
        r == (a@ == b@),
{
    if a.len() != b.len() {
        return false;
    }
    let mut i: usize = 0;
    while i < a.len()
        invariant
            i <= a.len(),
            a.len() == b.len(),
            forall|k: int| 0 <= k < i ==> a@[k] == b@[k],
        decreases a.len() - i,
    {
        if a[i] != b[i] {
            return false;
        }
        i += 1;
    }
    assert(a@ =~= b@);
    true
}

impl Data {
    /// A keyring entry.
    pub fn new(version: String, videos: Vec<String>, key: u64) -> (d: Self)
        ensures
            d@.version == encode_utf8(version@),
            d@.videos == Seq::new(videos@.len(), |i: int| encode_utf8(videos@[i]@)),
            d@.key == key,
    {
        Self { version, videos, key }
    }

    pub fn get_key(&self) -> (k: u64)
        ensures
            k == self@.key,
    {
        self.key
    }

    /// Whether the entry lists the video `name`.
    pub fn contains_video(&self, name: &str) -> (r: bool)
        ensures
            r == self@.lists(encode_utf8(name@)),
    {
        self.lists_bytes(name.as_bytes())
    }

    /// Whether the entry lists the video whose name has the bytes `name`.
    pub fn lists_bytes(&self, name: &[u8]) -> (r: bool)
        ensures
            r == self@.lists(name@),
    {
        let mut i: usize = 0;
        while i < self.videos.len()
            invariant
                i <= self.videos.len(),
                forall|k: int| 0 <= k < i ==> self@.videos[k] != name@,
            decreases self.videos.len() - i,
        {
            assert(self@.videos[i as int] == encode_utf8(self.videos@[i as int]@));
            if same_bytes(self.videos[i].as_str().as_bytes(), name) {
                return true;
            }
            i += 1;
        }
        false
    }
}

/// The key pair `(high, low)` of the file `filename`: the explicit pair when
/// both `key1` (low) and `key2` (high) are given, and the pair derived from
/// the file name and the keyring otherwise.
pub fn definite_version_keys(
    filename: &str,
    version_keys: Option<&[Data]>,
    key1: Option<u32>,
    key2: Option<u32>,
) -> (r: GICSResult<(u32, u32)>)
    ensures
        key1 is Some && key2 is Some ==> r == Ok::<(u32, u32), GICSError>((key2->0, key1->0)),
        !(key1 is Some && key2 is Some) ==> match version_keys {
            None => r matches Err(e) && e@ == missing_key(),
            Some(entries) => match combined_key(
                encode_utf8(filename@),
                entry_views(entries@),
            ) {
                Some(k) => r == Ok::<(u32, u32), GICSError>(halves(k)),
                None => r matches Err(e) && e@ == no_key(
                    encode_utf8(filename@),
                    ErrorKind::MissingKey,
                ),
            },
        },
{
    match (key1, key2) {
        (Some(k1), Some(k2)) => Ok((k2, k1)),
        _ => match version_keys {
            None => Err(
                GICSError::with_kind(
                    ErrorKind::MissingKey,
                    "No key file provided and at least one of the keys missing : unable to extract keys.",
                ),
            ),
            Some(vkeys) => match find_version_keys(vkeys, filename) {
                Ok(pair) => Ok(pair),
                Err(e) => Err(GICSError::with_kind(ErrorKind::MissingKey, e.message())),
            },
        },
    }
}

/// The key pair `(high, low)` that the file name and the keyring give.
pub fn find_version_keys(version_keys: &[Data], file: &str) -> (r: GICSResult<(u32, u32)>)
    ensures
        match combined_key(encode_utf8(file@), entry_views(version_keys@)) {
            Some(k) => r == Ok::<(u32, u32), GICSError>(halves(k)),
            None => r matches Err(e) && e@ == no_key(encode_utf8(file@), ErrorKind::NoKeyForVideo),
        },
{
    match find_key(file, version_keys) {
        Ok(key) => Ok(split_key(key)),
        Err(e) => Err(e),
    }
}

/// The 64-bit key that the file name and the keyring give.
pub fn find_key(filename: &str, version_keys: &[Data]) -> (r: GICSResult<u64>)
    ensures
        match combined_key(encode_utf8(filename@), entry_views(version_keys@)) {
            Some(k) => r == Ok::<u64, GICSError>(k as u64) && 1 <= k <= ZERO_KEY,
            None => r matches Err(e) && e@ == no_key(
                encode_utf8(filename@),
                ErrorKind::NoKeyForVideo,
            ),
        },
{
    let key1: u64 = file_name_encryption_key(filename);
    let key2: u64 = match blk_encryption_key(filename, version_keys) {
        Ok(k) => k,
        Err(e) => {
            return Err(e);
        },
    };
    let sum: u64 = key1.wrapping_add(key2);
    proof {
        lemma_reduced_wraps(key1 as int, key2 as int);
    }
    Ok(
        if sum % ZERO_KEY == 0 {
            ZERO_KEY
        } else {
            sum % ZERO_KEY
        },
    )
}

/// Reducing a sum does not depend on whether the sum was first taken modulo
/// `2^64`.
proof fn lemma_reduced_wraps(a: int, b: int)
    requires
        0 <= a <= u64::MAX,
        0 <= b <= u64::MAX,
    ensures
        reduced(a + b) == reduced(
            if a + b > u64::MAX {
                a + b - 0x1_0000_0000_0000_0000
            } else {
                a + b
            },
        ),
        1 <= reduced(a + b) <= ZERO_KEY,
{
    assert(0x1_0000_0000_0000_0000int == 256 * 0x100_0000_0000_0000);
    if a + b > u64::MAX {
        assert((a + b - 256 * 0x100_0000_0000_0000) % 0x100_0000_0000_0000 == (a + b)
            % 0x100_0000_0000_0000) by {
            vstd::arithmetic::div_mod::lemma_mod_multiples_vanish(
                -256,
                (a + b) as int,
                0x100_0000_0000_0000,
            );
        }
    }
}

/// The key of the first keyring entry that lists the video.
pub fn blk_encryption_key(filename: &str, version_keys: &[Data]) -> (r: GICSResult<u64>)
    ensures
        match version_key(encode_utf8(filename@), entry_views(version_keys@)) {
            Some(k) => r == Ok::<u64, GICSError>(k),
            None => r matches Err(e) && e@ == no_key(
                encode_utf8(filename@),
                ErrorKind::NoKeyForVideo,
            ),
        },
{
    let video = stem_of(filename);
    let ghost stem = encode_utf8(video@);
    let ghost entries = entry_views(version_keys@);
    let mut i: usize = 0;
    while i < version_keys.len()
        invariant
            i <= version_keys.len(),
            entries == entry_views(version_keys@),
            stem == encode_utf8(video@),
            stem == basename(encode_utf8(filename@)),
            first_entry(entries, stem, 0) == first_entry(entries, stem, i as int),
        decreases version_keys.len() - i,
    {
        assert(entries[i as int] == version_keys@[i as int]@);
        if version_keys[i].contains_video(video) {
            return Ok(version_keys[i].get_key());
        }
        i += 1;
    }
    let mut message = String::from_str("Unable to find decryption key for \"");
    message.append(video);
    message.append("\" in version keys file");
    Err(GICSError::from_parts(ErrorKind::NoKeyForVideo, message))
}

/// The key that the file name alone gives.
pub fn file_name_encryption_key(filename: &str) -> (key: u64)
    ensures
        key == filename_key(encode_utf8(filename@)),
        1 <= key <= ZERO_KEY,
{
    let given = filename.as_bytes();
    let bytes: &[u8] = if same_bytes(given, "MDAQ001_OPNew_Part1.usm".as_bytes()) || same_bytes(
        given,
        "MDAQ001_OPNew_Part2_PlayerBoy.usm".as_bytes(),
    ) || same_bytes(given, "MDAQ001_OPNew_Part2_PlayerGirl.usm".as_bytes()) {
        "MDAQ001_OP".as_bytes()
    } else {
        given
    };
    let n = stem_length(bytes);
    let mut sum: u64 = 0;
    let mut i: usize = 0;
    assert(bytes@.take(0) =~= Seq::<u8>::empty());
    while i < n
        invariant
            i <= n <= bytes.len(),
            sum == folded_sum(bytes@.take(i as int)),
        decreases n - i,
    {
        proof {
            assert(bytes@.take(i + 1).drop_last() =~= bytes@.take(i as int));
        }
        sum = sum.wrapping_mul(3).wrapping_add(bytes[i] as u64);
        i += 1;
    }
    let low = sum % ZERO_KEY;
    if low > 0 {
        low
    } else {
        ZERO_KEY
    }
}

/// Each of the three intro cutscenes has the file-name key of the name that
/// stands for them.
pub proof fn lemma_intro_key(name: Seq<u8>)
    requires
        is_intro(name),
    ensures
        filename_key(name) == filename_key(intro_name()),
{
}

/// The upper and the lower 32 bits of a key.
pub fn split_key(key: u64) -> (r: (u32, u32))
    ensures
        r == halves(key as int),
{
    ((key / 0x1_0000_0000) as u32, (key % 0x1_0000_0000) as u32)
}

} // verus!
