//! The installer's side of the release service: which answers it accepts,
//! how it finds the release asset in the release description, and how it
//! counts the bytes of a download.
use vstd::prelude::*;

use crate::text::same_text;

verus! {

/// Where the description of the latest release is asked for.
pub const RELEASE_URL: &'static str = "https://api.github.com/repos/ConfusionCodes/undertale-mod-manager/releases/latest";

/// How the installer names itself to the release service.
pub const USER_AGENT: &'static str = "Undertale-Mod-Manager-Installer";

/// How many bytes a read of the download asks for.
pub const CHUNK_SIZE: usize = 16384;

/// The file the download is written to, inside the install directory.
pub const DOWNLOAD_FILE_NAME: &'static str = "undertale_mod_manager.exe.download";

/// The file the download's progress is logged to, inside the install
/// directory.
pub const LOG_FILE_NAME: &'static str = "log.txt";

/// The status of a successful answer.
pub const STATUS_OK: u16 = 200;

/// The status of an answer that was found elsewhere.
pub const STATUS_FOUND: u16 = 302;

/// What can go wrong while downloading. Where the cause is an error of the
/// network, of the JSON reader or of a file, its message is kept as text.
#[derive(Debug)]
pub enum Error {
    Request(String),
    Status(u16),
    Deserialize(String),
    /// The object (as JSON text) lacks the key.
    JsonKey(String, String),
    /// The array (as JSON text) lacks the index.
    JsonIndex(String, usize),
    /// The value (as JSON text) is not of the named type.
    JsonType(String, String),
    IoWrite(String),
}

/// An error as plain values.
pub enum ErrorView {
    Request(Seq<char>),
    Status(u16),
    Deserialize(Seq<char>),
    JsonKey(Seq<char>, Seq<char>),
    JsonIndex(Seq<char>, usize),
    JsonType(Seq<char>, Seq<char>),
    IoWrite(Seq<char>),
}

impl View for Error {
    type V = ErrorView;

    open spec fn view(&self) -> ErrorView {
        match self {
            Error::Request(m) => ErrorView::Request(m@),
            Error::Status(s) => ErrorView::Status(*s),
            Error::Deserialize(m) => ErrorView::Deserialize(m@),
            Error::JsonKey(t, k) => ErrorView::JsonKey(t@, k@),
            Error::JsonIndex(t, i) => ErrorView::JsonIndex(t@, *i),
            Error::JsonType(t, n) => ErrorView::JsonType(t@, n@),
            Error::IoWrite(m) => ErrorView::IoWrite(m@),
        }
    }
}

/// Whether an answer with this status is read on: only a success or a
/// redirection to where it was found.
pub open spec fn accepted_status(status: u16) -> bool {
    status == STATUS_OK || status == STATUS_FOUND
}

/// Accepts an answer's status, or rejects it with that status.
pub fn check_status(status: u16) -> (r: Result<(), Error>)
    ensures
        accepted_status(status) ==> r is Ok,
        !accepted_status(status) ==> (r matches Err(Error::Status(s)) && s == status),
{
    if status != STATUS_OK && status != STATUS_FOUND {
        Err(Error::Status(status))
    } else {
        Ok(())
    }
}

/// A JSON value, each part with its own JSON text (what error messages
/// show of it).
#[derive(Debug)]
pub struct Json {
    pub text: String,
    pub kind: JsonKind,
}

/// The kinds of JSON values. A number keeps what it is as a `u64`, if it
/// is one.
#[derive(Debug)]
pub enum JsonKind {
    Null,
    Bool(bool),
    Number(Option<u64>),
    Str(String),
    Array(Vec<Json>),
    Object(Vec<(String, Json)>),
}

/// The value under `key`: that of the first entry with that key.
pub open spec fn object_get(entries: Seq<(String, Json)>, key: Seq<char>) -> Option<Json>
    decreases entries.len(),
{
    if entries.len() == 0 {
        None
    } else if entries[0].0@ == key {
        Some(entries[0].1)
    } else {
        object_get(entries.drop_first(), key)
    }
}

/// No two entries of an object share a key, as in every object that JSON
/// text is read into.
pub open spec fn unique_object_keys(entries: Seq<(String, Json)>) -> bool {
    forall|i: int, j: int|
        0 <= i < j < entries.len() ==> #[trigger] entries[i].0@ != #[trigger] entries[j].0@
}

/// Where no two entries share a key, the value found under a key is that of
/// the one entry with that key; without such an entry there is none.
pub proof fn lemma_object_get_unique(entries: Seq<(String, Json)>, key: Seq<char>)
    ensures
        unique_object_keys(entries) ==> forall|i: int|
            0 <= i < entries.len() && #[trigger] entries[i].0@ == key ==> object_get(entries, key)
                == Some(entries[i].1),
        (forall|i: int| 0 <= i < entries.len() ==> #[trigger] entries[i].0@ != key) ==> object_get(
            entries,
            key,
        ) is None,
    decreases entries.len(),
{
    if entries.len() > 0 {
        let rest = entries.drop_first();
        lemma_object_get_unique(rest, key);
        if unique_object_keys(entries) {
            assert(unique_object_keys(rest)) by {
                assert forall|i: int, j: int| 0 <= i < j < rest.len() implies #[trigger] rest[i].0@
                    != #[trigger] rest[j].0@ by {
                    assert(rest[i] == entries[i + 1] && rest[j] == entries[j + 1]);
                }
            }
            assert forall|i: int|
                0 <= i < entries.len() && #[trigger] entries[i].0@ == key implies object_get(
                entries,
                key,
            ) == Some(entries[i].1) by {
                if i > 0 {
                    assert(entries[0].0@ != entries[i].0@);
                    assert(rest[i - 1] == entries[i]);
                }
            }
        }
        if forall|i: int| 0 <= i < entries.len() ==> #[trigger] entries[i].0@ != key {
            assert forall|i: int| 0 <= i < rest.len() implies #[trigger] rest[i].0@ != key by {
                assert(rest[i] == entries[i + 1]);
            }
            assert(entries[0].0@ != key);
        }
    }
}

/// The value under `key` of an object.
pub open spec fn spec_key(j: Json, key: Seq<char>) -> Result<Json, ErrorView> {
    match j.kind {
        JsonKind::Object(entries) => match object_get(entries@, key) {
            Some(v) => Ok(v),
            None => Err(ErrorView::JsonKey(j.text@, key)),
        },
        _ => Err(ErrorView::JsonKey(j.text@, key)),
    }
}

/// The value at `index` of an array.
pub open spec fn spec_index(j: Json, index: usize) -> Result<Json, ErrorView> {
    match j.kind {
        JsonKind::Array(items) => if index < items@.len() {
            Ok(items@[index as int])
        } else {
            Err(ErrorView::JsonIndex(j.text@, index))
        },
        _ => Err(ErrorView::JsonIndex(j.text@, index)),
    }
}

/// A string value.
pub open spec fn spec_string(j: Json) -> Result<Seq<char>, ErrorView> {
    match j.kind {
        JsonKind::Str(s) => Ok(s@),
        _ => Err(ErrorView::JsonType(j.text@, "String"@)),
    }
}

/// A number value that is a `u64`.
pub open spec fn spec_u64(j: Json) -> Result<u64, ErrorView> {
    match j.kind {
        JsonKind::Number(Some(n)) => Ok(n),
        _ => Err(ErrorView::JsonType(j.text@, "u64"@)),
    }
}

/// The address and size of the release's second asset.
pub open spec fn spec_release_asset(release: Json) -> Result<(Seq<char>, u64), ErrorView> {
    match spec_key(release, "assets"@) {
        Err(e) => Err(e),
        Ok(assets) => match spec_index(assets, 1) {
            Err(e) => Err(e),
            Ok(asset) => match spec_key(asset, "url"@) {
                Err(e) => Err(e),
                Ok(url) => match spec_string(url) {
                    Err(e) => Err(e),
                    Ok(u) => match spec_key(asset, "size"@) {
                        Err(e) => Err(e),
                        Ok(size) => match spec_u64(size) {
                            Err(e) => Err(e),
                            Ok(n) => Ok((u, n)),
                        },
                    },
                },
            },
        },
    }
}

/// Lookups in a JSON value that fail with an error naming what was missing.
pub trait JsonFind: Sized {
    spec fn found_key(&self, key: Seq<char>) -> Result<Self, ErrorView>;

    spec fn found_index(&self, index: usize) -> Result<Self, ErrorView>;

    spec fn found_string(&self) -> Result<Seq<char>, ErrorView>;

    spec fn found_u64(&self) -> Result<u64, ErrorView>;

    /// The value under `key`, if this is an object that has it.
    fn key(&self, key: &str) -> (r: Result<&Self, Error>)
        ensures
            match r {
                Ok(v) => self.found_key(key@) == Ok::<Self, ErrorView>(*v),
                Err(e) => self.found_key(key@) == Err::<Self, ErrorView>(e@),
            },
    ;

    /// The value at `index`, if this is an array that long.
    fn index(&self, index: usize) -> (r: Result<&Self, Error>)
        ensures
            match r {
                Ok(v) => self.found_index(index) == Ok::<Self, ErrorView>(*v),
                Err(e) => self.found_index(index) == Err::<Self, ErrorView>(e@),
            },
    ;

    /// The text, if this is a string.
    fn get_string(&self) -> (r: Result<String, Error>)
        ensures
            match r {
                Ok(s) => self.found_string() == Ok::<Seq<char>, ErrorView>(s@),
                Err(e) => self.found_string() == Err::<Seq<char>, ErrorView>(e@),
            },
    ;

    /// The number, if this is a number that is a `u64`.
    fn get_u64(&self) -> (r: Result<u64, Error>)
        ensures
            match r {
                Ok(n) => self.found_u64() == Ok::<u64, ErrorView>(n),
                Err(e) => self.found_u64() == Err::<u64, ErrorView>(e@),
            },
    ;
}

impl JsonFind for Json {
    open spec fn found_key(&self, key: Seq<char>) -> Result<Json, ErrorView> {
        spec_key(*self, key)
    }

    open spec fn found_index(&self, index: usize) -> Result<Json, ErrorView> {
        spec_index(*self, index)
    }

    open spec fn found_string(&self) -> Result<Seq<char>, ErrorView> {
        spec_string(*self)
    }

    open spec fn found_u64(&self) -> Result<u64, ErrorView> {
        spec_u64(*self)
    }

    fn key(&self, key: &str) -> (r: Result<&Json, Error>) {
        match &self.kind {
            JsonKind::Object(entries) => {
                let n = entries.len();
                let mut i: usize = 0;
                assert(entries@.skip(0) =~= entries@);
                while i < n
                    invariant
                        self.kind == JsonKind::Object(*entries),
                        n == entries@.len(),
                        i <= n,
                        object_get(entries@, key@) == object_get(entries@.skip(i as int), key@),
                    decreases n - i,
                {
                    assert(entries@.skip(i as int).drop_first() =~= entries@.skip(i + 1));
                    assert(entries@.skip(i as int)[0] == entries@[i as int]);
                    if same_text(entries[i].0.as_str(), key) {
                        return Ok(&entries[i].1);
                    }
                    i = i + 1;
                }
                Err(Error::JsonKey(self.text.clone(), String::from_str(key)))
            },
            _ => Err(Error::JsonKey(self.text.clone(), String::from_str(key))),
        }
    }

    fn index(&self, index: usize) -> (r: Result<&Json, Error>) {
        match &self.kind {
            JsonKind::Array(items) => {
                if index < items.len() {
                    Ok(&items[index])
                } else {
                    Err(Error::JsonIndex(self.text.clone(), index))
                }
            },
            _ => Err(Error::JsonIndex(self.text.clone(), index)),
        }
    }

    fn get_string(&self) -> (r: Result<String, Error>) {
        match &self.kind {
            JsonKind::Str(s) => Ok(s.clone()),
            _ => Err(Error::JsonType(self.text.clone(), String::from_str("String"))),
        }
    }

    fn get_u64(&self) -> (r: Result<u64, Error>) {
        match &self.kind {
            JsonKind::Number(Some(n)) => Ok(*n),
            _ => Err(Error::JsonType(self.text.clone(), String::from_str("u64"))),
        }
    }
}

pub open spec fn asset_view(r: Result<(String, u64), Error>) -> Result<(Seq<char>, u64), ErrorView> {
    match r {
        Ok((u, n)) => Ok((u@, n)),
        Err(e) => Err(e@),
    }
}

/// The address and size of the asset to download: the second asset of the
/// release description.
pub fn release_asset(release: &Json) -> (r: Result<(String, u64), Error>)
    ensures
        asset_view(r) == spec_release_asset(*release),
{
    let assets = release.key("assets")?;
    let asset = assets.index(1)?;
    let url = asset.key("url")?.get_string()?;
    let size = asset.key("size")?.get_u64()?;
    Ok((url, size))
}

/// How far a download has come.
#[derive(Debug)]
pub struct DownloadProgress {
    pub downloaded: u64,
    pub asset_size: u64,
}

impl DownloadProgress {
    /// A download of an asset of `asset_size` bytes, nothing read yet.
    pub fn new(asset_size: u64) -> (p: DownloadProgress)
        ensures
            p.downloaded == 0,
            p.asset_size == asset_size,
    {
        DownloadProgress { downloaded: 0, asset_size }
    }

    /// A read gave `bytes_len` bytes. An empty read ends the download
    /// (`false`); otherwise the bytes are counted and are to be written.
    pub fn record_chunk(&mut self, bytes_len: usize) -> (more: bool)
        requires
            old(self).downloaded + bytes_len <= u64::MAX,
        ensures
            more == (bytes_len != 0),
            final(self).asset_size == old(self).asset_size,
            final(self).downloaded == old(self).downloaded + bytes_len,
    {
        if bytes_len == 0 {
            return false;
        }
        self.downloaded = self.downloaded + bytes_len as u64;
        true
    }
}

} // verus!
