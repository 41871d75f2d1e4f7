//! Where the data comes from, and what is known of its state there.

use crate::text::begins_with;
use crate::text::has_prefix;
use vstd::prelude::*;

verus! {

/// A source of CSV data: a file, named by its path, or an HTTP or HTTPS URL.
#[derive(Debug, Clone, PartialEq, Eq)]
pub enum DataSource {
    /// The path of a local file.
    File(String),
    /// An HTTP or HTTPS URL.
    Url(String),
}

/// Whether `text` names a URL: it begins with `http://` or `https://`.
pub open spec fn names_url(text: Seq<char>) -> bool {
    begins_with(text, "http://"@) || begins_with(text, "https://"@)
}

impl DataSource {
    /// The text that names the source.
    pub open spec fn text(&self) -> Seq<char> {
        match self {
            DataSource::File(path) => path@,
            DataSource::Url(url) => url@,
        }
    }

    /// The source that `text` names: a URL if the text begins with `http://`
    /// or `https://`, else the file whose path the text is.
    pub fn parse(text: &str) -> (source: Self)
        ensures
            source.text() == text@,
            source is Url <==> names_url(text@),
    {
        if has_prefix(text, "http://") || has_prefix(text, "https://") {
            return DataSource::Url(text.to_owned());
        }
        DataSource::File(text.to_owned())
    }

    /// Whether the source is a URL.
    pub fn is_url(&self) -> (url: bool)
        ensures
            url == (self is Url),
    {
        match self {
            DataSource::Url(_) => true,
            DataSource::File(_) => false,
        }
    }

    /// Whether the source is a file.
    pub fn is_file(&self) -> (file: bool)
        ensures
            file == (self is File),
    {
        match self {
            DataSource::File(_) => true,
            DataSource::Url(_) => false,
        }
    }

    /// The text that names the source.
    pub fn to_string(&self) -> (text: String)
        ensures
            text@ == self.text(),
    {
        match self {
            DataSource::File(path) => path.clone(),
            DataSource::Url(url) => url.clone(),
        }
    }
}

/// What is known of the state of a source, to tell whether the data has to
/// be fetched again. Any of the three may be missing; where all are, nothing
/// is known.
#[derive(Debug, Clone, PartialEq, Eq)]
pub struct SourceMetadata {
    /// When the file was last modified, in nanoseconds since the Unix epoch.
    pub mtime: Option<u128>,
    /// The `ETag` header of the response.
    pub etag: Option<String>,
    /// The `Last-Modified` header of the response.
    pub last_modified: Option<String>,
}

/// The metadata of a source as plain values.
pub ghost struct MetadataView {
    pub mtime: Option<u128>,
    pub etag: Option<Seq<char>>,
    pub last_modified: Option<Seq<char>>,
}

impl MetadataView {
    /// Whether nothing is known.
    pub open spec fn unknown(self) -> bool {
        self.mtime is None && self.etag is None && self.last_modified is None
    }
}

/// Whether the two states can be compared at all: both give a modification
/// time, or both an `ETag`, or both a `Last-Modified`.
pub open spec fn comparable(old_state: MetadataView, new_state: MetadataView) -> bool {
    ||| (old_state.mtime is Some && new_state.mtime is Some)
    ||| (old_state.etag is Some && new_state.etag is Some)
    ||| (old_state.last_modified is Some && new_state.last_modified is Some)
}

/// Whether the data has to be taken as changed between the two states:
/// nothing is known on one side, or the two cannot be compared, or the file
/// was modified later, or the `ETag` or the `Last-Modified` differs.
pub open spec fn changed(old_state: MetadataView, new_state: MetadataView) -> bool {
    ||| old_state.unknown()
    ||| new_state.unknown()
    ||| !comparable(old_state, new_state)
    ||| (old_state.mtime is Some && new_state.mtime is Some && new_state.mtime->0
        > old_state.mtime->0)
    ||| (old_state.etag is Some && new_state.etag is Some && old_state.etag->0
        != new_state.etag->0)
    ||| (old_state.last_modified is Some && new_state.last_modified is Some
        && old_state.last_modified->0 != new_state.last_modified->0)
}

impl View for SourceMetadata {
    type V = MetadataView;

    open spec fn view(&self) -> MetadataView {
        MetadataView {
            mtime: self.mtime,
            etag: match self.etag {
                Some(etag) => Some(etag@),
                None => None,
            },
            last_modified: match self.last_modified {
                Some(last_modified) => Some(last_modified@),
                None => None,
            },
        }
    }
}

impl SourceMetadata {
    /// Metadata that says nothing.
    pub fn new() -> (metadata: Self)
        ensures
            metadata@.unknown(),
    {
        SourceMetadata { mtime: None, etag: None, last_modified: None }
    }

    /// Whether the data has to be taken as changed, `self` being the state
    /// at the last load and `other` the state now.
    pub fn has_changed(&self, other: &SourceMetadata) -> (differs: bool)
        ensures
            differs == changed(self@, other@),
    {
        let mut compared = false;
        match (&self.mtime, &other.mtime) {
            (Some(old_mtime), Some(new_mtime)) => {
                if *new_mtime > *old_mtime {
                    return true;
                }
                compared = true;
            },
            _ => {},
        }
        match (&self.etag, &other.etag) {
            (Some(old_etag), Some(new_etag)) => {
                if !(*old_etag == *new_etag) {
                    return true;
                }
                compared = true;
            },
            _ => {},
        }
        match (&self.last_modified, &other.last_modified) {
            (Some(old_modified), Some(new_modified)) => {
                if !(*old_modified == *new_modified) {
                    return true;
                }
                compared = true;
            },
            _ => {},
        }
        !compared
    }
}

impl Default for SourceMetadata {
    fn default() -> (metadata: Self)
        ensures
            metadata@.unknown(),
    {
        SourceMetadata::new()
    }
}

} // verus!
