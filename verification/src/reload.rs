//! Fetching the data again: what to ask of the source, and what to make of
//! its answer.
//!
//! Nothing here reads a file or talks to a server. The caller does that, and
//! hands over what it found as plain values: the status code, the headers
//! and the body of a response, or the metadata and the text of a file.

use crate::active::ActiveStore;
use crate::algorithm::StoreAlgorithm;
use crate::error::StoreError;
use crate::loader::is_load_of;
use crate::loader::load_with;
use crate::shared::lock_new;
use crate::shared::lock_read;
use crate::shared::lock_write;
use crate::source::changed;
use crate::source::DataSource;
use crate::source::MetadataView;
use crate::source::SourceMetadata;
use crate::text::lowered;
use crate::text::reads_in_lower_case;
use std::sync::RwLock;
use vstd::prelude::*;

verus! {

/// Why the data could not be loaded.
#[derive(Debug, Clone, PartialEq, Eq)]
pub enum LoadError {
    /// The file could not be read; the text says why.
    Io(String),
    /// The CSV reader gave up on the text; the text is its message.
    CsvError(String),
    /// The server answered with this status, which is neither a success nor
    /// "not modified".
    HttpError(u16),
    /// The request itself failed; the text says why.
    ReqwestError(String),
    /// There is no data where there has to be some; the text says what is
    /// missing.
    InvalidFormat(String),
    /// The text was read, but no index could be made of it.
    StoreError(StoreError),
}

/// What the status code of a response says.
#[derive(Debug, Clone, Copy, PartialEq, Eq, Structural)]
pub enum ResponseKind {
    /// 304: the data has not changed since it was last fetched.
    NotModified,
    /// 200 to 299: the body is the data.
    Success,
    /// Anything else: the fetch failed.
    Failure,
}

/// What a look at the source found, without its data being fetched.
#[derive(Debug, Clone, PartialEq, Eq)]
pub enum SourceProbe {
    /// The metadata of the file.
    File(SourceMetadata),
    /// The status code and the headers of the answer to a HEAD request.
    Head(u16, Vec<(String, String)>),
}

/// The source and the metadata of the data that was loaded from it last.
/// The metadata is behind a lock, so that the scheduler can replace it
/// while others read it.
pub struct ReloadState {
    /// Where the data comes from.
    pub source: DataSource,
    /// What was known of the source when the data was last loaded.
    pub metadata: RwLock<SourceMetadata>,
}

/// What a status code says.
pub open spec fn kind_of_status(status: u16) -> ResponseKind {
    if status == 304 {
        ResponseKind::NotModified
    } else if 200 <= status <= 299 {
        ResponseKind::Success
    } else {
        ResponseKind::Failure
    }
}

/// The name of a header and its value, as plain values.
pub open spec fn header_view(header: (String, String)) -> (Seq<char>, Seq<char>) {
    (header.0@, header.1@)
}

/// The headers as plain values.
pub open spec fn headers_view(headers: Seq<(String, String)>) -> Seq<(Seq<char>, Seq<char>)> {
    headers.map_values(|header: (String, String)| header_view(header))
}

/// The value of the first header named `name`, among the first `count`
/// headers. Names of headers are compared without regard to the case of
/// ASCII letters; `name` is in lower case.
pub open spec fn header_value(
    headers: Seq<(Seq<char>, Seq<char>)>,
    name: Seq<char>,
    count: nat,
) -> Option<Seq<char>>
    decreases count,
{
    if count == 0 {
        None
    } else {
        match header_value(headers, name, (count - 1) as nat) {
            Some(value) => Some(value),
            None => if lowered(headers[count - 1].0) == name {
                Some(headers[count - 1].1)
            } else {
                None
            },
        }
    }
}

/// The metadata that the headers of a response give: its `ETag` and its
/// `Last-Modified`, as far as they are there.
pub open spec fn metadata_of_headers(headers: Seq<(Seq<char>, Seq<char>)>) -> MetadataView {
    MetadataView {
        mtime: None,
        etag: header_value(headers, "etag"@, headers.len()),
        last_modified: header_value(headers, "last-modified"@, headers.len()),
    }
}

/// The headers that make a request conditional on the metadata of the last
/// load: `If-None-Match` with its `ETag` and `If-Modified-Since` with its
/// `Last-Modified`, as far as they are known, in this order.
pub open spec fn conditions_of(metadata: MetadataView) -> Seq<(Seq<char>, Seq<char>)> {
    let first: Seq<(Seq<char>, Seq<char>)> = match metadata.etag {
        Some(etag) => seq![("If-None-Match"@, etag)],
        None => seq![],
    };
    match metadata.last_modified {
        Some(last_modified) => first.push(("If-Modified-Since"@, last_modified)),
        None => first,
    }
}

/// Whether the source has to be taken as changed after a look at it: a
/// probe that does not fit the source counts as a change; so does a HEAD
/// request that did not succeed; else the metadata decides.
pub open spec fn probe_shows_change(
    source: DataSource,
    old_state: MetadataView,
    probe: SourceProbe,
) -> bool {
    match (source, probe) {
        (DataSource::File(_), SourceProbe::File(metadata)) => changed(old_state, metadata@),
        (DataSource::Url(_), SourceProbe::Head(status, headers)) => {
            kind_of_status(status) != ResponseKind::Success || changed(
                old_state,
                metadata_of_headers(headers_view(headers@)),
            )
        },
        _ => true,
    }
}

/// What a status code says.
pub fn classify_status(status: u16) -> (kind: ResponseKind)
    ensures
        kind == kind_of_status(status),
{
    if status == 304 {
        ResponseKind::NotModified
    } else if 200 <= status && status <= 299 {
        ResponseKind::Success
    } else {
        ResponseKind::Failure
    }
}

/// The value of the first header named `name`.
fn find_header(headers: &Vec<(String, String)>, name: &str) -> (value: Option<String>)
    ensures
        match value {
            Some(found) => header_value(headers_view(headers@), name@, headers@.len()) == Some(
                found@,
            ),
            None => header_value(headers_view(headers@), name@, headers@.len()) is None,
        },
{
    let mut i: usize = 0;
    while i < headers.len()
        invariant
            i <= headers.len(),
            header_value(headers_view(headers@), name@, i as nat) is None,
        decreases headers.len() - i,
    {
        assert(headers_view(headers@)[i as int] == header_view(headers@[i as int]));
        if reads_in_lower_case(headers[i].0.as_str(), name) {
            let found = headers[i].1.clone();
            proof {
                lemma_header_found(headers_view(headers@), name@, i as nat + 1, headers@.len());
            }
            return Some(found);
        }
        i += 1;
    }
    None
}

/// A header that is found among the first headers is found among all.
proof fn lemma_header_found(
    headers: Seq<(Seq<char>, Seq<char>)>,
    name: Seq<char>,
    count: nat,
    all: nat,
)
    requires
        count <= all,
        header_value(headers, name, count) is Some,
    ensures
        header_value(headers, name, all) == header_value(headers, name, count),
    decreases all - count,
{
    if count < all {
        lemma_header_found(headers, name, count, (all - 1) as nat);
    }
}

/// The metadata that the headers of a response give.
pub fn extract_metadata_from_headers(headers: &Vec<(String, String)>) -> (metadata: SourceMetadata)
    ensures
        metadata@ == metadata_of_headers(headers_view(headers@)),
{
    SourceMetadata {
        mtime: None,
        etag: find_header(headers, "etag"),
        last_modified: find_header(headers, "last-modified"),
    }
}

/// The headers that make a request conditional on `old_metadata`; none
/// where there is no metadata, as at the first load.
pub fn conditional_headers(old_metadata: Option<&SourceMetadata>) -> (headers: Vec<
    (String, String),
>)
    ensures
        headers_view(headers@) == (match old_metadata {
            Some(metadata) => conditions_of(metadata@),
            None => seq![],
        }),
{
    let mut headers: Vec<(String, String)> = Vec::new();
    match old_metadata {
        Some(metadata) => {
            match &metadata.etag {
                Some(etag) => {
                    headers.push(("If-None-Match".to_owned(), etag.clone()));
                },
                None => {},
            }
            match &metadata.last_modified {
                Some(last_modified) => {
                    headers.push(("If-Modified-Since".to_owned(), last_modified.clone()));
                },
                None => {},
            }
            proof {
                assert(headers_view(headers@) =~= conditions_of(metadata@));
            }
        },
        None => {
            proof {
                assert(headers_view(headers@) =~= Seq::<(Seq<char>, Seq<char>)>::empty());
            }
        },
    }
    headers
}

/// Whether the file has to be read again: always at the first load, and
/// later if its metadata shows a change.
pub fn file_needs_load(old_metadata: Option<&SourceMetadata>, current: &SourceMetadata) -> (needed:
    bool)
    ensures
        needed == (match old_metadata {
            Some(metadata) => changed(metadata@, current@),
            None => true,
        }),
{
    match old_metadata {
        Some(metadata) => metadata.has_changed(current),
        None => true,
    }
}

/// Whether the source has to be taken as changed after a look at it.
pub fn check_source_changed(
    source: &DataSource,
    old_metadata: &SourceMetadata,
    probe: &SourceProbe,
) -> (differs: bool)
    ensures
        differs == probe_shows_change(*source, old_metadata@, *probe),
{
    match source {
        DataSource::File(_) => match probe {
            SourceProbe::File(metadata) => old_metadata.has_changed(metadata),
            SourceProbe::Head(_, _) => true,
        },
        DataSource::Url(_) => match probe {
            SourceProbe::File(_) => true,
            SourceProbe::Head(status, headers) => {
                match classify_status(*status) {
                    ResponseKind::Success => {
                        let metadata = extract_metadata_from_headers(headers);
                        old_metadata.has_changed(&metadata)
                    },
                    _ => true,
                }
            },
        },
    }
}

/// Makes an index of the text of a file, in the layout `algorithm`, and
/// hands it back with the metadata of the file.
pub fn load_file(algorithm: StoreAlgorithm, text: &[u8], metadata: SourceMetadata) -> (loaded:
    Result<(ActiveStore, SourceMetadata), LoadError>)
    ensures
        match loaded {
            Ok((store, kept)) => {
                &&& is_load_of(Ok(store@), text@, algorithm)
                &&& store.layout() == algorithm
                &&& kept == metadata
            },
            Err(LoadError::StoreError(fault)) => is_load_of(Err(fault@), text@, algorithm),
            Err(_) => false,
        },
{
    match load_with(algorithm, text) {
        Ok(store) => Ok((store, metadata)),
        Err(fault) => Err(LoadError::StoreError(fault)),
    }
}

/// Makes of a response what it says: nothing new where the server says
/// "not modified"; an error where the status is no success; else the index
/// of the body, in the layout `algorithm`, with the metadata that the
/// headers give.
pub fn load_response(
    algorithm: StoreAlgorithm,
    status: u16,
    headers: &Vec<(String, String)>,
    body: &[u8],
) -> (loaded: Result<Option<(ActiveStore, SourceMetadata)>, LoadError>)
    ensures
        match kind_of_status(status) {
            ResponseKind::NotModified => loaded matches Ok(None),
            ResponseKind::Failure => loaded matches Err(LoadError::HttpError(code)) && code
                == status,
            ResponseKind::Success => match loaded {
                Ok(Some((store, metadata))) => {
                    &&& is_load_of(Ok(store@), body@, algorithm)
                    &&& store.layout() == algorithm
                    &&& metadata@ == metadata_of_headers(headers_view(headers@))
                },
                Err(LoadError::StoreError(fault)) => is_load_of(Err(fault@), body@, algorithm),
                _ => false,
            },
        },
{
    match classify_status(status) {
        ResponseKind::NotModified => Ok(None),
        ResponseKind::Failure => Err(LoadError::HttpError(status)),
        ResponseKind::Success => {
            let metadata = extract_metadata_from_headers(headers);
            match load_with(algorithm, body) {
                Ok(store) => Ok(Some((store, metadata))),
                Err(fault) => Err(LoadError::StoreError(fault)),
            }
        },
    }
}

/// What `require_data` says where there is no data.
pub open spec fn no_data_message() -> Seq<char> {
    "Initial load returned no data"@
}

/// The data of a first load. A first load that brings nothing is an error.
pub fn require_data(loaded: Option<(ActiveStore, SourceMetadata)>) -> (data: Result<
    (ActiveStore, SourceMetadata),
    LoadError,
>)
    ensures
        match loaded {
            Some(pair) => data == Ok::<(ActiveStore, SourceMetadata), LoadError>(pair),
            None => data matches Err(LoadError::InvalidFormat(message)) && message@
                == no_data_message(),
        },
{
    match loaded {
        Some(pair) => Ok(pair),
        None => Err(LoadError::InvalidFormat("Initial load returned no data".to_owned())),
    }
}

impl ReloadState {
    /// The state after a first load from `source` that gave `metadata`.
    pub fn new(source: DataSource, metadata: SourceMetadata) -> (state: Self)
        ensures
            state.source == source,
    {
        ReloadState { source, metadata: lock_new(metadata) }
    }

    /// A copy of the metadata of the last load.
    pub fn last_metadata(&self) -> (metadata: SourceMetadata) {
        lock_read(&self.metadata)
    }

    /// Keeps `metadata` as the metadata of the last load.
    pub fn keep_metadata(&self, metadata: SourceMetadata) {
        lock_write(&self.metadata, metadata);
    }
}

} // verus!
