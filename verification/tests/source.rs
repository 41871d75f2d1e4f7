use occlusion::DataSource;
use occlusion::SourceMetadata;

fn file_at(mtime: u128) -> SourceMetadata {
    SourceMetadata { mtime: Some(mtime), etag: None, last_modified: None }
}

fn response(etag: Option<&str>, last_modified: Option<&str>) -> SourceMetadata {
    SourceMetadata {
        mtime: None,
        etag: etag.map(|text| text.to_string()),
        last_modified: last_modified.map(|text| text.to_string()),
    }
}

#[test]
fn sources_are_told_apart_by_their_prefix() {
    assert_eq!(
        DataSource::parse("http://example.com/data.csv"),
        DataSource::Url("http://example.com/data.csv".to_string())
    );
    assert_eq!(
        DataSource::parse("https://example.com/data.csv"),
        DataSource::Url("https://example.com/data.csv".to_string())
    );
    assert_eq!(DataSource::parse("data.csv"), DataSource::File("data.csv".to_string()));
    assert_eq!(DataSource::parse("/srv/http://x"), DataSource::File("/srv/http://x".to_string()));
    assert_eq!(DataSource::parse("HTTP://example.com"), DataSource::File("HTTP://example.com".to_string()));
    assert_eq!(DataSource::parse("http:/example.com"), DataSource::File("http:/example.com".to_string()));
    assert_eq!(DataSource::parse("ftp://example.com"), DataSource::File("ftp://example.com".to_string()));
    assert_eq!(DataSource::parse(""), DataSource::File(String::new()));
    assert_eq!(DataSource::parse("http://"), DataSource::Url("http://".to_string()));
    assert_eq!(DataSource::parse("https:/"), DataSource::File("https:/".to_string()));
    assert_eq!(DataSource::parse("é.csv"), DataSource::File("é.csv".to_string()));
}

#[test]
fn sources_know_their_kind() {
    let url = DataSource::parse("https://example.com/data.csv");
    assert!(url.is_url());
    assert!(!url.is_file());
    assert_eq!(url.to_string(), "https://example.com/data.csv");
    let file = DataSource::parse("data/uuids.csv");
    assert!(file.is_file());
    assert!(!file.is_url());
    assert_eq!(file.to_string(), "data/uuids.csv");
}

#[test]
fn new_metadata_says_nothing() {
    let metadata = SourceMetadata::new();
    assert_eq!(metadata.mtime, None);
    assert_eq!(metadata.etag, None);
    assert_eq!(metadata.last_modified, None);
    let metadata: SourceMetadata = Default::default();
    assert_eq!(metadata, SourceMetadata::new());
}

#[test]
fn unknown_metadata_counts_as_changed() {
    let unknown = SourceMetadata::new();
    assert!(unknown.has_changed(&unknown));
    assert!(unknown.has_changed(&file_at(5)));
    assert!(file_at(5).has_changed(&unknown));
    assert!(response(Some("a"), None).has_changed(&unknown));
}

#[test]
fn files_change_when_modified_later() {
    assert!(file_at(5).has_changed(&file_at(6)));
    assert!(!file_at(5).has_changed(&file_at(5)));
    assert!(!file_at(6).has_changed(&file_at(5)));
}

#[test]
fn responses_change_when_a_validator_differs() {
    assert!(!response(Some("v1"), None).has_changed(&response(Some("v1"), None)));
    assert!(response(Some("v1"), None).has_changed(&response(Some("v2"), None)));
    assert!(!response(None, Some("Mon")).has_changed(&response(None, Some("Mon"))));
    assert!(response(None, Some("Mon")).has_changed(&response(None, Some("Tue"))));
    assert!(!response(Some("v1"), Some("Mon")).has_changed(&response(Some("v1"), Some("Mon"))));
    assert!(response(Some("v1"), Some("Mon")).has_changed(&response(Some("v2"), Some("Mon"))));
    // One validator that differs is enough, also where another agrees.
    assert!(response(Some("v1"), Some("Mon")).has_changed(&response(Some("v1"), Some("Tue"))));
    // A validator on one side only is not compared.
    assert!(!response(Some("v1"), Some("Mon")).has_changed(&response(Some("v1"), None)));
}

#[test]
fn metadata_without_a_common_part_counts_as_changed() {
    assert!(file_at(5).has_changed(&response(Some("v1"), None)));
    assert!(response(Some("v1"), None).has_changed(&file_at(5)));
    assert!(response(Some("v1"), None).has_changed(&response(None, Some("Mon"))));
}
