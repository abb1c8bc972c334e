use availability_oracle::check::FileKind;
use availability_oracle::cid::{bytes32_to_cid_v0, Cid};
use availability_oracle::manifest::{Abi, DataSource, Link, Manifest, Mapping, Schema};
use availability_oracle::validator::{check_file, Action, ManifestEvent, Validator};
use availability_oracle::validity::{CheckError, Invalid, IpfsError, Valid};

const SCHEMA: &[u8] = b"type Token @entity { id: ID! }";
const ABI: &[u8] = b"[]";

fn strings(items: &[&str]) -> Vec<String> {
    items.iter().map(|s| s.to_string()).collect()
}

fn cid(n: u8) -> Cid {
    bytes32_to_cid_v0([n; 32])
}

fn link(n: u8) -> Link {
    Link { link: format!("/ipfs/{}", cid(n).to_text()) }
}

fn module_importing(name: &str) -> Vec<u8> {
    let mut bytes = vec![0x00, 0x61, 0x73, 0x6d, 0x01, 0x00, 0x00, 0x00];
    bytes.extend_from_slice(&[0x01, 0x04, 0x01, 0x60, 0x00, 0x00]);
    bytes.push(0x02);
    bytes.push((1 + 1 + 3 + 1 + name.len() + 2) as u8);
    bytes.extend_from_slice(&[0x01, 0x03]);
    bytes.extend_from_slice(b"env");
    bytes.push(name.len() as u8);
    bytes.extend_from_slice(name.as_bytes());
    bytes.extend_from_slice(&[0x00, 0x00]);
    bytes
}

fn data_source(kind: &str, network: Option<&str>, file: Option<u8>, abis: &[u8]) -> DataSource {
    DataSource {
        kind: kind.to_string(),
        network: network.map(|n| n.to_string()),
        mapping: Mapping {
            file: file.map(link),
            abis: abis.iter().map(|a| Abi { file: link(*a) }).collect(),
        },
    }
}

/// A manifest with its schema in file 1 and data sources as given.
fn manifest(data_sources: Vec<DataSource>) -> Manifest {
    Manifest { schema: Schema { file: link(1) }, data_sources }
}

/// A file store that holds the schema in 1, ABIs in 2 and 3, a clean
/// mapping in 4 and a mapping that imports `ipfs.cat` in 5.
fn store(id: &Cid) -> Result<Vec<u8>, IpfsError> {
    match id.bytes[2] {
        1 => Ok(SCHEMA.to_vec()),
        2 | 3 => Ok(ABI.to_vec()),
        4 => Ok(module_importing("abort")),
        5 => Ok(module_importing("ipfs.cat")),
        6 => Err(IpfsError::GatewayTimeout(id.clone(), "504".to_string())),
        7 => Err(IpfsError::Other("connection refused".to_string())),
        8 => Ok(b"type {".to_vec()),
        _ => Err(IpfsError::NotFound(id.clone(), "no such file".to_string())),
    }
}

/// Runs the machine against the store; returns where it came to rest and
/// the files it asked for.
fn drive(mut validator: Validator) -> (Action, Vec<Cid>) {
    let mut asked = Vec::new();
    loop {
        match validator.action() {
            Action::Fetch(id) => {
                validator = validator.step(store(&id));
                asked.push(id);
                assert!(asked.len() < 100);
            }
            done => return (done, asked),
        }
    }
}

fn start(event: ManifestEvent) -> Validator {
    Validator::start(
        event,
        &strings(&["mainnet", "goerli"]),
        &strings(&["ethereum", "ethereum/contract", "file/ipfs", "substreams", "file/arweave"]),
    )
}

#[test]
fn valid_manifest_with_all_files_in_order_is_valid() {
    let m = manifest(vec![
        data_source("ethereum", Some("mainnet"), Some(4), &[2, 3]),
        data_source("file/ipfs", None, Some(4), &[]),
    ]);
    let (action, asked) = drive(start(ManifestEvent::Parsed(m)));
    assert_eq!(action, Action::Finish(Valid::Yes));
    assert_eq!(asked, vec![cid(1), cid(2), cid(3), cid(4), cid(4)]);
}

#[test]
fn manifest_without_data_sources_needs_its_schema_only() {
    let (action, asked) = drive(start(ManifestEvent::Parsed(manifest(vec![]))));
    assert_eq!(action, Action::Finish(Valid::Yes));
    assert_eq!(asked, vec![cid(1)]);
}

#[test]
fn manifest_unavailable() {
    let id = cid(6);
    let event = ManifestEvent::Unfetched(IpfsError::GatewayTimeout(id.clone(), "504".to_string()));
    let (action, asked) = drive(start(event));
    assert_eq!(action, Action::Finish(Valid::No(Invalid::Unavailable(id, "504".to_string()))));
    assert!(asked.is_empty());
}

#[test]
fn manifest_transport_error_aborts() {
    let event = ManifestEvent::Unfetched(IpfsError::Other("connection refused".to_string()));
    let (action, asked) = drive(start(event));
    assert_eq!(action, Action::Abort("connection refused".to_string()));
    assert!(asked.is_empty());
}

#[test]
fn manifest_that_does_not_parse_is_invalid() {
    let event = ManifestEvent::Unparsable("missing field `schema`".to_string());
    let (action, _) = drive(start(event));
    assert_eq!(
        action,
        Action::Finish(Valid::No(Invalid::ManifestParseError("missing field `schema`".to_string())))
    );
}

#[test]
fn forbidden_api() {
    let m = manifest(vec![data_source("ethereum", Some("mainnet"), Some(5), &[2])]);
    let (action, asked) = drive(start(ManifestEvent::Parsed(m)));
    assert_eq!(action, Action::Finish(Valid::No(Invalid::ForbiddenApi("ipfs.cat".to_string()))));
    assert_eq!(asked, vec![cid(1), cid(2), cid(5)]);
}

#[test]
fn mismatching_networks() {
    let m = manifest(vec![
        data_source("ethereum", Some("mainnet"), None, &[]),
        data_source("ethereum", Some("goerli"), None, &[]),
    ]);
    let (action, _) = drive(start(ManifestEvent::Parsed(m)));
    assert_eq!(
        action,
        Action::Finish(Valid::No(Invalid::ManifestParseError("mismatching networks".to_string())))
    );
}

#[test]
fn unsupported_kind() {
    let m = manifest(vec![data_source("substreams/sps", None, None, &[])]);
    let (action, asked) = drive(start(ManifestEvent::Parsed(m)));
    assert_eq!(
        action,
        Action::Finish(Valid::No(Invalid::UnsupportedDataSourceKind("substreams/sps".to_string())))
    );
    assert_eq!(asked, vec![cid(1)]);
}

#[test]
fn unsupported_network() {
    let m = manifest(vec![data_source("ethereum", Some("moon"), Some(4), &[2])]);
    let (action, asked) = drive(start(ManifestEvent::Parsed(m)));
    assert_eq!(action, Action::Finish(Valid::No(Invalid::UnsupportedNetwork("moon".to_string()))));
    assert_eq!(asked, vec![cid(1)]);
}

#[test]
fn missing_file_ends_the_validation_where_it_is_met() {
    let m = manifest(vec![data_source("ethereum", Some("mainnet"), Some(4), &[2, 9, 3])]);
    let (action, asked) = drive(start(ManifestEvent::Parsed(m)));
    assert_eq!(
        action,
        Action::Finish(Valid::No(Invalid::Unavailable(cid(9), "no such file".to_string())))
    );
    assert_eq!(asked, vec![cid(1), cid(2), cid(9)]);
}

#[test]
fn transport_error_on_a_linked_file_aborts() {
    let m = manifest(vec![data_source("ethereum", Some("mainnet"), Some(7), &[2])]);
    let (action, asked) = drive(start(ManifestEvent::Parsed(m)));
    assert_eq!(action, Action::Abort("connection refused".to_string()));
    assert_eq!(asked, vec![cid(1), cid(2), cid(7)]);
}

#[test]
fn schema_that_does_not_parse_is_invalid_before_any_data_source() {
    let m = Manifest {
        schema: Schema { file: link(8) },
        data_sources: vec![data_source("substreams/sps", None, None, &[])],
    };
    let (action, asked) = drive(start(ManifestEvent::Parsed(m)));
    assert!(matches!(action, Action::Finish(Valid::No(Invalid::SchemaParseError(_)))));
    assert_eq!(asked, vec![cid(8)]);
}

#[test]
fn file_data_source_is_exempt_from_the_network_rule() {
    let m = manifest(vec![
        data_source("file/ipfs", None, None, &[]),
        data_source("ethereum", Some("goerli"), None, &[]),
        data_source("file/arweave", None, None, &[]),
        data_source("ethereum/contract", Some("goerli"), None, &[]),
    ]);
    let (action, _) = drive(start(ManifestEvent::Parsed(m)));
    assert_eq!(action, Action::Finish(Valid::Yes));
}

#[test]
fn step_on_a_machine_at_rest_changes_nothing() {
    let done = start(ManifestEvent::Parsed(manifest(vec![]))).step(Ok(SCHEMA.to_vec()));
    assert_eq!(done.action(), Action::Finish(Valid::Yes));
    let still = done.step(Err(IpfsError::Other("late".to_string())));
    assert_eq!(still.action(), Action::Finish(Valid::Yes));

    let failed = start(ManifestEvent::Unparsable("bad".to_string()));
    let still = failed.step(Ok(SCHEMA.to_vec()));
    assert_eq!(
        still.action(),
        Action::Finish(Valid::No(Invalid::ManifestParseError("bad".to_string())))
    );
}

#[test]
fn action_does_not_advance_the_machine() {
    let validator = start(ManifestEvent::Parsed(manifest(vec![])));
    assert_eq!(validator.action(), Action::Fetch(cid(1)));
    assert_eq!(validator.action(), Action::Fetch(cid(1)));
}

#[test]
fn file_is_checked_as_the_kind_asked_for() {
    assert_eq!(check_file(FileKind::Schema, Ok(SCHEMA.to_vec())), Ok(()));
    assert_eq!(check_file(FileKind::Abi, Ok(ABI.to_vec())), Ok(()));
    assert_eq!(check_file(FileKind::Mapping, Ok(module_importing("abort"))), Ok(()));
    assert_eq!(
        check_file(FileKind::Mapping, Ok(module_importing("ipfs.cat"))),
        Err(CheckError::Invalid(Invalid::ForbiddenApi("ipfs.cat".to_string())))
    );
    assert_eq!(
        check_file(FileKind::Abi, Err(IpfsError::ClientTimeout(cid(2), "30s".to_string()))),
        Err(CheckError::Invalid(Invalid::Unavailable(cid(2), "30s".to_string())))
    );
    assert_eq!(
        check_file(FileKind::Abi, Err(IpfsError::Other("reset".to_string()))),
        Err(CheckError::Other("reset".to_string()))
    );
}
