//! The rules of the validation of one deployment: which links it follows,
//! what each kind of file must hold, and the steps in the order in which
//! they are taken.

use crate::cid::{cid_of_str, Cid};
use crate::block_strings::{has_block_cut_inside, holds_block_cut_inside};
use crate::lexical::{has_ipfs_path, holds_ipfs_path};
use crate::type_names::{has_unsafe_type_name, holds_unsafe_type_name};
use crate::manifest::{DataSource, DataSourceView, Link, Manifest, ManifestView};
use crate::parsers::{
    abi_parse_error, load_abi, parse_schema, scan_imports, schema_parse_error, string_from_utf8,
    utf8_error, wasm_import_scan,
};
use crate::validity::{Invalid, InvalidView};
use vstd::prelude::*;
use vstd::string::{StrSliceExecFns, StringExecFns};
use vstd::utf8::encode_utf8;
use vstd::utf8::{decode_utf8, decode_utf8_encode_utf8, valid_utf8};

verus! {

/// Whether `text` begins with `prefix`.
pub fn starts_with(text: &str, prefix: &str) -> (r: bool)
    ensures
        r == prefix@.is_prefix_of(text@),
{
    let n = prefix.unicode_len();
    if text.unicode_len() < n {
        return false;
    }
    let mut i: usize = 0;
    while i < n
        invariant
            i <= n,
            n == prefix@.len(),
            n <= text@.len(),
            prefix@.subrange(0, i as int) == text@.subrange(0, i as int),
        decreases n - i,
    {
        if prefix.get_char(i) != text.get_char(i) {
            return false;
        }
        i += 1;
    }
    true
}

/// Whether `item` is one of `list`.
pub fn contains(list: &Vec<String>, item: &String) -> (r: bool)
    ensures
        r == list.deep_view().contains(item@),
{
    let mut i: usize = 0;
    while i < list.len()
        invariant
            i <= list.len(),
            forall|j: int| 0 <= j < i ==> list.deep_view()[j] != item@,
        decreases list.len() - i,
    {
        if list[i] == *item {
            assert(list.deep_view()[i as int] == item@);
            return true;
        }
        i += 1;
    }
    false
}

/// A link without its leading `/ipfs/`, if it has one. One prefix is
/// taken off, never two.
pub open spec fn strip_ipfs_prefix(link: Seq<char>) -> Seq<char> {
    if "/ipfs/"@.is_prefix_of(link) {
        link.skip(6)
    } else {
        link
    }
}

/// The identifier that a link names, if it names one. What is left of
/// the link once its prefix is off must be an identifier as it stands: a
/// rest that holds `/ipfs/` again names none.
pub open spec fn link_cid(link: Seq<char>) -> Option<Seq<u8>> {
    if holds_ipfs_path(encode_utf8(strip_ipfs_prefix(link))) {
        None
    } else {
        cid_of_str(strip_ipfs_prefix(link))
    }
}

/// Resolves a link to the identifier of the file. A link that names none
/// is reported with its own text.
pub fn check_link(link: &String) -> (r: Result<Cid, Invalid>)
    ensures
        match r {
            Ok(cid) => link_cid(link@) == Some(cid@),
            Err(reason) => link_cid(link@) is None && reason@ == InvalidView::BadCid(link@),
        },
{
    proof {
        reveal_strlit("/ipfs/");
    }
    let text = link.as_str();
    let rest = if starts_with(text, "/ipfs/") {
        let n = text.unicode_len();
        assert(text@.subrange(6, n as int) =~= text@.skip(6));
        text.substring_char(6, n)
    } else {
        text
    };
    let parsed = if has_ipfs_path(rest.as_bytes()) {
        None
    } else {
        Cid::parse(rest)
    };
    match parsed {
        Some(cid) => Ok(cid),
        None => Err(Invalid::BadCid(link.clone())),
    }
}

/// Whether a name begins with one of the prefixes.
pub open spec fn has_prefix_among(name: Seq<char>, prefixes: Seq<Seq<char>>) -> bool {
    exists|j: int| 0 <= j < prefixes.len() && (#[trigger] prefixes[j]).is_prefix_of(name)
}

/// The first of the names that begins with one of the prefixes.
pub open spec fn first_with_prefix(names: Seq<Seq<char>>, prefixes: Seq<Seq<char>>) -> Option<
    Seq<char>,
>
    decreases names.len(),
{
    if names.len() == 0 {
        None
    } else if has_prefix_among(names[0], prefixes) {
        Some(names[0])
    } else {
        first_with_prefix(names.skip(1), prefixes)
    }
}

/// Whether the name begins with one of the prefixes.
pub fn has_host_fn_prefix(name: &String, prefixes: &Vec<String>) -> (r: bool)
    ensures
        r == has_prefix_among(name@, prefixes.deep_view()),
{
    let mut j: usize = 0;
    while j < prefixes.len()
        invariant
            j <= prefixes.len(),
            forall|k: int| 0 <= k < j ==> !(#[trigger] prefixes.deep_view()[k]).is_prefix_of(name@),
        decreases prefixes.len() - j,
    {
        if starts_with(name.as_str(), prefixes[j].as_str()) {
            assert(prefixes.deep_view()[j as int].is_prefix_of(name@));
            return true;
        }
        j += 1;
    }
    false
}

/// The first imported name that begins with a forbidden prefix.
pub fn calls_any_host_fn(imports: &Vec<String>, host_fn_prefixes: &Vec<String>) -> (r: Option<
    String,
>)
    ensures
        r.deep_view() == first_with_prefix(imports.deep_view(), host_fn_prefixes.deep_view()),
{
    let ghost names = imports.deep_view();
    let ghost prefixes = host_fn_prefixes.deep_view();
    let mut i: usize = 0;
    assert(names.skip(0) =~= names);
    while i < imports.len()
        invariant
            i <= imports.len(),
            names == imports.deep_view(),
            prefixes == host_fn_prefixes.deep_view(),
            first_with_prefix(names, prefixes) == first_with_prefix(names.skip(i as int), prefixes),
        decreases imports.len() - i,
    {
        if has_host_fn_prefix(&imports[i], host_fn_prefixes) {
            return Some(imports[i].clone());
        }
        assert(names.skip(i as int).skip(1) =~= names.skip(i + 1));
        i += 1;
    }
    None
}

/// What a linked file is checked as.
#[derive(Debug, Clone, Copy, PartialEq, Eq, Structural)]
pub enum FileKind {
    Schema,
    Abi,
    Mapping,
}

/// The prefixes of the host functions that a mapping may not import.
pub open spec fn forbidden_prefixes() -> Seq<Seq<char>> {
    seq!["ipfs"@]
}

/// The prefixes of the host functions that a mapping may not import.
pub fn forbidden_host_fn_prefixes() -> (r: Vec<String>)
    ensures
        r.deep_view() == forbidden_prefixes(),
{
    let mut r: Vec<String> = Vec::new();
    r.push(String::from_str("ipfs"));
    r
}

/// What is wrong with a schema file: it is no UTF-8, it holds a block
/// string that the parser would cut inside a character, which ends the
/// program that tries, or it is no GraphQL schema.
pub open spec fn schema_fault(file: Seq<u8>) -> Option<InvalidView> {
    if !valid_utf8(file) {
        Some(InvalidView::SchemaParseError(utf8_error(file)))
    } else if holds_block_cut_inside(file) {
        Some(InvalidView::SchemaParseError("block string with a line cut inside a character"@))
    } else {
        match schema_parse_error(decode_utf8(file)) {
            Some(cause) => Some(InvalidView::SchemaParseError(cause)),
            None => None,
        }
    }
}

/// What is wrong with an ABI file: a string of it that ends in a closing
/// bracket would end the program if the loader read it as the name of a
/// type, or it is no contract ABI.
pub open spec fn abi_fault(file: Seq<u8>) -> Option<InvalidView> {
    if holds_unsafe_type_name(file) {
        Some(InvalidView::AbiParseError("type name that cannot be read safely"@))
    } else {
        match abi_parse_error(file) {
            Some(cause) => Some(InvalidView::AbiParseError(cause)),
            None => None,
        }
    }
}

/// What is wrong with a mapping, given the names it imports and the error
/// that ended their reading, if any: the first forbidden import, else the
/// error.
pub open spec fn imports_fault(
    names: Seq<Seq<char>>,
    error: Option<Seq<char>>,
    prefixes: Seq<Seq<char>>,
) -> Option<InvalidView> {
    match first_with_prefix(names, prefixes) {
        Some(name) => Some(InvalidView::ForbiddenApi(name)),
        None => match error {
            Some(cause) => Some(InvalidView::WasmParseError(cause)),
            None => None,
        },
    }
}

/// What is wrong with a mapping file.
pub open spec fn mapping_fault(file: Seq<u8>) -> Option<InvalidView> {
    imports_fault(wasm_import_scan(file).0, wasm_import_scan(file).1, forbidden_prefixes())
}

/// What is wrong with a file of the given kind.
pub open spec fn content_fault(kind: FileKind, file: Seq<u8>) -> Option<InvalidView> {
    match kind {
        FileKind::Schema => schema_fault(file),
        FileKind::Abi => abi_fault(file),
        FileKind::Mapping => mapping_fault(file),
    }
}

/// The fault that a result reports, if any.
pub open spec fn fault_of(r: Result<(), Invalid>) -> Option<InvalidView> {
    match r {
        Ok(_) => None,
        Err(reason) => Some(reason@),
    }
}

/// Checks that a file is UTF-8 and holds a GraphQL schema.
pub fn check_schema(file: Vec<u8>) -> (r: Result<(), Invalid>)
    ensures
        fault_of(r) == schema_fault(file@),
{
    proof {
        if valid_utf8(file@) {
            decode_utf8_encode_utf8(file@);
        }
    }
    match string_from_utf8(file) {
        Err(cause) => Err(Invalid::SchemaParseError(cause)),
        Ok(text) => if has_block_cut_inside(text.as_str().as_bytes()) {
            Err(
                Invalid::SchemaParseError(
                    String::from_str("block string with a line cut inside a character"),
                ),
            )
        } else {
            match parse_schema(text.as_str()) {
                Some(cause) => Err(Invalid::SchemaParseError(cause)),
                None => Ok(()),
            }
        },
    }
}

/// Checks that a file holds a contract ABI.
pub fn check_abi(file: &Vec<u8>) -> (r: Result<(), Invalid>)
    ensures
        fault_of(r) == abi_fault(file@),
{
    if has_unsafe_type_name(file.as_slice()) {
        return Err(Invalid::AbiParseError(String::from_str("type name that cannot be read safely")));
    }
    match load_abi(file.as_slice()) {
        Some(cause) => Err(Invalid::AbiParseError(cause)),
        None => Ok(()),
    }
}

/// Judges a mapping by what was read of its import section: a forbidden
/// import is reported before an error of the parser that came after it.
pub fn check_imports(imports: &Vec<String>, error: Option<String>, host_fn_prefixes: &Vec<String>) -> (r:
    Result<(), Invalid>)
    ensures
        fault_of(r) == imports_fault(
            imports.deep_view(),
            error.deep_view(),
            host_fn_prefixes.deep_view(),
        ),
{
    match calls_any_host_fn(imports, host_fn_prefixes) {
        Some(name) => Err(Invalid::ForbiddenApi(name)),
        None => match error {
            Some(cause) => Err(Invalid::WasmParseError(cause)),
            None => Ok(()),
        },
    }
}

/// Checks that a file is a WebAssembly module that imports no forbidden
/// host function.
pub fn check_mapping(file: &Vec<u8>) -> (r: Result<(), Invalid>)
    ensures
        fault_of(r) == mapping_fault(file@),
{
    let (imports, error) = scan_imports(file.as_slice());
    let prefixes = forbidden_host_fn_prefixes();
    check_imports(&imports, error, &prefixes)
}

/// Checks a file of the given kind.
pub fn check_content(kind: FileKind, file: Vec<u8>) -> (r: Result<(), Invalid>)
    ensures
        fault_of(r) == content_fault(kind, file@),
{
    match kind {
        FileKind::Schema => check_schema(file),
        FileKind::Abi => check_abi(&file),
        FileKind::Mapping => check_mapping(&file),
    }
}

/// One step of the validation of a deployment.
#[derive(Debug, Clone, PartialEq, Eq)]
pub enum Step {
    /// Fetch the file and check it as the given kind.
    Fetch(Cid, FileKind),
    /// The deployment is invalid for this reason.
    Fail(Invalid),
    /// A transport error ends the check without a verdict.
    Abort(String),
}

/// The mathematical value of a [`Step`].
pub enum StepView {
    Fetch(Seq<u8>, FileKind),
    Fail(InvalidView),
    Abort(Seq<char>),
}

impl DeepView for Step {
    type V = StepView;

    open spec fn deep_view(&self) -> StepView {
        match self {
            Step::Fetch(cid, kind) => StepView::Fetch(cid@, *kind),
            Step::Fail(reason) => StepView::Fail(reason@),
            Step::Abort(cause) => StepView::Abort(cause@),
        }
    }
}

/// The step that a link asks for: fetch the file it names, or fail on a
/// link that names none.
pub open spec fn link_step(link: Seq<char>, kind: FileKind) -> StepView {
    match link_cid(link) {
        Some(cid) => StepView::Fetch(cid, kind),
        None => StepView::Fail(InvalidView::BadCid(link)),
    }
}

/// The steps for the files of a data source: its ABIs in order, then its
/// mapping, up to the first link that names no file.
pub open spec fn file_steps(abis: Seq<Seq<char>>, file: Option<Seq<char>>) -> Seq<StepView>
    decreases abis.len(),
{
    if abis.len() == 0 {
        match file {
            Some(link) => seq![link_step(link, FileKind::Mapping)],
            None => seq![],
        }
    } else if link_step(abis[0], FileKind::Abi) is Fail {
        seq![link_step(abis[0], FileKind::Abi)]
    } else {
        seq![link_step(abis[0], FileKind::Abi)] + file_steps(abis.skip(1), file)
    }
}

/// What is wrong with the network of a data source, given the network
/// that the data sources before it set: the first network must be a
/// supported one, and every later one the same. A data source without a
/// network is exempt.
pub open spec fn network_fault(
    network: Option<Seq<char>>,
    ds_network: Option<Seq<char>>,
    supported_networks: Seq<Seq<char>>,
) -> Option<InvalidView> {
    match (network, ds_network) {
        (None, Some(id)) => if supported_networks.contains(id) {
            None
        } else {
            Some(InvalidView::UnsupportedNetwork(id))
        },
        (Some(subgraph_network), Some(id)) => if subgraph_network == id {
            None
        } else {
            Some(InvalidView::ManifestParseError("mismatching networks"@))
        },
        (_, None) => None,
    }
}

/// The network of the subgraph after a data source: that of the first
/// data source that has one.
pub open spec fn network_after(network: Option<Seq<char>>, ds_network: Option<Seq<char>>) -> Option<
    Seq<char>,
> {
    if network is None {
        ds_network
    } else {
        network
    }
}

/// The steps for one data source: its kind is checked first, then its
/// network, then its files.
pub open spec fn data_source_steps(
    ds: DataSourceView,
    network: Option<Seq<char>>,
    supported_networks: Seq<Seq<char>>,
    supported_ds_kinds: Seq<Seq<char>>,
) -> Seq<StepView> {
    if !supported_ds_kinds.contains(ds.kind) {
        seq![StepView::Fail(InvalidView::UnsupportedDataSourceKind(ds.kind))]
    } else {
        match network_fault(network, ds.network, supported_networks) {
            Some(reason) => seq![StepView::Fail(reason)],
            None => file_steps(ds.abis, ds.file),
        }
    }
}

/// Whether the steps end in a failure.
pub open spec fn ends_in_fail(steps: Seq<StepView>) -> bool {
    steps.len() > 0 && steps.last() is Fail
}

/// The steps for the data sources in order, up to the first failure.
pub open spec fn data_sources_steps(
    data_sources: Seq<DataSourceView>,
    network: Option<Seq<char>>,
    supported_networks: Seq<Seq<char>>,
    supported_ds_kinds: Seq<Seq<char>>,
) -> Seq<StepView>
    decreases data_sources.len(),
{
    if data_sources.len() == 0 {
        seq![]
    } else {
        let head = data_source_steps(
            data_sources[0],
            network,
            supported_networks,
            supported_ds_kinds,
        );
        if ends_in_fail(head) {
            head
        } else {
            head + data_sources_steps(
                data_sources.skip(1),
                network_after(network, data_sources[0].network),
                supported_networks,
                supported_ds_kinds,
            )
        }
    }
}

/// The steps that a manifest asks for: its schema, then its data sources
/// in order, up to the first failure that shows without fetching.
pub open spec fn manifest_steps(
    manifest: ManifestView,
    supported_networks: Seq<Seq<char>>,
    supported_ds_kinds: Seq<Seq<char>>,
) -> Seq<StepView> {
    if link_step(manifest.schema, FileKind::Schema) is Fail {
        seq![link_step(manifest.schema, FileKind::Schema)]
    } else {
        seq![link_step(manifest.schema, FileKind::Schema)] + data_sources_steps(
            manifest.data_sources,
            None,
            supported_networks,
            supported_ds_kinds,
        )
    }
}

/// The step for a link.
fn step_for_link(link: &Link, kind: FileKind) -> (r: Step)
    ensures
        r.deep_view() == link_step(link.link@, kind),
{
    match check_link(&link.link) {
        Ok(cid) => Step::Fetch(cid, kind),
        Err(reason) => Step::Fail(reason),
    }
}

/// Checks the network of a data source against the one set so far.
pub fn check_network(
    network: &Option<String>,
    ds_network: &Option<String>,
    supported_networks: &Vec<String>,
) -> (r: Result<(), Invalid>)
    ensures
        fault_of(r) == network_fault(
            network.deep_view(),
            ds_network.deep_view(),
            supported_networks.deep_view(),
        ),
{
    match ds_network {
        None => Ok(()),
        Some(id) => match network {
            None => if contains(supported_networks, id) {
                Ok(())
            } else {
                Err(Invalid::UnsupportedNetwork(id.clone()))
            },
            Some(subgraph_network) => if *subgraph_network == *id {
                Ok(())
            } else {
                Err(Invalid::ManifestParseError(String::from_str("mismatching networks")))
            },
        },
    }
}

/// Appends the steps for the files of a data source. Says whether they
/// end in a failure.
fn push_file_steps(steps: &mut Vec<Step>, ds: &DataSource) -> (failed: bool)
    ensures
        final(steps).deep_view() == old(steps).deep_view() + file_steps(
            ds.deep_view().abis,
            ds.deep_view().file,
        ),
        failed == ends_in_fail(file_steps(ds.deep_view().abis, ds.deep_view().file)),
{
    let ghost before = steps.deep_view();
    let ghost abis = ds.deep_view().abis;
    let ghost file = ds.deep_view().file;
    let ghost mut done: Seq<StepView> = seq![];
    let mut i: usize = 0;
    assert(abis.skip(0) =~= abis);
    while i < ds.mapping.abis.len()
        invariant
            i <= ds.mapping.abis.len(),
            abis == ds.mapping.abis.deep_view(),
            file == ds.mapping.file.deep_view(),
            before == old(steps).deep_view(),
            steps.deep_view() == before + done,
            file_steps(abis, file) == done + file_steps(abis.skip(i as int), file),
            forall|k: int| 0 <= k < done.len() ==> !(#[trigger] done[k] is Fail),
        decreases ds.mapping.abis.len() - i,
    {
        let step = step_for_link(&ds.mapping.abis[i].file, FileKind::Abi);
        let ghost step_view = step.deep_view();
        let failed = match &step {
            Step::Fail(_) => true,
            _ => false,
        };
        steps.push(step);
        proof {
            assert((before + done).push(step_view) =~= before + done.push(step_view));
            assert(abis.skip(i as int).skip(1) =~= abis.skip(i + 1));
            if failed {
                assert(done + seq![step_view] =~= done.push(step_view));
            }
            done = done.push(step_view);
        }
        if failed {
            return true;
        }
        i += 1;
    }
    match &ds.mapping.file {
        Some(link) => {
            let step = step_for_link(link, FileKind::Mapping);
            let ghost step_view = step.deep_view();
            let failed = match &step {
                Step::Fail(_) => true,
                _ => false,
            };
            steps.push(step);
            proof {
                assert((before + done).push(step_view) =~= before + (done + seq![step_view]));
            }
            failed
        },
        None => false,
    }
}

/// Appends the steps for one data source. Says whether they end in a
/// failure.
fn push_data_source_steps(
    steps: &mut Vec<Step>,
    ds: &DataSource,
    network: &Option<String>,
    supported_networks: &Vec<String>,
    supported_ds_kinds: &Vec<String>,
) -> (failed: bool)
    ensures
        final(steps).deep_view() == old(steps).deep_view() + data_source_steps(
            ds.deep_view(),
            network.deep_view(),
            supported_networks.deep_view(),
            supported_ds_kinds.deep_view(),
        ),
        failed == ends_in_fail(
            data_source_steps(
                ds.deep_view(),
                network.deep_view(),
                supported_networks.deep_view(),
                supported_ds_kinds.deep_view(),
            ),
        ),
{
    if !contains(supported_ds_kinds, &ds.kind) {
        steps.push(Step::Fail(Invalid::UnsupportedDataSourceKind(ds.kind.clone())));
        return true;
    }
    match check_network(network, &ds.network, supported_networks) {
        Err(reason) => {
            steps.push(Step::Fail(reason));
            true
        },
        Ok(_) => push_file_steps(steps, ds),
    }
}

/// The steps that a manifest asks for, in the order in which they are
/// taken. Nothing is fetched here.
pub fn check_plan(
    manifest: &Manifest,
    supported_networks: &Vec<String>,
    supported_ds_kinds: &Vec<String>,
) -> (steps: Vec<Step>)
    ensures
        steps.deep_view() == manifest_steps(
            manifest.deep_view(),
            supported_networks.deep_view(),
            supported_ds_kinds.deep_view(),
        ),
{
    let ghost networks = supported_networks.deep_view();
    let ghost kinds = supported_ds_kinds.deep_view();
    let ghost dss = manifest.deep_view().data_sources;
    let mut steps: Vec<Step> = Vec::new();
    let schema = step_for_link(&manifest.schema.file, FileKind::Schema);
    let ghost schema_view = schema.deep_view();
    let failed = match &schema {
        Step::Fail(_) => true,
        _ => false,
    };
    steps.push(schema);
    if failed {
        return steps;
    }
    let mut network: Option<String> = None;
    let ghost mut done: Seq<StepView> = seq![];
    let mut i: usize = 0;
    assert(dss.skip(0) =~= dss);
    while i < manifest.data_sources.len()
        invariant
            i <= manifest.data_sources.len(),
            networks == supported_networks.deep_view(),
            kinds == supported_ds_kinds.deep_view(),
            dss == manifest.data_sources.deep_view(),
            schema_view == link_step(manifest.deep_view().schema, FileKind::Schema),
            !(schema_view is Fail),
            steps.deep_view() == seq![schema_view] + done,
            data_sources_steps(dss, None, networks, kinds) == done + data_sources_steps(
                dss.skip(i as int),
                network.deep_view(),
                networks,
                kinds,
            ),
        decreases manifest.data_sources.len() - i,
    {
        let ds = &manifest.data_sources[i];
        let ghost head = data_source_steps(ds.deep_view(), network.deep_view(), networks, kinds);
        let failed = push_data_source_steps(
            &mut steps,
            ds,
            &network,
            supported_networks,
            supported_ds_kinds,
        );
        proof {
            assert(dss.skip(i as int).skip(1) =~= dss.skip(i + 1));
            done = done + head;
        }
        if failed {
            return steps;
        }
        if network.is_none() {
            network = match &ds.network {
                Some(id) => Some(id.clone()),
                None => None,
            };
        }
        i += 1;
    }
    steps
}

} // verus!
