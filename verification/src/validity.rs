//! Verdicts on a deployment, and the errors that lead to them.

use crate::cid::{cid_text, Cid};
use vstd::prelude::*;
use vstd::string::StringExecFns;

verus! {

/// Why a deployment is invalid. The texts are the causes as the parser or
/// the file store worded them.
#[derive(Debug, PartialEq, Eq)]
pub enum Invalid {
    BadCid(String),
    Unavailable(Cid, String),
    ManifestParseError(String),
    SchemaParseError(String),
    WasmParseError(String),
    AbiParseError(String),
    ForbiddenApi(String),
    UnsupportedNetwork(String),
    UnsupportedDataSourceKind(String),
}

/// The mathematical value of an [`Invalid`].
pub enum InvalidView {
    BadCid(Seq<char>),
    Unavailable(Seq<u8>, Seq<char>),
    ManifestParseError(Seq<char>),
    SchemaParseError(Seq<char>),
    WasmParseError(Seq<char>),
    AbiParseError(Seq<char>),
    ForbiddenApi(Seq<char>),
    UnsupportedNetwork(Seq<char>),
    UnsupportedDataSourceKind(Seq<char>),
}

impl View for Invalid {
    type V = InvalidView;

    open spec fn view(&self) -> InvalidView {
        match self {
            Invalid::BadCid(link) => InvalidView::BadCid(link@),
            Invalid::Unavailable(cid, cause) => InvalidView::Unavailable(cid@, cause@),
            Invalid::ManifestParseError(cause) => InvalidView::ManifestParseError(cause@),
            Invalid::SchemaParseError(cause) => InvalidView::SchemaParseError(cause@),
            Invalid::WasmParseError(cause) => InvalidView::WasmParseError(cause@),
            Invalid::AbiParseError(cause) => InvalidView::AbiParseError(cause@),
            Invalid::ForbiddenApi(name) => InvalidView::ForbiddenApi(name@),
            Invalid::UnsupportedNetwork(id) => InvalidView::UnsupportedNetwork(id@),
            Invalid::UnsupportedDataSourceKind(kind) => InvalidView::UnsupportedDataSourceKind(
                kind@,
            ),
        }
    }
}

impl DeepView for Invalid {
    type V = InvalidView;

    open spec fn deep_view(&self) -> InvalidView {
        self@
    }
}

impl InvalidView {
    /// The reason in words, as it is logged.
    pub open spec fn message(self) -> Seq<char> {
        match self {
            InvalidView::BadCid(link) => "bad cid: "@ + link,
            InvalidView::Unavailable(cid, cause) => "unavailable cid: "@ + cid_text(cid) + " ("@
                + cause + ")"@,
            InvalidView::ManifestParseError(cause) => "manifest parse error: "@ + cause,
            InvalidView::SchemaParseError(cause) => "schema parse error: "@ + cause,
            InvalidView::WasmParseError(cause) => "wasm parse error: "@ + cause,
            InvalidView::AbiParseError(cause) => "abi parse error: "@ + cause,
            InvalidView::ForbiddenApi(name) => "use of forbidden api: "@ + name,
            InvalidView::UnsupportedNetwork(id) => "unsupported network: "@ + id,
            InvalidView::UnsupportedDataSourceKind(kind) => "unsupported data source kind: "@
                + kind,
        }
    }
}

/// A text made of a label followed by a detail.
fn labelled(label: &str, detail: &str) -> (r: String)
    ensures
        r@ == label@ + detail@,
{
    String::from_str(label).concat(detail)
}

impl Invalid {
    /// The reason in words.
    pub fn to_string(&self) -> (r: String)
        ensures
            r@ == self@.message(),
    {
        match self {
            Invalid::BadCid(link) => labelled("bad cid: ", link.as_str()),
            Invalid::Unavailable(cid, cause) => {
                let text = cid.to_text();
                let mut r = labelled("unavailable cid: ", text.as_str());
                r.append(" (");
                r.append(cause.as_str());
                r.append(")");
                r
            },
            Invalid::ManifestParseError(cause) => labelled(
                "manifest parse error: ",
                cause.as_str(),
            ),
            Invalid::SchemaParseError(cause) => labelled("schema parse error: ", cause.as_str()),
            Invalid::WasmParseError(cause) => labelled("wasm parse error: ", cause.as_str()),
            Invalid::AbiParseError(cause) => labelled("abi parse error: ", cause.as_str()),
            Invalid::ForbiddenApi(name) => labelled("use of forbidden api: ", name.as_str()),
            Invalid::UnsupportedNetwork(id) => labelled("unsupported network: ", id.as_str()),
            Invalid::UnsupportedDataSourceKind(kind) => labelled(
                "unsupported data source kind: ",
                kind.as_str(),
            ),
        }
    }
}

impl Clone for Invalid {
    fn clone(&self) -> (r: Self)
        ensures
            r@ == self@,
    {
        match self {
            Invalid::BadCid(link) => Invalid::BadCid(link.clone()),
            Invalid::Unavailable(cid, cause) => Invalid::Unavailable(cid.clone(), cause.clone()),
            Invalid::ManifestParseError(cause) => Invalid::ManifestParseError(cause.clone()),
            Invalid::SchemaParseError(cause) => Invalid::SchemaParseError(cause.clone()),
            Invalid::WasmParseError(cause) => Invalid::WasmParseError(cause.clone()),
            Invalid::AbiParseError(cause) => Invalid::AbiParseError(cause.clone()),
            Invalid::ForbiddenApi(name) => Invalid::ForbiddenApi(name.clone()),
            Invalid::UnsupportedNetwork(id) => Invalid::UnsupportedNetwork(id.clone()),
            Invalid::UnsupportedDataSourceKind(kind) => Invalid::UnsupportedDataSourceKind(
                kind.clone(),
            ),
        }
    }
}

/// The verdict on a deployment.
#[derive(Debug, PartialEq, Eq)]
pub enum Valid {
    Yes,
    No(Invalid),
}

/// The mathematical value of a [`Valid`].
pub enum ValidView {
    Yes,
    No(InvalidView),
}

impl View for Valid {
    type V = ValidView;

    open spec fn view(&self) -> ValidView {
        match self {
            Valid::Yes => ValidView::Yes,
            Valid::No(reason) => ValidView::No(reason@),
        }
    }
}

impl DeepView for Valid {
    type V = ValidView;

    open spec fn deep_view(&self) -> ValidView {
        self@
    }
}

impl ValidView {
    /// The verdict in words.
    pub open spec fn message(self) -> Seq<char> {
        match self {
            ValidView::Yes => "valid"@,
            ValidView::No(reason) => reason.message(),
        }
    }
}

impl Valid {
    /// The verdict in words: `valid`, or the reason.
    pub fn to_string(&self) -> (r: String)
        ensures
            r@ == self@.message(),
    {
        match self {
            Valid::Yes => String::from_str("valid"),
            Valid::No(reason) => reason.to_string(),
        }
    }

    /// Whether the deployment is to be denied.
    pub fn is_no(&self) -> (r: bool)
        ensures
            r == (self@ is No),
    {
        match self {
            Valid::Yes => false,
            Valid::No(_) => true,
        }
    }
}

impl Clone for Valid {
    fn clone(&self) -> (r: Self)
        ensures
            r@ == self@,
    {
        match self {
            Valid::Yes => Valid::Yes,
            Valid::No(reason) => Valid::No(reason.clone()),
        }
    }
}

/// How a fetch from the file store can fail.
#[derive(Debug, Clone, PartialEq, Eq)]
pub enum IpfsError {
    GatewayTimeout(Cid, String),
    ClientTimeout(Cid, String),
    NotFound(Cid, String),
    Other(String),
}

/// The mathematical value of an [`IpfsError`].
pub enum IpfsErrorView {
    GatewayTimeout(Seq<u8>, Seq<char>),
    ClientTimeout(Seq<u8>, Seq<char>),
    NotFound(Seq<u8>, Seq<char>),
    Other(Seq<char>),
}

impl View for IpfsError {
    type V = IpfsErrorView;

    open spec fn view(&self) -> IpfsErrorView {
        match self {
            IpfsError::GatewayTimeout(cid, cause) => IpfsErrorView::GatewayTimeout(cid@, cause@),
            IpfsError::ClientTimeout(cid, cause) => IpfsErrorView::ClientTimeout(cid@, cause@),
            IpfsError::NotFound(cid, cause) => IpfsErrorView::NotFound(cid@, cause@),
            IpfsError::Other(cause) => IpfsErrorView::Other(cause@),
        }
    }
}

impl DeepView for IpfsError {
    type V = IpfsErrorView;

    open spec fn deep_view(&self) -> IpfsErrorView {
        self@
    }
}

/// What ends the check of a deployment early: a verdict of invalidity, or
/// a transport error, which ends the whole cycle.
#[derive(Debug, Clone, PartialEq, Eq)]
pub enum CheckError {
    Invalid(Invalid),
    Other(String),
}

/// The mathematical value of a [`CheckError`].
pub enum CheckErrorView {
    Invalid(InvalidView),
    Other(Seq<char>),
}

impl View for CheckError {
    type V = CheckErrorView;

    open spec fn view(&self) -> CheckErrorView {
        match self {
            CheckError::Invalid(reason) => CheckErrorView::Invalid(reason@),
            CheckError::Other(cause) => CheckErrorView::Other(cause@),
        }
    }
}

impl DeepView for CheckError {
    type V = CheckErrorView;

    open spec fn deep_view(&self) -> CheckErrorView {
        self@
    }
}

impl IpfsErrorView {
    /// Timeouts and missing files make the deployment invalid; any other
    /// failure is a transport error.
    pub open spec fn classify(self) -> CheckErrorView {
        match self {
            IpfsErrorView::GatewayTimeout(cid, cause) => CheckErrorView::Invalid(
                InvalidView::Unavailable(cid, cause),
            ),
            IpfsErrorView::ClientTimeout(cid, cause) => CheckErrorView::Invalid(
                InvalidView::Unavailable(cid, cause),
            ),
            IpfsErrorView::NotFound(cid, cause) => CheckErrorView::Invalid(
                InvalidView::Unavailable(cid, cause),
            ),
            IpfsErrorView::Other(cause) => CheckErrorView::Other(cause),
        }
    }
}

impl From<IpfsError> for CheckError {
    fn from(e: IpfsError) -> (r: CheckError) {
        match e {
            IpfsError::GatewayTimeout(cid, cause) => CheckError::Invalid(
                Invalid::Unavailable(cid, cause),
            ),
            IpfsError::ClientTimeout(cid, cause) => CheckError::Invalid(
                Invalid::Unavailable(cid, cause),
            ),
            IpfsError::NotFound(cid, cause) => CheckError::Invalid(Invalid::Unavailable(cid, cause)),
            IpfsError::Other(cause) => CheckError::Other(cause),
        }
    }
}

impl vstd::std_specs::convert::FromSpecImpl<IpfsError> for CheckError {
    open spec fn obeys_from_spec() -> bool {
        true
    }

    open spec fn from_spec(e: IpfsError) -> CheckError {
        match e {
            IpfsError::GatewayTimeout(cid, cause) => CheckError::Invalid(
                Invalid::Unavailable(cid, cause),
            ),
            IpfsError::ClientTimeout(cid, cause) => CheckError::Invalid(
                Invalid::Unavailable(cid, cause),
            ),
            IpfsError::NotFound(cid, cause) => CheckError::Invalid(Invalid::Unavailable(cid, cause)),
            IpfsError::Other(cause) => CheckError::Other(cause),
        }
    }
}

impl From<Invalid> for CheckError {
    fn from(e: Invalid) -> (r: CheckError) {
        CheckError::Invalid(e)
    }
}

impl vstd::std_specs::convert::FromSpecImpl<Invalid> for CheckError {
    open spec fn obeys_from_spec() -> bool {
        true
    }

    open spec fn from_spec(e: Invalid) -> CheckError {
        CheckError::Invalid(e)
    }
}

/// The conversion of a fetch error keeps to [`IpfsErrorView::classify`].
pub proof fn lemma_from_ipfs_error_classifies(e: IpfsError)
    ensures
        <CheckError as vstd::std_specs::convert::FromSpec<IpfsError>>::from_spec(e)@
            == e@.classify(),
{
}

} // verus!
