//! The subgraph manifest: the schema it links and its data sources.

use vstd::prelude::*;

verus! {

/// A reference to a file in the store: `/ipfs/<cid>` or a bare identifier.
#[derive(Debug, Clone, PartialEq, Eq)]
pub struct Link {
    pub link: String,
}

#[derive(Debug, Clone, PartialEq, Eq)]
pub struct Schema {
    pub file: Link,
}

#[derive(Debug, Clone, PartialEq, Eq)]
pub struct Abi {
    pub file: Link,
}

#[derive(Debug, Clone, PartialEq, Eq)]
pub struct Mapping {
    pub file: Option<Link>,
    pub abis: Vec<Abi>,
}

#[derive(Debug, Clone, PartialEq, Eq)]
pub struct DataSource {
    pub kind: String,
    pub network: Option<String>,
    pub mapping: Mapping,
}

#[derive(Debug, Clone, PartialEq, Eq)]
pub struct Manifest {
    pub schema: Schema,
    pub data_sources: Vec<DataSource>,
}

/// The mathematical value of a [`DataSource`]: its kind, its network, the
/// link of its mapping file and the links of its ABIs, in order.
pub struct DataSourceView {
    pub kind: Seq<char>,
    pub network: Option<Seq<char>>,
    pub file: Option<Seq<char>>,
    pub abis: Seq<Seq<char>>,
}

/// The mathematical value of a [`Manifest`]: the link of its schema and
/// its data sources, in order.
pub struct ManifestView {
    pub schema: Seq<char>,
    pub data_sources: Seq<DataSourceView>,
}

impl DeepView for Link {
    type V = Seq<char>;

    open spec fn deep_view(&self) -> Seq<char> {
        self.link@
    }
}

impl DeepView for Abi {
    type V = Seq<char>;

    open spec fn deep_view(&self) -> Seq<char> {
        self.file.link@
    }
}

impl DeepView for DataSource {
    type V = DataSourceView;

    open spec fn deep_view(&self) -> DataSourceView {
        DataSourceView {
            kind: self.kind@,
            network: self.network.deep_view(),
            file: self.mapping.file.deep_view(),
            abis: self.mapping.abis.deep_view(),
        }
    }
}

impl DeepView for Manifest {
    type V = ManifestView;

    open spec fn deep_view(&self) -> ManifestView {
        ManifestView {
            schema: self.schema.file.link@,
            data_sources: self.data_sources.deep_view(),
        }
    }
}

impl Manifest {
    /// The manifest with its schema and everything that is validated as a
    /// data source: the data sources in their order, followed by the
    /// templates in theirs.
    pub fn new(schema: Schema, data_sources: Vec<DataSource>, templates: Vec<DataSource>) -> (r:
        Manifest)
        ensures
            r.deep_view() == (ManifestView {
                schema: schema.file.link@,
                data_sources: data_sources.deep_view() + templates.deep_view(),
            }),
    {
        let mut all = data_sources;
        let mut rest = templates;
        all.append(&mut rest);
        assert(all.deep_view() =~= data_sources.deep_view() + templates.deep_view());
        Manifest { schema, data_sources: all }
    }

    /// The data sources, in the order of the manifest.
    pub fn data_sources(&self) -> (r: &Vec<DataSource>)
        ensures
            r.deep_view() == self.deep_view().data_sources,
    {
        &self.data_sources
    }
}

} // verus!
