use vstd::prelude::*;

verus! {

/// Index of the asset objects belonging to a version.
#[derive(Clone)]
pub struct ManifestAssetIndex {
    pub id: String,
    pub sha1: String,
    pub size: i32,
    pub total_size: i32,
    pub url: String,
}

/// The java component a version expects.
#[derive(Clone)]
pub struct ManifestComponent {
    pub component: String,
    pub major_version: i8,
}

/// One downloadable file named by a manifest.
pub struct ManifestFile {
    pub path: Option<String>,
    pub sha1: String,
    pub size: u64,
    pub url: String,
}

impl Clone for ManifestFile {
    fn clone(&self) -> (res: Self)
        ensures
            res == *self,
    {
        ManifestFile {
            path: match &self.path {
                Some(p) => Some(p.clone()),
                None => None,
            },
            sha1: self.sha1.clone(),
            size: self.size,
            url: self.url.clone(),
        }
    }
}

/// The principal downloads of a version.
#[derive(Clone)]
pub struct ManifestDownloads {
    pub client: ManifestFile,
    pub client_mappings: Option<ManifestFile>,
    pub server: ManifestFile,
    pub server_mappings: Option<ManifestFile>,
}

/// No key occurs twice in a key/value list standing in for a map.
pub open spec fn unique_keys(entries: Seq<(String, String)>) -> bool {
    forall|i: int, j: int| 0 <= i < j < entries.len() ==> entries[i].0@ != entries[j].0@
}

/// A rule guarding a library: its action, plus the OS and feature
/// constraints it names. Both constraint maps are kept as key/value
/// lists; a feature's value is carried as its JSON text.
#[derive(Clone)]
pub struct ManifestRule {
    pub action: String,
    pub os: Option<Vec<(String, String)>>,
    pub features: Option<Vec<(String, String)>>,
}

impl ManifestRule {
    /// The lists stand in for maps: each carries every key once.
    pub open spec fn wf(self) -> bool {
        &&& match self.os {
            Some(entries) => unique_keys(entries@),
            None => true,
        }
        &&& match self.features {
            Some(entries) => unique_keys(entries@),
            None => true,
        }
    }
}

/// The artifact a library offers for download, if any.
pub struct ManifestLibraryDownloads {
    pub artifact: Option<ManifestFile>,
}

impl Clone for ManifestLibraryDownloads {
    fn clone(&self) -> (res: Self)
        ensures
            res == *self,
    {
        ManifestLibraryDownloads {
            artifact: match &self.artifact {
                Some(a) => Some(a.clone()),
                None => None,
            },
        }
    }
}

/// One library a version depends on.
#[derive(Clone)]
pub struct ManifestLibrary {
    pub downloads: ManifestLibraryDownloads,
    pub name: String,
    pub rules: Option<Vec<ManifestRule>>,
}

/// The kind of a version.
#[derive(Clone, Copy, Debug, PartialEq, Eq, Structural)]
pub enum VersionType {
    Release,
    Snapshot,
    OldBeta,
    OldAlpha,
}

impl VersionType {
    pub open spec fn spec_display_name(self) -> Seq<char> {
        match self {
            VersionType::Release => "Release"@,
            VersionType::Snapshot => "Snapshot"@,
            VersionType::OldBeta => "Old"@,
            VersionType::OldAlpha => "Old"@,
        }
    }

    /// The display name; both old kinds render as `Old`.
    pub fn to_string(&self) -> (r: String)
        ensures
            r@ == self.spec_display_name(),
    {
        match self {
            VersionType::Release => "Release".to_owned(),
            VersionType::Snapshot => "Snapshot".to_owned(),
            VersionType::OldBeta => "Old".to_owned(),
            VersionType::OldAlpha => "Old".to_owned(),
        }
    }
}

/// A full version manifest.
#[derive(Clone)]
pub struct Manifest {
    pub asset_index: ManifestAssetIndex,
    pub assets: String,
    pub compliance_level: i8,
    pub downloads: ManifestDownloads,
    pub id: String,
    pub java_version: ManifestComponent,
    pub libraries: Vec<ManifestLibrary>,
    pub main_class: String,
    pub minimum_launcher_version: i8,
    pub release_time: String,
    pub time: String,
    pub type_: VersionType,
}

} // verus!
