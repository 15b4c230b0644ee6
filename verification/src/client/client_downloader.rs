use vstd::prelude::*;

use crate::client::downloader::{
    join_path, path_file_name, spec_join_path, spec_path_file_name, spec_url_file_name,
    DownloadData,
};
use crate::client::verify::{eq_ignore_ascii_case, str_eq, str_eq_ignore_ascii_case};
use crate::error::ClientDownloaderError;
use crate::launcher_manifest::{LauncherManifest, LauncherManifestVersion};
use crate::manifest::{Manifest, ManifestLibrary};

verus! {

/// Resolver over a launcher manifest: lists versions and finds one by id.
pub struct ClientDownloader {
    pub main_manifest: LauncherManifest,
}

/// Whether a version entry answers to `id`, compared ignoring ASCII case.
pub open spec fn spec_version_matches(v: LauncherManifestVersion, id: Seq<char>) -> bool {
    eq_ignore_ascii_case(v.id@, id)
}

impl ClientDownloader {
    /// A resolver over an already fetched launcher manifest.
    pub fn new(main_manifest: LauncherManifest) -> (r: Self)
        ensures
            r.main_manifest == main_manifest,
    {
        ClientDownloader { main_manifest }
    }

    /// Every version the manifest knows, in manifest order.
    pub fn get_list_versions(&self) -> (r: Vec<LauncherManifestVersion>)
        ensures
            r@ == self.main_manifest.versions@,
    {
        let r = self.main_manifest.versions.clone();
        proof {
            assert(r@ =~= self.main_manifest.versions@);
        }
        r
    }

    /// The first version answering to `id`, ignoring ASCII case.
    pub fn get_version<'a>(&'a self, id: &str) -> (r: Option<&'a LauncherManifestVersion>)
        ensures
            match r {
                Some(v) => exists|i: int|
                    0 <= i < self.main_manifest.versions@.len()
                        && *v == #[trigger] self.main_manifest.versions@[i]
                        && spec_version_matches(self.main_manifest.versions@[i], id@)
                        && (forall|j: int|
                        0 <= j < i ==> !spec_version_matches(
                            self.main_manifest.versions@[j],
                            id@,
                        )),
                None => forall|i: int|
                    0 <= i < self.main_manifest.versions@.len() ==> !spec_version_matches(
                        #[trigger] self.main_manifest.versions@[i],
                        id@,
                    ),
            },
    {
        let versions = &self.main_manifest.versions;
        let n = versions.len();
        let mut i: usize = 0;
        while i < n
            invariant
                n == versions@.len(),
                i <= n,
                versions == &self.main_manifest.versions,
                forall|j: int| 0 <= j < i ==> !spec_version_matches(
                    #[trigger] self.main_manifest.versions@[j],
                    id@,
                ),
            decreases n - i,
        {
            if str_eq_ignore_ascii_case(versions[i].id.as_str(), id) {
                return Some(&versions[i]);
            }
            i += 1;
        }
        None
    }

    /// The version lookup that opens a version download: the first entry
    /// answering to `version_id`, or the no-such-version error.
    pub fn resolve_version<'a>(&'a self, version_id: &str) -> (r: Result<
        &'a LauncherManifestVersion,
        ClientDownloaderError,
    >)
        ensures
            match r {
                Ok(v) => exists|i: int|
                    0 <= i < self.main_manifest.versions@.len()
                        && *v == #[trigger] self.main_manifest.versions@[i]
                        && spec_version_matches(self.main_manifest.versions@[i], version_id@)
                        && (forall|j: int|
                        0 <= j < i ==> !spec_version_matches(
                            self.main_manifest.versions@[j],
                            version_id@,
                        )),
                Err(e) => e is NoSuchVersion && forall|i: int|
                    0 <= i < self.main_manifest.versions@.len() ==> !spec_version_matches(
                        #[trigger] self.main_manifest.versions@[i],
                        version_id@,
                    ),
            },
    {
        match self.get_version(version_id) {
            Some(v) => Ok(v),
            None => Err(ClientDownloaderError::NoSuchVersion),
        }
    }
}

/// The version jar's default location: `{game}/versions/{id}/{id}.jar`.
pub fn default_version_path(game_path: &str, id: &str) -> (r: String)
    ensures
        r@ == game_path@ + "/versions/"@ + id@ + "/"@ + id@ + ".jar"@,
{
    let mut s = game_path.to_owned();
    s.append("/versions/");
    s.append(id);
    s.append("/");
    s.append(id);
    s.append(".jar");
    proof {
        assert(s@ =~= game_path@ + "/versions/"@ + id@ + "/"@ + id@ + ".jar"@);
    }
    s
}

/// The version manifest's default location:
/// `{game}/versions/{id}/{id}.json`.
pub fn default_manifest_path(game_path: &str, id: &str) -> (r: String)
    ensures
        r@ == game_path@ + "/versions/"@ + id@ + "/"@ + id@ + ".json"@,
{
    let mut s = game_path.to_owned();
    s.append("/versions/");
    s.append(id);
    s.append("/");
    s.append(id);
    s.append(".json");
    proof {
        assert(s@ =~= game_path@ + "/versions/"@ + id@ + "/"@ + id@ + ".json"@);
    }
    s
}

/// One object of an asset index: its name, content hash and size.
pub struct AssetObject {
    pub name: String,
    pub hash: String,
    pub size: u64,
}

impl Clone for AssetObject {
    fn clone(&self) -> (res: Self)
        ensures
            res == *self,
    {
        AssetObject { name: self.name.clone(), hash: self.hash.clone(), size: self.size }
    }
}

/// What the client-jar descriptor of a manifest holds.
pub open spec fn is_client_entry(d: DownloadData, m: Manifest, version_path: Seq<char>) -> bool {
    &&& spec_path_file_name(version_path) is Some
    &&& d.url@ == m.downloads.client.url@
    &&& d.file_name@ == spec_path_file_name(version_path)->Some_0
    &&& d.output_path@ == version_path
    &&& d.sha1@ == m.downloads.client.sha1@
    &&& d.total_size == m.downloads.client.size
}

/// What the asset-index descriptor of a manifest holds; a negative
/// advisory size counts as unknown.
pub open spec fn is_asset_index_entry(d: DownloadData, m: Manifest, game: Seq<char>) -> bool {
    &&& d.url@ == m.asset_index.url@
    &&& d.file_name@ == m.asset_index.id@ + ".json"@
    &&& d.output_path@ == game + "/assets/indexes/"@ + m.asset_index.id@ + ".json"@
    &&& d.sha1@ == m.asset_index.sha1@
    &&& d.total_size == (if m.asset_index.size >= 0 {
        m.asset_index.size as int
    } else {
        0int
    })
}

/// What the descriptor of one asset object holds.
pub open spec fn is_asset_entry(d: DownloadData, a: AssetObject, game: Seq<char>) -> bool {
    &&& d.url@ == "https://resources.download.minecraft.net/"@ + a.hash@.take(2) + "/"@ + a.hash@
    &&& d.file_name@ == a.name@
    &&& d.output_path@ == game + "/assets/objects/"@ + a.hash@.take(2) + "/"@ + a.hash@
    &&& d.sha1@ == a.hash@
    &&& d.total_size == a.size
}

/// Where a library's artifact is written: below `{game}/libraries`,
/// under the artifact's own path when it names one.
pub open spec fn spec_library_output_path(lib: ManifestLibrary, game: Seq<char>) -> Seq<char>
    recommends
        lib.downloads.artifact is Some,
{
    match lib.downloads.artifact->Some_0.path {
        Some(p) => spec_join_path(game + "/libraries"@, p@),
        None => game + "/libraries"@,
    }
}

/// What the descriptor of a library's artifact holds.
pub open spec fn is_library_entry(d: DownloadData, lib: ManifestLibrary, game: Seq<char>) -> bool {
    &&& lib.downloads.artifact is Some
    &&& spec_url_file_name(lib.downloads.artifact->Some_0.url@) is Some
    &&& d.url@ == lib.downloads.artifact->Some_0.url@
    &&& d.file_name@ == spec_url_file_name(lib.downloads.artifact->Some_0.url@)->Some_0
    &&& d.output_path@ == spec_library_output_path(lib, game)
    &&& d.sha1@ == lib.downloads.artifact->Some_0.sha1@
    &&& d.total_size == lib.downloads.artifact->Some_0.size
}

/// The client-jar descriptor, written at `version_path`; `None` when
/// that path carries no file-name component.
pub fn client_download_data(manifest: &Manifest, version_path: &str) -> (r: Option<DownloadData>)
    ensures
        match r {
            Some(d) => is_client_entry(d, *manifest, version_path@),
            None => spec_path_file_name(version_path@) is None,
        },
{
    let file_name = match path_file_name(version_path) {
        Some(n) => n,
        None => {
            return None;
        },
    };
    Some(
        DownloadData {
            url: manifest.downloads.client.url.clone(),
            file_name,
            output_path: version_path.to_owned(),
            sha1: manifest.downloads.client.sha1.clone(),
            total_size: manifest.downloads.client.size,
        },
    )
}

/// The asset-index descriptor: `{game}/assets/indexes/{id}.json`.
pub fn asset_index_download_data(manifest: &Manifest, game_path: &str) -> (r: DownloadData)
    ensures
        is_asset_index_entry(r, *manifest, game_path@),
{
    let mut file_name = manifest.asset_index.id.clone();
    file_name.append(".json");
    let mut output_path = game_path.to_owned();
    output_path.append("/assets/indexes/");
    output_path.append(manifest.asset_index.id.as_str());
    output_path.append(".json");
    let size: u64 = if manifest.asset_index.size >= 0 {
        manifest.asset_index.size as u64
    } else {
        0
    };
    proof {
        assert(output_path@ =~= game_path@ + "/assets/indexes/"@ + manifest.asset_index.id@
            + ".json"@);
    }
    DownloadData {
        url: manifest.asset_index.url.clone(),
        file_name,
        output_path,
        sha1: manifest.asset_index.sha1.clone(),
        total_size: size,
    }
}

/// The descriptor of one asset object: fetched from the resource host
/// under `{hash prefix}/{hash}` and written below `{game}/assets/objects`.
pub fn asset_download_data(asset: &AssetObject, game_path: &str) -> (r: DownloadData)
    requires
        asset.hash@.len() >= 2,
    ensures
        is_asset_entry(r, *asset, game_path@),
{
    let prefix = asset.hash.as_str().substring_char(0, 2);
    let mut url = "https://resources.download.minecraft.net/".to_owned();
    url.append(prefix);
    url.append("/");
    url.append(asset.hash.as_str());
    let mut output_path = game_path.to_owned();
    output_path.append("/assets/objects/");
    output_path.append(prefix);
    output_path.append("/");
    output_path.append(asset.hash.as_str());
    proof {
        assert(url@ =~= "https://resources.download.minecraft.net/"@ + asset.hash@.take(2) + "/"@
            + asset.hash@);
        assert(output_path@ =~= game_path@ + "/assets/objects/"@ + asset.hash@.take(2) + "/"@
            + asset.hash@);
    }
    DownloadData {
        url,
        file_name: asset.name.clone(),
        output_path,
        sha1: asset.hash.clone(),
        total_size: asset.size,
    }
}

/// A library's artifact descriptor; `None` when the library offers no
/// artifact, or its URL carries no file-name component.
pub fn library_download_data(library: &ManifestLibrary, game_path: &str) -> (r: Option<
    DownloadData,
>)
    ensures
        match r {
            Some(d) => is_library_entry(d, *library, game_path@),
            None => library.downloads.artifact is None || spec_url_file_name(
                library.downloads.artifact->Some_0.url@,
            ) is None,
        },
{
    let artifact = match &library.downloads.artifact {
        Some(a) => a,
        None => {
            return None;
        },
    };
    let base_data = match DownloadData::from_manifest_file(artifact) {
        Some(d) => d,
        None => {
            return None;
        },
    };
    let mut base = game_path.to_owned();
    base.append("/libraries");
    proof {
        assert(base@ =~= game_path@ + "/libraries"@);
    }
    let output_path = match &artifact.path {
        Some(p) => join_path(base.as_str(), p.as_str()),
        None => base,
    };
    Some(DownloadData { output_path, ..base_data })
}

/// The positions of the libraries that offer an artifact.
pub open spec fn spec_artifact_indices(libs: Seq<ManifestLibrary>) -> Seq<int>
    decreases libs.len(),
{
    if libs.len() == 0 {
        Seq::empty()
    } else if libs.last().downloads.artifact is Some {
        spec_artifact_indices(libs.drop_last()).push(libs.len() - 1)
    } else {
        spec_artifact_indices(libs.drop_last())
    }
}

proof fn lemma_artifact_indices_bounds(libs: Seq<ManifestLibrary>)
    ensures
        forall|j: int|
            0 <= j < spec_artifact_indices(libs).len() ==> 0 <= #[trigger] spec_artifact_indices(
                libs,
            )[j] < libs.len() && libs[spec_artifact_indices(libs)[j]].downloads.artifact is Some,
    decreases libs.len(),
{
    if libs.len() > 0 {
        let front = libs.drop_last();
        lemma_artifact_indices_bounds(front);
        let idx = spec_artifact_indices(libs);
        assert forall|j: int| 0 <= j < idx.len() implies 0 <= #[trigger] idx[j] < libs.len()
            && libs[idx[j]].downloads.artifact is Some by {
            if libs.last().downloads.artifact is Some && j == idx.len() - 1 {
                assert(idx[j] == libs.len() - 1);
            } else {
                assert(idx[j] == spec_artifact_indices(front)[j]);
                assert(front[idx[j]] == libs[idx[j]]);
            }
        }
    }
}

proof fn lemma_artifact_indices_step(libs: Seq<ManifestLibrary>, i: int)
    requires
        0 <= i < libs.len(),
    ensures
        spec_artifact_indices(libs.take(i + 1)) == (if libs[i].downloads.artifact is Some {
            spec_artifact_indices(libs.take(i)).push(i)
        } else {
            spec_artifact_indices(libs.take(i))
        }),
{
    assert(libs.take(i + 1).drop_last() =~= libs.take(i));
    assert(libs.take(i + 1).last() == libs[i]);
}

/// Every descriptor a manifest asks for: the client jar, the asset
/// index, one entry per asset object, then one per library artifact, in
/// that order. `None` when the version path, or the URL of an offered
/// artifact, carries no file-name component.
pub fn build_manifest_downloads(
    manifest: &Manifest,
    game_path: &str,
    version_path: &str,
    assets: &Vec<AssetObject>,
) -> (r: Option<Vec<DownloadData>>)
    requires
        forall|i: int| 0 <= i < assets@.len() ==> (#[trigger] assets@[i]).hash@.len() >= 2,
    ensures
        match r {
            Some(list) => {
                &&& spec_path_file_name(version_path@) is Some
                &&& forall|i: int|
                    0 <= i < manifest.libraries@.len() && (#[trigger] manifest.libraries@[i])
                        .downloads.artifact is Some ==> spec_url_file_name(
                        manifest.libraries@[i].downloads.artifact->Some_0.url@,
                    ) is Some
                &&& list@.len() == 2 + assets@.len() + spec_artifact_indices(
                    manifest.libraries@,
                ).len()
                &&& is_client_entry(list@[0], *manifest, version_path@)
                &&& is_asset_index_entry(list@[1], *manifest, game_path@)
                &&& forall|j: int|
                    0 <= j < assets@.len() ==> is_asset_entry(
                        #[trigger] list@[2 + j],
                        assets@[j],
                        game_path@,
                    )
                &&& forall|j: int|
                    0 <= j < spec_artifact_indices(manifest.libraries@).len() ==> is_library_entry(
                        #[trigger] list@[2 + assets@.len() + j],
                        manifest.libraries@[spec_artifact_indices(manifest.libraries@)[j]],
                        game_path@,
                    )
            },
            None => spec_path_file_name(version_path@) is None || exists|i: int|
                0 <= i < manifest.libraries@.len() && (#[trigger] manifest.libraries@[i])
                    .downloads.artifact is Some && spec_url_file_name(
                    manifest.libraries@[i].downloads.artifact->Some_0.url@,
                ) is None,
        },
{
    let client_entry = match client_download_data(manifest, version_path) {
        Some(d) => d,
        None => {
            return None;
        },
    };
    let mut list: Vec<DownloadData> = Vec::new();
    list.push(client_entry);
    list.push(asset_index_download_data(manifest, game_path));
    let mut j: usize = 0;
    while j < assets.len()
        invariant
            j <= assets@.len(),
            forall|i: int| 0 <= i < assets@.len() ==> (#[trigger] assets@[i]).hash@.len() >= 2,
            list@.len() == 2 + j,
            is_client_entry(list@[0], *manifest, version_path@),
            is_asset_index_entry(list@[1], *manifest, game_path@),
            forall|k: int|
                0 <= k < j ==> is_asset_entry(#[trigger] list@[2 + k], assets@[k], game_path@),
        decreases assets@.len() - j,
    {
        list.push(asset_download_data(&assets[j], game_path));
        j += 1;
    }
    let ghost libs = manifest.libraries@;
    proof {
        assert(libs.take(0) =~= Seq::<ManifestLibrary>::empty());
    }
    let mut i: usize = 0;
    while i < manifest.libraries.len()
        invariant
            libs == manifest.libraries@,
            i <= libs.len(),
            forall|i0: int| 0 <= i0 < assets@.len() ==> (#[trigger] assets@[i0]).hash@.len() >= 2,
            list@.len() == 2 + assets@.len() + spec_artifact_indices(libs.take(i as int)).len(),
            is_client_entry(list@[0], *manifest, version_path@),
            is_asset_index_entry(list@[1], *manifest, game_path@),
            forall|k: int|
                0 <= k < assets@.len() ==> is_asset_entry(
                    #[trigger] list@[2 + k],
                    assets@[k],
                    game_path@,
                ),
            forall|k: int|
                0 <= k < spec_artifact_indices(libs.take(i as int)).len() ==> is_library_entry(
                    #[trigger] list@[2 + assets@.len() + k],
                    libs[spec_artifact_indices(libs.take(i as int))[k]],
                    game_path@,
                ),
            forall|k: int|
                0 <= k < i && (#[trigger] libs[k]).downloads.artifact is Some
                    ==> spec_url_file_name(libs[k].downloads.artifact->Some_0.url@) is Some,
        decreases libs.len() - i,
    {
        proof {
            lemma_artifact_indices_step(libs, i as int);
            lemma_artifact_indices_bounds(libs.take(i as int));
        }
        let has_artifact = match &manifest.libraries[i].downloads.artifact {
            Some(_) => true,
            None => false,
        };
        if has_artifact {
            match library_download_data(&manifest.libraries[i], game_path) {
                Some(d) => {
                    list.push(d);
                },
                None => {
                    return None;
                },
            }
        }
        i += 1;
    }
    proof {
        assert(libs.take(libs.len() as int) =~= libs);
    }
    Some(list)
}

/// Which archive kind a platform's JDK download takes.
pub open spec fn spec_java_ext(os: Seq<char>) -> Seq<char> {
    if os == "macos"@ || os == "linux"@ {
        ".tar.gz"@
    } else {
        ".zip"@
    }
}

/// The JDK archive descriptor for `version` on `os` and `arch`.
pub fn java_download_data(version: &str, os: &str, arch: &str) -> (r: DownloadData)
    ensures
        r.url@ == "https://download.oracle.com/java/"@ + version@ + "/archive/jdk-"@ + version@
            + "_"@ + os@ + "-"@ + arch@ + "_bin"@ + spec_java_ext(os@),
        r.file_name@ == "jdk-"@ + version@ + spec_java_ext(os@),
        r.output_path@ == r.file_name@,
        r.sha1@ == Seq::<char>::empty(),
        r.total_size == 0,
{
    let ext: &str = if str_eq(os, "macos") || str_eq(os, "linux") {
        ".tar.gz"
    } else {
        ".zip"
    };
    let mut url = "https://download.oracle.com/java/".to_owned();
    url.append(version);
    url.append("/archive/jdk-");
    url.append(version);
    url.append("_");
    url.append(os);
    url.append("-");
    url.append(arch);
    url.append("_bin");
    url.append(ext);
    let mut file_name = "jdk-".to_owned();
    file_name.append(version);
    file_name.append(ext);
    let output_path = file_name.clone();
    proof {
        assert(url@ =~= "https://download.oracle.com/java/"@ + version@ + "/archive/jdk-"@
            + version@ + "_"@ + os@ + "-"@ + arch@ + "_bin"@ + spec_java_ext(os@));
        assert(file_name@ =~= "jdk-"@ + version@ + spec_java_ext(os@));
    }
    DownloadData { url, file_name, output_path, sha1: String::new(), total_size: 0 }
}

} // verus!
