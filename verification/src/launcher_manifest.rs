use vstd::prelude::*;

verus! {

/// The newest release and snapshot version ids.
pub struct LauncherManifestLatest {
    pub release: String,
    pub snapshot: String,
}

impl Clone for LauncherManifestLatest {
    fn clone(&self) -> (res: Self)
        ensures
            res == *self,
    {
        LauncherManifestLatest { release: self.release.clone(), snapshot: self.snapshot.clone() }
    }
}

/// One version entry of the launcher manifest.
pub struct LauncherManifestVersion {
    pub id: String,
    pub release_time: String,
    pub time: String,
    pub url: String,
    pub version_type: String,
}

impl Clone for LauncherManifestVersion {
    fn clone(&self) -> (res: Self)
        ensures
            res == *self,
    {
        LauncherManifestVersion {
            id: self.id.clone(),
            release_time: self.release_time.clone(),
            time: self.time.clone(),
            url: self.url.clone(),
            version_type: self.version_type.clone(),
        }
    }
}

/// The launcher manifest: the latest ids and every known version.
pub struct LauncherManifest {
    pub latest: LauncherManifestLatest,
    pub versions: Vec<LauncherManifestVersion>,
}

impl Clone for LauncherManifest {
    fn clone(&self) -> (res: Self)
        ensures
            res.latest == self.latest,
            res.versions@ == self.versions@,
    {
        let versions = self.versions.clone();
        proof {
            assert(versions@ =~= self.versions@);
        }
        LauncherManifest { latest: self.latest.clone(), versions }
    }
}

} // verus!
