use mc_downloader::client::client_downloader::{
    build_manifest_downloads, client_download_data, default_manifest_path, default_version_path,
    java_download_data, AssetObject, ClientDownloader,
};
use mc_downloader::client::downloader::{
    join_path, path_file_name, total_expected_size, DownloadData, DownloaderService,
};
use mc_downloader::client::{aggregate_results, download_result_to_fmt, u16_to_string, DownloadOutput};
use mc_downloader::client::VerifyStatus;
use mc_downloader::error::{ClientDownloaderError, DownloadError};
use mc_downloader::launcher_manifest::{
    LauncherManifest, LauncherManifestLatest, LauncherManifestVersion,
};
use mc_downloader::manifest::{
    Manifest, ManifestAssetIndex, ManifestComponent, ManifestDownloads, ManifestFile,
    ManifestLibrary, ManifestLibraryDownloads, VersionType,
};
use mc_downloader::progress::DownloadProgress;

fn manifest_file(url: &str, sha1: &str, size: u64, path: Option<&str>) -> ManifestFile {
    ManifestFile {
        path: path.map(|p| p.to_string()),
        sha1: sha1.to_string(),
        size,
        url: url.to_string(),
    }
}

fn sample_manifest() -> Manifest {
    Manifest {
        asset_index: ManifestAssetIndex {
            id: "17".to_string(),
            sha1: "ffff".to_string(),
            size: 64,
            total_size: 1024,
            url: "https://meta.host/assets/17.json".to_string(),
        },
        assets: "17".to_string(),
        compliance_level: 1,
        downloads: ManifestDownloads {
            client: manifest_file("https://files.host/client.jar", "c1a1", 1000, None),
            client_mappings: None,
            server: manifest_file("https://files.host/server.jar", "5e5e", 2000, None),
            server_mappings: None,
        },
        id: "1.20.1".to_string(),
        java_version: ManifestComponent { component: "java-runtime".to_string(), major_version: 17 },
        libraries: vec![
            ManifestLibrary {
                downloads: ManifestLibraryDownloads {
                    artifact: Some(manifest_file(
                        "https://libraries.host/org/lwjgl/lwjgl-3.3.1.jar",
                        "abcd",
                        500,
                        Some("org/lwjgl/lwjgl-3.3.1.jar"),
                    )),
                },
                name: "org.lwjgl:lwjgl:3.3.1".to_string(),
                rules: None,
            },
            ManifestLibrary {
                downloads: ManifestLibraryDownloads { artifact: None },
                name: "org.bare:marker:1.0".to_string(),
                rules: None,
            },
        ],
        main_class: "net.minecraft.client.main.Main".to_string(),
        minimum_launcher_version: 21,
        release_time: "2023-06-12T13:25:51+00:00".to_string(),
        time: "2023-06-12T13:25:51+00:00".to_string(),
        type_: VersionType::Release,
    }
}

#[test]
fn descriptor_takes_file_name_from_url() {
    let d = DownloadData::new("https://files.host/dir/thing.jar", "out/thing.jar");
    assert_eq!(d.file_name, "thing.jar");
    assert_eq!(d.url, "https://files.host/dir/thing.jar");
    assert_eq!(d.output_path, "out/thing.jar");
    assert_eq!(d.sha1, "");
    assert_eq!(d.total_size, 0);
}

#[test]
fn try_new_rejects_urls_without_a_file_name() {
    assert!(DownloadData::try_new("", "x").is_none());
    assert!(DownloadData::try_new("not a url", "x").is_none());
    assert!(DownloadData::try_new("https://host", "x").is_none());
    let d = DownloadData::try_new("https://host/a/b/c.zip", "c.zip").unwrap();
    assert_eq!(d.file_name, "c.zip");
}

#[test]
fn descriptor_from_manifest_entry_keeps_hints() {
    let f = manifest_file("https://files.host/lib.jar", "beef", 321, Some("libs/lib.jar"));
    let d = DownloadData::from_manifest_file(&f).unwrap();
    assert_eq!(d.file_name, "lib.jar");
    assert_eq!(d.output_path, "libs/lib.jar");
    assert_eq!(d.sha1, "beef");
    assert_eq!(d.total_size, 321);
    let no_path = manifest_file("https://files.host/lib.jar", "beef", 321, None);
    assert_eq!(DownloadData::from_manifest_file(&no_path).unwrap().output_path, "");
}

#[test]
fn path_joining_behaves_like_push() {
    assert_eq!(join_path("/root", "a/b.txt"), "/root/a/b.txt");
    assert_eq!(join_path("", "a/b.txt"), "a/b.txt");
    assert_eq!(join_path("/root", "/absolute/b.txt"), "/absolute/b.txt");
}

#[test]
fn path_file_name_takes_the_last_component() {
    assert_eq!(path_file_name("/a/b/c.jar").unwrap(), "c.jar");
    assert_eq!(path_file_name("c.jar").unwrap(), "c.jar");
    assert!(path_file_name("").is_none());
    assert!(path_file_name("/a/b/").is_none());
    assert!(path_file_name("/a/..").is_none());
    assert!(path_file_name(".").is_none());
}

#[test]
fn default_paths_follow_the_version_layout() {
    assert_eq!(
        default_version_path("/game", "1.20.1"),
        "/game/versions/1.20.1/1.20.1.jar"
    );
    assert_eq!(
        default_manifest_path("/game", "1.20.1"),
        "/game/versions/1.20.1/1.20.1.json"
    );
}

#[test]
fn manifest_download_list_is_client_index_assets_then_libraries() {
    let manifest = sample_manifest();
    let assets = vec![
        AssetObject { name: "icons/icon_16x16.png".to_string(), hash: "aa12deadbeef".to_string(), size: 3 },
        AssetObject { name: "minecraft/sounds/ambient.ogg".to_string(), hash: "bb34cafe".to_string(), size: 7 },
    ];
    let version_path = default_version_path("/game", "1.20.1");
    let list = build_manifest_downloads(&manifest, "/game", &version_path, &assets)
        .expect("every URL in the sample carries a file name");

    assert_eq!(list.len(), 5);

    assert_eq!(list[0].url, "https://files.host/client.jar");
    assert_eq!(list[0].file_name, "1.20.1.jar");
    assert_eq!(list[0].output_path, "/game/versions/1.20.1/1.20.1.jar");
    assert_eq!(list[0].sha1, "c1a1");
    assert_eq!(list[0].total_size, 1000);

    assert_eq!(list[1].url, "https://meta.host/assets/17.json");
    assert_eq!(list[1].file_name, "17.json");
    assert_eq!(list[1].output_path, "/game/assets/indexes/17.json");
    assert_eq!(list[1].total_size, 64);

    assert_eq!(list[2].url, "https://resources.download.minecraft.net/aa/aa12deadbeef");
    assert_eq!(list[2].output_path, "/game/assets/objects/aa/aa12deadbeef");
    assert_eq!(list[2].file_name, "icons/icon_16x16.png");
    assert_eq!(list[2].sha1, "aa12deadbeef");
    assert_eq!(list[2].total_size, 3);
    assert_eq!(list[3].url, "https://resources.download.minecraft.net/bb/bb34cafe");

    assert_eq!(list[4].url, "https://libraries.host/org/lwjgl/lwjgl-3.3.1.jar");
    assert_eq!(list[4].file_name, "lwjgl-3.3.1.jar");
    assert_eq!(list[4].output_path, "/game/libraries/org/lwjgl/lwjgl-3.3.1.jar");
    assert_eq!(list[4].sha1, "abcd");
    assert_eq!(list[4].total_size, 500);
}

#[test]
fn negative_asset_index_size_counts_as_unknown() {
    let mut manifest = sample_manifest();
    manifest.asset_index.size = -5;
    let list = build_manifest_downloads(&manifest, "/game", "/game/v/x.jar", &Vec::new()).unwrap();
    assert_eq!(list[1].total_size, 0);
}

#[test]
fn java_descriptor_names_the_oracle_archive() {
    let d = java_download_data("17", "linux", "x64");
    assert_eq!(
        d.url,
        "https://download.oracle.com/java/17/archive/jdk-17_linux-x64_bin.tar.gz"
    );
    assert_eq!(d.file_name, "jdk-17.tar.gz");
    assert_eq!(d.output_path, "jdk-17.tar.gz");
    let d = java_download_data("21", "windows", "x64");
    assert_eq!(
        d.url,
        "https://download.oracle.com/java/21/archive/jdk-21_windows-x64_bin.zip"
    );
    assert_eq!(d.file_name, "jdk-21.zip");
}

#[test]
fn version_lookup_ignores_ascii_case_and_keeps_order() {
    let versions = vec![
        LauncherManifestVersion {
            id: "1.20.1".to_string(),
            release_time: "r1".to_string(),
            time: "t1".to_string(),
            url: "https://meta.host/1.20.1.json".to_string(),
            version_type: "release".to_string(),
        },
        LauncherManifestVersion {
            id: "23w31a".to_string(),
            release_time: "r2".to_string(),
            time: "t2".to_string(),
            url: "https://meta.host/23w31a.json".to_string(),
            version_type: "snapshot".to_string(),
        },
    ];
    let downloader = ClientDownloader::new(LauncherManifest {
        latest: LauncherManifestLatest { release: "1.20.1".to_string(), snapshot: "23w31a".to_string() },
        versions,
    });
    assert_eq!(downloader.get_version("23W31A").unwrap().id, "23w31a");
    assert!(downloader.get_version("9.9.9").is_none());
    assert!(downloader.resolve_version("1.20.1").is_ok());
    assert!(matches!(
        downloader.resolve_version("none"),
        Err(ClientDownloaderError::NoSuchVersion)
    ));
    let listed = downloader.get_list_versions();
    assert_eq!(listed.len(), 2);
    assert_eq!(listed[0].id, "1.20.1");
    assert_eq!(listed[1].url, "https://meta.host/23w31a.json");
}

#[test]
fn aggregate_policy_rejects_empty_and_mostly_failed_batches() {
    let ok = || -> Result<DownloadOutput, DownloadError> {
        Ok(DownloadOutput {
            status: 200,
            file_name: "f".to_string(),
            file_path: "f".to_string(),
            verified: VerifyStatus::Passed,
        })
    };
    let failed = || -> Result<DownloadOutput, DownloadError> {
        Err(DownloadError::Setup("boom".to_string()))
    };

    match aggregate_results(&Vec::new()) {
        Err(DownloadError::DownloadDefinition(m)) => assert_eq!(m, "No Downloaded files"),
        other => panic!("an empty batch must be rejected, got {:?}", other),
    }

    // Two failures out of three: more than half, rejected even though a
    // success is present.
    match aggregate_results(&vec![ok(), failed(), failed()]) {
        Err(DownloadError::DownloadDefinition(m)) => {
            assert_eq!(m, "More than half of the downloads failed")
        }
        other => panic!("a mostly failed batch must be rejected, got {:?}", other),
    }

    // Exactly half fails: the mixed sequence stands.
    assert!(aggregate_results(&vec![ok(), failed(), ok(), failed()]).is_ok());
    assert!(aggregate_results(&vec![ok()]).is_ok());
}

#[test]
fn outcome_renders_as_one_line() {
    assert_eq!(u16_to_string(0), "0");
    assert_eq!(u16_to_string(200), "200");
    assert_eq!(u16_to_string(65535), "65535");
    let out = DownloadOutput {
        status: 404,
        file_name: "thing.jar".to_string(),
        file_path: "p/thing.jar".to_string(),
        verified: VerifyStatus::Failed,
    };
    assert_eq!(
        download_result_to_fmt(&out),
        "thing.jar: (verification: FAILED) Status: 404\n"
    );
    assert_eq!(out.to_display_string(), "thing.jar: (verification: FAILED) Status: 404\n");

    let unchecked = DownloadOutput {
        status: 200,
        file_name: "raw.bin".to_string(),
        file_path: "raw.bin".to_string(),
        verified: VerifyStatus::NotVerified,
    };
    assert_eq!(
        download_result_to_fmt(&unchecked),
        "raw.bin: (verification: unverified) Status: 200\n"
    );

    let passed = DownloadOutput {
        status: 200,
        file_name: "ok.bin".to_string(),
        file_path: "ok.bin".to_string(),
        verified: VerifyStatus::Passed,
    };
    assert_eq!(
        download_result_to_fmt(&passed),
        "ok.bin: (verification: Ok) Status: 200\n"
    );
}

#[test]
fn version_type_renders_old_kinds_together() {
    assert_eq!(VersionType::Release.to_string(), "Release");
    assert_eq!(VersionType::Snapshot.to_string(), "Snapshot");
    assert_eq!(VersionType::OldAlpha.to_string(), "Old");
    assert_eq!(VersionType::OldBeta.to_string(), "Old");
}

#[test]
fn total_size_sums_and_detects_overflow() {
    let d = |size: u64| -> DownloadData {
        let mut d = DownloadData::new("https://host/x.bin", "x.bin");
        d.total_size = size;
        d
    };
    assert_eq!(total_expected_size(&vec![]), Some(0));
    assert_eq!(total_expected_size(&vec![d(10), d(20), d(30)]), Some(60));
    assert_eq!(total_expected_size(&vec![d(u64::MAX), d(1)]), None);
}

#[test]
fn fresh_progress_state_is_zeroed() {
    let p = DownloadProgress::new();
    assert_eq!(p.files_count, 0);
    assert_eq!(p.files_downloaded, 0);
    assert!(p.current_file.is_none());
    assert_eq!(p.progress, 0);
    assert!(!p.finished);
}

#[test]
fn client_entry_requires_a_version_file_name() {
    let manifest = sample_manifest();
    assert!(client_download_data(&manifest, "/game/versions/").is_none());
    let entry = client_download_data(&manifest, "/game/versions/v/v.jar").unwrap();
    assert_eq!(entry.file_name, "v.jar");
}

#[test]
fn default_service_configuration() {
    let service = DownloaderService::default();
    assert_eq!(service.parallel_requests, 32);
    assert_eq!(service.retries, 3);
    assert_eq!(service.settings.connect_timeout_secs, 30);
    assert_eq!(service.settings.total_timeout_secs, 300);
    assert_eq!(service.download_folder, "");
    let service = DownloaderService::new("/downloads");
    assert_eq!(service.download_folder, "/downloads");
}
