use std::io::Write;
use tfswitch::archive::ArchiveHandle;
use tfswitch::error::Error;
use tfswitch::fetch::{
    archive_url, cache_key, cache_location, download_and_save_terraform_version_zip,
    get_terraform_version_zip, install_version, Download, Fetch, PlatformTarget,
    DEFAULT_LOCATION, PROGRAM_NAME,
};
use tfswitch::http::Reply;

fn archive_with(entries: &[(&str, &[u8])]) -> Vec<u8> {
    let mut writer = zip::ZipWriter::new(std::io::Cursor::new(Vec::new()));
    for (name, contents) in entries {
        let options = zip::write::SimpleFileOptions::default()
            .compression_method(zip::CompressionMethod::Deflated);
        writer.start_file(name.to_string(), options).unwrap();
        writer.write_all(contents).unwrap();
    }
    writer.finish().unwrap().into_inner()
}

#[test]
fn cache_key_is_built_from_its_four_parts() {
    assert_eq!(
        cache_key("terraform", "1.3.0", "linux", "amd64"),
        "terraform_1.3.0_linux_amd64.zip"
    );
    assert_eq!(
        cache_key("terraform", "1.2.0-alpha-20220328", "darwin", "arm64"),
        "terraform_1.2.0-alpha-20220328_darwin_arm64.zip"
    );
    assert_eq!(cache_key("", "", "", ""), "___.zip");
}

#[test]
fn cache_key_is_the_same_for_the_same_arguments() {
    assert_eq!(
        cache_key("terraform", "1.3.0", "linux", "amd64"),
        cache_key("terraform", "1.3.0", "linux", "amd64")
    );
}

#[test]
fn cache_key_changes_with_each_argument() {
    let key = cache_key("terraform", "1.3.0", "linux", "amd64");
    assert_ne!(key, cache_key("terraform_", "1.3.0", "linux", "amd64"));
    assert_ne!(key, cache_key("terraform", "1.3.1", "linux", "amd64"));
    assert_ne!(key, cache_key("terraform", "1.3.0", "darwin", "amd64"));
    assert_ne!(key, cache_key("terraform", "1.3.0", "linux", "386"));
    assert_ne!(key, cache_key("terraform", "1.3.0_linux", "linux", "amd64"));
}

#[test]
fn archive_address_holds_version_and_key() {
    assert_eq!(
        archive_url(
            "https://releases.hashicorp.com/terraform",
            "1.3.0",
            "terraform_1.3.0_linux_amd64.zip"
        ),
        "https://releases.hashicorp.com/terraform/1.3.0/terraform_1.3.0_linux_amd64.zip"
    );
}

#[test]
fn cache_entries_lie_in_the_default_location() {
    assert_eq!(PROGRAM_NAME, "terraform");
    assert_eq!(DEFAULT_LOCATION, ".local/bin");
    assert_eq!(
        cache_location("terraform_1.3.0_linux_amd64.zip"),
        ".local/bin/terraform_1.3.0_linux_amd64.zip"
    );
}

#[test]
fn architectures_go_by_the_publisher_names() {
    assert_eq!(PlatformTarget::new("linux", "x86_64").arch, "amd64");
    assert_eq!(PlatformTarget::new("linux", "x86").arch, "386");
    assert_eq!(PlatformTarget::new("linux", "aarch64").arch, "aarch64");
    assert_eq!(PlatformTarget::new("linux", "x86_32").arch, "x86_32");
    assert_eq!(PlatformTarget::new("linux", "amd64").arch, "amd64");
    assert_eq!(PlatformTarget::new("linux", "").arch, "");
    assert_eq!(PlatformTarget::new("macos", "x86_64").os, "macos");
}

#[test]
fn install_request_names_archive_and_cache_entry() {
    let request = install_version("/usr/local/bin/terraform", "1.3.0", "linux", "x86_64");
    assert_eq!(request.program_path, "/usr/local/bin/terraform");
    assert_eq!(request.version, "1.3.0");
    assert_eq!(
        request.platform,
        PlatformTarget {
            os: "linux".to_string(),
            arch: "amd64".to_string()
        }
    );
    assert_eq!(request.zip_name, "terraform_1.3.0_linux_amd64.zip");
    assert_eq!(
        request.cache_location,
        ".local/bin/terraform_1.3.0_linux_amd64.zip"
    );
}

#[test]
fn cache_entry_is_used_without_a_download() {
    let bytes = archive_with(&[("terraform", b"#!/bin/sh\necho terraform\n")]);
    let answer = get_terraform_version_zip("1.3.0", "linux", "amd64", Some(bytes.clone()));
    match answer {
        Ok(Fetch::Cached { archive }) => assert_eq!(archive.bytes(), &bytes),
        other => panic!("{other:?}"),
    }
}

#[test]
fn broken_cache_entry_is_an_error() {
    let bytes = b"this is no archive".to_vec();
    let reason = zip::ZipArchive::new(std::io::Cursor::new(bytes.clone()))
        .err()
        .unwrap()
        .to_string();
    assert_eq!(
        get_terraform_version_zip("1.3.0", "linux", "amd64", Some(bytes)),
        Err(Error::InvalidArchive { reason })
    );
    assert!(matches!(
        get_terraform_version_zip("1.3.0", "linux", "amd64", Some(Vec::new())),
        Err(Error::InvalidArchive { .. })
    ));
}

#[test]
fn without_cache_entry_the_archive_is_downloaded() {
    assert_eq!(
        get_terraform_version_zip("1.3.0", "linux", "amd64", None),
        Ok(Fetch::Download {
            url: "https://releases.hashicorp.com/terraform/1.3.0/terraform_1.3.0_linux_amd64.zip"
                .to_string(),
            zip_name: "terraform_1.3.0_linux_amd64.zip".to_string(),
        })
    );
}

#[test]
fn download_is_kept_under_its_cache_key() {
    let reply = Reply {
        status: 200,
        body: vec![1u8, 2, 3],
    };
    assert_eq!(
        download_and_save_terraform_version_zip("terraform_1.3.0_linux_amd64.zip", reply),
        Ok(Download {
            cache_location: ".local/bin/terraform_1.3.0_linux_amd64.zip".to_string(),
            body: vec![1u8, 2, 3],
        })
    );
}

#[test]
fn failed_download_is_an_error_with_the_status() {
    for status in [403u16, 404, 500, 302, 199] {
        let reply = Reply {
            status,
            body: vec![1u8, 2, 3],
        };
        assert_eq!(
            download_and_save_terraform_version_zip("terraform_1.3.0_linux_amd64.zip", reply),
            Err(Error::HttpStatus { status })
        );
    }
}

#[test]
fn downloaded_body_opens_as_the_archive() {
    let bytes = archive_with(&[("terraform", b"binary")]);
    let reply = Reply {
        status: 200,
        body: bytes.clone(),
    };
    let download = download_and_save_terraform_version_zip("k.zip", reply).unwrap();
    let archive = ArchiveHandle::open(download.body).unwrap();
    assert_eq!(archive.bytes(), &bytes);
}
