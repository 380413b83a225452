//! The archive cache and fetcher: where the archive of a version is kept,
//! where it is published, and what to do to get hold of it.
use crate::archive::{is_archive, zip_archive_fault, ArchiveHandle};
use crate::error::Error;
use crate::http::{get_http, is_success, Reply};
use crate::resolve::ARCHIVE_URL;
use crate::text::same_text;
use vstd::prelude::*;
use vstd::string::StringExecFns;

verus! {

/// The name of the tool, as it appears in archive names and as the name of
/// the installed program.
pub const PROGRAM_NAME: &'static str = "terraform";

/// The directory below the user's home directory that holds the cached
/// archives and, by default, the installed program.
pub const DEFAULT_LOCATION: &'static str = ".local/bin";

/// The architecture under the name that the publisher uses for it: `386`
/// for `x86`, `amd64` for `x86_64`, any other name as it is.
pub open spec fn published_arch(arch: Seq<char>) -> Seq<char> {
    if arch == "x86"@ {
        "386"@
    } else if arch == "x86_64"@ {
        "amd64"@
    } else {
        arch
    }
}

/// The name of the archive of a version for a platform:
/// `{tool}_{version}_{os}_{arch}.zip`. It is also the name of the cache
/// entry.
pub open spec fn cache_key_of(
    tool: Seq<char>,
    version: Seq<char>,
    os: Seq<char>,
    arch: Seq<char>,
) -> Seq<char> {
    tool + "_"@ + version + "_"@ + os + "_"@ + arch + ".zip"@
}

/// Where the archive named `key` of `version` is published below `base`:
/// `{base}/{version}/{key}`.
pub open spec fn archive_url_of(base: Seq<char>, version: Seq<char>, key: Seq<char>) -> Seq<char> {
    base + "/"@ + version + "/"@ + key
}

/// Where the cache entry `key` lies below the user's home directory.
pub open spec fn cache_location_of(key: Seq<char>) -> Seq<char> {
    DEFAULT_LOCATION@ + "/"@ + key
}

/// The operating system and the architecture that an archive is built for,
/// the architecture under the publisher's name for it.
#[derive(Debug, PartialEq, Eq)]
pub struct PlatformTarget {
    pub os: String,
    pub arch: String,
}

impl PlatformTarget {
    /// The platform target of a host that reports `os` and `arch`.
    pub fn new(os: &str, arch: &str) -> (target: PlatformTarget)
        ensures
            target.os@ == os@,
            target.arch@ == published_arch(arch@),
    {
        let arch = if same_text(arch, "x86") {
            "386"
        } else if same_text(arch, "x86_64") {
            "amd64"
        } else {
            arch
        };
        PlatformTarget { os: String::from_str(os), arch: String::from_str(arch) }
    }
}

/// The cache key of the archive of `version` of `tool` for the platform
/// `os`, `arch`. Equal arguments give equal keys.
pub fn cache_key(tool: &str, version: &str, os: &str, arch: &str) -> (key: String)
    ensures
        key@ == cache_key_of(tool@, version@, os@, arch@),
{
    let mut key = String::from_str(tool);
    key.append("_");
    key.append(version);
    key.append("_");
    key.append(os);
    key.append("_");
    key.append(arch);
    key.append(".zip");
    key
}

/// The address of the archive named `key` of `version` below `base`.
pub fn archive_url(base: &str, version: &str, key: &str) -> (url: String)
    ensures
        url@ == archive_url_of(base@, version@, key@),
{
    let mut url = String::from_str(base);
    url.append("/");
    url.append(version);
    url.append("/");
    url.append(key);
    url
}

/// The place of the cache entry `key`, relative to the user's home
/// directory.
pub fn cache_location(key: &str) -> (location: String)
    ensures
        location@ == cache_location_of(key@),
{
    let mut location = String::from_str(DEFAULT_LOCATION);
    location.append("/");
    location.append(key);
    location
}

/// Two texts that are equal once the same text is put before each are equal.
proof fn lemma_same_prefix(prefix: Seq<char>, a: Seq<char>, b: Seq<char>)
    requires
        prefix + a == prefix + b,
    ensures
        a == b,
{
    assert((prefix + a).subrange(prefix.len() as int, (prefix + a).len() as int) =~= a);
    assert((prefix + b).subrange(prefix.len() as int, (prefix + b).len() as int) =~= b);
}

/// Two texts that are equal once the same text is put behind each are equal.
proof fn lemma_same_suffix(a: Seq<char>, b: Seq<char>, suffix: Seq<char>)
    requires
        a + suffix == b + suffix,
    ensures
        a == b,
{
    assert((a + suffix).len() == a.len() + suffix.len());
    assert((b + suffix).len() == b.len() + suffix.len());
    assert((a + suffix).subrange(0, a.len() as int) =~= a);
    assert((b + suffix).subrange(0, b.len() as int) =~= b);
}

/// Changing one of the four arguments, whichever, changes the cache key.
pub proof fn lemma_cache_key_tells_apart(
    tool: Seq<char>,
    version: Seq<char>,
    os: Seq<char>,
    arch: Seq<char>,
    other: Seq<char>,
)
    ensures
        other != tool ==> cache_key_of(other, version, os, arch) != cache_key_of(
            tool,
            version,
            os,
            arch,
        ),
        other != version ==> cache_key_of(tool, other, os, arch) != cache_key_of(
            tool,
            version,
            os,
            arch,
        ),
        other != os ==> cache_key_of(tool, version, other, arch) != cache_key_of(
            tool,
            version,
            os,
            arch,
        ),
        other != arch ==> cache_key_of(tool, version, os, other) != cache_key_of(
            tool,
            version,
            os,
            arch,
        ),
{
    let sep = "_"@;
    let zip = ".zip"@;
    if cache_key_of(other, version, os, arch) == cache_key_of(tool, version, os, arch) {
        lemma_same_suffix(
            other + sep + version + sep + os + sep + arch,
            tool + sep + version + sep + os + sep + arch,
            zip,
        );
        lemma_same_suffix(
            other + sep + version + sep + os + sep,
            tool + sep + version + sep + os + sep,
            arch,
        );
        lemma_same_suffix(other + sep + version + sep + os, tool + sep + version + sep + os, sep);
        lemma_same_suffix(other + sep + version + sep, tool + sep + version + sep, os);
        lemma_same_suffix(other + sep + version, tool + sep + version, sep);
        lemma_same_suffix(other + sep, tool + sep, version);
        lemma_same_suffix(other, tool, sep);
    }
    if cache_key_of(tool, other, os, arch) == cache_key_of(tool, version, os, arch) {
        let head = tool + sep;
        lemma_same_suffix(
            head + other + sep + os + sep + arch,
            head + version + sep + os + sep + arch,
            zip,
        );
        lemma_same_suffix(head + other + sep + os + sep, head + version + sep + os + sep, arch);
        lemma_same_suffix(head + other + sep + os, head + version + sep + os, sep);
        lemma_same_suffix(head + other + sep, head + version + sep, os);
        lemma_same_suffix(head + other, head + version, sep);
        lemma_same_prefix(head, other, version);
    }
    if cache_key_of(tool, version, other, arch) == cache_key_of(tool, version, os, arch) {
        let head = tool + sep + version + sep;
        lemma_same_suffix(head + other + sep + arch, head + os + sep + arch, zip);
        lemma_same_suffix(head + other + sep, head + os + sep, arch);
        lemma_same_suffix(head + other, head + os, sep);
        lemma_same_prefix(head, other, os);
    }
    if cache_key_of(tool, version, os, other) == cache_key_of(tool, version, os, arch) {
        let head = tool + sep + version + sep + os + sep;
        lemma_same_suffix(head + other, head + arch, zip);
        lemma_same_prefix(head, other, arch);
    }
}

/// What is needed to fetch and install one version.
#[derive(Debug, PartialEq, Eq)]
pub struct InstallRequest {
    /// The file that the program is installed to.
    pub program_path: String,
    /// The version to install.
    pub version: String,
    /// The platform to install it for.
    pub platform: PlatformTarget,
    /// The name of the archive, which is also its cache key.
    pub zip_name: String,
    /// The place of the cache entry, relative to the user's home directory.
    pub cache_location: String,
}

/// `request` asks for `version` on a host that reports `os` and `arch`, to
/// be installed to `program_path`.
pub open spec fn requests(
    request: InstallRequest,
    program_path: Seq<char>,
    version: Seq<char>,
    os: Seq<char>,
    arch: Seq<char>,
) -> bool {
    &&& request.program_path@ == program_path
    &&& request.version@ == version
    &&& request.platform.os@ == os
    &&& request.platform.arch@ == published_arch(arch)
    &&& request.zip_name@ == cache_key_of(PROGRAM_NAME@, version, os, published_arch(arch))
    &&& request.cache_location@ == cache_location_of(request.zip_name@)
}

/// Plans the installation of `version` to `program_path` on a host that
/// reports the operating system `os` and the architecture `arch`.
pub fn install_version(program_path: &str, version: &str, os: &str, arch: &str) -> (request:
    InstallRequest)
    ensures
        requests(request, program_path@, version@, os@, arch@),
{
    let platform = PlatformTarget::new(os, arch);
    let zip_name = cache_key(PROGRAM_NAME, version, platform.os.as_str(), platform.arch.as_str());
    let cache_location = cache_location(zip_name.as_str());
    InstallRequest {
        program_path: String::from_str(program_path),
        version: String::from_str(version),
        platform,
        zip_name,
        cache_location,
    }
}

/// How the archive is to be had.
#[derive(Debug, PartialEq, Eq)]
pub enum Fetch {
    /// From the cache: here it is.
    Cached { archive: ArchiveHandle },
    /// From the publisher: request `url` and hand the reply to
    /// [`download_and_save_terraform_version_zip`] with `zip_name`.
    Download { url: String, zip_name: String },
}

/// What the look into the cache leads to, as a relation between what was
/// found and the answer.
///
/// A cache entry is used as it is, without a request to the publisher and
/// without a check against what the publisher holds: the archive is made of
/// the entry's bytes, and an entry that does not open as an archive is an
/// error. Without an entry the archive has to be downloaded.
pub open spec fn follows_cache(
    version: Seq<char>,
    os: Seq<char>,
    arch: Seq<char>,
    cached: Option<Vec<u8>>,
    answer: Result<Fetch, Error>,
) -> bool {
    match cached {
        Some(bytes) => match answer {
            Ok(Fetch::Cached { archive }) => is_archive(bytes@) && archive@ == bytes@,
            Ok(Fetch::Download { .. }) => false,
            Err(error) => error matches Error::InvalidArchive { reason } && zip_archive_fault(
                bytes@,
            ) == Some(reason@),
        },
        None => {
            &&& answer matches Ok(Fetch::Download { url, zip_name })
            &&& zip_name@ == cache_key_of(PROGRAM_NAME@, version, os, arch)
            &&& url@ == archive_url_of(ARCHIVE_URL@, version, zip_name@)
        },
    }
}

/// Decides how to get the archive of `version` for the platform `os`,
/// `arch`, the architecture under the publisher's name.
///
/// `cached` holds the bytes of the cache entry for that archive, or `None`
/// where there is no such entry or no place for a cache.
pub fn get_terraform_version_zip(
    version: &str,
    os: &str,
    arch: &str,
    cached: Option<Vec<u8>>,
) -> (answer: Result<Fetch, Error>)
    ensures
        follows_cache(version@, os@, arch@, cached, answer),
{
    match cached {
        Some(bytes) => match ArchiveHandle::open(bytes) {
            Ok(archive) => Ok(Fetch::Cached { archive }),
            Err(error) => Err(error),
        },
        None => {
            let zip_name = cache_key(PROGRAM_NAME, version, os, arch);
            let url = archive_url(ARCHIVE_URL, version, zip_name.as_str());
            Ok(Fetch::Download { url, zip_name })
        },
    }
}

/// A downloaded archive on its way into the cache.
#[derive(Debug, PartialEq, Eq)]
pub struct Download {
    /// Where to keep it, relative to the user's home directory.
    pub cache_location: String,
    /// The bytes to keep, and to open as the archive afterwards.
    pub body: Vec<u8>,
}

/// Takes delivery of a downloaded archive.
///
/// A reply that does not report success is an error that carries the
/// status. Otherwise the answer holds the body as it came, to be saved as
/// the cache entry `zip_name` and then opened with [`ArchiveHandle::open`].
/// Saving is the caller's to try: the download is not lost where it fails.
pub fn download_and_save_terraform_version_zip(zip_name: &str, reply: Reply<Vec<u8>>) -> (answer:
    Result<Download, Error>)
    ensures
        match answer {
            Ok(download) => {
                &&& is_success(reply.status)
                &&& download.cache_location@ == cache_location_of(zip_name@)
                &&& download.body == reply.body
            },
            Err(error) => !is_success(reply.status) && error == (Error::HttpStatus {
                status: reply.status,
            }),
        },
{
    match get_http(reply) {
        Ok(body) => Ok(Download { cache_location: cache_location(zip_name), body }),
        Err(error) => Err(error),
    }
}

} // verus!
