//! Which PDF engine build to fetch for a platform, and where from.
use vstd::prelude::*;
use crate::text::str_eq;

verus! {

/// The engine release used for downloads.
pub const PDFIUM_VERSION: &'static str = "7690";

/// Where engine releases are published.
pub const BASE_URL: &'static str = "https://github.com/bblanchon/pdfium-binaries/releases/download";

/// Why the engine could not be made available.
#[derive(Debug)]
pub enum PdfiumAutoError {
    /// No engine build exists for this operating system and architecture.
    UnsupportedPlatform { os: String, arch: String },
    /// The cache directory could not be used.
    CacheDir(String),
    /// The download failed.
    Download(String),
    /// The archive could not be unpacked.
    Extract(String),
    /// The library could not be loaded.
    Bind { path: String, reason: String },
}

/// The engine build of one platform.
#[derive(Debug)]
pub struct PlatformInfo {
    /// Asset name in the release.
    pub archive_name: &'static str,
    /// Path of the library inside the archive.
    pub lib_path_in_archive: &'static str,
    /// File name of the library on disk.
    pub lib_name: &'static str,
}

/// The engine build for `os`/`arch` as (archive, path in archive, file name).
pub open spec fn platform_spec(os: Seq<char>, arch: Seq<char>) -> Option<(Seq<char>, Seq<char>, Seq<char>)> {
    if os == "macos"@ && arch == "aarch64"@ {
        Some(("pdfium-mac-arm64.tgz"@, "lib/libpdfium.dylib"@, "libpdfium.dylib"@))
    } else if os == "macos"@ && arch == "x86_64"@ {
        Some(("pdfium-mac-x64.tgz"@, "lib/libpdfium.dylib"@, "libpdfium.dylib"@))
    } else if os == "linux"@ && arch == "x86_64"@ {
        Some(("pdfium-linux-x64.tgz"@, "lib/libpdfium.so"@, "libpdfium.so"@))
    } else if os == "linux"@ && arch == "aarch64"@ {
        Some(("pdfium-linux-arm64.tgz"@, "lib/libpdfium.so"@, "libpdfium.so"@))
    } else if os == "windows"@ && arch == "x86_64"@ {
        Some(("pdfium-win-x64.tgz"@, "bin/pdfium.dll"@, "pdfium.dll"@))
    } else if os == "windows"@ && arch == "aarch64"@ {
        Some(("pdfium-win-arm64.tgz"@, "bin/pdfium.dll"@, "pdfium.dll"@))
    } else if os == "windows"@ && arch == "x86"@ {
        Some(("pdfium-win-x86.tgz"@, "bin/pdfium.dll"@, "pdfium.dll"@))
    } else {
        None
    }
}

fn info(archive_name: &'static str, lib_path_in_archive: &'static str, lib_name: &'static str) -> (r:
    PlatformInfo)
    ensures
        r.archive_name@ == archive_name@,
        r.lib_path_in_archive@ == lib_path_in_archive@,
        r.lib_name@ == lib_name@,
{
    PlatformInfo { archive_name, lib_path_in_archive, lib_name }
}

/// The engine build for an operating system and architecture (as named by
/// `std::env::consts`), or `UnsupportedPlatform`.
pub fn platform_info(os: &str, arch: &str) -> (r: Result<PlatformInfo, PdfiumAutoError>)
    ensures
        r is Ok <==> platform_spec(os@, arch@) is Some,
        r matches Ok(p) ==> platform_spec(os@, arch@) == Some(
            (p.archive_name@, p.lib_path_in_archive@, p.lib_name@),
        ),
        r matches Err(e) ==> (e matches PdfiumAutoError::UnsupportedPlatform { os: o, arch: a }
            && o@ == os@ && a@ == arch@),
{
    if str_eq(os, "macos") && str_eq(arch, "aarch64") {
        Ok(info("pdfium-mac-arm64.tgz", "lib/libpdfium.dylib", "libpdfium.dylib"))
    } else if str_eq(os, "macos") && str_eq(arch, "x86_64") {
        Ok(info("pdfium-mac-x64.tgz", "lib/libpdfium.dylib", "libpdfium.dylib"))
    } else if str_eq(os, "linux") && str_eq(arch, "x86_64") {
        Ok(info("pdfium-linux-x64.tgz", "lib/libpdfium.so", "libpdfium.so"))
    } else if str_eq(os, "linux") && str_eq(arch, "aarch64") {
        Ok(info("pdfium-linux-arm64.tgz", "lib/libpdfium.so", "libpdfium.so"))
    } else if str_eq(os, "windows") && str_eq(arch, "x86_64") {
        Ok(info("pdfium-win-x64.tgz", "bin/pdfium.dll", "pdfium.dll"))
    } else if str_eq(os, "windows") && str_eq(arch, "aarch64") {
        Ok(info("pdfium-win-arm64.tgz", "bin/pdfium.dll", "pdfium.dll"))
    } else if str_eq(os, "windows") && str_eq(arch, "x86") {
        Ok(info("pdfium-win-x86.tgz", "bin/pdfium.dll", "pdfium.dll"))
    } else {
        Err(PdfiumAutoError::UnsupportedPlatform { os: os.to_owned(), arch: arch.to_owned() })
    }
}

/// The download address of a release asset.
pub fn archive_url(archive_name: &str) -> (r: String)
    ensures
        r@ == BASE_URL@ + "/chromium%2F"@ + PDFIUM_VERSION@ + "/"@ + archive_name@,
{
    let mut u = BASE_URL.to_owned();
    u.append("/chromium%2F");
    u.append(PDFIUM_VERSION);
    u.append("/");
    u.append(archive_name);
    u
}

/// The name of the per-version cache directory.
pub fn cache_dir_name() -> (r: String)
    ensures
        r@ == "pdfium-"@ + PDFIUM_VERSION@,
{
    let mut d = "pdfium-".to_owned();
    d.append(PDFIUM_VERSION);
    d
}

} // verus!
