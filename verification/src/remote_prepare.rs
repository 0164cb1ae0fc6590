//! Preparing a remote host: is its binary compatible, and which release is to be
//! installed there.

use sha2::Digest;
use vstd::prelude::*;

use crate::plugins::VERSION;
use crate::text;

verus! {

// ------------------------------------------------------------------------- versions

/// The parts of a semantic version.
#[derive(Debug, Clone, PartialEq, Eq)]
pub struct VersionParts {
    pub major: u64,
    pub minor: u64,
    pub patch: u64,
    pub pre: String,
    pub build: String,
}

/// The parts as plain values.
pub struct VersionView {
    pub major: u64,
    pub minor: u64,
    pub patch: u64,
    pub pre: Seq<char>,
    pub build: Seq<char>,
}

pub open spec fn version_view(v: Option<VersionParts>) -> Option<VersionView> {
    match v {
        Some(p) => Some(
            VersionView {
                major: p.major,
                minor: p.minor,
                patch: p.patch,
                pre: p.pre@,
                build: p.build@,
            },
        ),
        None => None,
    }
}

/// The version that the `semver` crate reads from a text, if it reads one.
pub uninterp spec fn semver_parts(s: Seq<char>) -> Option<VersionView>;

/// Calls `semver::Version::parse`. The result is named by `semver_parts`; an
/// error is nothing.
#[verifier::external_body]
fn parse_version(s: &str) -> (r: Option<VersionParts>)
    ensures
        version_view(r) == semver_parts(s@),
{
    let v = semver::Version::parse(s).ok()?;
    Some(
        VersionParts {
            major: v.major,
            minor: v.minor,
            patch: v.patch,
            pre: v.pre.as_str().to_owned(),
            build: v.build.as_str().to_owned(),
        },
    )
}

/// Whether two versions that were read are the same in every part.
pub fn same_version(a: &Option<VersionParts>, b: &Option<VersionParts>) -> (r: bool)
    ensures
        r == (a is Some && version_view(*a) == version_view(*b)),
{
    match (a, b) {
        (Some(x), Some(y)) => x.major == y.major && x.minor == y.minor && x.patch == y.patch
            && text::same(x.pre.as_str(), y.pre.as_str()) && text::same(
            x.build.as_str(),
            y.build.as_str(),
        ),
        _ => false,
    }
}

/// The version text in what `--version` prints.
pub fn version_text(output: &str) -> (r: Option<&str>)
    ensures
        match r {
            Some(version) => text::trim(output@) == "kodade-cli "@ + version@,
            None => !"kodade-cli "@.is_prefix_of(text::trim(output@)),
        },
{
    let line = text::trimmed(output);
    let r = text::strip_prefix(line, "kodade-cli ");
    proof {
        if let Some(version) = r {
            assert(line@ =~= "kodade-cli "@ + version@);
        }
    }
    r
}

/// Whether the output of `--version` names this very version.
pub open spec fn is_compatible(output: Seq<char>) -> bool {
    let line = text::trim(output);
    let prefix = "kodade-cli "@;
    let version = semver_parts(line.skip(prefix.len() as int));
    prefix.is_prefix_of(line) && version is Some && version == semver_parts(VERSION@)
}

/// Whether a remote binary can be used: it must be this very version.
pub fn version_is_compatible(stdout: &[u8]) -> (r: bool)
    ensures
        r == (vstd::utf8::valid_utf8(stdout@) && is_compatible(
            vstd::utf8::decode_utf8(stdout@),
        )),
{
    let output = match text::utf8_text(stdout) {
        Some(output) => output,
        None => return false,
    };
    proof {
        vstd::utf8::encode_utf8_decode_utf8(output@);
    }
    match version_text(output.as_str()) {
        Some(version) => {
            assert(text::trim(output@).skip("kodade-cli "@.len() as int) =~= version@);
            assert("kodade-cli "@ =~= text::trim(output@).subrange(
                0,
                "kodade-cli "@.len() as int,
            ));
            same_version(&parse_version(version), &parse_version(VERSION))
        },
        None => false,
    }
}

// ------------------------------------------------------------------------ platforms

/// The release name of an operating system.
pub open spec fn system_named(value: Seq<char>) -> Option<Seq<char>> {
    if value == "Linux"@ {
        Some("linux"@)
    } else if value == "Darwin"@ {
        Some("macos"@)
    } else {
        None
    }
}

/// The release name of an architecture.
pub open spec fn machine_named(value: Seq<char>) -> Option<Seq<char>> {
    if value == "x86_64"@ || value == "amd64"@ {
        Some("x86_64"@)
    } else if value == "aarch64"@ || value == "arm64"@ {
        Some("aarch64"@)
    } else {
        None
    }
}

pub fn os_to_target(value: &str) -> (r: Result<&'static str, String>)
    ensures
        match system_named(value@) {
            Some(name) => r matches Ok(got) && got@ == name,
            None => text::fault(r) == Some(
                "remote OS "@ + text::quoted(value@) + " has no standalone preparation artifact"@,
            ),
        },
{
    if text::same(value, "Linux") {
        Ok("linux")
    } else if text::same(value, "Darwin") {
        Ok("macos")
    } else {
        let shown = text::debug_text(value);
        Err(
            text::cat3(
                "remote OS ",
                shown.as_str(),
                " has no standalone preparation artifact",
            ),
        )
    }
}

pub fn arch_to_target(value: &str) -> (r: Result<&'static str, String>)
    ensures
        match machine_named(value@) {
            Some(name) => r matches Ok(got) && got@ == name,
            None => text::fault(r) == Some(
                "remote architecture "@ + text::quoted(value@)
                    + " has no standalone preparation artifact"@,
            ),
        },
{
    if text::same(value, "x86_64") || text::same(value, "amd64") {
        Ok("x86_64")
    } else if text::same(value, "aarch64") || text::same(value, "arm64") {
        Ok("aarch64")
    } else {
        let shown = text::debug_text(value);
        Err(
            text::cat3(
                "remote architecture ",
                shown.as_str(),
                " has no standalone preparation artifact",
            ),
        )
    }
}

// ------------------------------------------------------------------------- releases

/// Where the newest stable release is described.
pub const METADATA_URL: &'static str = "https://api.github.com/repos/Kodade/kodade-cli/releases/latest";

/// A published release: its tag, and its files with their addresses.
#[derive(Debug, Clone, PartialEq, Eq)]
pub struct Release {
    pub tag_name: String,
    pub assets: Vec<(String, String)>,
}

/// Without the letters `v` at the start.
pub open spec fn untagged(tag: Seq<char>) -> Seq<char>
    decreases tag.len(),
{
    if tag.len() > 0 && tag[0] == 'v' {
        untagged(tag.skip(1))
    } else {
        tag
    }
}

fn version_of(tag: &str) -> (r: String)
    ensures
        r@ == untagged(tag@),
{
    let chars = text::chars_of(tag);
    let mut i: usize = 0;
    assert(tag@.skip(0) =~= tag@);
    while i < chars.len() && chars[i] == 'v'
        invariant
            chars@ == tag@,
            i <= chars@.len(),
            untagged(tag@) == untagged(tag@.skip(i as int)),
        decreases chars@.len() - i,
    {
        assert(tag@.skip(i as int)[0] == tag@[i as int]);
        assert(tag@.skip(i as int).skip(1) =~= tag@.skip(i + 1));
        i += 1;
    }
    let r = text::text_of(chars.as_slice(), i, chars.len());
    assert(r@ =~= tag@.skip(i as int));
    assert(i < chars@.len() ==> tag@.skip(i as int)[0] == tag@[i as int]);
    r
}

/// The file of a release for a platform.
pub open spec fn asset_name(version: Seq<char>, os: Seq<char>, arch: Seq<char>) -> Seq<char> {
    "kodade-cli-"@ + version + "-"@ + arch + (if os == "macos"@ {
        "-apple-darwin.tar.gz"@
    } else {
        "-unknown-linux-gnu.tar.gz"@
    })
}

pub fn platform_asset_for(version: &str, os: &str, arch: &str) -> (r: String)
    ensures
        r@ == asset_name(version@, os@, arch@),
{
    let mut name = text::cat3("kodade-cli-", version, "-");
    name.append(arch);
    name.append(
        if text::same(os, "macos") {
            "-apple-darwin.tar.gz"
        } else {
            "-unknown-linux-gnu.tar.gz"
        },
    );
    name
}

/// The address of a file, where the release has it.
pub open spec fn asset_address(assets: Seq<(String, String)>, name: Seq<char>) -> Option<Seq<char>>
    decreases assets.len(),
{
    if assets.len() == 0 {
        None
    } else if assets[0].0@ == name {
        Some(assets[0].1@)
    } else {
        asset_address(assets.skip(1), name)
    }
}

pub open spec fn missing_file(name: Seq<char>) -> Seq<char> {
    "published release is missing "@ + name
}

pub fn release_asset_url(release: &Release, name: &str) -> (r: Result<String, String>)
    ensures
        match asset_address(release.assets@, name@) {
            Some(url) => r matches Ok(got) && got@ == url,
            None => text::fault(r) == Some(missing_file(name@)),
        },
{
    let assets = &release.assets;
    let mut i: usize = 0;
    assert(assets@.skip(0) =~= assets@);
    while i < assets.len()
        invariant
            *assets == release.assets,
            i <= assets@.len(),
            asset_address(assets@, name@) == asset_address(assets@.skip(i as int), name@),
        decreases assets@.len() - i,
    {
        assert(assets@.skip(i as int)[0] == assets@[i as int]);
        assert(assets@.skip(i as int).skip(1) =~= assets@.skip(i + 1));
        if text::same(assets[i].0.as_str(), name) {
            return Ok(assets[i].1.clone());
        }
        i += 1;
    }
    Err(text::cat("published release is missing ", name))
}

/// What is to be downloaded for a host.
#[derive(Debug, Clone, PartialEq, Eq)]
pub struct Download {
    pub version: String,
    pub asset: String,
    pub sums_url: String,
    pub archive_url: String,
}

/// Why no download is chosen. The version is looked at before anything else, so
/// that nothing of another version is ever fetched.
pub open spec fn download_fault(release: Release, os: Seq<char>, arch: Seq<char>) -> Option<
    Seq<char>,
> {
    let version = untagged(release.tag_name@);
    if version != VERSION@ {
        Some(
            "published release "@ + release.tag_name@ + " does not match local kodade-cli "@
                + VERSION@,
        )
    } else if system_named(os) is None {
        Some("remote OS "@ + text::quoted(os) + " has no standalone preparation artifact"@)
    } else if machine_named(arch) is None {
        Some(
            "remote architecture "@ + text::quoted(arch)
                + " has no standalone preparation artifact"@,
        )
    } else if asset_address(release.assets@, "SHA256SUMS"@) is None {
        Some(missing_file("SHA256SUMS"@))
    } else {
        let asset = asset_name(version, system_named(os)->0, machine_named(arch)->0);
        if asset_address(release.assets@, asset) is None {
            Some(missing_file(asset))
        } else {
            None
        }
    }
}

/// Chooses the files of a release for a host.
pub fn choose_download(release: &Release, os: &str, arch: &str) -> (r: Result<Download, String>)
    ensures
        text::fault(r) == download_fault(*release, os@, arch@),
        r matches Ok(download) ==> download.version@ == VERSION@ && download.asset@ == asset_name(
            VERSION@,
            system_named(os@)->0,
            machine_named(arch@)->0,
        ) && Some(download.sums_url@) == asset_address(release.assets@, "SHA256SUMS"@) && Some(
            download.archive_url@,
        ) == asset_address(release.assets@, download.asset@),
{
    let version = version_of(release.tag_name.as_str());
    if !text::same(version.as_str(), VERSION) {
        let mut message = text::cat3(
            "published release ",
            release.tag_name.as_str(),
            " does not match local kodade-cli ",
        );
        message.append(VERSION);
        return Err(message);
    }
    let system = match os_to_target(os) {
        Ok(system) => system,
        Err(message) => return Err(message),
    };
    let machine = match arch_to_target(arch) {
        Ok(machine) => machine,
        Err(message) => return Err(message),
    };
    let asset = platform_asset_for(version.as_str(), system, machine);
    let sums_url = match release_asset_url(release, "SHA256SUMS") {
        Ok(url) => url,
        Err(message) => return Err(message),
    };
    let archive_url = match release_asset_url(release, asset.as_str()) {
        Ok(url) => url,
        Err(message) => return Err(message),
    };
    Ok(Download { version, asset, sums_url, archive_url })
}

/// The checksum that a list of sums gives a file: the first line that is a sum,
/// two spaces and the name.
pub open spec fn listed_sum(lines: Seq<Seq<char>>, name: Seq<char>) -> Option<Seq<char>>
    decreases lines.len(),
{
    if lines.len() == 0 {
        None
    } else {
        match text::cut_at(lines[0], ' ') {
            Some((sum, rest)) if rest == " "@ + name => Some(sum),
            _ => listed_sum(lines.skip(1), name),
        }
    }
}

pub fn checksum(sums: &str, asset: &str) -> (r: Result<String, String>)
    ensures
        match listed_sum(text::line_texts(sums@), asset@) {
            Some(sum) => r matches Ok(got) && got@ == sum,
            None => text::fault(r) == Some("SHA256SUMS has no entry for "@ + asset@),
        },
{
    let lines = text::lines(sums);
    let ghost all = text::line_texts(sums@);
    let entry = text::cat(" ", asset);
    let mut i: usize = 0;
    assert(text::texts(lines@).len() == lines@.len());
    assert(all.skip(0) =~= all);
    while i < lines.len()
        invariant
            text::texts(lines@) == all,
            lines@.len() == all.len(),
            all == text::line_texts(sums@),
            entry@ == " "@ + asset@,
            i <= lines@.len(),
            listed_sum(all, asset@) == listed_sum(all.skip(i as int), asset@),
        decreases lines@.len() - i,
    {
        assert(all.skip(i as int)[0] == lines@[i as int]@);
        assert(all.skip(i as int).skip(1) =~= all.skip(i + 1));
        if let Some((sum, rest)) = text::split_once(lines[i].as_str(), ' ') {
            if text::same(rest.as_str(), entry.as_str()) {
                return Ok(sum);
            }
        }
        i += 1;
    }
    Err(text::cat("SHA256SUMS has no entry for ", asset))
}

/// The SHA-256 digest of bytes in lower-case hexadecimal, as the `sha2` crate
/// computes it.
pub uninterp spec fn sha256_hex(bytes: Seq<u8>) -> Seq<char>;

/// Calls `Sha256::digest` of the `sha2` crate and writes the digest in
/// hexadecimal. The result is named by `sha256_hex`.
#[verifier::external_body]
fn digest_text(bytes: &[u8]) -> (r: String)
    ensures
        r@ == sha256_hex(bytes@),
{
    format!("{:x}", sha2::Sha256::digest(bytes))
}

/// The digest that an upload is checked against.
pub fn expected_digest(binary: &[u8]) -> (r: String)
    ensures
        r@ == sha256_hex(binary@),
{
    digest_text(binary)
}

/// Whether a digest is the one that was listed.
pub fn check_digest(digest: &str, expected: &str) -> (r: Result<(), String>)
    ensures
        text::fault(r) == (if digest@ == expected@ {
            None
        } else {
            Some("checksum mismatch: expected "@ + expected@ + ", got "@ + digest@)
        }),
{
    if text::same(digest, expected) {
        return Ok(());
    }
    let mut message = text::cat3("checksum mismatch: expected ", expected, ", got ");
    message.append(digest);
    Err(message)
}

/// Checks a downloaded archive against the sums of its release, before anything
/// is made of it.
pub fn verify_archive(sums: &str, asset: &str, archive: &[u8]) -> (r: Result<(), String>)
    ensures
        match listed_sum(text::line_texts(sums@), asset@) {
            None => text::fault(r) == Some("SHA256SUMS has no entry for "@ + asset@),
            Some(sum) => text::fault(r) == (if sha256_hex(archive@) == sum {
                None
            } else {
                Some(
                    "checksum mismatch: expected "@ + sum + ", got "@ + sha256_hex(archive@),
                )
            }),
        },
{
    let expected = match checksum(sums, asset) {
        Ok(sum) => sum,
        Err(message) => return Err(message),
    };
    let digest = digest_text(archive);
    check_digest(digest.as_str(), expected.as_str())
}

// ----------------------------------------------------------------------- preparation

/// The system and the architecture that a probe printed.
pub fn read_probe(host: &str, success: bool, output: &str, errors: &str) -> (r: Result<
    (String, String),
    String,
>)
    ensures
        !success ==> text::fault(r) == Some(
            "could not probe "@ + host@ + ": "@ + text::trim(errors@),
        ),
        success ==> ({
            let lines = text::line_texts(output@);
            if lines.len() == 0 {
                text::fault(r) == Some("remote probe did not report an operating system"@)
            } else if lines.len() == 1 {
                text::fault(r) == Some("remote probe did not report an architecture"@)
            } else {
                r matches Ok(got) && got.0@ == lines[0] && got.1@ == lines[1]
            }
        }),
{
    if !success {
        let mut message = text::cat3("could not probe ", host, ": ");
        message.append(text::trimmed(errors));
        return Err(message);
    }
    let lines = text::lines(output);
    assert(text::texts(lines@).len() == lines@.len());
    if lines.len() == 0 {
        return Err("remote probe did not report an operating system".to_owned());
    }
    if lines.len() == 1 {
        return Err("remote probe did not report an architecture".to_owned());
    }
    assert(text::texts(lines@)[0] == lines@[0]@ && text::texts(lines@)[1] == lines@[1]@);
    Ok((lines[0].clone(), lines[1].clone()))
}

/// What a host needs.
#[derive(Debug, Clone, Copy, PartialEq, Eq, Structural)]
pub enum Preparation {
    Ready,
    Install,
}

/// Whether anything is installed on a host: only where it needs it, and only
/// when that was asked for.
pub fn preparation(host: &str, success: bool, stdout: &[u8], install: bool) -> (r: Result<
    Preparation,
    String,
>)
    ensures
        ({
            let usable = success && vstd::utf8::valid_utf8(stdout@) && is_compatible(
                vstd::utf8::decode_utf8(stdout@),
            );
            if usable {
                r == Ok::<Preparation, String>(Preparation::Ready)
            } else if install {
                r == Ok::<Preparation, String>(Preparation::Install)
            } else {
                text::fault(r) == Some(
                    host@ + " has no compatible kodade-cli; run `kodade-cli machine prepare "@
                        + host@ + " --install` (or add with --install)"@,
                )
            }
        }),
{
    if success && version_is_compatible(stdout) {
        return Ok(Preparation::Ready);
    }
    if !install {
        let mut message = text::cat(
            host,
            " has no compatible kodade-cli; run `kodade-cli machine prepare ",
        );
        message.append(host);
        message.append(" --install` (or add with --install)");
        return Err(message);
    }
    Ok(Preparation::Install)
}

/// Checks a host after an installation.
pub fn check_installed(host: &str, success: bool, stdout: &[u8]) -> (r: Result<(), String>)
    ensures
        text::fault(r) == (if success && vstd::utf8::valid_utf8(stdout@) && is_compatible(
            vstd::utf8::decode_utf8(stdout@),
        ) {
            None
        } else {
            Some("remote install on "@ + host@ + " did not produce a compatible kodade-cli"@)
        }),
{
    if success && version_is_compatible(stdout) {
        return Ok(());
    }
    Err(
        text::cat3("remote install on ", host, " did not produce a compatible kodade-cli"),
    )
}

} // verus!
