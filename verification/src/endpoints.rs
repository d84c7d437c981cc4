//! The network endpoints: where credentials, sync data, the manifest, the
//! client binary and the drivers are fetched from, and what a fetch brings.

use vstd::prelude::*;
use vstd::string::StringExecFns;
use vstd::utf8::valid_utf8;

verus! {

/// What a server answered to a fetch: the status code and the body.
pub struct Response {
    pub status: i32,
    pub body: Vec<u8>,
}

impl Response {
    /// The answer reports success and its body is text.
    pub open spec fn usable(&self) -> bool {
        self.status == 200 && valid_utf8(self.body@)
    }
}

/// Whether std accepts the bytes as UTF-8 text (`std::str::from_utf8`). The
/// contract equates std's verdict with the UTF-8 well-formedness predicate.
#[verifier::external_body]
pub(crate) fn is_text(bytes: &[u8]) -> (r: bool)
    ensures
        r == valid_utf8(bytes@),
{
    std::str::from_utf8(bytes).is_ok()
}

/// The address under which the credentials and the sync data lie.
pub const CREDENTIAL_BASE: &'static str = "https://cert.mcer.cn/";

/// The address under which the files of the release lie.
pub const RELEASE_BASE: &'static str = "https://gitcode.net/to/hiper/-/raw/master/";

/// The address of the sync data.
pub const SYNC_DATA_URL: &'static str = "https://cert.mcer.cn/point.yml";

/// The address of the update manifest.
pub const MANIFEST_URL: &'static str = "https://gitcode.net/to/hiper/-/raw/master/packages.sha1";

/// The address of the installer of the primary driver.
pub const DRIVER_INSTALLER_URL: &'static str =
    "https://gitcode.net/to/hiper/-/raw/master/tap-windows-9.21.2.exe";

/// The file name of the alternate driver in the release.
pub const ALTERNATE_DRIVER_NAME: &'static str = "wintun.dll";

/// The address of the credential of `token`.
pub open spec fn credential_address(token: Seq<char>) -> Seq<char> {
    CREDENTIAL_BASE@ + token + ".yml"@
}

/// The address of the file `name` of the architecture `arch` in the release.
pub open spec fn release_address(arch: Seq<char>, name: Seq<char>) -> Seq<char> {
    RELEASE_BASE@ + arch + "/"@ + name
}

/// The address from which the credential of `token` is fetched.
pub fn credential_url(token: &str) -> (r: String)
    ensures
        r@ == credential_address(token@),
{
    let mut url = String::from_str(CREDENTIAL_BASE);
    url.append(token);
    url.append(".yml");
    url
}

/// The address from which the client binary `binary_name` of the
/// architecture `arch` is downloaded.
pub fn binary_url(arch: &str, binary_name: &str) -> (r: String)
    ensures
        r@ == release_address(arch@, binary_name@),
{
    let mut url = String::from_str(RELEASE_BASE);
    url.append(arch);
    url.append("/");
    url.append(binary_name);
    url
}

/// The address from which the alternate driver of the architecture `arch` is
/// downloaded.
pub fn alternate_driver_url(arch: &str) -> (r: String)
    ensures
        r@ == release_address(arch@, ALTERNATE_DRIVER_NAME@),
{
    binary_url(arch, ALTERNATE_DRIVER_NAME)
}

/// The fixed addresses lie under the two bases: the sync data beside the
/// credentials, the manifest and the installer in the release.
pub proof fn lemma_fixed_addresses()
    ensures
        SYNC_DATA_URL@ == CREDENTIAL_BASE@ + "point.yml"@,
        MANIFEST_URL@ == RELEASE_BASE@ + "packages.sha1"@,
        DRIVER_INSTALLER_URL@ == RELEASE_BASE@ + "tap-windows-9.21.2.exe"@,
{
    reveal_strlit("https://cert.mcer.cn/");
    reveal_strlit("point.yml");
    reveal_strlit("https://cert.mcer.cn/point.yml");
    reveal_strlit("https://gitcode.net/to/hiper/-/raw/master/");
    reveal_strlit("packages.sha1");
    reveal_strlit("https://gitcode.net/to/hiper/-/raw/master/packages.sha1");
    reveal_strlit("tap-windows-9.21.2.exe");
    reveal_strlit("https://gitcode.net/to/hiper/-/raw/master/tap-windows-9.21.2.exe");
    assert(SYNC_DATA_URL@ =~= CREDENTIAL_BASE@ + "point.yml"@);
    assert(MANIFEST_URL@ =~= RELEASE_BASE@ + "packages.sha1"@);
    assert(DRIVER_INSTALLER_URL@ =~= RELEASE_BASE@ + "tap-windows-9.21.2.exe"@);
}

} // verus!
