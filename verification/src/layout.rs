//! The installation layout: the directory of the installation on each
//! system, and the well-known files in it.

use vstd::prelude::*;
use vstd::string::{StrSliceExecFns, StringExecFns};
use path_absolutize::Absolutize;
use crate::status::ErrorKind;

verus! {

/// The system the supervisor runs on.
#[derive(Clone, Copy, Debug, PartialEq, Eq, Structural)]
pub enum Platform {
    Windows,
    Linux,
    MacOs,
}

/// Why a path of the layout could not be resolved.
#[derive(Clone, Copy, Debug, PartialEq, Eq, Structural)]
pub enum LayoutError {
    /// The directory of application data is not known.
    NoAppData,
    /// The user's directory of local data is not known.
    NoUserDataDir,
    /// The path could not be made absolute.
    NotAbsolute,
}

/// The directory of the installation on Linux.
pub const LINUX_ROOT: &'static str = "/etc/hiper";

/// The name of the installation directory in the application data of Windows.
pub const WINDOWS_DIR: &'static str = "hiper";

/// The name of the installation directory in the local data of macOS.
pub const MACOS_DIR: &'static str = "NetCha";

/// The file name of the client binary on Windows.
pub const WINDOWS_BINARY: &'static str = "hiper.exe";

/// The file name of the client binary on the other systems.
pub const POSIX_BINARY: &'static str = "hiper";

/// The name of the directory of the credentials.
pub const CREDENTIALS_DIR: &'static str = "certs";

/// The file name of the alternate driver.
pub const ALTERNATE_DRIVER: &'static str = "wintun.dll";

/// The suffix that switches the alternate driver off.
pub const DISABLED_SUFFIX: &'static str = ".disabled";

/// The file name of the installer of the primary driver.
pub const DRIVER_INSTALLER: &'static str = "tap-windows.exe";

/// The file name of the session log.
pub const LOG_FILE: &'static str = "latest.log";

/// The suffix of the file name of a credential.
pub const CREDENTIAL_SUFFIX: &'static str = ".yml";

impl LayoutError {
    /// The kind of launch error that this error amounts to: every layout
    /// error is an error of the file system.
    pub fn kind(self) -> (r: ErrorKind)
        ensures
            r == ErrorKind::Io,
    {
        ErrorKind::Io
    }
}

impl Platform {
    /// The character that separates the parts of a path.
    pub open spec fn separator(self) -> char {
        if self == Platform::Windows {
            '\\'
        } else {
            '/'
        }
    }

    /// The character ends a part of a path.
    pub open spec fn separates(self, c: char) -> bool {
        c == '/' || (self == Platform::Windows && c == '\\')
    }

    /// The system knows executable permissions.
    pub open spec fn posix(self) -> bool {
        self != Platform::Windows
    }

    /// The file name of the client binary.
    pub open spec fn binary_name(self) -> Seq<char> {
        if self == Platform::Windows {
            WINDOWS_BINARY@
        } else {
            POSIX_BINARY@
        }
    }

    /// Whether the system knows executable permissions.
    pub fn is_posix(self) -> (r: bool)
        ensures
            r == self.posix(),
    {
        match self {
            Platform::Windows => false,
            _ => true,
        }
    }

    /// The file name of the client binary.
    pub fn binary_file_name(self) -> (r: &'static str)
        ensures
            r@ == self.binary_name(),
    {
        match self {
            Platform::Windows => WINDOWS_BINARY,
            _ => POSIX_BINARY,
        }
    }
}

/// The path of the entry `name` of the directory `root`: the two with one
/// separator between them. A root that ends with a separator gets no second
/// one, and an empty root gets none.
pub open spec fn joined(root: Seq<char>, name: Seq<char>, platform: Platform) -> Seq<char> {
    if root.len() == 0 || platform.separates(root.last()) {
        root + name
    } else {
        root.push(platform.separator()) + name
    }
}

/// The file name of a token's credential.
pub open spec fn credential_name(token: Seq<char>) -> Seq<char> {
    token + CREDENTIAL_SUFFIX@
}

/// The paths of an installation as mathematical values.
pub struct LayoutView {
    pub root: Seq<char>,
    pub binary: Seq<char>,
    pub credentials: Seq<char>,
    pub alternate_driver: Seq<char>,
    pub alternate_driver_disabled: Seq<char>,
    pub driver_installer: Seq<char>,
    pub log_file: Seq<char>,
}

/// The paths of an installation. They are resolved once and not changed.
#[derive(Clone, Debug, PartialEq, Eq)]
pub struct InstallationLayout {
    /// The directory of the installation.
    pub root: String,
    /// The client binary.
    pub binary: String,
    /// The directory of the credentials.
    pub credentials: String,
    /// The alternate driver, switched on.
    pub alternate_driver: String,
    /// The alternate driver, switched off.
    pub alternate_driver_disabled: String,
    /// The installer of the primary driver.
    pub driver_installer: String,
    /// The session log.
    pub log_file: String,
}

impl View for InstallationLayout {
    type V = LayoutView;

    open spec fn view(&self) -> LayoutView {
        LayoutView {
            root: self.root@,
            binary: self.binary@,
            credentials: self.credentials@,
            alternate_driver: self.alternate_driver@,
            alternate_driver_disabled: self.alternate_driver_disabled@,
            driver_installer: self.driver_installer@,
            log_file: self.log_file@,
        }
    }
}

/// The layout of the installation in the directory `root`.
pub open spec fn layout_of(platform: Platform, root: Seq<char>) -> LayoutView {
    LayoutView {
        root,
        binary: joined(root, platform.binary_name(), platform),
        credentials: joined(root, CREDENTIALS_DIR@, platform),
        alternate_driver: joined(root, ALTERNATE_DRIVER@, platform),
        alternate_driver_disabled: joined(root, ALTERNATE_DRIVER@, platform) + DISABLED_SUFFIX@,
        driver_installer: joined(root, DRIVER_INSTALLER@, platform),
        log_file: joined(root, LOG_FILE@, platform),
    }
}

/// The directory of the installation, by the system and by the base
/// directory that the system offers: on Windows the directory `hiper` in
/// the directory of application data, on Linux `/etc/hiper`, on macOS the
/// directory `NetCha` in the user's directory of local data.
pub open spec fn hiper_dir(platform: Platform, base: Option<Seq<char>>) -> Result<
    Seq<char>,
    LayoutError,
> {
    match platform {
        Platform::Linux => Ok(LINUX_ROOT@),
        Platform::Windows => match base {
            Some(dir) => Ok(joined(dir, WINDOWS_DIR@, platform)),
            None => Err(LayoutError::NoAppData),
        },
        Platform::MacOs => match base {
            Some(dir) => Ok(joined(dir, MACOS_DIR@, platform)),
            None => Err(LayoutError::NoUserDataDir),
        },
    }
}

/// A path that may have been resolved, as a mathematical value.
pub open spec fn path_view(path: Option<String>) -> Option<Seq<char>> {
    match path {
        Some(text) => Some(text@),
        None => None,
    }
}

/// The outcome of a resolution, as a mathematical value.
pub open spec fn outcome_view(outcome: Result<String, LayoutError>) -> Result<
    Seq<char>,
    LayoutError,
> {
    match outcome {
        Ok(text) => Ok(text@),
        Err(e) => Err(e),
    }
}

/// The user's directory of local data, as `dirs::data_local_dir` reports it,
/// or `None` where the system does not tell it or its path is not text. It
/// depends on the environment; the contract promises nothing about it.
#[verifier::external_body]
fn local_data_dir() -> (r: Option<String>) {
    dirs::data_local_dir().and_then(|dir| dir.into_os_string().into_string().ok())
}

/// The absolute form of `path`, as `Absolutize::absolutize` of the crate
/// path-absolutize gives it for `std::path::Path`, or `None` where it fails
/// or its result is not text. It depends on the current directory; the
/// contract promises nothing about it.
#[verifier::external_body]
fn absolutize(path: &str) -> (r: Option<String>) {
    std::path::Path::new(path).absolutize().ok().and_then(
        |full| full.to_str().map(|text| text.to_owned()),
    )
}

/// Joins the directory `root` and the entry `name`.
pub fn join(root: &str, name: &str, platform: Platform) -> (r: String)
    ensures
        r@ == joined(root@, name@, platform),
{
    let mut path = String::from_str(root);
    let count = root.unicode_len();
    if count > 0 {
        let last = root.get_char(count - 1);
        let separated = last == '/' || (platform == Platform::Windows && last == '\\');
        if !separated {
            match platform {
                Platform::Windows => path.append("\\"),
                _ => path.append("/"),
            }
            proof {
                reveal_strlit("\\");
                reveal_strlit("/");
                assert(path@ =~= root@.push(platform.separator()));
            }
        }
    }
    path.append(name);
    path
}

/// Resolves the paths of the installation in the directory `root`.
pub fn resolve(platform: Platform, root: &str) -> (r: InstallationLayout)
    ensures
        r@ == layout_of(platform, root@),
{
    let mut disabled = join(root, ALTERNATE_DRIVER, platform);
    disabled.append(DISABLED_SUFFIX);
    InstallationLayout {
        root: String::from_str(root),
        binary: join(root, platform.binary_file_name(), platform),
        credentials: join(root, CREDENTIALS_DIR, platform),
        alternate_driver: join(root, ALTERNATE_DRIVER, platform),
        alternate_driver_disabled: disabled,
        driver_installer: join(root, DRIVER_INSTALLER, platform),
        log_file: join(root, LOG_FILE, platform),
    }
}

/// The path of the credential of `token` in the directory `credentials`.
pub fn credential_file(credentials: &str, token: &str, platform: Platform) -> (r: String)
    ensures
        r@ == joined(credentials@, credential_name(token@), platform),
{
    let mut name = String::from_str(token);
    name.append(CREDENTIAL_SUFFIX);
    join(credentials, name.as_str(), platform)
}

/// The directory of the installation, by the system and by the base
/// directory that the system offers, if it offers one.
pub fn hiper_dir_in(platform: Platform, base: &Option<String>) -> (r: Result<String, LayoutError>)
    ensures
        outcome_view(r) == hiper_dir(platform, path_view(*base)),
{
    match platform {
        Platform::Linux => Ok(String::from_str(LINUX_ROOT)),
        Platform::Windows => match base {
            Some(dir) => Ok(join(dir.as_str(), WINDOWS_DIR, platform)),
            None => Err(LayoutError::NoAppData),
        },
        Platform::MacOs => match base {
            Some(dir) => Ok(join(dir.as_str(), MACOS_DIR, platform)),
            None => Err(LayoutError::NoUserDataDir),
        },
    }
}

/// The directory of the installation. `appdata` is the directory of
/// application data, which counts on Windows; on macOS the user's directory
/// of local data is asked of the system. What comes back is the directory for
/// some base, or the error that the system's base is not known.
pub fn get_hiper_dir(platform: Platform, appdata: &Option<String>) -> (r: Result<
    String,
    LayoutError,
>)
    ensures
        platform != Platform::MacOs ==> outcome_view(r) == hiper_dir(platform, path_view(*appdata)),
        platform == Platform::MacOs ==> exists|base: Option<Seq<char>>|
            outcome_view(r) == #[trigger] hiper_dir(platform, base),
{
    match platform {
        Platform::MacOs => {
            let base = local_data_dir();
            let dir = hiper_dir_in(platform, &base);
            assert(outcome_view(dir) == hiper_dir(platform, path_view(base)));
            dir
        },
        _ => hiper_dir_in(platform, appdata),
    }
}

/// Judges the attempt to make a path absolute: the absolute path where there
/// is one, an error where there is none.
pub fn absolute_or_error(resolved: Option<String>) -> (r: Result<String, LayoutError>)
    ensures
        outcome_view(r) == match resolved {
            Some(full) => Ok::<Seq<char>, LayoutError>(full@),
            None => Err(LayoutError::NotAbsolute),
        },
{
    match resolved {
        Some(full) => Ok(full),
        None => Err(LayoutError::NotAbsolute),
    }
}

/// The absolute path of the session log of the installation in `root`. The
/// only error is that the path could not be made absolute.
pub fn get_log_file_path(platform: Platform, root: &str) -> (r: Result<String, LayoutError>)
    ensures
        r is Err ==> r == Err::<String, LayoutError>(LayoutError::NotAbsolute),
{
    let relative = join(root, LOG_FILE, platform);
    absolute_or_error(absolutize(relative.as_str()))
}

/// The absolute path of the credential of `token`, or no path for the empty
/// token, with which the client runs without credential. The only error is
/// that the path could not be made absolute.
pub fn credential_path(credentials: &str, token: &str, platform: Platform) -> (r: Result<
    Option<String>,
    LayoutError,
>)
    ensures
        token@.len() == 0 ==> r == Ok::<Option<String>, LayoutError>(None),
        token@.len() > 0 ==> (r is Ok ==> r->Ok_0 is Some),
        r is Err ==> r == Err::<Option<String>, LayoutError>(LayoutError::NotAbsolute),
{
    if token.is_empty() {
        return Ok(None);
    }
    let relative = credential_file(credentials, token, platform);
    match absolute_or_error(absolutize(relative.as_str())) {
        Ok(full) => Ok(Some(full)),
        Err(e) => Err(e),
    }
}

} // verus!
