//! Tool management: which tools, which platforms, which versions, which
//! downloads, and how a downloaded file is checked.
use crate::error::{Invalid, Result, ThumedError};
use crate::text::{
    ascii_hex_digit, chars_of, first_word, first_word_of, is_ascii_digit, is_ascii_hex_digit,
    is_text, lemma_chars_deep_view, push_str, split, split_chars, string_of, trim, trimmed,
};
use crate::platform::{exe_name, exe_name_for};
use crate::utils::{first_line, first_line_of};
use vstd::prelude::*;

verus! {

/// The sub-steps of setting up one tool or the Helm repository.
#[derive(Clone, Copy, Debug, PartialEq, Eq, Structural)]
pub enum SetupStep {
    Check,
    FetchVersion,
    DownloadBinary,
    DownloadChecksum,
    VerifyChecksum,
    Extract,
    VerifyBinary,
    InstallBinary,
    Configure,
    Update,
}

/// The tools that this application manages.
pub open spec fn is_managed_tool(tool: Seq<char>) -> bool {
    tool == "kubectl"@ || tool == "helm"@
}

/// The arguments that make a tool print its version.
pub fn version_args(tool: &str) -> (r: Vec<&'static str>)
    requires
        is_managed_tool(tool@),
    ensures
        tool@ == "kubectl"@ ==> r@.map_values(|a: &str| a@) == seq!["version"@, "--client"@],
        tool@ == "helm"@ ==> r@.map_values(|a: &str| a@) == seq!["version"@, "--short"@],
{
    proof {
        reveal_strlit("kubectl");
        reveal_strlit("helm");
        assert("helm"@.len() != "kubectl"@.len());
    }
    let mut r: Vec<&'static str> = Vec::new();
    r.push("version");
    if is_text(chars_of(tool).as_slice(), "kubectl") {
        r.push("--client");
    } else {
        r.push("--short");
    }
    assert(r@.map_values(|a: &str| a@) =~= seq!["version"@, r@[1]@]);
    r
}

/// The release names of the operating systems and architectures that can be
/// installed automatically.
pub open spec fn platform_names(os: Seq<char>, arch: Seq<char>) -> Option<(Seq<char>, Seq<char>)> {
    let o = if os == "macos"@ {
        Some("darwin"@)
    } else if os == "linux"@ {
        Some("linux"@)
    } else if os == "windows"@ {
        Some("windows"@)
    } else {
        None
    };
    let a = if arch == "x86_64"@ {
        Some("amd64"@)
    } else if arch == "aarch64"@ {
        Some("arm64"@)
    } else {
        None
    };
    match (o, a) {
        (Some(x), Some(y)) => Some((x, y)),
        _ => None,
    }
}

/// The names that the download sites use for a platform.
pub fn platform(os: &str, arch: &str) -> (r: Result<(&'static str, &'static str)>)
    ensures
        match platform_names(os@, arch@) {
            Some((o, a)) => r matches Ok((x, y)) && x@ == o && y@ == a,
            None => r matches Err(e) && e == ThumedError::Invalid(Invalid::UnsupportedPlatform),
        },
{
    let osv = chars_of(os);
    let archv = chars_of(arch);
    let o = if is_text(osv.as_slice(), "macos") {
        "darwin"
    } else if is_text(osv.as_slice(), "linux") {
        "linux"
    } else if is_text(osv.as_slice(), "windows") {
        "windows"
    } else {
        return Err(ThumedError::Invalid(Invalid::UnsupportedPlatform));
    };
    let a = if is_text(archv.as_slice(), "x86_64") {
        "amd64"
    } else if is_text(archv.as_slice(), "aarch64") {
        "arm64"
    } else {
        return Err(ThumedError::Invalid(Invalid::UnsupportedPlatform));
    };
    Ok((o, a))
}

/// What a release version file must hold: `v` and three dot-separated,
/// non-empty runs of digits, the first of them the expected major version.
pub open spec fn valid_release(version: Seq<char>, major: Seq<char>) -> bool {
    let parts = release_parts(version);
    &&& parts.len() == 3
    &&& parts[0] == major
    &&& forall|i: int| 0 <= i < 3 ==> all_digits_nonempty(#[trigger] parts[i])
}

/// The dot-separated parts of a version after its leading `v` (one empty
/// part where there is no `v`).
pub open spec fn release_parts(version: Seq<char>) -> Seq<Seq<char>> {
    let rest = if version.len() > 0 && version[0] == 'v' {
        version.drop_first()
    } else {
        seq![]
    };
    split(rest, '.')
}

pub open spec fn all_digits_nonempty(s: Seq<char>) -> bool {
    s.len() > 0 && forall|j: int| 0 <= j < s.len() ==> is_ascii_digit(#[trigger] s[j])
}

fn digits_nonempty(v: &[char]) -> (r: bool)
    ensures
        r == all_digits_nonempty(v@),
{
    v.len() > 0 && crate::text::all_digits(v)
}

/// Reads a release version file: its trimmed text where it is a valid
/// release of the expected major version.
pub fn release_version(text: &str, major: &str) -> (r: Result<String>)
    ensures
        valid_release(trim(text@), major@) ==> (r matches Ok(s) && s@ == trim(text@)),
        !valid_release(trim(text@), major@) ==> (r matches Err(e) && e == ThumedError::Invalid(
            Invalid::DownloadVerification,
        )),
{
    let version = trimmed(chars_of(text).as_slice());
    let rest: Vec<char> = if version.len() > 0 && version[0] == 'v' {
        crate::text::slice_of(version.as_slice(), 1, version.len())
    } else {
        Vec::new()
    };
    assert(rest@ == (if version@.len() > 0 && version@[0] == 'v' {
        version@.drop_first()
    } else {
        Seq::<char>::empty()
    }));
    let parts = split_chars(rest.as_slice(), '.');
    if parts.len() != 3 {
        return Err(ThumedError::Invalid(Invalid::DownloadVerification));
    }
    proof {
        lemma_chars_deep_view(parts[0]);
        lemma_chars_deep_view(parts[1]);
        lemma_chars_deep_view(parts[2]);
        assert(parts.deep_view()[0] == parts[0]@);
        assert(parts.deep_view()[1] == parts[1]@);
        assert(parts.deep_view()[2] == parts[2]@);
    }
    let major_v = chars_of(major);
    let same = crate::text::same_chars(parts[0].as_slice(), major_v.as_slice());
    let d0 = digits_nonempty(parts[0].as_slice());
    let d1 = digits_nonempty(parts[1].as_slice());
    let d2 = digits_nonempty(parts[2].as_slice());
    if !(same && d0 && d1 && d2) {
        proof {
            let ps = release_parts(version@);
            assert(ps == parts.deep_view());
            if !same {
                assert(ps[0] != major@);
            }
            if !d0 {
                assert(!all_digits_nonempty(ps[0]));
            }
            if !d1 {
                assert(!all_digits_nonempty(ps[1]));
            }
            if !d2 {
                assert(!all_digits_nonempty(ps[2]));
            }
            assert(!valid_release(version@, major@));
        }
        return Err(ThumedError::Invalid(Invalid::DownloadVerification));
    }
    assert forall|i: int| 0 <= i < 3 implies all_digits_nonempty(
        #[trigger] release_parts(version@)[i],
    ) by {
        if i == 0 {
        } else if i == 1 {
        } else {
        }
    }
    Ok(string_of(version.as_slice()))
}

/// Where the newest release of a tool is named, and its major version.
pub fn version_source(tool: &str) -> (r: (&'static str, &'static str))
    requires
        is_managed_tool(tool@),
    ensures
        tool@ == "kubectl"@ ==> r.0@ == "https://dl.k8s.io/release/stable.txt"@ && r.1@ == "1"@,
        tool@ == "helm"@ ==> r.0@ == "https://get.helm.sh/helm3-latest-version"@ && r.1@
            == "3"@,
{
    proof {
        reveal_strlit("kubectl");
        reveal_strlit("helm");
        assert("helm"@.len() != "kubectl"@.len());
    }
    let kubectl = is_text(chars_of(tool).as_slice(), "kubectl");
    if kubectl {
        ("https://dl.k8s.io/release/stable.txt", "1")
    } else {
        // Stay on Helm 3 for compatibility with the existing cluster/chart.
        ("https://get.helm.sh/helm3-latest-version", "3")
    }
}

/// The download of a tool's release: kubectl as a bare executable, Helm as
/// an archive.
pub open spec fn download_url_of(
    tool: Seq<char>,
    version: Seq<char>,
    os: Seq<char>,
    arch: Seq<char>,
    executable: Seq<char>,
) -> Seq<char> {
    if tool == "kubectl"@ {
        "https://dl.k8s.io/release/"@ + version + "/bin/"@ + os + "/"@ + arch + "/"@ + executable
    } else {
        "https://get.helm.sh/helm-"@ + version + "-"@ + os + "-"@ + arch + ".tar.gz"@
    }
}

pub fn download_url(tool: &str, version: &str, os: &str, arch: &str, executable: &str) -> (r:
    String)
    requires
        is_managed_tool(tool@),
    ensures
        r@ == download_url_of(tool@, version@, os@, arch@, executable@),
{
    let mut out: Vec<char> = Vec::new();
    if is_text(chars_of(tool).as_slice(), "kubectl") {
        push_str(&mut out, "https://dl.k8s.io/release/");
        push_str(&mut out, version);
        push_str(&mut out, "/bin/");
        push_str(&mut out, os);
        push_str(&mut out, "/");
        push_str(&mut out, arch);
        push_str(&mut out, "/");
        push_str(&mut out, executable);
    } else {
        push_str(&mut out, "https://get.helm.sh/helm-");
        push_str(&mut out, version);
        push_str(&mut out, "-");
        push_str(&mut out, os);
        push_str(&mut out, "-");
        push_str(&mut out, arch);
        push_str(&mut out, ".tar.gz");
    }
    string_of(out.as_slice())
}

/// The download of the checksum that belongs to a download.
pub fn checksum_url(tool: &str, url: &str) -> (r: String)
    requires
        is_managed_tool(tool@),
    ensures
        tool@ == "kubectl"@ ==> r@ == url@ + ".sha256"@,
        tool@ != "kubectl"@ ==> r@ == url@ + ".sha256sum"@,
{
    let mut out = chars_of(url);
    if is_text(chars_of(tool).as_slice(), "kubectl") {
        push_str(&mut out, ".sha256");
    } else {
        push_str(&mut out, ".sha256sum");
    }
    string_of(out.as_slice())
}

/// The one member that is taken out of a Helm archive.
pub fn archive_member(os: &str, arch: &str, executable: &str) -> (r: String)
    ensures
        r@ == os@ + "-"@ + arch@ + "/"@ + executable@,
{
    let mut out = chars_of(os);
    push_str(&mut out, "-");
    push_str(&mut out, arch);
    push_str(&mut out, "/");
    push_str(&mut out, executable);
    string_of(out.as_slice())
}

/// A SHA-256 checksum: 64 hexadecimal digits.
pub open spec fn is_sha256_hex(s: Seq<char>) -> bool {
    s.len() == 64 && forall|i: int| 0 <= i < 64 ==> is_ascii_hex_digit(#[trigger] s[i])
}

/// The first word of a text, or nothing.
pub open spec fn first_word_or_empty(s: Seq<char>) -> Seq<char> {
    match first_word(s) {
        Some(w) => w,
        None => seq![],
    }
}

/// Reads the expected checksum from a checksum file: its first word, which
/// must be a SHA-256 checksum.
pub fn expected_checksum(text: &str) -> (r: Result<String>)
    ensures
        is_sha256_hex(first_word_or_empty(text@)) ==> (r matches Ok(s) && s@ == first_word_or_empty(
            text@,
        )),
        !is_sha256_hex(first_word_or_empty(text@)) ==> (r matches Err(e) && e
            == ThumedError::Invalid(Invalid::DownloadVerification)),
{
    let w = match first_word_of(chars_of(text).as_slice()) {
        Some(w) => w,
        None => Vec::new(),
    };
    if w.len() != 64 {
        return Err(ThumedError::Invalid(Invalid::DownloadVerification));
    }
    let mut i: usize = 0;
    while i < 64
        invariant
            i <= 64,
            w.len() == 64,
            w@ == first_word_or_empty(text@),
            forall|j: int| 0 <= j < i ==> is_ascii_hex_digit(#[trigger] w@[j]),
        decreases 64 - i,
    {
        if !ascii_hex_digit(w[i]) {
            assert(!is_ascii_hex_digit(w@[i as int]));
            return Err(ThumedError::Invalid(Invalid::DownloadVerification));
        }
        i = i + 1;
    }
    Ok(string_of(w.as_slice()))
}

/// The code of a character once an ASCII capital is made lowercase.
pub open spec fn ascii_lower(c: char) -> int {
    if 'A' <= c && c <= 'Z' {
        (c as u32) + 32
    } else {
        c as u32 as int
    }
}

/// The texts are equal once ASCII letters are made lowercase
/// (`str::eq_ignore_ascii_case`).
pub open spec fn eq_ignore_ascii_case(a: Seq<char>, b: Seq<char>) -> bool {
    a.len() == b.len() && forall|i: int| 0 <= i < a.len() ==> ascii_lower(#[trigger] a[i]) == ascii_lower(b[i])
}

fn lower(c: char) -> (r: u32)
    ensures
        r == ascii_lower(c),
{
    if 'A' <= c && c <= 'Z' {
        (c as u32) + 32
    } else {
        c as u32
    }
}

/// Compares the checksum that the hashing tool printed (its first word) with
/// the expected one, ignoring the case of letters.
pub fn checksum_matches(hash_output: &str, expected: &str) -> (r: Result<()>)
    ensures
        r is Ok <==> eq_ignore_ascii_case(first_word_or_empty(hash_output@), expected@),
        r matches Err(e) ==> e == ThumedError::Invalid(Invalid::DownloadVerification),
{
    let a = match first_word_of(chars_of(hash_output).as_slice()) {
        Some(w) => w,
        None => Vec::new(),
    };
    let b = chars_of(expected);
    if a.len() != b.len() {
        return Err(ThumedError::Invalid(Invalid::DownloadVerification));
    }
    let mut i: usize = 0;
    while i < a.len()
        invariant
            i <= a.len() == b.len(),
            a@ == first_word_or_empty(hash_output@),
            b@ == expected@,
            forall|j: int| 0 <= j < i ==> ascii_lower(#[trigger] a@[j]) == ascii_lower(b@[j]),
        decreases a.len() - i,
    {
        if lower(a[i]) != lower(b[i]) {
            assert(ascii_lower(a@[i as int]) != ascii_lower(b@[i as int]));
            return Err(ThumedError::Invalid(Invalid::DownloadVerification));
        }
        i = i + 1;
    }
    Ok(())
}

/// What the environment report shows of a tool: its version line, then where
/// it is, a path or `PATH: ` and the name found on the search path.
pub fn tool_report(version_output: &str, program: &str, absolute: bool) -> (r: String)
    ensures
        r@ == first_line_of(version_output@) + "\n"@ + (if absolute {
            program@
        } else {
            "PATH: "@ + program@
        }),
{
    let line = first_line(version_output);
    let mut out = chars_of(line.as_str());
    push_str(&mut out, "\n");
    if !absolute {
        push_str(&mut out, "PATH: ");
    }
    push_str(&mut out, program);
    string_of(out.as_slice())
}


// ---------------------------------------------------------------------------
// Setting up a tool
// ---------------------------------------------------------------------------
/// The page that names the newest release of a tool.
pub open spec fn version_url_of(tool: Seq<char>) -> Seq<char> {
    if tool == "kubectl"@ {
        "https://dl.k8s.io/release/stable.txt"@
    } else {
        "https://get.helm.sh/helm3-latest-version"@
    }
}

/// The major version that a tool's release must have.
pub open spec fn major_of(tool: Seq<char>) -> Seq<char> {
    if tool == "kubectl"@ {
        "1"@
    } else {
        "3"@
    }
}

/// The checksum that belongs to a download.
pub open spec fn checksum_url_of(tool: Seq<char>, url: Seq<char>) -> Seq<char> {
    if tool == "kubectl"@ {
        url + ".sha256"@
    } else {
        url + ".sha256sum"@
    }
}

/// A file of the staging directory of an installation.
#[derive(Clone, Copy, Debug, PartialEq, Eq, Structural)]
pub enum StagedFile {
    /// The page that names the newest release.
    Version,
    /// The downloaded executable or archive.
    Download,
    /// The checksum of the download.
    Checksum,
}

impl StagedFile {
    /// The file's name in the staging directory.
    pub fn file_name(self) -> (r: &'static str)
        ensures
            r@ == (match self {
                StagedFile::Version => "version"@,
                StagedFile::Download => "download"@,
                StagedFile::Checksum => "checksum"@,
            }),
    {
        match self {
            StagedFile::Version => "version",
            StagedFile::Download => "download",
            StagedFile::Checksum => "checksum",
        }
    }
}

/// Where the setup of a tool stands: what the last piece of work was.
#[derive(Clone, Copy, Debug, PartialEq, Eq, Structural)]
pub enum SetupPhase {
    Checking,
    Staging,
    FetchingVersion,
    DownloadingBinary,
    DownloadingChecksum,
    Hashing,
    Placing,
    Inspecting,
    RunningCandidate,
    Probing,
    Installing,
    Rechecking,
    Finished,
}

/// A piece of work that the application does for the setup of a tool.
pub enum Work {
    /// Run the tool, where `command` finds it, with `version_args`.
    RunVersion,
    /// Create the tools directory and a fresh staging directory in it.
    Stage,
    /// Download `url` into the staged file; hand back what the file holds,
    /// except for the download itself.
    Download { url: String, file: StagedFile },
    /// Hash the staged download with the system's SHA-256 tool; hand back
    /// what it printed.
    HashDownload,
    /// Move the staged download to `name` in the staging directory.
    RenameDownload { name: String },
    /// Take `member`, and nothing else, out of the staged download (an
    /// archive) into the staging directory with `tar`.
    Extract { member: String },
    /// Check that the staged `name` is a regular file and make it executable.
    InspectCandidate { name: String },
    /// Run the staged `name` with `version_args`.
    RunCandidate { name: String },
    /// Look whether the tool's place in the tools directory is taken.
    ProbeDestination,
    /// Move the staged `name` to the tool's place.
    InstallCandidate { name: String },
    /// The setup is over: what the working tool printed for its version, or
    /// why it could not be set up.
    Finished(Result<String>),
}

/// The next piece of work, and the step that the progress display shows
/// before it, if any.
pub struct SetupAction {
    pub step: Option<SetupStep>,
    pub work: Work,
}

/// What became of a piece of work.
pub enum Reply {
    /// It was done; what was printed or what the file holds.
    Done(String),
    /// It failed.
    Failed(ThumedError),
    /// The staged candidate is not a regular file.
    NotAFile,
    /// The tool's place is taken; the path as displayed.
    Occupied(String),
}

/// The setup of one managed tool: reuse it where it works, else download,
/// verify and install it for this user. Missing tools are installed
/// per-user, never with elevated rights.
pub struct ToolSetup {
    pub tool: String,
    /// The platform's operating system and architecture, as Rust names them.
    pub os: String,
    pub arch: String,
    /// The same, as the download sites name them.
    pub release_os: String,
    pub release_arch: String,
    /// The release to install and where it is downloaded from.
    pub version: String,
    pub url: String,
    /// The checksum that the download must have.
    pub expected: String,
    /// The staged executable, relative to the staging directory.
    pub candidate: String,
    /// Whether the download's checksum matched the published one.
    pub checksum_verified: bool,
    pub phase: SetupPhase,
}

/// The phases that come after the download was verified.
pub open spec fn after_verification(phase: SetupPhase) -> bool {
    phase == SetupPhase::Placing || phase == SetupPhase::Inspecting || phase
        == SetupPhase::RunningCandidate || phase == SetupPhase::Probing || phase
        == SetupPhase::Installing || phase == SetupPhase::Rechecking
}

/// The setup is consistent: its tool is a managed one, and it only handles
/// a downloaded executable once the download's checksum matched.
pub open spec fn setup_wf(s: ToolSetup) -> bool {
    &&& is_managed_tool(s.tool@)
    &&& after_verification(s.phase) ==> s.checksum_verified
}

/// The setup holds the same texts.
pub open spec fn same_texts(old: ToolSetup, new: ToolSetup) -> bool {
    &&& new.tool@ == old.tool@
    &&& new.os@ == old.os@
    &&& new.arch@ == old.arch@
    &&& new.release_os@ == old.release_os@
    &&& new.release_arch@ == old.release_arch@
    &&& new.version@ == old.version@
    &&& new.url@ == old.url@
    &&& new.expected@ == old.expected@
    &&& new.candidate@ == old.candidate@
    &&& new.checksum_verified == old.checksum_verified
}

/// The setup goes on to `phase`, showing `step` first.
pub open spec fn goes_on(
    old: ToolSetup,
    new: ToolSetup,
    a: SetupAction,
    phase: SetupPhase,
    step: Option<SetupStep>,
) -> bool {
    same_texts(old, new) && new.phase == phase && a.step == step
}

/// The setup ends with `result`.
pub open spec fn ends(old: ToolSetup, new: ToolSetup, a: SetupAction, result: Result<String>) -> bool {
    &&& same_texts(old, new)
    &&& new.phase == SetupPhase::Finished
    &&& a.step is None
    &&& a.work == Work::Finished(result)
}

/// The executable's name on the setup's platform.
pub open spec fn executable_of(s: ToolSetup) -> Seq<char> {
    exe_name(s.tool@, s.os@ == "windows"@)
}

/// A missing tool is to be installed: on a supported platform, the staging
/// directory is made first.
pub open spec fn install_starts(old: ToolSetup, new: ToolSetup, a: SetupAction) -> bool {
    match platform_names(old.os@, old.arch@) {
        None => ends(old, new, a, Err(ThumedError::Invalid(Invalid::UnsupportedPlatform))),
        Some((o, r)) => {
            &&& new.tool@ == old.tool@
            &&& new.os@ == old.os@
            &&& new.arch@ == old.arch@
            &&& new.release_os@ == o
            &&& new.release_arch@ == r
            &&& new.version@ == old.version@
            &&& new.url@ == old.url@
            &&& new.expected@ == old.expected@
            &&& new.candidate@ == old.candidate@
            &&& new.checksum_verified == old.checksum_verified
            &&& new.phase == SetupPhase::Staging
            &&& a.step is None
            &&& a.work is Stage
        },
    }
}

/// What follows once the work of the phase `old.phase` was done and handed
/// back `out`.
pub open spec fn done_follows(old: ToolSetup, out: String, new: ToolSetup, a: SetupAction) -> bool {
    let tool = old.tool@;
    match old.phase {
        SetupPhase::Checking | SetupPhase::Rechecking => ends(old, new, a, Ok(out)),
        SetupPhase::Staging => goes_on(
            old,
            new,
            a,
            SetupPhase::FetchingVersion,
            Some(SetupStep::FetchVersion),
        ) && (a.work matches Work::Download { url, file } && url@ == version_url_of(tool) && file
            == StagedFile::Version),
        SetupPhase::FetchingVersion => if valid_release(trim(out@), major_of(tool)) {
            &&& new.tool@ == tool
            &&& new.os@ == old.os@
            &&& new.arch@ == old.arch@
            &&& new.release_os@ == old.release_os@
            &&& new.release_arch@ == old.release_arch@
            &&& new.version@ == trim(out@)
            &&& new.url@ == download_url_of(
                tool,
                trim(out@),
                old.release_os@,
                old.release_arch@,
                executable_of(old),
            )
            &&& new.expected@ == old.expected@
            &&& new.candidate@ == old.candidate@
            &&& new.checksum_verified == old.checksum_verified
            &&& new.phase == SetupPhase::DownloadingBinary
            &&& a.step == Some(SetupStep::DownloadBinary)
            &&& a.work matches Work::Download { url, file } && url@ == new.url@ && file
                == StagedFile::Download
        } else {
            ends(old, new, a, Err(ThumedError::Invalid(Invalid::DownloadVerification)))
        },
        SetupPhase::DownloadingBinary => goes_on(
            old,
            new,
            a,
            SetupPhase::DownloadingChecksum,
            Some(SetupStep::DownloadChecksum),
        ) && (a.work matches Work::Download { url, file } && url@ == checksum_url_of(tool, old.url@)
            && file == StagedFile::Checksum),
        SetupPhase::DownloadingChecksum => if is_sha256_hex(first_word_or_empty(out@)) {
            &&& new.tool@ == tool
            &&& new.os@ == old.os@
            &&& new.arch@ == old.arch@
            &&& new.release_os@ == old.release_os@
            &&& new.release_arch@ == old.release_arch@
            &&& new.version@ == old.version@
            &&& new.url@ == old.url@
            &&& new.expected@ == first_word_or_empty(out@)
            &&& new.candidate@ == old.candidate@
            &&& new.checksum_verified == old.checksum_verified
            &&& new.phase == SetupPhase::Hashing
            &&& a.step == Some(SetupStep::VerifyChecksum)
            &&& a.work is HashDownload
        } else {
            &&& same_texts(old, new)
            &&& new.phase == SetupPhase::Finished
            &&& a.step == Some(SetupStep::VerifyChecksum)
            &&& a.work == Work::Finished(Err(ThumedError::Invalid(Invalid::DownloadVerification)))
        },
        SetupPhase::Hashing => if eq_ignore_ascii_case(first_word_or_empty(out@), old.expected@) {
            &&& new.tool@ == tool
            &&& new.os@ == old.os@
            &&& new.arch@ == old.arch@
            &&& new.release_os@ == old.release_os@
            &&& new.release_arch@ == old.release_arch@
            &&& new.version@ == old.version@
            &&& new.url@ == old.url@
            &&& new.expected@ == old.expected@
            &&& new.checksum_verified
            &&& new.phase == SetupPhase::Placing
            &&& if tool == "kubectl"@ {
                &&& new.candidate@ == executable_of(old)
                &&& a.step is None
                &&& a.work matches Work::RenameDownload { name } && name@ == new.candidate@
            } else {
                &&& new.candidate@ == old.release_os@ + "-"@ + old.release_arch@ + "/"@
                    + executable_of(old)
                &&& a.step == Some(SetupStep::Extract)
                &&& a.work matches Work::Extract { member } && member@ == new.candidate@
            }
        } else {
            ends(old, new, a, Err(ThumedError::Invalid(Invalid::DownloadVerification)))
        },
        SetupPhase::Placing => goes_on(old, new, a, SetupPhase::Inspecting, None) && (
        a.work matches Work::InspectCandidate { name } && name@ == old.candidate@),
        SetupPhase::Inspecting => goes_on(
            old,
            new,
            a,
            SetupPhase::RunningCandidate,
            Some(SetupStep::VerifyBinary),
        ) && (a.work matches Work::RunCandidate { name } && name@ == old.candidate@),
        SetupPhase::RunningCandidate => goes_on(old, new, a, SetupPhase::Probing, None)
            && a.work is ProbeDestination,
        SetupPhase::Probing => goes_on(
            old,
            new,
            a,
            SetupPhase::Installing,
            Some(SetupStep::InstallBinary),
        ) && (a.work matches Work::InstallCandidate { name } && name@ == old.candidate@),
        SetupPhase::Installing => goes_on(old, new, a, SetupPhase::Rechecking, None)
            && a.work is RunVersion,
        SetupPhase::Finished => false,
    }
}

/// One step of the setup of a tool: the state and the next piece of work
/// after `reply`. A failure ends the setup with its error, except that a tool
/// missing at the first check is installed; a candidate that is not a
/// regular file, or a taken place, ends it too.
pub open spec fn setup_follows(old: ToolSetup, reply: Reply, new: ToolSetup, a: SetupAction) -> bool {
    match reply {
        Reply::Done(out) => done_follows(old, out, new, a),
        Reply::Failed(e) => if old.phase == SetupPhase::Checking && e is MissingTool {
            install_starts(old, new, a)
        } else {
            ends(old, new, a, Err(e))
        },
        Reply::NotAFile => ends(
            old,
            new,
            a,
            Err(ThumedError::Invalid(Invalid::DownloadVerification)),
        ),
        Reply::Occupied(_) => {
            &&& same_texts(old, new)
            &&& new.phase == SetupPhase::Finished
            &&& a.step is None
            &&& a.work matches Work::Finished(Err(ThumedError::Io(_)))
        },
    }
}

/// The order of the phases of a setup.
pub open spec fn phase_rank(p: SetupPhase) -> int {
    match p {
        SetupPhase::Checking => 0,
        SetupPhase::Staging => 1,
        SetupPhase::FetchingVersion => 2,
        SetupPhase::DownloadingBinary => 3,
        SetupPhase::DownloadingChecksum => 4,
        SetupPhase::Hashing => 5,
        SetupPhase::Placing => 6,
        SetupPhase::Inspecting => 7,
        SetupPhase::RunningCandidate => 8,
        SetupPhase::Probing => 9,
        SetupPhase::Installing => 10,
        SetupPhase::Rechecking => 11,
        SetupPhase::Finished => 12,
    }
}

/// The order in which the progress display lists the steps.
pub open spec fn step_rank(st: SetupStep) -> int {
    match st {
        SetupStep::Check => 0,
        SetupStep::FetchVersion => 1,
        SetupStep::DownloadBinary => 2,
        SetupStep::DownloadChecksum => 3,
        SetupStep::VerifyChecksum => 4,
        SetupStep::Extract => 5,
        SetupStep::VerifyBinary => 6,
        SetupStep::InstallBinary => 7,
        SetupStep::Configure => 8,
        SetupStep::Update => 9,
    }
}

/// The phase of a given rank.
pub open spec fn phase_at(k: int) -> SetupPhase {
    if k == 0 {
        SetupPhase::Checking
    } else if k == 1 {
        SetupPhase::Staging
    } else if k == 2 {
        SetupPhase::FetchingVersion
    } else if k == 3 {
        SetupPhase::DownloadingBinary
    } else if k == 4 {
        SetupPhase::DownloadingChecksum
    } else if k == 5 {
        SetupPhase::Hashing
    } else if k == 6 {
        SetupPhase::Placing
    } else if k == 7 {
        SetupPhase::Inspecting
    } else if k == 8 {
        SetupPhase::RunningCandidate
    } else if k == 9 {
        SetupPhase::Probing
    } else if k == 10 {
        SetupPhase::Installing
    } else if k == 11 {
        SetupPhase::Rechecking
    } else {
        SetupPhase::Finished
    }
}

/// The step that the progress display shows when the setup of `tool` leaves
/// the phase `p` for the next one: Helm's archive is extracted, kubectl's
/// download is the executable itself.
pub open spec fn step_after(p: SetupPhase, tool: Seq<char>) -> Option<SetupStep> {
    match p {
        SetupPhase::Staging => Some(SetupStep::FetchVersion),
        SetupPhase::FetchingVersion => Some(SetupStep::DownloadBinary),
        SetupPhase::DownloadingBinary => Some(SetupStep::DownloadChecksum),
        SetupPhase::DownloadingChecksum => Some(SetupStep::VerifyChecksum),
        SetupPhase::Hashing => if tool == "kubectl"@ {
            None
        } else {
            Some(SetupStep::Extract)
        },
        SetupPhase::Inspecting => Some(SetupStep::VerifyBinary),
        SetupPhase::Probing => Some(SetupStep::InstallBinary),
        _ => None,
    }
}

/// Every step of a setup moves it forward: the phase it goes to comes later
/// than the one it left, so no phase comes twice. Unless it ends, it goes to
/// the very next phase, and only once the work of the last one was done (the
/// staging starts only because the tool was missing). The step shown, if
/// any, is the one that follows the phase left, and it is always shown when
/// the setup goes on. The tool is put in place only from the probing phase,
/// once the download's checksum matched.
pub proof fn lemma_setup_moves_forward(old: ToolSetup, reply: Reply, new: ToolSetup, a: SetupAction)
    requires
        old.phase != SetupPhase::Finished,
        setup_follows(old, reply, new, a),
        setup_wf(new),
    ensures
        phase_rank(old.phase) < phase_rank(new.phase),
        new.phase != SetupPhase::Finished ==> phase_rank(new.phase) == phase_rank(old.phase) + 1,
        new.phase == SetupPhase::Staging ==> (reply matches Reply::Failed(e) && e is MissingTool),
        new.phase != SetupPhase::Finished && new.phase != SetupPhase::Staging ==> reply is Done,
        a.step is Some ==> a.step == step_after(old.phase, old.tool@),
        new.phase != SetupPhase::Finished ==> a.step == step_after(old.phase, old.tool@),
        new.tool@ == old.tool@,
        a.work is InstallCandidate ==> old.phase == SetupPhase::Probing && reply is Done
            && new.phase == SetupPhase::Installing && new.checksum_verified,
{
}

/// The steps shown come in the display's order: a phase left later shows a
/// step that is listed later.
pub proof fn lemma_steps_in_order(p: SetupPhase, q: SetupPhase, tool: Seq<char>)
    requires
        phase_rank(p) < phase_rank(q),
        step_after(p, tool) is Some,
        step_after(q, tool) is Some,
    ensures
        step_rank(step_after(p, tool)->0) < step_rank(step_after(q, tool)->0),
{
}

/// A run of the setup of a tool as the application drives it: it starts at
/// the first check, as `ToolSetup::new` leaves it, and each reply leads by
/// `ensure` from one state to the next and to the action asked for then.
pub open spec fn setup_run(states: Seq<ToolSetup>, replies: Seq<Reply>, actions: Seq<SetupAction>) -> bool {
    &&& states.len() == replies.len() + 1
    &&& actions.len() == replies.len()
    &&& states[0].phase == SetupPhase::Checking
    &&& forall|i: int|
        #![trigger replies[i]]
        0 <= i < replies.len() ==> states[i].phase != SetupPhase::Finished && setup_follows(
            states[i],
            replies[i],
            states[i + 1],
            actions[i],
        ) && setup_wf(states[i + 1])
}

/// In a run, the state after `k` replies is in the phase of rank `k`, or the
/// setup is over.
proof fn lemma_run_rank(states: Seq<ToolSetup>, replies: Seq<Reply>, actions: Seq<SetupAction>, k: int)
    requires
        setup_run(states, replies, actions),
        0 <= k <= replies.len(),
    ensures
        k < replies.len() ==> phase_rank(states[k].phase) == k,
        states[k].phase == SetupPhase::Finished || phase_rank(states[k].phase) == k,
        states[k].tool@ == states[0].tool@,
    decreases k,
{
    if k > 0 {
        lemma_run_rank(states, replies, actions, k - 1);
        assert(states[k - 1].phase != SetupPhase::Finished && setup_follows(
            states[k - 1],
            replies[k - 1],
            states[k],
            actions[k - 1],
        ) && setup_wf(states[k]));
        lemma_setup_moves_forward(states[k - 1], replies[k - 1], states[k], actions[k - 1]);
        if k < replies.len() {
            let r = replies[k];
            assert(states[k].phase != SetupPhase::Finished);
        }
    }
}

/// Over a whole run of a setup: it takes at most twelve replies; the steps
/// shown are, in the display's order, those that follow each phase passed,
/// so a prefix of check, version, download, checksum download, checksum
/// verification, extraction (Helm only), trial run and installation, with
/// none repeated.
pub proof fn lemma_setup_run_steps(states: Seq<ToolSetup>, replies: Seq<Reply>, actions: Seq<SetupAction>)
    requires
        setup_run(states, replies, actions),
    ensures
        replies.len() <= 12,
        forall|k: int|
            0 <= k < actions.len() && (#[trigger] actions[k]).step is Some ==> actions[k].step
                == step_after(phase_at(k), states[0].tool@),
        forall|k: int|
            0 <= k < actions.len() && states[k + 1].phase != SetupPhase::Finished ==> (
            #[trigger] actions[k]).step == step_after(phase_at(k), states[0].tool@),
        forall|i: int, j: int|
            0 <= i < j < actions.len() && (#[trigger] actions[i]).step is Some && (
            #[trigger] actions[j]).step is Some ==> step_rank(actions[i].step->0) < step_rank(
                actions[j].step->0,
            ),
{
    if replies.len() > 0 {
        let last = replies.len() - 1;
        lemma_run_rank(states, replies, actions, last);
        let r = replies[last];
        assert(states[last].phase != SetupPhase::Finished);
        assert(phase_rank(states[last].phase) <= 11);
    }
    assert forall|k: int| 0 <= k < actions.len() implies ((#[trigger] actions[k]).step is Some
        ==> actions[k].step == step_after(phase_at(k), states[0].tool@)) && (states[k
        + 1].phase != SetupPhase::Finished ==> actions[k].step == step_after(
        phase_at(k),
        states[0].tool@,
    )) by {
        lemma_run_rank(states, replies, actions, k);
        assert(setup_follows(states[k], replies[k], states[k + 1], actions[k]) && setup_wf(
            states[k + 1],
        ) && states[k].phase != SetupPhase::Finished);
        lemma_setup_moves_forward(states[k], replies[k], states[k + 1], actions[k]);
    }
    assert forall|i: int, j: int|
        0 <= i < j < actions.len() && (#[trigger] actions[i]).step is Some && (
        #[trigger] actions[j]).step is Some implies step_rank(actions[i].step->0) < step_rank(
        actions[j].step->0,
    ) by {
        lemma_run_rank(states, replies, actions, i);
        lemma_run_rank(states, replies, actions, j);
        assert(setup_follows(states[i], replies[i], states[i + 1], actions[i]) && setup_wf(
            states[i + 1],
        ) && states[i].phase != SetupPhase::Finished);
        assert(setup_follows(states[j], replies[j], states[j + 1], actions[j]) && setup_wf(
            states[j + 1],
        ) && states[j].phase != SetupPhase::Finished);
        lemma_setup_moves_forward(states[i], replies[i], states[i + 1], actions[i]);
        lemma_setup_moves_forward(states[j], replies[j], states[j + 1], actions[j]);
        lemma_steps_in_order(states[i].phase, states[j].phase, states[0].tool@);
    }
}

/// Over a whole run of a setup, the tool is put in place only as the tenth
/// piece of work, after the published checksum was read (a SHA-256 in hex),
/// the download's hash matched it without regard to case, the staged
/// candidate ran, and the tool's place was found free; and what is put in
/// place is the candidate that ran.
pub proof fn lemma_setup_run_installs_verified(
    states: Seq<ToolSetup>,
    replies: Seq<Reply>,
    actions: Seq<SetupAction>,
    j: int,
)
    requires
        setup_run(states, replies, actions),
        0 <= j < actions.len(),
        actions[j].work is InstallCandidate,
    ensures
        j == 9,
        replies[4] matches Reply::Done(c) && replies[5] matches Reply::Done(h) && is_sha256_hex(
            first_word_or_empty(c@),
        ) && eq_ignore_ascii_case(first_word_or_empty(h@), first_word_or_empty(c@)),
        replies[8] is Done,
        replies[9] is Done,
        actions[7].work matches Work::RunCandidate { name } && actions[9].work matches Work::InstallCandidate {
            name: placed,
        } && placed@ == name@,
{
    lemma_run_rank(states, replies, actions, j);
    assert(setup_follows(states[j], replies[j], states[j + 1], actions[j]) && setup_wf(
        states[j + 1],
    ) && states[j].phase != SetupPhase::Finished);
    lemma_setup_moves_forward(states[j], replies[j], states[j + 1], actions[j]);
    assert(j == 9);
    lemma_run_rank(states, replies, actions, 4);
    lemma_run_rank(states, replies, actions, 5);
    lemma_run_rank(states, replies, actions, 6);
    lemma_run_rank(states, replies, actions, 7);
    lemma_run_rank(states, replies, actions, 8);
    lemma_run_rank(states, replies, actions, 9);
    lemma_run_rank(states, replies, actions, 10);
    assert(states[4].phase != SetupPhase::Finished && setup_wf(states[5]));
    assert(states[5].phase != SetupPhase::Finished && setup_wf(states[6]));
    assert(states[7].phase != SetupPhase::Finished && setup_wf(states[8]));
    assert(states[8].phase != SetupPhase::Finished && setup_wf(states[9]));
    assert(states[9].phase != SetupPhase::Finished && setup_wf(states[10]));
    assert(setup_follows(states[4], replies[4], states[5], actions[4]));
    assert(setup_follows(states[5], replies[5], states[6], actions[5]));
    assert(setup_follows(states[7], replies[7], states[8], actions[7]));
    assert(setup_follows(states[8], replies[8], states[9], actions[8]));
    assert(setup_follows(states[9], replies[9], states[10], actions[9]));
    lemma_setup_moves_forward(states[4], replies[4], states[5], actions[4]);
    lemma_setup_moves_forward(states[5], replies[5], states[6], actions[5]);
    lemma_setup_moves_forward(states[7], replies[7], states[8], actions[7]);
    lemma_setup_moves_forward(states[8], replies[8], states[9], actions[8]);
    lemma_setup_moves_forward(states[9], replies[9], states[10], actions[9]);
    assert(states[4].phase == SetupPhase::DownloadingChecksum);
    assert(states[5].phase == SetupPhase::Hashing);
    assert(states[7].phase == SetupPhase::Inspecting);
    assert(states[8].phase == SetupPhase::RunningCandidate);
}

impl ToolSetup {
    /// The setup of a managed tool on a platform, and its first piece of
    /// work: find whether the tool works already.
    pub fn new(tool: &str, os: &str, arch: &str) -> (r: (ToolSetup, SetupAction))
        requires
            is_managed_tool(tool@),
        ensures
            r.0.tool@ == tool@,
            r.0.os@ == os@,
            r.0.arch@ == arch@,
            r.0.release_os@ == Seq::<char>::empty(),
            r.0.release_arch@ == Seq::<char>::empty(),
            r.0.version@ == Seq::<char>::empty(),
            r.0.url@ == Seq::<char>::empty(),
            r.0.expected@ == Seq::<char>::empty(),
            r.0.candidate@ == Seq::<char>::empty(),
            !r.0.checksum_verified,
            r.0.phase == SetupPhase::Checking,
            r.1.step == Some(SetupStep::Check),
            r.1.work is RunVersion,
    {
        let s = ToolSetup {
            tool: tool.to_owned(),
            os: os.to_owned(),
            arch: arch.to_owned(),
            release_os: string_of(&[]),
            release_arch: string_of(&[]),
            version: string_of(&[]),
            url: string_of(&[]),
            expected: string_of(&[]),
            candidate: string_of(&[]),
            checksum_verified: false,
            phase: SetupPhase::Checking,
        };
        (s, SetupAction { step: Some(SetupStep::Check), work: Work::RunVersion })
    }
}

/// Ends the setup with `result`.
fn finish(setup: &mut ToolSetup, result: Result<String>) -> (a: SetupAction)
    ensures
        ends(*old(setup), *final(setup), a, result),
{
    setup.phase = SetupPhase::Finished;
    SetupAction { step: None, work: Work::Finished(result) }
}

/// Moves the setup on to `phase`.
fn go_on(setup: &mut ToolSetup, phase: SetupPhase, step: Option<SetupStep>, work: Work) -> (a:
    SetupAction)
    ensures
        goes_on(*old(setup), *final(setup), a, phase, step),
        a.work == work,
{
    setup.phase = phase;
    SetupAction { step, work }
}

/// One step of setting up a tool: given what became of the last piece of
/// work, the next one. The application does the work, shows each step, and
/// stops once the work is `Finished`.
pub fn ensure(setup: &mut ToolSetup, reply: Reply) -> (a: SetupAction)
    requires
        setup_wf(*old(setup)),
        old(setup).phase != SetupPhase::Finished,
    ensures
        setup_wf(*final(setup)),
        setup_follows(*old(setup), reply, *final(setup), a),
        a.work is InstallCandidate ==> final(setup).checksum_verified,
{
    proof {
        reveal_strlit("kubectl");
        reveal_strlit("helm");
        reveal_strlit("windows");
        assert("helm"@.len() != "kubectl"@.len());
    }
    match reply {
        Reply::Failed(e) => {
            let missing = match &e {
                ThumedError::MissingTool(_) => true,
                _ => false,
            };
            if setup.phase == SetupPhase::Checking && missing {
                match platform(setup.os.as_str(), setup.arch.as_str()) {
                    Err(e) => finish(setup, Err(e)),
                    Ok((o, r)) => {
                        setup.release_os = o.to_owned();
                        setup.release_arch = r.to_owned();
                        setup.phase = SetupPhase::Staging;
                        SetupAction { step: None, work: Work::Stage }
                    },
                }
            } else {
                finish(setup, Err(e))
            }
        },
        Reply::NotAFile => finish(setup, Err(ThumedError::Invalid(Invalid::DownloadVerification))),
        Reply::Occupied(path) => {
            let e = crate::error::already_exists_error(path.as_str());
            finish(setup, Err(ThumedError::Io(e)))
        },
        Reply::Done(out) => done_step(setup, out),
    }
}

/// The step after a piece of work that was done.
fn done_step(setup: &mut ToolSetup, out: String) -> (a: SetupAction)
    requires
        setup_wf(*old(setup)),
        old(setup).phase != SetupPhase::Finished,
    ensures
        setup_wf(*final(setup)),
        done_follows(*old(setup), out, *final(setup), a),
{
    proof {
        reveal_strlit("kubectl");
        reveal_strlit("helm");
        assert("helm"@.len() != "kubectl"@.len());
    }
    let tool = setup.tool.as_str();
    match setup.phase {
        SetupPhase::Checking | SetupPhase::Rechecking => finish(setup, Ok(out)),
        SetupPhase::Staging => {
            let (url, _) = version_source(tool);
            go_on(
                setup,
                SetupPhase::FetchingVersion,
                Some(SetupStep::FetchVersion),
                Work::Download { url: url.to_owned(), file: StagedFile::Version },
            )
        },
        SetupPhase::FetchingVersion => {
            let (_, major) = version_source(tool);
            match release_version(out.as_str(), major) {
                Err(e) => finish(setup, Err(e)),
                Ok(version) => {
                    let windows = is_text(chars_of(setup.os.as_str()).as_slice(), "windows");
                    let executable = exe_name_for(tool, windows);
                    let url = download_url(
                        tool,
                        version.as_str(),
                        setup.release_os.as_str(),
                        setup.release_arch.as_str(),
                        executable.as_str(),
                    );
                    let work = Work::Download { url: url.clone(), file: StagedFile::Download };
                    setup.version = version;
                    setup.url = url;
                    setup.phase = SetupPhase::DownloadingBinary;
                    SetupAction { step: Some(SetupStep::DownloadBinary), work }
                },
            }
        },
        SetupPhase::DownloadingBinary => {
            let url = checksum_url(tool, setup.url.as_str());
            go_on(
                setup,
                SetupPhase::DownloadingChecksum,
                Some(SetupStep::DownloadChecksum),
                Work::Download { url, file: StagedFile::Checksum },
            )
        },
        SetupPhase::DownloadingChecksum => match expected_checksum(out.as_str()) {
            Err(e) => {
                setup.phase = SetupPhase::Finished;
                SetupAction { step: Some(SetupStep::VerifyChecksum), work: Work::Finished(Err(e)) }
            },
            Ok(expected) => {
                setup.expected = expected;
                setup.phase = SetupPhase::Hashing;
                SetupAction { step: Some(SetupStep::VerifyChecksum), work: Work::HashDownload }
            },
        },
        SetupPhase::Hashing => match checksum_matches(out.as_str(), setup.expected.as_str()) {
            Err(e) => finish(setup, Err(e)),
            Ok(()) => {
                let windows = is_text(chars_of(setup.os.as_str()).as_slice(), "windows");
                let executable = exe_name_for(tool, windows);
                setup.checksum_verified = true;
                if is_text(chars_of(tool).as_slice(), "kubectl") {
                    let name = executable.clone();
                    setup.candidate = executable;
                    setup.phase = SetupPhase::Placing;
                    SetupAction { step: None, work: Work::RenameDownload { name } }
                } else {
                    let member = archive_member(
                        setup.release_os.as_str(),
                        setup.release_arch.as_str(),
                        executable.as_str(),
                    );
                    setup.candidate = member.clone();
                    setup.phase = SetupPhase::Placing;
                    SetupAction { step: Some(SetupStep::Extract), work: Work::Extract { member } }
                }
            },
        },
        SetupPhase::Placing => {
            let name = setup.candidate.clone();
            go_on(setup, SetupPhase::Inspecting, None, Work::InspectCandidate { name })
        },
        SetupPhase::Inspecting => {
            let name = setup.candidate.clone();
            go_on(
                setup,
                SetupPhase::RunningCandidate,
                Some(SetupStep::VerifyBinary),
                Work::RunCandidate { name },
            )
        },
        SetupPhase::RunningCandidate => go_on(
            setup,
            SetupPhase::Probing,
            None,
            Work::ProbeDestination,
        ),
        SetupPhase::Probing => {
            let name = setup.candidate.clone();
            go_on(
                setup,
                SetupPhase::Installing,
                Some(SetupStep::InstallBinary),
                Work::InstallCandidate { name },
            )
        },
        SetupPhase::Installing => go_on(setup, SetupPhase::Rechecking, None, Work::RunVersion),
        SetupPhase::Finished => finish(setup, Ok(out)),
    }
}

} // verus!
