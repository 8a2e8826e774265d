//! Installing release binaries: descriptors, the members to take out of an
//! archive, and the steps of one install.
use vstd::prelude::*;

use crate::paths::{join_path, path_join, strings_view};

verus! {

/// The archive formats a release can come in.
#[derive(Clone, Copy, Debug, PartialEq, Eq)]
pub enum ArchiveType {
    TarGz,
    Zip,
}

/// One member of an unpacked archive: its relative path and its bytes.
pub struct ArchiveEntry {
    pub path: String,
    pub data: Vec<u8>,
}

/// Why an install stopped.
#[derive(Debug, PartialEq, Eq)]
pub enum InstallError {
    /// The download failed or answered with an error status.
    DownloadFailed,
    /// The downloaded bytes are not an archive of the expected type.
    BadArchive,
    /// The archive holds no member at this path.
    MissingMember(String),
    /// The installed file could not be written or made executable.
    WriteFailed,
    /// The installed binary did not print its version successfully.
    VersionCheckFailed,
    /// No install directory was given and `BINDIR` is not set.
    MissingBinDir,
}

/// Entry `k` is the first of `es` whose path is `p`.
pub open spec fn first_member(es: Seq<ArchiveEntry>, p: Seq<char>, k: int) -> bool {
    &&& 0 <= k < es.len()
    &&& es[k].path@ == p
    &&& forall|j: int| 0 <= j < k ==> es[j].path@ != p
}

/// Some entry of `es` has path `p`.
pub open spec fn has_member(es: Seq<ArchiveEntry>, p: Seq<char>) -> bool {
    exists|k: int| 0 <= k < es.len() && es[k].path@ == p
}

/// The index of the first entry whose path is exactly `path`.
pub fn find_member(entries: &Vec<ArchiveEntry>, path: &String) -> (r: Option<usize>)
    ensures
        match r {
            Some(k) => first_member(entries@, path@, k as int),
            None => !has_member(entries@, path@),
        },
{
    let mut k: usize = 0;
    while k < entries.len()
        invariant
            k <= entries@.len(),
            forall|j: int| 0 <= j < k ==> entries@[j].path@ != path@,
        decreases entries@.len() - k,
    {
        if entries[k].path == *path {
            return Some(k);
        }
        k = k + 1;
    }
    None
}

/// The bytes of the members at `wanted`, in that order, each taken from the
/// first entry with exactly that path. The first path that no entry has is
/// reported.
pub fn extract_members(entries: &Vec<ArchiveEntry>, wanted: &Vec<String>) -> (r: Result<
    Vec<Vec<u8>>,
    InstallError,
>)
    ensures
        (r is Ok) <==> forall|i: int| 0 <= i < wanted@.len() ==> has_member(entries@, wanted@[i]@),
        r matches Ok(v) ==> v@.len() == wanted@.len() && forall|i: int, k: int|
            0 <= i < wanted@.len() && first_member(entries@, wanted@[i]@, k) ==> v@[i]@
                == entries@[k].data@,
        r matches Err(e) ==> exists|i: int|
            0 <= i < wanted@.len() && !has_member(entries@, wanted@[i]@) && (forall|j: int|
                0 <= j < i ==> has_member(entries@, wanted@[j]@)) && e == InstallError::MissingMember(
                wanted@[i],
            ),
{
    let mut out: Vec<Vec<u8>> = Vec::new();
    let mut i: usize = 0;
    while i < wanted.len()
        invariant
            i <= wanted@.len(),
            out@.len() == i,
            forall|j: int| 0 <= j < i ==> has_member(entries@, wanted@[j]@),
            forall|j: int, k: int|
                0 <= j < i && first_member(entries@, wanted@[j]@, k) ==> out@[j]@
                    == entries@[k].data@,
        decreases wanted@.len() - i,
    {
        match find_member(entries, &wanted[i]) {
            Some(k) => {
                let data = entries[k].data.clone();
                assert(data@ =~= entries@[k as int].data@);
                let ghost old_out = out@;
                out.push(data);
                proof {
                    assert forall|j: int, k2: int|
                        0 <= j < i + 1 && first_member(entries@, wanted@[j]@, k2) implies out@[j]@
                        == entries@[k2].data@ by {
                        if j == i {
                            if k2 < k {
                                assert(entries@[k2].path@ != wanted@[j]@);
                            } else if k < k2 {
                                assert(entries@[k as int].path@ != wanted@[j]@);
                            }
                        } else {
                            assert(out@[j] == old_out[j]);
                        }
                    }
                }
            },
            None => {
                let p = wanted[i].clone();
                return Err(InstallError::MissingMember(p));
            },
        }
        i = i + 1;
    }
    Ok(out)
}

/// The last component of a relative path: what follows its last `/`.
pub open spec fn file_name_spec(p: Seq<char>) -> Seq<char>
    decreases p.len(),
{
    if p.len() == 0 {
        p
    } else if p.last() == '/' {
        Seq::empty()
    } else {
        file_name_spec(p.drop_last()).push(p.last())
    }
}

/// The last component of `p`.
pub fn file_name(p: &str) -> (r: String)
    ensures
        r@ == file_name_spec(p@),
{
    let n = p.unicode_len();
    let mut i: usize = n;
    assert(p@.subrange(0, n as int) =~= p@);
    assert(p@.subrange(n as int, n as int) =~= Seq::<char>::empty());
    while i > 0
        invariant
            i <= n == p@.len(),
            file_name_spec(p@) == file_name_spec(p@.subrange(0, i as int)) + p@.subrange(
                i as int,
                n as int,
            ),
        decreases i,
    {
        let ghost pre = p@.subrange(0, i as int);
        assert(pre.drop_last() =~= p@.subrange(0, i - 1));
        if p.get_char(i - 1) == '/' {
            assert(file_name_spec(pre) == Seq::<char>::empty());
            let r = p.substring_char(i, n);
            assert(file_name_spec(p@) =~= r@);
            return r.to_owned();
        }
        assert(p@.subrange(i - 1, n as int) =~= seq![pre.last()] + p@.subrange(i as int, n as int));
        i = i - 1;
    }
    assert(p@.subrange(0, 0) =~= Seq::<char>::empty());
    assert(p@.subrange(0, n as int) =~= p@);
    assert(file_name_spec(p@) =~= p@);
    p.to_owned()
}

/// The version argument as passed: without one leading `^`, which only
/// keeps it from being read as a flag of this program.
pub open spec fn version_arg_spec(a: Seq<char>) -> Seq<char> {
    if a.len() > 0 && a[0] == '^' {
        a.drop_first()
    } else {
        a
    }
}

/// Strips one leading `^` from a version argument.
pub fn strip_version_marker(a: &str) -> (r: String)
    ensures
        r@ == version_arg_spec(a@),
{
    let n = a.unicode_len();
    if n > 0 && a.get_char(0) == '^' {
        let rest = a.substring_char(1, n);
        assert(rest@ =~= a@.drop_first());
        rest.to_owned()
    } else {
        a.to_owned()
    }
}


/// A downloadable binary.
pub struct Binary {
    /// Name of the installed file.
    pub name: String,
    /// Where the release is downloaded from.
    pub url: String,
    /// The archive type of the download and the paths of the members to
    /// install (the name alone where absent); `None` where the download is
    /// the binary itself.
    pub archive: Option<(ArchiveType, Option<Vec<String>>)>,
    /// Argument that makes the binary print its version; one leading `^` is
    /// dropped.
    pub version_arg: String,
}

/// The views of the files of an install: path and content.
pub open spec fn files_view(v: Seq<(String, Vec<u8>)>) -> Seq<(Seq<char>, Seq<u8>)> {
    v.map_values(|f: (String, Vec<u8>)| (f.0@, f.1@))
}

/// What the install step function hears back from the outside.
pub enum InstallEvent {
    /// Nothing has run yet.
    Start,
    /// The download succeeded with this body.
    Fetched(Vec<u8>),
    /// The download failed.
    FetchFailed,
    /// The archive was unpacked into these members, in archive order.
    Unpacked(Vec<ArchiveEntry>),
    /// The archive could not be unpacked.
    UnpackFailed,
    /// The files were written and made executable.
    Installed,
    /// Writing a file or setting its permissions failed.
    WriteFailed,
    /// The version check ran; `true` where it exited with success.
    VersionChecked(bool),
}

/// What the install step function asks the outside to do next.
pub enum InstallAction {
    /// Download `url`.
    Fetch { url: String },
    /// Unpack `data` as an archive of type `kind`.
    Unpack { kind: ArchiveType, data: Vec<u8> },
    /// Create `dir` with its parents, then write each file and make it
    /// executable.
    Install { dir: String, files: Vec<(String, Vec<u8>)> },
    /// Run `program` with the single argument `arg` and wait for it to exit.
    RunVersion { program: String, arg: String },
    /// The install is complete.
    Done,
    /// Stop: nothing more is done.
    Fail(InstallError),
}

impl Binary {
    /// The archive paths of the members to install.
    pub open spec fn members_spec(&self) -> Seq<Seq<char>> {
        match self.archive {
            Some((_, Some(paths))) => strings_view(paths@),
            _ => seq![self.name@],
        }
    }

    /// `a` is the action that follows event `e` when this binary is
    /// installed into `bin_dir`.
    pub open spec fn step_spec(&self, bin_dir: Seq<char>, e: InstallEvent, a: InstallAction) -> bool {
        let wanted = self.members_spec();
        match e {
            InstallEvent::Start => match a {
                InstallAction::Fetch { url } => url@ == self.url@,
                _ => false,
            },
            InstallEvent::FetchFailed => a matches InstallAction::Fail(InstallError::DownloadFailed),
            InstallEvent::Fetched(body) => match self.archive {
                None => match a {
                    InstallAction::Install { dir, files } => {
                        &&& dir@ == bin_dir
                        &&& files_view(files@) == seq![(path_join(bin_dir, self.name@), body@)]
                    },
                    _ => false,
                },
                Some((kind, _)) => match a {
                    InstallAction::Unpack { kind: k, data } => k == kind && data@ == body@,
                    _ => false,
                },
            },
            InstallEvent::UnpackFailed => a matches InstallAction::Fail(InstallError::BadArchive),
            InstallEvent::Unpacked(es) => if forall|i: int|
                0 <= i < wanted.len() ==> has_member(es@, #[trigger] wanted[i]) {
                match a {
                    InstallAction::Install { dir, files } => {
                        &&& dir@ == bin_dir
                        &&& files@.len() == wanted.len()
                        &&& forall|i: int|
                            0 <= i < wanted.len() ==> #[trigger] files@[i].0@ == path_join(
                                bin_dir,
                                file_name_spec(wanted[i]),
                            )
                        &&& forall|i: int, k: int|
                            0 <= i < wanted.len() && #[trigger] first_member(es@, wanted[i], k)
                                ==> files@[i].1@ == es@[k].data@
                    },
                    _ => false,
                }
            } else {
                a matches InstallAction::Fail(InstallError::MissingMember(p)) && exists|i: int|
                    0 <= i < wanted.len() && !has_member(es@, wanted[i]) && p@ == wanted[i] && (
                    forall|j: int| 0 <= j < i ==> has_member(es@, #[trigger] wanted[j]))
            },
            InstallEvent::Installed => match a {
                InstallAction::RunVersion { program, arg } => {
                    &&& program@ == path_join(bin_dir, self.name@)
                    &&& arg@ == version_arg_spec(self.version_arg@)
                },
                _ => false,
            },
            InstallEvent::WriteFailed => a matches InstallAction::Fail(InstallError::WriteFailed),
            InstallEvent::VersionChecked(ok) => if ok {
                a matches InstallAction::Done
            } else {
                a matches InstallAction::Fail(InstallError::VersionCheckFailed)
            },
        }
    }

    /// The archive paths of the members to install.
    pub fn members(&self) -> (r: Vec<String>)
        ensures
            strings_view(r@) == self.members_spec(),
    {
        match &self.archive {
            Some((_, Some(paths))) => {
                let r = paths.clone();
                assert(strings_view(r@) =~= strings_view(paths@));
                r
            },
            _ => {
                let mut r: Vec<String> = Vec::new();
                r.push(self.name.clone());
                assert(strings_view(r@) =~= seq![self.name@]);
                r
            },
        }
    }

    /// One step of installing this binary into `bin_dir`: the action that
    /// follows `event`. The steps, in order: download, unpack where the
    /// download is an archive, write the files and make them executable, run
    /// the version check.
    pub fn download(&self, bin_dir: &str, event: InstallEvent) -> (r: InstallAction)
        ensures
            self.step_spec(bin_dir@, event, r),
    {
        match event {
            InstallEvent::Start => InstallAction::Fetch { url: self.url.clone() },
            InstallEvent::FetchFailed => InstallAction::Fail(InstallError::DownloadFailed),
            InstallEvent::Fetched(body) => match &self.archive {
                None => {
                    let mut files: Vec<(String, Vec<u8>)> = Vec::new();
                    let ghost b = body@;
                    files.push((join_path(bin_dir, self.name.as_str()), body));
                    assert(files_view(files@) =~= seq![(path_join(bin_dir@, self.name@), b)]);
                    InstallAction::Install { dir: bin_dir.to_owned(), files }
                },
                Some((kind, _)) => InstallAction::Unpack { kind: *kind, data: body },
            },
            InstallEvent::UnpackFailed => InstallAction::Fail(InstallError::BadArchive),
            InstallEvent::Unpacked(entries) => {
                let wanted = self.members();
                let ghost ws = self.members_spec();
                assert(forall|i: int| 0 <= i < ws.len() ==> #[trigger] ws[i] == wanted@[i]@);
                match extract_members(&entries, &wanted) {
                    Ok(datas) => {
                        let mut files: Vec<(String, Vec<u8>)> = Vec::new();
                        let mut i: usize = 0;
                        while i < wanted.len()
                            invariant
                                i <= wanted@.len() == datas@.len() == ws.len(),
                                files@.len() == i,
                                forall|j: int| 0 <= j < ws.len() ==> #[trigger] ws[j] == wanted@[j]@,
                                forall|j: int|
                                    0 <= j < i ==> #[trigger] files@[j].0@ == path_join(
                                        bin_dir@,
                                        file_name_spec(ws[j]),
                                    ),
                                forall|j: int| 0 <= j < i ==> #[trigger] files@[j].1@ == datas@[j]@,
                            decreases wanted@.len() - i,
                        {
                            let name = file_name(wanted[i].as_str());
                            let path = join_path(bin_dir, name.as_str());
                            let data = datas[i].clone();
                            assert(data@ =~= datas@[i as int]@);
                            files.push((path, data));
                            i = i + 1;
                        }
                        assert(forall|j: int| 0 <= j < ws.len() ==> has_member(entries@, #[trigger] ws[j]));
                        assert forall|j: int, k: int|
                            0 <= j < ws.len() && #[trigger] first_member(entries@, ws[j], k) implies files@[j].1@
                            == entries@[k].data@ by {
                            assert(ws[j] == wanted@[j]@);
                            assert(files@[j].1@ == datas@[j]@);
                        }
                        InstallAction::Install { dir: bin_dir.to_owned(), files }
                    },
                    Err(e) => {
                        proof {
                            let i = choose|i: int|
                                0 <= i < wanted@.len() && !has_member(entries@, wanted@[i]@) && (forall|j: int|
                                    0 <= j < i ==> has_member(entries@, wanted@[j]@)) && e == InstallError::MissingMember(
                                    wanted@[i],
                                );
                            assert(ws[i] == wanted@[i]@);
                            assert(!has_member(entries@, ws[i]));
                            assert(forall|j: int| 0 <= j < i ==> has_member(entries@, #[trigger] ws[j]));
                        }
                        InstallAction::Fail(e)
                    },
                }
            },
            InstallEvent::Installed => {
                let program = join_path(bin_dir, self.name.as_str());
                let arg = strip_version_marker(self.version_arg.as_str());
                InstallAction::RunVersion { program, arg }
            },
            InstallEvent::WriteFailed => InstallAction::Fail(InstallError::WriteFailed),
            InstallEvent::VersionChecked(ok) => if ok {
                InstallAction::Done
            } else {
                InstallAction::Fail(InstallError::VersionCheckFailed)
            },
        }
    }
}


/// The machine that binaries are installed for, as the release names of
/// the projects spell it.
pub struct Target {
    /// The target triplet, such as `x86_64-unknown-linux-gnu`.
    pub triplet: String,
    /// The operating system as `uname` names it, such as `linux`.
    pub os: String,
    /// The short architecture name, such as `amd64`.
    pub arch: String,
}

/// The binaries that can be installed by name.
#[derive(Debug, Copy, Clone, PartialEq, Eq, PartialOrd, Ord)]
pub enum InstallConfig {
    Starship,
    Direnv,
}

/// `b` is named `name`, is downloaded from `url` as the binary itself, and
/// prints its version on `--version`.
pub open spec fn plain_binary(b: Binary, name: Seq<char>, url: Seq<char>) -> bool {
    &&& b.name@ == name
    &&& b.url@ == url
    &&& b.archive is None
    &&& b.version_arg@ == "--version"@
}

impl InstallConfig {
    /// `b` is the descriptor of this binary for `target`.
    pub open spec fn describes(self, target: Target, b: Binary) -> bool {
        match self {
            InstallConfig::Starship => {
                &&& b.name@ == "starship"@
                &&& b.url@ == "https://github.com/starship/starship/releases/latest/download/starship-"@
                    + target.triplet@ + ".tar.gz"@
                &&& b.archive matches Some((ArchiveType::TarGz, Some(paths))) && strings_view(paths@)
                    == seq!["starship"@]
                &&& b.version_arg@ == "--version"@
            },
            InstallConfig::Direnv => plain_binary(
                b,
                "direnv"@,
                "https://github.com/direnv/direnv/releases/latest/download/direnv."@ + target.os@
                    + "-"@ + target.arch@,
            ),
        }
    }

    /// The descriptor of this binary for `target`.
    pub fn binary(self, target: &Target) -> (r: Binary)
        ensures
            self.describes(*target, r),
    {
        match self {
            InstallConfig::Starship => {
                let mut url =
                    "https://github.com/starship/starship/releases/latest/download/starship-".to_owned();
                url.append(target.triplet.as_str());
                url.append(".tar.gz");
                let mut paths: Vec<String> = Vec::new();
                paths.push("starship".to_owned());
                assert(strings_view(paths@) =~= seq!["starship"@]);
                Binary {
                    name: "starship".to_owned(),
                    url,
                    archive: Some((ArchiveType::TarGz, Some(paths))),
                    version_arg: "--version".to_owned(),
                }
            },
            InstallConfig::Direnv => {
                let mut url = "https://github.com/direnv/direnv/releases/latest/download/direnv.".to_owned();
                url.append(target.os.as_str());
                url.append("-");
                url.append(target.arch.as_str());
                Binary {
                    name: "direnv".to_owned(),
                    url,
                    archive: None,
                    version_arg: "--version".to_owned(),
                }
            },
        }
    }

    /// One step of installing this binary for `target` into `bin_dir`: the
    /// action that follows `event`, as `Binary::download` gives it for this
    /// binary's descriptor.
    pub fn download(self, target: &Target, bin_dir: &str, event: InstallEvent) -> (r: InstallAction)
        ensures
            exists|b: Binary| self.describes(*target, b) && b.step_spec(bin_dir@, event, r),
    {
        let b = self.binary(target);
        let r = b.download(bin_dir, event);
        assert(self.describes(*target, b) && b.step_spec(bin_dir@, event, r));
        r
    }
}

/// A binary described on the command line.
pub struct BinaryArgs {
    pub name: String,
    pub url: String,
    /// Archive type of the download; none where it is the binary itself.
    pub archive_type: Option<ArchiveType>,
    /// Paths of the binaries inside the archive.
    pub archive_paths: Option<Vec<String>>,
    /// Argument that makes the binary print its version; one leading `^`
    /// keeps it from being read as a flag.
    pub version_arg: String,
}

impl From<BinaryArgs> for Binary {
    fn from(a: BinaryArgs) -> (r: Binary) {
        let archive = match a.archive_type {
            Some(t) => Some((t, a.archive_paths)),
            None => None,
        };
        Binary { name: a.name, url: a.url, archive, version_arg: a.version_arg }
    }
}

impl vstd::std_specs::convert::FromSpecImpl<BinaryArgs> for Binary {
    open spec fn obeys_from_spec() -> bool {
        true
    }

    open spec fn from_spec(a: BinaryArgs) -> Binary {
        binary_from_args(a)
    }
}

/// The descriptor that command-line arguments give: the paths count only
/// where an archive type is given.
pub open spec fn binary_from_args(a: BinaryArgs) -> Binary {
    Binary {
        name: a.name,
        url: a.url,
        archive: match a.archive_type {
            Some(t) => Some((t, a.archive_paths)),
            None => None,
        },
        version_arg: a.version_arg,
    }
}

/// The arguments of an install.
pub struct InstallArgs {
    /// Directory to install into; `$BINDIR` where absent.
    pub bin_dir: Option<String>,
    pub binary: BinaryArgs,
}

impl InstallArgs {
    /// The binary to install and the directory to install it into, given
    /// the value of `BINDIR` in the environment. The directory given on the
    /// command line comes first.
    pub fn resolve(self, env_bin_dir: Option<String>) -> (r: Result<(Binary, String), InstallError>)
        ensures
            match (self.bin_dir, env_bin_dir) {
                (Some(d), _) => r matches Ok((b, d2)) && d2 == d && b == binary_from_args(self.binary),
                (None, Some(d)) => r matches Ok((b, d2)) && d2 == d && b == binary_from_args(self.binary),
                (None, None) => r == Err::<(Binary, String), InstallError>(InstallError::MissingBinDir),
            },
    {
        let dir = match self.bin_dir {
            Some(d) => d,
            None => match env_bin_dir {
                Some(d) => d,
                None => return Err(InstallError::MissingBinDir),
            },
        };
        Ok((Binary::from(self.binary), dir))
    }
}

} // verus!
