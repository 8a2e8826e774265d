//! SSH host entries: the include line of the master configuration, the key
//! check, and the rendered per-host configuration block.
use convert_case::Casing;
use vstd::prelude::*;

use crate::paths::{join_path, path_join, strings_view, Prefix};

verus! {

/// Characters `i..j` of `s` form one whole line: they start at the beginning
/// of `s` or after a newline, end at the end of `s` or before a newline, and
/// hold no newline.
pub open spec fn line_at(s: Seq<char>, i: int, j: int) -> bool {
    &&& 0 <= i <= j <= s.len()
    &&& (i == 0 || s[i - 1] == '\n')
    &&& (j == s.len() || s[j] == '\n')
    &&& forall|k: int| i <= k < j ==> s[k] != '\n'
}

/// Some whole line of `s` equals `l` exactly.
pub open spec fn has_line(s: Seq<char>, l: Seq<char>) -> bool {
    exists|i: int, j: int| line_at(s, i, j) && s.subrange(i, j) == l
}

/// What is appended to `s` so that it holds the line `l`: nothing when a
/// line already equals `l`, else `l` and a newline, after a newline that
/// ends the last line where `s` does not end with one.
pub open spec fn include_suffix(s: Seq<char>, l: Seq<char>) -> Seq<char> {
    if has_line(s, l) {
        Seq::empty()
    } else if s.len() == 0 || s.last() == '\n' {
        l + seq!['\n']
    } else {
        seq!['\n'] + l + seq!['\n']
    }
}

/// The content `s` after the include step for line `l`.
pub open spec fn with_include(s: Seq<char>, l: Seq<char>) -> Seq<char> {
    s + include_suffix(s, l)
}

/// The content `s` after the include step ran `n` times.
pub open spec fn with_include_n(s: Seq<char>, l: Seq<char>, n: nat) -> Seq<char>
    decreases n,
{
    if n == 0 {
        s
    } else {
        with_include(with_include_n(s, l, (n - 1) as nat), l)
    }
}

/// `l` is one non-empty line: it holds no newline.
pub open spec fn is_single_line(l: Seq<char>) -> bool {
    l.len() > 0 && forall|k: int| 0 <= k < l.len() ==> l[k] != '\n'
}

/// The line that makes the master configuration load every file of `dir`.
pub open spec fn include_line_spec(dir: Seq<char>) -> Seq<char> {
    "Include "@ + dir + "/*"@
}

/// After the include step the content holds the include line as a whole line.
proof fn lemma_include_present(s: Seq<char>, l: Seq<char>)
    requires
        is_single_line(l),
    ensures
        has_line(with_include(s, l), l),
{
    if !has_line(s, l) {
        let r = with_include(s, l);
        let start = r.len() - l.len() - 1;
        let end = r.len() - 1;
        assert(r.subrange(start, end) =~= l);
        assert(line_at(r, start, end));
    }
}

/// Include-line idempotence: the include step, run any number of times (at
/// least once), leaves the content that one run leaves. That content keeps
/// the earlier content as its beginning and holds the include line. Where the
/// line was missing, it is appended once at the end and no other whole line
/// equals it.
pub proof fn lemma_include_idempotent(s: Seq<char>, l: Seq<char>, n: nat)
    requires
        is_single_line(l),
        n >= 1,
    ensures
        with_include_n(s, l, n) == with_include(s, l),
        s.is_prefix_of(with_include(s, l)),
        has_line(with_include(s, l), l),
        !has_line(s, l) ==> {
            let r = with_include(s, l);
            &&& r.subrange(r.len() - l.len() - 1, r.len() - 1) == l
            &&& forall|i: int, j: int|
                line_at(r, i, j) && r.subrange(i, j) == l ==> i == r.len() - l.len() - 1
        },
    decreases n,
{
    let r = with_include(s, l);
    lemma_include_present(s, l);
    assert(with_include(r, l) =~= r);
    if n > 1 {
        lemma_include_idempotent(s, l, (n - 1) as nat);
        assert(with_include_n(s, l, n) == with_include(with_include_n(s, l, (n - 1) as nat), l));
    } else {
        assert(with_include_n(s, l, 0) == s);
        assert(with_include_n(s, l, 1) == with_include(with_include_n(s, l, 0), l));
    }
    assert(s.is_prefix_of(r)) by {
        assert(r.subrange(0, s.len() as int) =~= s);
    }
    if !has_line(s, l) {
        let start = r.len() - l.len() - 1;
        assert(r.subrange(start, r.len() - 1) =~= l);
        assert forall|i: int, j: int| line_at(r, i, j) && r.subrange(i, j) == l implies i
            == start by {
            lemma_only_appended_line(s, l, i, j);
        }
    }
}

proof fn lemma_only_appended_line(s: Seq<char>, l: Seq<char>, i: int, j: int)
    requires
        is_single_line(l),
        !has_line(s, l),
        line_at(with_include(s, l), i, j),
        with_include(s, l).subrange(i, j) == l,
    ensures
        i == with_include(s, l).len() - l.len() - 1,
{
    let r = with_include(s, l);
    let start = r.len() - l.len() - 1;
    let sep = s.len() > 0 && s.last() != '\n';
    assert(j - i == l.len());
    assert(r.len() == s.len() + l.len() + 1 + (if sep { 1int } else { 0int }));
    assert(forall|k: int| 0 <= k < s.len() ==> r[k] == s[k]);
    assert(r[r.len() - 1] == '\n');
    assert(forall|k: int| start <= k < start + l.len() ==> r[k] == l[k - start]);
    if sep {
        assert(r[s.len() as int] == '\n');
    }
    if j < s.len() {
        assert(s.subrange(i, j) =~= r.subrange(i, j));
        assert(line_at(s, i, j));
    } else if j == s.len() {
        if sep {
            assert(s.subrange(i, j) =~= r.subrange(i, j));
            assert(line_at(s, i, j));
        } else {
            assert(r[j] == l[0]);
        }
    } else {
        if sep {
            if i <= s.len() {
                assert(r[s.len() as int] == '\n');
            }
        } else if i < s.len() {
            assert(r[s.len() - 1] == s.last());
        }
        assert(i >= start);
        if i > start {
            assert(r[i - 1] == l[i - 1 - start]);
        }
    }
}

/// Characters `start..end` of `s` equal `l`.
fn segment_is(s: &str, start: usize, end: usize, l: &str) -> (r: bool)
    requires
        start <= end <= s@.len(),
    ensures
        r == (s@.subrange(start as int, end as int) == l@),
{
    let m = l.unicode_len();
    if end - start != m {
        return false;
    }
    let mut k: usize = 0;
    while k < m
        invariant
            end - start == m,
            start <= end <= s@.len(),
            m == l@.len(),
            k <= m,
            forall|t: int| 0 <= t < k ==> s@[start + t] == l@[t],
        decreases m - k,
    {
        if s.get_char(start + k) != l.get_char(k) {
            assert(s@.subrange(start as int, end as int)[k as int] != l@[k as int]);
            return false;
        }
        k = k + 1;
    }
    assert(s@.subrange(start as int, end as int) =~= l@);
    true
}

/// Two whole lines that end at the same place start there too.
proof fn lemma_line_start_unique(s: Seq<char>, a: int, b: int, j: int)
    requires
        line_at(s, a, j),
        line_at(s, b, j),
    ensures
        a == b,
{
    if a < b {
        assert(s[b - 1] != '\n');
    } else if b < a {
        assert(s[a - 1] != '\n');
    }
}

/// Whether some whole line of `s` equals `l`.
pub fn contains_line(s: &str, l: &str) -> (r: bool)
    ensures
        r == has_line(s@, l@),
{
    let n = s.unicode_len();
    let mut start: usize = 0;
    let mut i: usize = 0;
    while i < n
        invariant
            n == s@.len(),
            start <= i <= n,
            start == 0 || s@[start - 1] == '\n',
            forall|k: int| start <= k < i ==> s@[k] != '\n',
            forall|a: int, b: int|
                line_at(s@, a, b) && b < i ==> s@.subrange(a, b) != l@,
        decreases n - i,
    {
        if s.get_char(i) == '\n' {
            assert(line_at(s@, start as int, i as int));
            if segment_is(s, start, i, l) {
                return true;
            }
            assert forall|a: int, b: int|
                line_at(s@, a, b) && b < i + 1 implies s@.subrange(a, b) != l@ by {
                if b == i {
                    lemma_line_start_unique(s@, a, start as int, b);
                }
            }
            start = i + 1;
        }
        i = i + 1;
    }
    assert(line_at(s@, start as int, n as int));
    let found = segment_is(s, start, n, l);
    if !found {
        assert forall|a: int, b: int| line_at(s@, a, b) implies s@.subrange(a, b) != l@ by {
            if b == n {
                lemma_line_start_unique(s@, a, start as int, b);
            }
        }
    }
    found
}

/// The `Include` line for the per-host configuration directory `dir`.
pub fn include_line(dir: &str) -> (r: String)
    ensures
        r@ == include_line_spec(dir@),
{
    let mut r = "Include ".to_owned();
    r.append(dir);
    r.append("/*");
    r
}

/// What the include step appends to the master configuration whose current
/// content is `content`, given the line that must stand in it.
pub fn include_text(content: &str, line: &str) -> (r: String)
    ensures
        r@ == include_suffix(content@, line@),
{
    proof {
        reveal_strlit("\n");
    }
    if contains_line(content, line) {
        return String::new();
    }
    let n = content.unicode_len();
    let mut r = String::new();
    if n > 0 && content.get_char(n - 1) != '\n' {
        r.append("\n");
    }
    r.append(line);
    r.append("\n");
    proof {
        if n > 0 {
            assert(content@.last() == content@[n - 1]);
        }
        assert(r@ =~= include_suffix(content@, line@));
    }
    r
}


/// What `convert_case` makes of a name in PascalCase: the words of the name,
/// split at its case and delimiter boundaries, capitalised and joined.
pub uninterp spec fn pascal_of(s: Seq<char>) -> Seq<char>;

/// Relies on convert_case's `Casing::to_case` with `Case::Pascal`: the result
/// depends on the characters of the name alone.
#[verifier::external_body]
fn to_pascal(s: &str) -> (r: String)
    ensures
        r@ == pascal_of(s@),
{
    s.to_case(convert_case::Case::Pascal)
}

/// The views of a list of name and value pairs.
pub open spec fn pairs_view(v: Seq<(String, String)>) -> Seq<(Seq<char>, Seq<char>)> {
    v.map_values(|p: (String, String)| (p.0@, p.1@))
}

/// One directive line of a host block.
pub open spec fn directive_line(name: Seq<char>, value: Seq<char>) -> Seq<char> {
    "\t"@ + name + " "@ + value + "\n"@
}

/// The directive lines for `ds`, in order.
pub open spec fn directives_text(ds: Seq<(Seq<char>, Seq<char>)>) -> Seq<char>
    decreases ds.len(),
{
    if ds.len() == 0 {
        Seq::empty()
    } else {
        directives_text(ds.drop_last()) + directive_line(ds.last().0, ds.last().1)
    }
}

/// The lines that every host block starts with.
pub open spec fn block_head(key: Seq<char>, hostname: Seq<char>, identity: Seq<char>) -> Seq<char> {
    "# AUTO GENERATED FILE. DO NOT EDIT\n\n"@ + "Host "@ + key + "\n"@ + "\tHostname "@ + hostname
        + "\n"@ + "\tAddKeysToAgent yes\n"@ + "\tIdentitiesOnly yes\n"@ + "\tIdentityFile "@
        + identity + "\n"@
}

/// A whole host block: the fixed head, then one line per directive.
pub open spec fn block_text(
    key: Seq<char>,
    hostname: Seq<char>,
    identity: Seq<char>,
    ds: Seq<(Seq<char>, Seq<char>)>,
) -> Seq<char> {
    block_head(key, hostname, identity) + directives_text(ds)
}

/// The host block for `key`, `hostname`, the private key file `identity` and
/// the directives `directives`, written in the given order.
pub fn render_block(
    key: &str,
    hostname: &str,
    identity: &str,
    directives: &Vec<(String, String)>,
) -> (r: String)
    ensures
        r@ == block_text(key@, hostname@, identity@, pairs_view(directives@)),
{
    let mut r = "# AUTO GENERATED FILE. DO NOT EDIT\n\n".to_owned();
    r.append("Host ");
    r.append(key);
    r.append("\n");
    r.append("\tHostname ");
    r.append(hostname);
    r.append("\n");
    r.append("\tAddKeysToAgent yes\n");
    r.append("\tIdentitiesOnly yes\n");
    r.append("\tIdentityFile ");
    r.append(identity);
    r.append("\n");
    let ghost head = r@;
    assert(head == block_head(key@, hostname@, identity@));
    let mut i: usize = 0;
    while i < directives.len()
        invariant
            i <= directives@.len(),
            r@ == head + directives_text(pairs_view(directives@).take(i as int)),
        decreases directives@.len() - i,
    {
        let ghost before = r@;
        r.append("\t");
        r.append(directives[i].0.as_str());
        r.append(" ");
        r.append(directives[i].1.as_str());
        r.append("\n");
        proof {
            let ds = pairs_view(directives@);
            assert(ds.take(i + 1).drop_last() =~= ds.take(i as int));
            assert(ds.take(i + 1).last() == ds[i as int]);
            assert(r@ =~= head + directives_text(ds.take(i + 1)));
        }
        i = i + 1;
    }
    assert(pairs_view(directives@).take(i as int) =~= pairs_view(directives@));
    r
}

/// The machine family that the configuration is written for.
#[derive(Clone, Copy, Debug, PartialEq, Eq)]
pub enum Platform {
    MacOs,
    Other,
}

/// The fixed directives that end every host block on `p`.
pub open spec fn platform_directives_spec(p: Platform) -> Seq<(Seq<char>, Seq<char>)> {
    match p {
        Platform::MacOs => seq![("UseKeychain"@, "yes"@)],
        Platform::Other => Seq::empty(),
    }
}

/// The fixed directives that end every host block on `p`.
pub fn platform_directives(p: Platform) -> (r: Vec<(String, String)>)
    ensures
        pairs_view(r@) == platform_directives_spec(p),
{
    let mut r: Vec<(String, String)> = Vec::new();
    match p {
        Platform::MacOs => {
            r.push(("UseKeychain".to_owned(), "yes".to_owned()));
        },
        Platform::Other => {},
    }
    assert(pairs_view(r@) =~= platform_directives_spec(p));
    r
}

/// The directives of the additions, each name in PascalCase.
pub open spec fn addition_directives(adds: Seq<(String, String)>) -> Seq<(Seq<char>, Seq<char>)> {
    adds.map_values(|p: (String, String)| (pascal_of(p.0@), p.1@))
}

/// Why host generation stopped.
#[derive(Debug, PartialEq, Eq)]
pub enum SshConfigError {
    /// The key command failed or could not be started.
    KeyGenerationFailed,
    /// After key generation no public key stood at this path.
    MissingPublicKey(String),
    /// After key generation no private key stood at this path.
    MissingPrivateKey(String),
}

/// A host entry of the SSH configuration.
pub struct SshConfig {
    /// Host alias; also names the key pair and the generated file.
    pub key: String,
    pub hostname: String,
    /// Comment of the generated key; the hostname where absent.
    pub comment: Option<String>,
    /// Further directives, by option name in any casing and value.
    pub additions: Vec<(String, String)>,
}

/// Where the key store keeps the key pair of `key`.
pub open spec fn key_dir_spec(prefix: Prefix, key: Seq<char>) -> Seq<char> {
    path_join(prefix.skm_spec(), key)
}

pub open spec fn private_key_spec(prefix: Prefix, key: Seq<char>) -> Seq<char> {
    path_join(key_dir_spec(prefix, key), "id_ed25519"@)
}

pub open spec fn public_key_spec(prefix: Prefix, key: Seq<char>) -> Seq<char> {
    path_join(key_dir_spec(prefix, key), "id_ed25519.pub"@)
}

impl SshConfig {
    /// The comment given to the key: the comment where there is one, else
    /// the hostname.
    pub open spec fn comment_spec(&self) -> Seq<char> {
        match self.comment {
            Some(c) => c@,
            None => self.hostname@,
        }
    }

    /// The host block of this entry on `platform`, with `identity` as the
    /// private key file.
    pub open spec fn block_spec(&self, identity: Seq<char>, platform: Platform) -> Seq<char> {
        block_text(
            self.key@,
            self.hostname@,
            identity,
            addition_directives(self.additions@) + platform_directives_spec(platform),
        )
    }

    /// Where the host block of this entry is written.
    pub open spec fn config_path_spec(&self, prefix: Prefix) -> Seq<char> {
        path_join(prefix.ssh_config_spec(), self.key@)
    }

    /// An entry for host alias `key` that connects to `hostname`. The
    /// additions are further directives, by option name and value.
    pub fn new(
        key: String,
        hostname: String,
        comment: Option<String>,
        additions: Vec<(String, String)>,
    ) -> (r: SshConfig)
        ensures
            r.key == key,
            r.hostname == hostname,
            r.comment == comment,
            r.additions == additions,
    {
        SshConfig { key, hostname, comment, additions }
    }

    /// The public and the private key file of this entry, in that order.
    pub fn key_files(&self, prefix: &Prefix) -> (r: (String, String))
        ensures
            r.0@ == public_key_spec(*prefix, self.key@),
            r.1@ == private_key_spec(*prefix, self.key@),
    {
        let skm = prefix.skm();
        let key_dir = join_path(skm.as_str(), self.key.as_str());
        let public_path = join_path(key_dir.as_str(), "id_ed25519.pub");
        let private_path = join_path(key_dir.as_str(), "id_ed25519");
        (public_path, private_path)
    }

    /// The private key file to use, given whether the public and the private
    /// key file exist after key generation. A missing public key is reported
    /// before a missing private key.
    pub fn check_key(&self, prefix: &Prefix, public_exists: bool, private_exists: bool) -> (r:
        Result<String, SshConfigError>)
        ensures
            !public_exists ==> (r matches Err(SshConfigError::MissingPublicKey(p)) && p@
                == public_key_spec(*prefix, self.key@)),
            public_exists && !private_exists ==> (r matches Err(
                SshConfigError::MissingPrivateKey(p),
            ) && p@ == private_key_spec(*prefix, self.key@)),
            public_exists && private_exists ==> (r matches Ok(p) && p@ == private_key_spec(
                *prefix,
                self.key@,
            )),
    {
        let (public_path, private_path) = self.key_files(prefix);
        if !public_exists {
            return Err(SshConfigError::MissingPublicKey(public_path));
        }
        if !private_exists {
            return Err(SshConfigError::MissingPrivateKey(private_path));
        }
        Ok(private_path)
    }

    /// The host block of this entry on `platform`, with `identity` as the
    /// private key file: the fixed head, one directive per addition with its
    /// name in PascalCase, then the platform's fixed directives.
    pub fn render(&self, identity: &str, platform: Platform) -> (r: String)
        ensures
            r@ == self.block_spec(identity@, platform),
    {
        let mut ds: Vec<(String, String)> = Vec::new();
        let mut i: usize = 0;
        while i < self.additions.len()
            invariant
                i <= self.additions@.len(),
                ds@.len() == i,
                pairs_view(ds@) == addition_directives(self.additions@).take(i as int),
            decreases self.additions@.len() - i,
        {
            let name = to_pascal(self.additions[i].0.as_str());
            let value = self.additions[i].1.clone();
            let ghost old_ds = ds@;
            ds.push((name, value));
            proof {
                assert(ds@ == old_ds.push((name, value)));
                assert(pairs_view(ds@)[i as int] == addition_directives(self.additions@)[i as int]);
                assert(pairs_view(ds@) =~= addition_directives(self.additions@).take(i + 1));
            }
            i = i + 1;
        }
        let extra = platform_directives(platform);
        let mut j: usize = 0;
        let ghost adds = pairs_view(ds@);
        assert(adds =~= addition_directives(self.additions@));
        while j < extra.len()
            invariant
                j <= extra@.len(),
                ds@.len() == adds.len() + j,
                pairs_view(ds@) == adds + pairs_view(extra@).take(j as int),
            decreases extra@.len() - j,
        {
            let name = extra[j].0.clone();
            let value = extra[j].1.clone();
            let ghost old_ds = ds@;
            ds.push((name, value));
            proof {
                assert(ds@ == old_ds.push((name, value)));
                assert(pairs_view(ds@)[adds.len() + j] == pairs_view(extra@)[j as int]);
                let want = adds + pairs_view(extra@).take(j + 1);
                assert forall|k: int| 0 <= k < ds@.len() implies pairs_view(ds@)[k] == want[k] by {
                    if k < old_ds.len() {
                        assert(ds@[k] == old_ds[k]);
                        assert(pairs_view(old_ds)[k] == (adds + pairs_view(extra@).take(
                            j as int,
                        ))[k]);
                    }
                }
                assert(pairs_view(ds@) =~= adds + pairs_view(extra@).take(j + 1));
            }
            j = j + 1;
        }
        assert(pairs_view(extra@).take(j as int) =~= pairs_view(extra@));
        render_block(self.key.as_str(), self.hostname.as_str(), identity, &ds)
    }
}


/// The master configuration file, `<root>/ssh/config`.
pub open spec fn master_config_spec(prefix: Prefix) -> Seq<char> {
    path_join(prefix.ssh_spec(), "config"@)
}

/// What the step function hears back from the outside.
pub enum SshEvent {
    /// Nothing has run yet.
    Start,
    /// The master configuration holds this text (empty where it is absent).
    MasterConfigRead(String),
    /// The text was appended and the per-host directory exists.
    MasterConfigUpdated,
    /// The key command ran; `true` where it exited with success.
    KeyCommandExited(bool),
    /// Whether the public and the private key file exist.
    KeyFilesChecked { public_exists: bool, private_exists: bool },
    /// The host block was written.
    ConfigWritten,
}

/// What the step function asks the outside to do next.
pub enum SshAction {
    /// Read the master configuration; absent, it reads as empty.
    ReadMasterConfig { path: String },
    /// Append `append` to the master configuration (creating it where
    /// absent), then create `config_dir` with its parents.
    UpdateMasterConfig { path: String, append: String, config_dir: String },
    /// Run `program` with `args` and wait for it to exit.
    RunKeyCommand { program: String, args: Vec<String> },
    /// Tell whether these two files exist.
    CheckKeyFiles { public: String, private: String },
    /// Replace the whole content of `path` with `content`.
    WriteConfig { path: String, content: String },
    /// The host entry is complete.
    Done,
    /// Stop: nothing more is done.
    Fail(SshConfigError),
}

impl SshConfig {
    /// The arguments of the key command.
    pub open spec fn key_command_spec(&self, prefix: Prefix) -> Seq<Seq<char>> {
        seq![
            "--store-path"@,
            prefix.skm_spec(),
            "create"@,
            self.key@,
            "-C"@,
            self.comment_spec(),
            "-t"@,
            "ed25519"@,
        ]
    }

    /// `a` is the action that follows event `e` when this entry is generated
    /// under `prefix` for `platform`.
    pub open spec fn step_spec(&self, prefix: Prefix, platform: Platform, e: SshEvent, a: SshAction) -> bool {
        match e {
            SshEvent::Start => match a {
                SshAction::ReadMasterConfig { path } => path@ == master_config_spec(prefix),
                _ => false,
            },
            SshEvent::MasterConfigRead(content) => match a {
                SshAction::UpdateMasterConfig { path, append, config_dir } => {
                    &&& path@ == master_config_spec(prefix)
                    &&& append@ == include_suffix(
                        content@,
                        include_line_spec(prefix.ssh_config_spec()),
                    )
                    &&& config_dir@ == prefix.ssh_config_spec()
                },
                _ => false,
            },
            SshEvent::MasterConfigUpdated => match a {
                SshAction::RunKeyCommand { program, args } => {
                    &&& program@ == path_join(prefix.bin_spec(), "skm"@)
                    &&& strings_view(args@) == self.key_command_spec(prefix)
                },
                _ => false,
            },
            SshEvent::KeyCommandExited(ok) => if ok {
                match a {
                    SshAction::CheckKeyFiles { public, private } => {
                        &&& public@ == public_key_spec(prefix, self.key@)
                        &&& private@ == private_key_spec(prefix, self.key@)
                    },
                    _ => false,
                }
            } else {
                a matches SshAction::Fail(SshConfigError::KeyGenerationFailed)
            },
            SshEvent::KeyFilesChecked { public_exists, private_exists } => if !public_exists {
                a matches SshAction::Fail(SshConfigError::MissingPublicKey(p)) && p@
                    == public_key_spec(prefix, self.key@)
            } else if !private_exists {
                a matches SshAction::Fail(SshConfigError::MissingPrivateKey(p)) && p@
                    == private_key_spec(prefix, self.key@)
            } else {
                match a {
                    SshAction::WriteConfig { path, content } => {
                        &&& path@ == self.config_path_spec(prefix)
                        &&& content@ == self.block_spec(
                            private_key_spec(prefix, self.key@),
                            platform,
                        )
                    },
                    _ => false,
                }
            },
            SshEvent::ConfigWritten => a matches SshAction::Done,
        }
    }

    /// What the include step appends to the master configuration under
    /// `prefix`, whose current content is `content`.
    pub fn include_ssh_config_dir(prefix: &Prefix, content: &str) -> (r: String)
        ensures
            r@ == include_suffix(content@, include_line_spec(prefix.ssh_config_spec())),
    {
        let dir = prefix.ssh_config();
        let line = include_line(dir.as_str());
        include_text(content, line.as_str())
    }

    /// The key command: the key store's program and its arguments.
    pub fn generate_key(&self, prefix: &Prefix) -> (r: (String, Vec<String>))
        ensures
            r.0@ == path_join(prefix.bin_spec(), "skm"@),
            strings_view(r.1@) == self.key_command_spec(*prefix),
    {
        let bin = prefix.bin();
        let program = join_path(bin.as_str(), "skm");
        let comment = match &self.comment {
            Some(c) => c.clone(),
            None => self.hostname.clone(),
        };
        let mut args: Vec<String> = Vec::new();
        args.push("--store-path".to_owned());
        args.push(prefix.skm());
        args.push("create".to_owned());
        args.push(self.key.clone());
        args.push("-C".to_owned());
        args.push(comment);
        args.push("-t".to_owned());
        args.push("ed25519".to_owned());
        assert(strings_view(args@) =~= self.key_command_spec(*prefix));
        (program, args)
    }

    /// The file that holds this entry's host block and its content, with
    /// `identity` as the private key file.
    pub fn generate_ssh_config(&self, prefix: &Prefix, identity: &str, platform: Platform) -> (r:
        (String, String))
        ensures
            r.0@ == self.config_path_spec(*prefix),
            r.1@ == self.block_spec(identity@, platform),
    {
        let dir = prefix.ssh_config();
        let path = join_path(dir.as_str(), self.key.as_str());
        (path, self.render(identity, platform))
    }

    /// One step of generating this entry under `prefix` for `platform`: the
    /// action that follows `event`. The steps, in order: read the master
    /// configuration, append the include line where it is missing, run the
    /// key command, check both key files, write the host block.
    pub fn generate(&self, prefix: &Prefix, platform: Platform, event: SshEvent) -> (r: SshAction)
        ensures
            self.step_spec(*prefix, platform, event, r),
    {
        match event {
            SshEvent::Start => {
                let ssh = prefix.ssh();
                SshAction::ReadMasterConfig { path: join_path(ssh.as_str(), "config") }
            },
            SshEvent::MasterConfigRead(content) => {
                let ssh = prefix.ssh();
                let append = Self::include_ssh_config_dir(prefix, content.as_str());
                SshAction::UpdateMasterConfig {
                    path: join_path(ssh.as_str(), "config"),
                    append,
                    config_dir: prefix.ssh_config(),
                }
            },
            SshEvent::MasterConfigUpdated => {
                let (program, args) = self.generate_key(prefix);
                SshAction::RunKeyCommand { program, args }
            },
            SshEvent::KeyCommandExited(ok) => {
                if ok {
                    let (public, private) = self.key_files(prefix);
                    SshAction::CheckKeyFiles { public, private }
                } else {
                    SshAction::Fail(SshConfigError::KeyGenerationFailed)
                }
            },
            SshEvent::KeyFilesChecked { public_exists, private_exists } => {
                match self.check_key(prefix, public_exists, private_exists) {
                    Ok(identity) => {
                        let (path, content) = self.generate_ssh_config(
                            prefix,
                            identity.as_str(),
                            platform,
                        );
                        SshAction::WriteConfig { path, content }
                    },
                    Err(e) => SshAction::Fail(e),
                }
            },
            SshEvent::ConfigWritten => SshAction::Done,
        }
    }
}

/// Config-block determinism: with no additions the host block is exactly the
/// fixed head, followed on macOS by the keychain directive alone.
pub proof fn lemma_mandatory_block(c: SshConfig, identity: Seq<char>)
    requires
        c.additions@.len() == 0,
    ensures
        c.block_spec(identity, Platform::Other) == "# AUTO GENERATED FILE. DO NOT EDIT\n\nHost "@
            + c.key@ + "\n\tHostname "@ + c.hostname@
            + "\n\tAddKeysToAgent yes\n\tIdentitiesOnly yes\n\tIdentityFile "@ + identity + "\n"@,
        c.block_spec(identity, Platform::MacOs) == c.block_spec(identity, Platform::Other)
            + "\tUseKeychain yes\n"@,
{
    reveal_strlit("# AUTO GENERATED FILE. DO NOT EDIT\n\nHost ");
    reveal_strlit("# AUTO GENERATED FILE. DO NOT EDIT\n\n");
    reveal_strlit("Host ");
    reveal_strlit("\n\tHostname ");
    reveal_strlit("\tHostname ");
    reveal_strlit("\n");
    reveal_strlit("\n\tAddKeysToAgent yes\n\tIdentitiesOnly yes\n\tIdentityFile ");
    reveal_strlit("\tAddKeysToAgent yes\n");
    reveal_strlit("\tIdentitiesOnly yes\n");
    reveal_strlit("\tIdentityFile ");
    reveal_strlit("\tUseKeychain yes\n");
    reveal_strlit("\t");
    reveal_strlit(" ");
    reveal_strlit("UseKeychain");
    reveal_strlit("yes");
    let none = addition_directives(c.additions@);
    assert(none =~= Seq::<(Seq<char>, Seq<char>)>::empty());
    let other = none + platform_directives_spec(Platform::Other);
    let mac = none + platform_directives_spec(Platform::MacOs);
    assert(other =~= Seq::<(Seq<char>, Seq<char>)>::empty());
    assert(directives_text(other) == Seq::<char>::empty());
    assert(mac.drop_last() =~= Seq::<(Seq<char>, Seq<char>)>::empty());
    assert(directives_text(mac.drop_last()) == Seq::<char>::empty());
    assert(directives_text(mac) =~= "\tUseKeychain yes\n"@);
    assert(c.block_spec(identity, Platform::Other) =~= "# AUTO GENERATED FILE. DO NOT EDIT\n\nHost "@
        + c.key@ + "\n\tHostname "@ + c.hostname@
        + "\n\tAddKeysToAgent yes\n\tIdentitiesOnly yes\n\tIdentityFile "@ + identity + "\n"@);
    assert(c.block_spec(identity, Platform::MacOs) =~= c.block_spec(identity, Platform::Other)
        + "\tUseKeychain yes\n"@);
}

/// Missing key invariant: where either key file is missing after key
/// generation, generation stops with an error and writes no host block.
pub proof fn lemma_missing_key_writes_nothing(
    c: SshConfig,
    prefix: Prefix,
    platform: Platform,
    public_exists: bool,
    private_exists: bool,
    a: SshAction,
)
    requires
        !public_exists || !private_exists,
        c.step_spec(
            prefix,
            platform,
            SshEvent::KeyFilesChecked { public_exists, private_exists },
            a,
        ),
    ensures
        a is Fail,
        !(a is WriteConfig),
{
}

/// Re-run overwrite: two runs for the same key write the same file, and the
/// second write replaces its content with a block made from the second
/// entry alone.
pub proof fn lemma_rerun_overwrite(
    c1: SshConfig,
    c2: SshConfig,
    prefix: Prefix,
    platform: Platform,
    a1: SshAction,
    a2: SshAction,
)
    requires
        c1.key@ == c2.key@,
        c1.step_spec(
            prefix,
            platform,
            SshEvent::KeyFilesChecked { public_exists: true, private_exists: true },
            a1,
        ),
        c2.step_spec(
            prefix,
            platform,
            SshEvent::KeyFilesChecked { public_exists: true, private_exists: true },
            a2,
        ),
    ensures
        a1 matches SshAction::WriteConfig { path: p1, .. } && a2 matches SshAction::WriteConfig {
            path: p2,
            content,
        } && p1@ == p2@ && content@ == block_text(
            c2.key@,
            c2.hostname@,
            private_key_spec(prefix, c2.key@),
            addition_directives(c2.additions@) + platform_directives_spec(platform),
        ),
{
}

} // verus!
