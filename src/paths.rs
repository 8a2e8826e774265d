//! Path layout under a setup prefix.
use vstd::prelude::*;

verus! {

/// Joins a directory and a relative name with exactly one `/` between them.
pub open spec fn path_join(dir: Seq<char>, name: Seq<char>) -> Seq<char> {
    if dir.len() == 0 {
        name
    } else if dir.last() == '/' {
        dir + name
    } else {
        dir + seq!['/'] + name
    }
}

/// The views of a list of strings.
pub open spec fn strings_view(v: Seq<String>) -> Seq<Seq<char>> {
    v.map_values(|s: String| s@)
}

/// Executable form of `path_join`.
pub fn join_path(dir: &str, name: &str) -> (r: String)
    ensures
        r@ == path_join(dir@, name@),
{
    let n = dir.unicode_len();
    if n == 0 {
        return name.to_owned();
    }
    let mut r = dir.to_owned();
    if dir.get_char(n - 1) != '/' {
        r.append("/");
        proof {
            reveal_strlit("/");
        }
    }
    r.append(name);
    proof {
        assert(dir@.last() == dir@[n - 1]);
    }
    r
}

/// Name of the per-host configuration directory inside the ssh directory.
pub const SSH_CONFIG_DIR_NAME: &'static str = "config.d";

/// The root of the directory layout that setup works in.
pub struct Prefix {
    pub root: String,
}

impl Prefix {
    pub open spec fn ssh_spec(&self) -> Seq<char> {
        path_join(self.root@, "ssh"@)
    }

    pub open spec fn ssh_config_spec(&self) -> Seq<char> {
        path_join(self.ssh_spec(), SSH_CONFIG_DIR_NAME@)
    }

    pub open spec fn skm_spec(&self) -> Seq<char> {
        path_join(self.root@, "skm"@)
    }

    pub open spec fn bin_spec(&self) -> Seq<char> {
        path_join(self.root@, "bin"@)
    }

    pub fn new(root: String) -> (r: Prefix)
        ensures
            r.root@ == root@,
    {
        Prefix { root }
    }

    /// The ssh directory, `<root>/ssh`.
    pub fn ssh(&self) -> (r: String)
        ensures
            r@ == self.ssh_spec(),
    {
        join_path(self.root.as_str(), "ssh")
    }

    /// The per-host configuration directory, `<root>/ssh/config.d`.
    pub fn ssh_config(&self) -> (r: String)
        ensures
            r@ == self.ssh_config_spec(),
    {
        let ssh = self.ssh();
        join_path(ssh.as_str(), SSH_CONFIG_DIR_NAME)
    }

    /// The key store root, `<root>/skm`.
    pub fn skm(&self) -> (r: String)
        ensures
            r@ == self.skm_spec(),
    {
        join_path(self.root.as_str(), "skm")
    }

    /// The installed tools directory, `<root>/bin`.
    pub fn bin(&self) -> (r: String)
        ensures
            r@ == self.bin_spec(),
    {
        join_path(self.root.as_str(), "bin")
    }
}

} // verus!
