use vstd::prelude::*;

verus! {

/// Length of the random names given to staging and backup directories.
pub const RANDOM_NAME_LEN: usize = 21;

/// A character of nanoid's URL-safe alphabet.
pub open spec fn is_safe_char(c: char) -> bool {
    ('a' <= c <= 'z') || ('A' <= c <= 'Z') || ('0' <= c <= '9') || c == '_' || c == '-'
}

/// A random directory name: `RANDOM_NAME_LEN` URL-safe characters.
pub open spec fn is_random_name(s: Seq<char>) -> bool {
    &&& s.len() == RANDOM_NAME_LEN
    &&& forall|i: int| 0 <= i < s.len() ==> is_safe_char(#[trigger] s[i])
}

/// Relies on nanoid::format with nanoid::rngs::default and nanoid::alphabet::SAFE
/// (what the `nanoid!` macro expands to): the result has exactly the requested
/// number of characters, each taken from that alphabet.
#[verifier::external_body]
fn random_name() -> (r: String)
    ensures
        is_random_name(r@),
{
    nanoid::format(nanoid::rngs::default, &nanoid::alphabet::SAFE, RANDOM_NAME_LEN)
}

/// `dir/name`.
pub open spec fn joined(dir: Seq<char>, name: Seq<char>) -> Seq<char> {
    dir + seq!['/'] + name
}

/// The path `dir/name`.
pub fn join_path(dir: &String, name: &str) -> (r: String)
    ensures
        r@ == joined(dir@, name@),
{
    let slash = "/";
    proof {
        reveal_strlit("/");
    }
    let r = dir.clone().concat(slash).concat(name);
    proof {
        assert(r@ =~= joined(dir@, name@));
    }
    r
}

/// A versioned install location: its identity, its active root and the area that
/// holds staging and backup directories.
pub struct Workspace {
    id: String,
    base_dir: String,
    cache_dir: String,
}

impl Workspace {
    pub closed spec fn spec_id(&self) -> Seq<char> {
        self.id@
    }

    pub closed spec fn spec_base_dir(&self) -> Seq<char> {
        self.base_dir@
    }

    pub closed spec fn spec_cache_dir(&self) -> Seq<char> {
        self.cache_dir@
    }

    pub fn new(id: String, base_dir: String, cache_dir: String) -> (r: Self)
        ensures
            r.spec_id() == id@,
            r.spec_base_dir() == base_dir@,
            r.spec_cache_dir() == cache_dir@,
    {
        Workspace { id, base_dir, cache_dir }
    }

    pub fn id(&self) -> (r: &String)
        ensures
            r@ == self.spec_id(),
    {
        &self.id
    }

    pub fn base_dir(&self) -> (r: &String)
        ensures
            r@ == self.spec_base_dir(),
    {
        &self.base_dir
    }

    pub fn cache_dir(&self) -> (r: &String)
        ensures
            r@ == self.spec_cache_dir(),
    {
        &self.cache_dir
    }

    /// The workspace that stages a new generation in `cache_dir/name`: same
    /// identity, same cache area.
    pub fn staged_at(&self, name: &str) -> (r: Workspace)
        ensures
            r.spec_id() == self.spec_id(),
            r.spec_base_dir() == joined(self.spec_cache_dir(), name@),
            r.spec_cache_dir() == self.spec_cache_dir(),
    {
        Workspace {
            id: self.id.clone(),
            base_dir: join_path(&self.cache_dir, name),
            cache_dir: self.cache_dir.clone(),
        }
    }

    /// A staging workspace under a freshly drawn random name in the cache area.
    pub fn new_staging(&self) -> (r: Workspace)
        ensures
            r.spec_id() == self.spec_id(),
            r.spec_cache_dir() == self.spec_cache_dir(),
            exists|name: Seq<char>|
                is_random_name(name) && r.spec_base_dir() == joined(self.spec_cache_dir(), name),
    {
        let name = random_name();
        self.staged_at(name.as_str())
    }

    /// A fresh random path in the cache area, for a backup of the live root.
    pub fn new_backup_dir(&self) -> (r: String)
        ensures
            exists|name: Seq<char>|
                is_random_name(name) && r@ == joined(self.spec_cache_dir(), name),
    {
        let name = random_name();
        join_path(&self.cache_dir, name.as_str())
    }
}

/// How one character of a directory path appears in a workspace id: `%` and `/`
/// are percent-encoded, every other character stands for itself.
pub open spec fn escape_char(c: char) -> Seq<char> {
    if c == '%' {
        seq!['%', '2', '5']
    } else if c == '/' {
        seq!['%', '2', 'F']
    } else {
        seq![c]
    }
}

/// The workspace id of a directory path: the path with `%` and `/` encoded, so
/// that it is one path component and distinct paths get distinct ids.
pub open spec fn escaped(s: Seq<char>) -> Seq<char>
    decreases s.len(),
{
    if s.len() == 0 {
        Seq::empty()
    } else {
        escaped(s.drop_last()) + escape_char(s.last())
    }
}

/// The id of the workspace of a configuration directory.
pub fn workspace_id(config_dir: &str) -> (r: String)
    ensures
        r@ == escaped(config_dir@),
{
    let pct = "%25";
    let slash = "%2F";
    proof {
        reveal_strlit("%25");
        reveal_strlit("%2F");
    }
    let n: usize = config_dir.unicode_len();
    let mut out = String::new();
    let mut i: usize = 0;
    while i < n
        invariant
            n == config_dir@.len(),
            i <= n,
            out@ == escaped(config_dir@.subrange(0, i as int)),
            pct@ == seq!['%', '2', '5'],
            slash@ == seq!['%', '2', 'F'],
        decreases n - i,
    {
        let c = config_dir.get_char(i);
        proof {
            assert(config_dir@.subrange(0, i + 1).drop_last() =~= config_dir@.subrange(0, i as int));
        }
        if c == '%' {
            out.append(pct);
        } else if c == '/' {
            out.append(slash);
        } else {
            let one = config_dir.substring_char(i, i + 1);
            out.append(one);
            proof {
                assert(one@ =~= seq![c]);
            }
        }
        i = i + 1;
    }
    proof {
        assert(config_dir@.subrange(0, n as int) =~= config_dir@);
    }
    out
}

/// Resolves the workspace of a project from its configuration directory, under
/// one root that holds every workspace.
pub struct WorkspaceProvider {
    root: String,
}

/// The workspace of the configuration directory `dir` under `root`: its id is
/// the escaped path, its active root `root/workspace/<id>`, its cache area
/// `root/cache/<id>`.
pub open spec fn workspace_spec(root: Seq<char>, dir: Seq<char>) -> (Seq<char>, Seq<char>, Seq<
    char,
>) {
    (
        escaped(dir),
        joined(joined(root, "workspace"@), escaped(dir)),
        joined(joined(root, "cache"@), escaped(dir)),
    )
}

impl WorkspaceProvider {
    pub closed spec fn spec_root(&self) -> Seq<char> {
        self.root@
    }

    pub fn new(root: String) -> (r: Self)
        ensures
            r.spec_root() == root@,
    {
        WorkspaceProvider { root }
    }

    /// The workspace of a canonicalized configuration directory.
    pub fn base_unique_workspace_dir_from_isobin_config_dir(&self, config_dir: &str) -> (r:
        Workspace)
        ensures
            (r.spec_id(), r.spec_base_dir(), r.spec_cache_dir()) == workspace_spec(
                self.spec_root(),
                config_dir@,
            ),
    {
        let id = workspace_id(config_dir);
        let base_root = join_path(&self.root, "workspace");
        let cache_root = join_path(&self.root, "cache");
        let base_dir = join_path(&base_root, id.as_str());
        let cache_dir = join_path(&cache_root, id.as_str());
        Workspace { id, base_dir, cache_dir }
    }
}

/// Resolving the workspace of one directory twice, with one provider, gives the
/// same id, active root and cache area.
pub proof fn law_workspace_identity_is_stable(
    p: &WorkspaceProvider,
    config_dir: Seq<char>,
    a: Workspace,
    b: Workspace,
)
    requires
        (a.spec_id(), a.spec_base_dir(), a.spec_cache_dir()) == workspace_spec(p.spec_root(), config_dir),
        (b.spec_id(), b.spec_base_dir(), b.spec_cache_dir()) == workspace_spec(p.spec_root(), config_dir),
    ensures
        a.spec_id() == b.spec_id(),
        a.spec_base_dir() == b.spec_base_dir(),
        a.spec_cache_dir() == b.spec_cache_dir(),
{
}

} // verus!
