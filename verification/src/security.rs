//! Path security: a deny-list of sensitive paths, and the guard that admits
//! only paths inside the authorized workspace roots.
use vstd::prelude::*;
use crate::text::{chars_of, contains_chars, contains_seq, owned, replace_char};
use crate::pty::{default_home, home_dir};

verus! {

/// Path fragments that are never read or written.
pub open spec fn denied_patterns() -> Seq<Seq<char>> {
    seq![
        ".env"@,
        ".ssh"@,
        ".gnupg"@,
        ".aws/credentials"@,
        ".npmrc"@,
        ".netrc"@,
        "id_rsa"@,
        "id_ed25519"@,
        ".pocketdevos/keys"@,
        "/etc/shadow"@,
        "/etc/passwd"@,
    ]
}

/// `path`, with backslashes read as slashes, holds a denied fragment.
pub open spec fn denied(path: Seq<char>) -> bool {
    exists|i: int|
        0 <= i < denied_patterns().len() && contains_seq(
            replace_char(path, '\\', '/'),
            #[trigger] denied_patterns()[i],
        )
}

/// The denied fragments, in order.
fn denied_pattern_list() -> (r: Vec<&'static str>)
    ensures
        r@.map_values(|s: &str| s@) == denied_patterns(),
{
    let r = vec![
        ".env",
        ".ssh",
        ".gnupg",
        ".aws/credentials",
        ".npmrc",
        ".netrc",
        "id_rsa",
        "id_ed25519",
        ".pocketdevos/keys",
        "/etc/shadow",
        "/etc/passwd",
    ];
    assert(r@.map_values(|s: &str| s@) =~= denied_patterns());
    r
}

/// Backslashes in `v` replaced by slashes.
fn slashes(v: &Vec<char>) -> (r: Vec<char>)
    ensures
        r@ == replace_char(v@, '\\', '/'),
{
    let mut r: Vec<char> = Vec::new();
    for i in 0..v.len()
        invariant
            r@ == replace_char(v@, '\\', '/').take(i as int),
    {
        let c = if v[i] == '\\' {
            '/'
        } else {
            v[i]
        };
        r.push(c);
        assert(r@ =~= replace_char(v@, '\\', '/').take(i + 1));
    }
    assert(r@ =~= replace_char(v@, '\\', '/'));
    r
}

/// Whether a path is sensitive: it holds, once backslashes are read as
/// slashes, one of the denied fragments.
pub fn is_denied_path(path: &str) -> (r: bool)
    ensures
        r == denied(path@),
{
    let normalized = slashes(&chars_of(path));
    let patterns = denied_pattern_list();
    let n = patterns.len();
    for i in 0..n
        invariant
            n == denied_patterns().len(),
            patterns@.map_values(|s: &str| s@) == denied_patterns(),
            normalized@ == replace_char(path@, '\\', '/'),
            forall|j: int| 0 <= j < i ==> !contains_seq(normalized@, #[trigger] denied_patterns()[j]),
    {
        let pat = chars_of(patterns[i]);
        assert(patterns@.map_values(|s: &str| s@)[i as int] == patterns@[i as int]@);
        if contains_chars(normalized.as_slice(), pat.as_slice()) {
            return true;
        }
    }
    false
}

/// A path is denied exactly when, with backslashes read as slashes, it
/// contains one of the literal fragments `.env`, `.ssh`, `.gnupg`,
/// `.aws/credentials`, `.npmrc`, `.netrc`, `id_rsa`, `id_ed25519`,
/// `.pocketdevos/keys`, `/etc/shadow` or `/etc/passwd`; nothing else is.
pub proof fn lemma_denied_fragments(path: Seq<char>)
    ensures
        denied(path) <==> {
            let n = replace_char(path, '\\', '/');
            ||| contains_seq(n, ".env"@)
            ||| contains_seq(n, ".ssh"@)
            ||| contains_seq(n, ".gnupg"@)
            ||| contains_seq(n, ".aws/credentials"@)
            ||| contains_seq(n, ".npmrc"@)
            ||| contains_seq(n, ".netrc"@)
            ||| contains_seq(n, "id_rsa"@)
            ||| contains_seq(n, "id_ed25519"@)
            ||| contains_seq(n, ".pocketdevos/keys"@)
            ||| contains_seq(n, "/etc/shadow"@)
            ||| contains_seq(n, "/etc/passwd"@)
        },
{
    let d = denied_patterns();
    assert(d.len() == 11);
    assert(d[0] == ".env"@);
    assert(d[1] == ".ssh"@);
    assert(d[2] == ".gnupg"@);
    assert(d[3] == ".aws/credentials"@);
    assert(d[4] == ".npmrc"@);
    assert(d[5] == ".netrc"@);
    assert(d[6] == "id_rsa"@);
    assert(d[7] == "id_ed25519"@);
    assert(d[8] == ".pocketdevos/keys"@);
    assert(d[9] == "/etc/shadow"@);
    assert(d[10] == "/etc/passwd"@);
}

/// Reading backslashes as slashes changes nothing about whether a path is
/// denied.
pub proof fn lemma_denied_ignores_backslashes(path: Seq<char>)
    ensures
        denied(replace_char(path, '\\', '/')) == denied(path),
{
    assert(replace_char(replace_char(path, '\\', '/'), '\\', '/') =~= replace_char(path, '\\', '/'));
}

/// `Path::starts_with`: `base` is a prefix of `path`, whole components only.
pub uninterp spec fn path_has_prefix(path: Seq<char>, base: Seq<char>) -> bool;

/// `std::path::Path::starts_with`, on two paths given as strings; the
/// contract names its result, a function of the two paths alone, and states
/// what the documentation gives plainly: a path starts with itself.
#[verifier::external_body]
fn path_starts_with(path: &str, base: &str) -> (r: bool)
    ensures
        r == path_has_prefix(path@, base@),
        path@ == base@ ==> r,
{
    std::path::Path::new(path).starts_with(std::path::Path::new(base))
}

/// What the file system resolves the paths to (`fs::canonicalize`): the
/// target, and each workspace root in the guard's order; `None` where a path
/// could not be resolved.
pub struct Resolved {
    pub target: Option<String>,
    pub roots: Vec<Option<String>>,
}

/// The path that a string option stands for, or `dflt` where it is `None`.
pub open spec fn or_raw(p: Option<String>, dflt: Seq<char>) -> Seq<char> {
    match p {
        Some(s) => s@,
        None => dflt,
    }
}

/// The `i`th root as it is compared: its resolved form, or the root itself
/// where it could not be resolved.
pub open spec fn root_as_compared(roots: Seq<Seq<char>>, resolved: Seq<Option<String>>, i: int) -> Seq<char> {
    if i < resolved.len() {
        or_raw(resolved[i], roots[i])
    } else {
        roots[i]
    }
}

/// The target (resolved where it could be) lies inside one of the roots.
pub open spec fn inside_workspace(
    roots: Seq<Seq<char>>,
    resolved: Seq<Option<String>>,
    target: Seq<char>,
) -> bool {
    exists|i: int| 0 <= i < roots.len() && path_has_prefix(target, #[trigger] root_as_compared(roots, resolved, i))
}

/// The answer to a request for a denied path.
pub open spec fn sensitive_message() -> Seq<char> {
    "Access denied: sensitive path"@
}

/// The answer to a request for a path outside the workspace.
pub open spec fn outside_message() -> Seq<char> {
    "Access denied: outside workspace"@
}

/// What the guard answers for `path`: `None` where it is admitted, else the
/// message of the refusal.
pub open spec fn guard_verdict(roots: Seq<Seq<char>>, resolved: Resolved, path: Seq<char>) -> Option<Seq<char>> {
    if denied(path) {
        Some(sensitive_message())
    } else if !inside_workspace(roots, resolved.roots@, or_raw(resolved.target, path)) {
        Some(outside_message())
    } else {
        None
    }
}

/// The workspace roots that requests may reach.
pub struct WorkspaceGuard {
    roots: Vec<String>,
}

impl View for WorkspaceGuard {
    type V = Seq<Seq<char>>;

    closed spec fn view(&self) -> Seq<Seq<char>> {
        self.roots@.map_values(|s: String| s@)
    }
}

impl WorkspaceGuard {
    /// The guard of a fresh server, from the values of `HOME`, `USERPROFILE`
    /// and `PREFIX`: the home directory (`HOME`, else `USERPROFILE`, else `.`),
    /// then Termux's prefix where it is set.
    pub fn new(home: Option<String>, userprofile: Option<String>, prefix: Option<String>) -> (g: Self)
        ensures
            g@ == (match prefix {
                Some(p) => seq![home_dir(
                    match home {
                        Some(h) => Some(h@),
                        None => None,
                    },
                    match userprofile {
                        Some(u) => Some(u@),
                        None => None,
                    },
                )].push(p@),
                None => seq![home_dir(
                    match home {
                        Some(h) => Some(h@),
                        None => None,
                    },
                    match userprofile {
                        Some(u) => Some(u@),
                        None => None,
                    },
                )],
            }),
    {
        let mut roots: Vec<String> = Vec::new();
        roots.push(default_home(home, userprofile));
        match prefix {
            Some(p) => roots.push(p),
            None => {},
        }
        let g = WorkspaceGuard { roots };
        assert(g@ =~= (match prefix {
            Some(p) => seq![roots@[0]@].push(p@),
            None => seq![roots@[0]@],
        }));
        g
    }

    /// The workspace roots, in the order they were authorized.
    pub fn roots(&self) -> (r: &Vec<String>)
        ensures
            r@.map_values(|s: String| s@) == self@,
    {
        &self.roots
    }

    /// Adds a workspace root.
    pub fn authorize(&mut self, path: &str)
        ensures
            final(self)@ == old(self)@.push(path@),
    {
        self.roots.push(owned(path));
        assert(self@ =~= old(self)@.push(path@));
    }

    /// Whether the target lies inside a workspace root, comparing whole path
    /// components; each path is taken as the file system resolved it, or as
    /// given where it could not be resolved.
    pub fn is_authorized(&self, target_path: &str, resolved: &Resolved) -> (r: bool)
        ensures
            r == inside_workspace(self@, resolved.roots@, or_raw(resolved.target, target_path@)),
            (exists|i: int|
                0 <= i < self@.len() && #[trigger] root_as_compared(self@, resolved.roots@, i)
                    == or_raw(resolved.target, target_path@)) ==> r,
    {
        let target = match &resolved.target {
            Some(t) => t.as_str(),
            None => target_path,
        };
        let n = self.roots.len();
        for i in 0..n
            invariant
                n == self@.len(),
                n == self.roots@.len(),
                target@ == or_raw(resolved.target, target_path@),
                forall|j: int|
                    0 <= j < i ==> !path_has_prefix(
                        target@,
                        #[trigger] root_as_compared(self@, resolved.roots@, j),
                    ) && root_as_compared(self@, resolved.roots@, j) != target@,
        {
            let root: &str = if i < resolved.roots.len() {
                match &resolved.roots[i] {
                    Some(r) => r.as_str(),
                    None => self.roots[i].as_str(),
                }
            } else {
                self.roots[i].as_str()
            };
            assert(root@ == root_as_compared(self@, resolved.roots@, i as int));
            if path_starts_with(target, root) {
                return true;
            }
        }
        false
    }

    /// Admits a path that is not denied and lies inside the workspace; the
    /// deny-list is checked first.
    pub fn validate(&self, path: &str, resolved: &Resolved) -> (r: Result<(), String>)
        ensures
            match r {
                Ok(_) => !denied(path@) && inside_workspace(
                    self@,
                    resolved.roots@,
                    or_raw(resolved.target, path@),
                ),
                Err(e) => if denied(path@) {
                    e@ == sensitive_message()
                } else {
                    !inside_workspace(self@, resolved.roots@, or_raw(resolved.target, path@))
                        && e@ == outside_message()
                },
            },
    {
        if is_denied_path(path) {
            return Err(owned("Access denied: sensitive path"));
        }
        if !self.is_authorized(path, resolved) {
            return Err(owned("Access denied: outside workspace"));
        }
        Ok(())
    }
}

/// Authorizing a root takes nothing away: a target inside the workspace
/// before is inside it after, whatever the new root resolves to (the roots
/// each having its entry among the resolutions).
pub proof fn lemma_authorize_keeps_access(
    roots: Seq<Seq<char>>,
    resolved: Seq<Option<String>>,
    extra: Option<String>,
    target: Seq<char>,
    root: Seq<char>,
)
    requires
        roots.len() <= resolved.len(),
        inside_workspace(roots, resolved, target),
    ensures
        inside_workspace(roots.push(root), resolved.push(extra), target),
{
    let i = choose|i: int|
        0 <= i < roots.len() && path_has_prefix(target, #[trigger] root_as_compared(roots, resolved, i));
    assert(root_as_compared(roots.push(root), resolved.push(extra), i) == root_as_compared(
        roots,
        resolved,
        i,
    ));
}

} // verus!
