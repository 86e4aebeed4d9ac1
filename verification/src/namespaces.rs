//! The XML namespaces of one document: three fixed framework namespaces and
//! those registered for package paths as they are first met.

use vstd::prelude::*;
use crate::error::TranspileError;
use crate::text::{path_view, same_text, spec_join_dotted, join_dotted};

verus! {

/// A namespace declaration: a prefix and the URI that it stands for.
#[derive(Debug, PartialEq)]
pub struct NamespaceDecl {
    pub prefix: String,
    pub uri: String,
}

impl View for NamespaceDecl {
    type V = (Seq<char>, Seq<char>);

    open spec fn view(&self) -> (Seq<char>, Seq<char>) {
        (self.prefix@, self.uri@)
    }
}

/// The declarations of a list, each as a pair of prefix and URI.
pub open spec fn declarations_view(decls: Vec<NamespaceDecl>) -> Seq<(Seq<char>, Seq<char>)> {
    Seq::new(decls.len() as nat, |i: int| decls[i]@)
}

/// The fixed prefix of a framework package root, where `root` is one.
pub open spec fn spec_framework_prefix(root: Seq<char>) -> Option<Seq<char>> {
    if root == "fx"@ {
        Some("fx"@)
    } else if root == "spark"@ {
        Some("s"@)
    } else if root == "mx"@ {
        Some("mx"@)
    } else {
        None
    }
}

/// The declarations of the three framework namespaces, in their fixed order.
pub open spec fn spec_framework_declarations() -> Seq<(Seq<char>, Seq<char>)> {
    seq![
        ("fx"@, "http://ns.adobe.com/mxml/2009"@),
        ("s"@, "library://ns.adobe.com/flex/spark"@),
        ("mx"@, "library://ns.adobe.com/flex/mx"@),
    ]
}

/// The prefix under which a package path is registered: its last segment.
pub open spec fn spec_path_prefix(path: Seq<Seq<char>>) -> Seq<char> {
    path.last()
}

/// The URI under which a package path is registered: the dotted path and `.*`.
pub open spec fn spec_path_uri(path: Seq<Seq<char>>) -> Seq<char> {
    spec_join_dotted(path) + ".*"@
}

/// Whether resolving `path` registers nothing: it is empty or belongs to a
/// framework.
pub open spec fn spec_is_fixed(path: Seq<Seq<char>>) -> bool {
    path.len() == 0 || spec_framework_prefix(path[0]) is Some
}

/// The prefix that `path` resolves to.
pub open spec fn spec_resolve_prefix(path: Seq<Seq<char>>) -> Result<Seq<char>, TranspileError> {
    if path.len() == 0 {
        Err(TranspileError::EmptyPackagePath)
    } else {
        match spec_framework_prefix(path[0]) {
            Some(prefix) => Ok(prefix),
            None => Ok(spec_path_prefix(path)),
        }
    }
}

/// The registered paths after `path` has been resolved: `path` is added at
/// the end unless it is fixed or already there.
pub open spec fn spec_resolve_paths(paths: Seq<Seq<Seq<char>>>, path: Seq<Seq<char>>) -> Seq<
    Seq<Seq<char>>,
> {
    if spec_is_fixed(path) || paths.contains(path) {
        paths
    } else {
        paths.push(path)
    }
}

/// The declarations of a document: the framework namespaces, then one for
/// each registered path in the order of registration. The prefixes need not
/// be distinct: two paths with the same last segment have the same prefix,
/// and a path whose last segment is `fx`, `s` or `mx` has that of a
/// framework namespace.
pub open spec fn spec_declarations(paths: Seq<Seq<Seq<char>>>) -> Seq<(Seq<char>, Seq<char>)> {
    spec_framework_declarations() + Seq::new(
        paths.len(),
        |i: int| (spec_path_prefix(paths[i]), spec_path_uri(paths[i])),
    )
}

/// A result that holds a string, with the string as its characters.
pub open spec fn text_result(r: Result<String, TranspileError>) -> Result<
    Seq<char>,
    TranspileError,
> {
    match r {
        Ok(s) => Ok(s@),
        Err(e) => Err(e),
    }
}

/// The fixed prefix of a framework package root, where `root` is one.
pub fn framework_prefix(root: &str) -> (r: Option<&'static str>)
    ensures
        r matches Some(prefix) ==> spec_framework_prefix(root@) == Some(prefix@),
        r is None ==> spec_framework_prefix(root@) is None,
{
    if same_text(root, "fx") {
        Some("fx")
    } else if same_text(root, "spark") {
        Some("s")
    } else if same_text(root, "mx") {
        Some("mx")
    } else {
        None
    }
}

/// Whether two paths have the same segments.
pub fn same_path(a: &Vec<String>, b: &Vec<String>) -> (r: bool)
    ensures
        r == (path_view(*a) == path_view(*b)),
{
    if a.len() != b.len() {
        assert(path_view(*a).len() != path_view(*b).len());
        return false;
    }
    let mut i: usize = 0;
    while i < a.len()
        invariant
            i <= a.len(),
            a.len() == b.len(),
            forall|k: int| 0 <= k < i ==> a[k]@ == b[k]@,
        decreases a.len() - i,
    {
        if !same_text(a[i].as_str(), b[i].as_str()) {
            assert(path_view(*a)[i as int] != path_view(*b)[i as int]);
            return false;
        }
        i += 1;
    }
    assert(path_view(*a) =~= path_view(*b));
    true
}

/// A copy of `path`.
pub fn clone_path(path: &Vec<String>) -> (r: Vec<String>)
    ensures
        path_view(r) == path_view(*path),
{
    let mut out: Vec<String> = Vec::new();
    let mut i: usize = 0;
    while i < path.len()
        invariant
            i <= path.len(),
            out.len() == i,
            forall|k: int| 0 <= k < i ==> out[k]@ == path[k]@,
        decreases path.len() - i,
    {
        out.push(path[i].clone());
        i += 1;
    }
    out
}

/// A package path with the prefix and URI that it was registered under.
struct RegisteredNamespace {
    path: Vec<String>,
    prefix: String,
    uri: String,
}

/// The namespaces of one document.
pub struct NamespaceRegistry {
    entries: Vec<RegisteredNamespace>,
}

impl View for NamespaceRegistry {
    type V = Seq<Seq<Seq<char>>>;

    /// The registered package paths, in the order of their registration.
    closed spec fn view(&self) -> Seq<Seq<Seq<char>>> {
        Seq::new(self.entries.len() as nat, |i: int| path_view(self.entries[i].path))
    }
}

impl NamespaceRegistry {
    /// Each entry holds the prefix and URI of its path, no path is fixed and
    /// none is registered twice.
    pub closed spec fn wf(&self) -> bool {
        &&& forall|i: int|
            0 <= i < self.entries.len() ==> {
                &&& !spec_is_fixed(#[trigger] self@[i])
                &&& self.entries[i].prefix@ == spec_path_prefix(self@[i])
                &&& self.entries[i].uri@ == spec_path_uri(self@[i])
            }
        &&& self@.no_duplicates()
    }

    /// In a well-formed registry no path is registered twice, and none is
    /// empty or a framework's.
    pub proof fn lemma_wf_paths(&self)
        requires
            self.wf(),
        ensures
            self@.no_duplicates(),
            forall|i: int| 0 <= i < self@.len() ==> !spec_is_fixed(#[trigger] self@[i]),
    {
    }

    /// A registry with the framework namespaces alone.
    pub fn new() -> (r: NamespaceRegistry)
        ensures
            r.wf(),
            r@ == Seq::<Seq<Seq<char>>>::empty(),
    {
        NamespaceRegistry { entries: Vec::new() }
    }

    /// The number of registered package paths.
    pub fn len(&self) -> (r: usize)
        ensures
            r == self@.len(),
    {
        self.entries.len()
    }

    /// Whether `path` is registered.
    pub fn is_registered(&self, path: &Vec<String>) -> (r: bool)
        ensures
            r == self@.contains(path_view(*path)),
    {
        let mut i: usize = 0;
        while i < self.entries.len()
            invariant
                i <= self.entries.len(),
                forall|k: int| 0 <= k < i ==> self@[k] != path_view(*path),
            decreases self.entries.len() - i,
        {
            if same_path(&self.entries[i].path, path) {
                assert(self@[i as int] == path_view(*path));
                return true;
            }
            i += 1;
        }
        false
    }

    /// Resolves a package path to its prefix, registering the path where it
    /// is met for the first time and belongs to no framework.
    pub fn resolve_path(&mut self, path: &Vec<String>) -> (r: Result<String, TranspileError>)
        requires
            old(self).wf(),
        ensures
            final(self).wf(),
            text_result(r) == spec_resolve_prefix(path_view(*path)),
            final(self)@ == spec_resolve_paths(old(self)@, path_view(*path)),
    {
        if path.len() == 0 {
            return Err(TranspileError::EmptyPackagePath);
        }
        assert(path_view(*path)[0] == path[0]@);
        match framework_prefix(path[0].as_str()) {
            Some(prefix) => {
                return Ok(String::from_str(prefix));
            },
            None => {},
        }
        let last = path.len() - 1;
        assert(path_view(*path).last() == path[last as int]@);
        let prefix = path[last].clone();
        if self.is_registered(path) {
            return Ok(prefix);
        }
        let mut uri = join_dotted(path);
        uri.append(".*");
        let entry = RegisteredNamespace { path: clone_path(path), prefix: path[last].clone(), uri };
        let ghost before = self@;
        self.entries.push(entry);
        proof {
            assert(self@ =~= before.push(path_view(*path)));
            assert forall|i: int, j: int|
                0 <= i < self@.len() && 0 <= j < self@.len() && i != j implies self@[i]
                != self@[j] by {
                if i < before.len() && j < before.len() {
                    assert(before[i] != before[j]);
                } else if i < before.len() {
                    assert(before[i] != path_view(*path));
                } else {
                    assert(before[j] != path_view(*path));
                }
            }
            assert forall|i: int| 0 <= i < self.entries.len() implies {
                &&& !spec_is_fixed(#[trigger] self@[i])
                &&& self.entries[i].prefix@ == spec_path_prefix(self@[i])
                &&& self.entries[i].uri@ == spec_path_uri(self@[i])
            } by {
                if i < before.len() {
                    assert(self@[i] == before[i]);
                    assert(self.entries[i] == old(self).entries[i]);
                }
            }
        }
        Ok(prefix)
    }

    /// The declarations of the document: the framework namespaces, then the
    /// registered ones in the order of their registration. This is the order
    /// of the list that the start of the root carries. One prefix may stand
    /// in it more than once, with different URIs: for two registered paths
    /// with the same last segment, or for a path whose last segment is `fx`,
    /// `s` or `mx`. An XML writer that binds a prefix once keeps the first.
    pub fn declarations(&self) -> (r: Vec<NamespaceDecl>)
        requires
            self.wf(),
        ensures
            declarations_view(r) == spec_declarations(self@),
    {
        let mut out: Vec<NamespaceDecl> = Vec::new();
        out.push(
            NamespaceDecl {
                prefix: String::from_str("fx"),
                uri: String::from_str("http://ns.adobe.com/mxml/2009"),
            },
        );
        out.push(
            NamespaceDecl {
                prefix: String::from_str("s"),
                uri: String::from_str("library://ns.adobe.com/flex/spark"),
            },
        );
        out.push(
            NamespaceDecl {
                prefix: String::from_str("mx"),
                uri: String::from_str("library://ns.adobe.com/flex/mx"),
            },
        );
        let mut i: usize = 0;
        while i < self.entries.len()
            invariant
                i <= self.entries.len(),
                self.wf(),
                out.len() == 3 + i,
                forall|k: int| 0 <= k < 3 ==> out[k]@ == spec_framework_declarations()[k],
                forall|k: int|
                    0 <= k < i ==> out[3 + k]@ == (
                        spec_path_prefix(self@[k]),
                        spec_path_uri(self@[k]),
                    ),
            decreases self.entries.len() - i,
        {
            let entry = &self.entries[i];
            assert(!spec_is_fixed(self@[i as int]));
            out.push(NamespaceDecl { prefix: entry.prefix.clone(), uri: entry.uri.clone() });
            i += 1;
        }
        out
    }
}

} // verus!
