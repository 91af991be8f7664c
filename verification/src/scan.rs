//! Media library scanner: turns a finished directory walk into a tree of
//! directories and the video files directly inside each of them.
//!
//! The walk itself (the filesystem reads) is the caller's: it hands the
//! scanner the sorted sequence of entries it enumerated, or the error
//! that aborted the enumeration. Everything from there on is verified:
//! hidden entries are excluded with their whole subtrees, files are kept
//! only with a recognized video extension, and the resulting tree is the
//! unique one that `represents` describes.

use vstd::prelude::*;

use crate::classifier::is_video_ext;
use crate::classifier::is_video_file;
use crate::paths::basename;
use crate::paths::basename_of;
use crate::paths::extension;
use crate::paths::extension_of;
use crate::paths::is_hidden;
use crate::paths::lemma_child_path_longer;
use crate::paths::parent;
use crate::paths::parent_of;
use crate::paths::starts_with_dot;

verus! {

/// The kind of one directory-walk entry.
#[derive(Clone, Copy)]
pub enum EntryKind {
    Directory,
    File,
}

/// One entry of a directory walk: an absolute path and whether it names a
/// directory or a file.
pub struct WalkEntry {
    pub path: String,
    pub kind: EntryKind,
}

/// A scan failure: any I/O failure while enumerating the tree aborts the
/// whole scan, and no partial tree is returned.
pub enum ScanError {
    IoFailure(String),
}

/// One directory of the scanned tree: its display name, its path, the
/// video file names directly inside it (in walk order) and its child
/// directories (in order of first appearance in the walk).
pub struct MediaDirectoryStructure {
    pub name: String,
    pub path: String,
    pub files: Vec<String>,
    pub subdirectories: Vec<MediaDirectoryStructure>,
}

impl MediaDirectoryStructure {
    /// An empty node with the given display name and path.
    pub fn new(name: String, path: String) -> (r: Self)
        ensures
            r.name == name,
            r.path == path,
            r.files@ == Seq::<String>::empty(),
            r.subdirectories@ == Seq::<MediaDirectoryStructure>::empty(),
    {
        Self { name, path, files: Vec::new(), subdirectories: Vec::new() }
    }
}

/// A walk entry whose file the scan keeps: a file, not hidden, and with a
/// recognized video extension. A file without an extension is skipped,
/// never an error.
pub open spec fn keeps_file(e: WalkEntry) -> bool {
    &&& e.kind is File
    &&& !is_hidden(basename_of(e.path@))
    &&& match extension_of(basename_of(e.path@)) {
        Some(x) => is_video_ext(x),
        None => false,
    }
}

/// A walk entry that the scan materializes as a directory: a directory,
/// not hidden, and not the root itself (the root is materialized up
/// front, so its own walk entry adds nothing).
pub open spec fn keeps_dir(e: WalkEntry, root: Seq<char>) -> bool {
    &&& e.kind is Directory
    &&& !is_hidden(basename_of(e.path@))
    &&& e.path@ != root
}

/// The kept file names directly under directory `p`, in walk order.
pub open spec fn files_under(entries: Seq<WalkEntry>, p: Seq<char>) -> Seq<Seq<char>>
    decreases entries.len(),
{
    if entries.len() == 0 {
        Seq::empty()
    } else {
        let prefix = files_under(entries.drop_last(), p);
        let e = entries.last();
        if keeps_file(e) && parent_of(e.path@) == p {
            prefix.push(basename_of(e.path@))
        } else {
            prefix
        }
    }
}

/// The paths of the kept directories directly under `p`, in order of
/// first appearance in the walk, each at most once.
pub open spec fn child_dirs(entries: Seq<WalkEntry>, root: Seq<char>, p: Seq<char>) -> Seq<
    Seq<char>,
>
    decreases entries.len(),
{
    if entries.len() == 0 {
        Seq::empty()
    } else {
        let prefix = child_dirs(entries.drop_last(), root, p);
        let e = entries.last();
        if keeps_dir(e, root) && parent_of(e.path@) == p && e.path@ != p && !prefix.contains(
            e.path@,
        ) {
            prefix.push(e.path@)
        } else {
            prefix
        }
    }
}

/// The display name of the node at path `p`: the base name, or the whole
/// path when it has no base-name component (a filesystem root).
pub open spec fn display_name_of(p: Seq<char>) -> Seq<char> {
    if basename_of(p).len() == 0 {
        p
    } else {
        basename_of(p)
    }
}

/// `node` is exactly the scan result for the directory at `p`: the right
/// name and path, its files the kept file entries directly under `p` in
/// walk order, and its subdirectories, in order of first appearance, the
/// scan results for the kept directory entries directly under `p`.
pub open spec fn represents(
    entries: Seq<WalkEntry>,
    root: Seq<char>,
    p: Seq<char>,
    node: MediaDirectoryStructure,
) -> bool
    decreases node,
{
    &&& node.path@ == p
    &&& node.name@ == display_name_of(p)
    &&& node.files@.map_values(|f: String| f@) == files_under(entries, p)
    &&& node.subdirectories@.len() == child_dirs(entries, root, p).len()
    &&& forall|i: int|
        0 <= i < node.subdirectories@.len() ==> represents(
            entries,
            root,
            child_dirs(entries, root, p)[i],
            #[trigger] node.subdirectories[i],
        )
}

/// Two scan results are the same tree: same name and path, the same
/// files in the same order, and, recursively, the same subdirectories in
/// the same order.
pub open spec fn same_tree(a: MediaDirectoryStructure, b: MediaDirectoryStructure) -> bool
    decreases a,
{
    &&& a.name@ == b.name@
    &&& a.path@ == b.path@
    &&& a.files@.map_values(|f: String| f@) == b.files@.map_values(|f: String| f@)
    &&& a.subdirectories@.len() == b.subdirectories@.len()
    &&& forall|i: int|
        0 <= i < a.subdirectories@.len() ==> same_tree(
            #[trigger] a.subdirectories[i],
            b.subdirectories[i],
        )
}

/// Scanning is deterministic: any two results for the same walk of an
/// unchanged tree are the same tree, with identical ordering of `files`
/// and `subdirectories` at every level.
pub proof fn lemma_scan_deterministic(
    entries: Seq<WalkEntry>,
    root: Seq<char>,
    p: Seq<char>,
    a: MediaDirectoryStructure,
    b: MediaDirectoryStructure,
)
    requires
        represents(entries, root, p, a),
        represents(entries, root, p, b),
    ensures
        same_tree(a, b),
    decreases a,
{
    assert forall|i: int| 0 <= i < a.subdirectories@.len() implies same_tree(
        #[trigger] a.subdirectories[i],
        b.subdirectories[i],
    ) by {
        lemma_scan_deterministic(
            entries,
            root,
            child_dirs(entries, root, p)[i],
            a.subdirectories[i],
            b.subdirectories[i],
        );
    }
}

/// Every node of the tree passed the filters: each file name is
/// non-hidden and has a recognized video extension, and each
/// subdirectory, recursively of the same shape, has a non-hidden name.
pub open spec fn tree_filtered(node: MediaDirectoryStructure) -> bool
    decreases node,
{
    &&& forall|i: int| 0 <= i < node.files@.len() ==> !is_hidden(#[trigger] node.files[i]@)
    &&& forall|i: int|
        0 <= i < node.files@.len() ==> (extension_of(#[trigger] node.files[i]@) matches Some(x)
            && is_video_ext(x))
    &&& forall|i: int|
        0 <= i < node.subdirectories@.len() ==> !is_hidden(
            basename_of(#[trigger] node.subdirectories[i].path@),
        )
    &&& forall|i: int|
        0 <= i < node.subdirectories@.len() ==> tree_filtered(#[trigger] node.subdirectories[i])
}

proof fn lemma_files_under_members(entries: Seq<WalkEntry>, p: Seq<char>)
    ensures
        forall|i: int|
            0 <= i < files_under(entries, p).len() ==> !is_hidden(
                #[trigger] files_under(entries, p)[i],
            ) && (extension_of(files_under(entries, p)[i]) matches Some(x) && is_video_ext(x)),
    decreases entries.len(),
{
    if entries.len() > 0 {
        lemma_files_under_members(entries.drop_last(), p);
    }
}

proof fn lemma_child_dirs_members(entries: Seq<WalkEntry>, root: Seq<char>, p: Seq<char>)
    ensures
        forall|i: int|
            0 <= i < child_dirs(entries, root, p).len() ==> !is_hidden(
                basename_of(#[trigger] child_dirs(entries, root, p)[i]),
            ),
        forall|i: int|
            0 <= i < child_dirs(entries, root, p).len() ==> parent_of(
                #[trigger] child_dirs(entries, root, p)[i],
            ) == p,
        forall|i: int, j: int|
            0 <= i < j < child_dirs(entries, root, p).len() ==> #[trigger] child_dirs(
                entries,
                root,
                p,
            )[i] != #[trigger] child_dirs(entries, root, p)[j],
    decreases entries.len(),
{
    if entries.len() > 0 {
        lemma_child_dirs_members(entries.drop_last(), root, p);
        let prefix = child_dirs(entries.drop_last(), root, p);
        let e = entries.last();
        if keeps_dir(e, root) && parent_of(e.path@) == p && e.path@ != p && !prefix.contains(
            e.path@,
        ) {
            assert forall|i: int| 0 <= i < child_dirs(entries, root, p).len() implies !is_hidden(
                basename_of(#[trigger] child_dirs(entries, root, p)[i]),
            ) && parent_of(child_dirs(entries, root, p)[i]) == p by {
                if i < prefix.len() {
                    assert(child_dirs(entries, root, p)[i] == prefix[i]);
                } else {
                    assert(child_dirs(entries, root, p)[i] == e.path@);
                }
            }
            assert forall|i: int, j: int|
                0 <= i < j < child_dirs(entries, root, p).len() implies #[trigger] child_dirs(
                entries,
                root,
                p,
            )[i] != #[trigger] child_dirs(entries, root, p)[j] by {
                if j < prefix.len() {
                    assert(prefix[i] != prefix[j]);
                } else {
                    assert(child_dirs(entries, root, p)[i] == prefix[i]);
                    assert(child_dirs(entries, root, p)[j] == e.path@);
                    if prefix[i] == e.path@ {
                        assert(prefix.contains(e.path@));
                    }
                }
            }
        }
    }
}

/// Every node's `subdirectories` holds exactly children of that node:
/// each child's path has the node's path as its parent, no two siblings
/// share a path, and recursively so — the result is a tree, not a graph.
pub open spec fn tree_well_formed(node: MediaDirectoryStructure) -> bool
    decreases node,
{
    &&& forall|i: int|
        0 <= i < node.subdirectories@.len() ==> parent_of(
            #[trigger] node.subdirectories[i].path@,
        ) == node.path@
    &&& forall|i: int, j: int|
        0 <= i < j < node.subdirectories@.len() ==> (#[trigger] node.subdirectories[i]).path@ != (
        #[trigger] node.subdirectories[j]).path@
    &&& forall|i: int|
        0 <= i < node.subdirectories@.len() ==> tree_well_formed(
            #[trigger] node.subdirectories[i],
        )
}

/// Structure: a scan result is a well-formed tree in the sense of
/// `tree_well_formed`.
pub proof fn lemma_scan_well_formed(
    entries: Seq<WalkEntry>,
    root: Seq<char>,
    p: Seq<char>,
    node: MediaDirectoryStructure,
)
    requires
        represents(entries, root, p, node),
    ensures
        tree_well_formed(node),
    decreases node,
{
    lemma_child_dirs_members(entries, root, p);
    assert forall|i: int| 0 <= i < node.subdirectories@.len() implies parent_of(
        #[trigger] node.subdirectories[i].path@,
    ) == node.path@ by {
        assert(represents(entries, root, child_dirs(entries, root, p)[i], node.subdirectories[i]));
    }
    assert forall|i: int, j: int| 0 <= i < j < node.subdirectories@.len() implies (
    #[trigger] node.subdirectories[i]).path@ != (#[trigger] node.subdirectories[j]).path@ by {
        assert(represents(entries, root, child_dirs(entries, root, p)[i], node.subdirectories[i]));
        assert(represents(entries, root, child_dirs(entries, root, p)[j], node.subdirectories[j]));
    }
    assert forall|i: int| 0 <= i < node.subdirectories@.len() implies tree_well_formed(
        #[trigger] node.subdirectories[i],
    ) by {
        assert(represents(entries, root, child_dirs(entries, root, p)[i], node.subdirectories[i]));
        lemma_scan_well_formed(
            entries,
            root,
            child_dirs(entries, root, p)[i],
            node.subdirectories[i],
        );
    }
}

/// Exclusion: a scan result never holds a hidden entry, anywhere in the
/// tree, and never a file that did not match the video allow-list. A
/// hidden directory's whole subtree is absent, since children are only
/// ever looked for under materialized directories.
pub proof fn lemma_scan_filtered(
    entries: Seq<WalkEntry>,
    root: Seq<char>,
    p: Seq<char>,
    node: MediaDirectoryStructure,
)
    requires
        represents(entries, root, p, node),
    ensures
        tree_filtered(node),
    decreases node,
{
    lemma_files_under_members(entries, p);
    lemma_child_dirs_members(entries, root, p);
    assert forall|i: int| 0 <= i < node.files@.len() implies !is_hidden(#[trigger] node.files[i]@)
        && (extension_of(node.files[i]@) matches Some(x) && is_video_ext(x)) by {
        assert(node.files[i]@ == node.files@.map_values(|f: String| f@)[i]);
    }
    assert forall|i: int| 0 <= i < node.subdirectories@.len() implies !is_hidden(
        basename_of(#[trigger] node.subdirectories[i].path@),
    ) by {
        assert(represents(entries, root, child_dirs(entries, root, p)[i], node.subdirectories[i]));
    }
    assert forall|i: int| 0 <= i < node.subdirectories@.len() implies tree_filtered(
        #[trigger] node.subdirectories[i],
    ) by {
        assert(represents(entries, root, child_dirs(entries, root, p)[i], node.subdirectories[i]));
        lemma_scan_filtered(entries, root, child_dirs(entries, root, p)[i], node.subdirectories[i]);
    }
}

/// An upper bound on the path lengths among `entries`.
pub open spec fn max_path_len(entries: Seq<WalkEntry>) -> int
    decreases entries.len(),
{
    if entries.len() == 0 {
        0
    } else {
        let m = max_path_len(entries.drop_last());
        let l = entries.last().path@.len() as int;
        if l > m {
            l
        } else {
            m
        }
    }
}

proof fn lemma_max_path_len(entries: Seq<WalkEntry>)
    ensures
        forall|k: int| 0 <= k < entries.len() ==> #[trigger] entries[k].path@.len()
            <= max_path_len(entries),
    decreases entries.len(),
{
    if entries.len() > 0 {
        lemma_max_path_len(entries.drop_last());
        assert forall|k: int|
            0 <= k < entries.len() implies #[trigger] entries[k].path@.len() <= max_path_len(
            entries,
        ) by {
            if k < entries.len() - 1 {
                assert(entries.drop_last()[k] == entries[k]);
                assert(entries.drop_last()[k].path@.len() <= max_path_len(entries.drop_last()));
            } else {
                assert(entries[k] == entries.last());
            }
        }
    }
}

/// Builds the scan result for the directory at `p` out of the walk's
/// entries. `n` bounds every path length involved, so that descending
/// into a child, whose path is strictly longer, terminates.
fn build_node(root: &String, p: &String, entries: &Vec<WalkEntry>, n: Ghost<int>) -> (node:
    MediaDirectoryStructure)
    requires
        p@.len() < n@,
        forall|k: int| 0 <= k < entries@.len() ==> #[trigger] entries@[k].path@.len() < n@,
    ensures
        represents(entries@, root@, p@, node),
    decreases n@ - p@.len(),
{
    let b = basename(p.as_str());
    let name = if b.unicode_len() == 0 {
        p.clone()
    } else {
        b
    };
    let mut node = MediaDirectoryStructure::new(name, p.clone());

    let mut i: usize = 0;
    while i < entries.len()
        invariant
            i <= entries@.len(),
            node.path@ == p@,
            node.name@ == display_name_of(p@),
            node.subdirectories@.len() == 0,
            node.files@.map_values(|f: String| f@) == files_under(entries@.take(i as int), p@),
        decreases entries@.len() - i,
    {
        let e = &entries[i];
        let ghost prev = node.files@.map_values(|f: String| f@);
        let keep: bool = match e.kind {
            EntryKind::File => {
                let bn = basename(e.path.as_str());
                if !starts_with_dot(bn.as_str()) {
                    match extension(bn.as_str()) {
                        Some(x) => is_video_file(x.as_str()) && parent(e.path.as_str()) == *p,
                        None => false,
                    }
                } else {
                    false
                }
            },
            EntryKind::Directory => false,
        };
        if keep {
            node.files.push(basename(e.path.as_str()));
        }
        i = i + 1;
        proof {
            let taken = entries@.take(i as int);
            assert(taken.drop_last() =~= entries@.take(i - 1));
            assert(taken.last() == entries@[i - 1]);
            if keep {
                assert(node.files@.map_values(|f: String| f@) =~= prev.push(
                    basename_of(e.path@),
                ));
            }
        }
    }
    proof {
        assert(entries@.take(entries@.len() as int) =~= entries@);
    }

    let mut j: usize = 0;
    while j < entries.len()
        invariant
            j <= entries@.len(),
            p@.len() < n@,
            forall|k: int| 0 <= k < entries@.len() ==> #[trigger] entries@[k].path@.len() < n@,
            node.files@.map_values(|f: String| f@) == files_under(entries@, p@),
            node.path@ == p@,
            node.name@ == display_name_of(p@),
            node.subdirectories@.len() == child_dirs(entries@.take(j as int), root@, p@).len(),
            forall|k: int|
                0 <= k < node.subdirectories@.len() ==> #[trigger] node.subdirectories[k].path@
                    == child_dirs(entries@.take(j as int), root@, p@)[k],
            forall|k: int|
                0 <= k < node.subdirectories@.len() ==> represents(
                    entries@,
                    root@,
                    child_dirs(entries@.take(j as int), root@, p@)[k],
                    #[trigger] node.subdirectories[k],
                ),
        decreases entries@.len() - j,
    {
        let e = &entries[j];
        let ghost cd_prev = child_dirs(entries@.take(j as int), root@, p@);
        let keep: bool = match e.kind {
            EntryKind::Directory => {
                let bn = basename(e.path.as_str());
                !starts_with_dot(bn.as_str()) && e.path != *root && e.path != *p && parent(
                    e.path.as_str(),
                ) == *p
            },
            EntryKind::File => false,
        };
        if keep {
            let mut dup = false;
            let mut t: usize = 0;
            while t < node.subdirectories.len()
                invariant
                    t <= node.subdirectories@.len(),
                    dup <==> exists|u: int|
                        0 <= u < t && #[trigger] node.subdirectories[u].path@ == e.path@,
                decreases node.subdirectories@.len() - t,
            {
                if node.subdirectories[t].path == e.path {
                    dup = true;
                }
                t = t + 1;
            }
            proof {
                if dup {
                    let u = choose|u: int|
                        0 <= u < node.subdirectories@.len()
                            && #[trigger] node.subdirectories[u].path@ == e.path@;
                    assert(cd_prev[u] == e.path@);
                    assert(cd_prev.contains(e.path@));
                } else {
                    if cd_prev.contains(e.path@) {
                        let k = choose|k: int| 0 <= k < cd_prev.len() && cd_prev[k] == e.path@;
                        assert(node.subdirectories[k].path@ == e.path@);
                    }
                }
            }
            if !dup {
                proof {
                    lemma_child_path_longer(e.path@, p@);
                }
                let child = build_node(root, &e.path, entries, n);
                node.subdirectories.push(child);
            }
        }
        j = j + 1;
        proof {
            let taken = entries@.take(j as int);
            assert(taken.drop_last() =~= entries@.take(j - 1));
            assert(taken.last() == entries@[j - 1]);
        }
    }
    proof {
        assert(entries@.take(entries@.len() as int) =~= entries@);
    }
    node
}

/// Builds the scan's tree for root `root_path` from the entries that a
/// complete, successful walk of it produced.
pub fn scan_entries(root_path: &String, entries: &Vec<WalkEntry>) -> (r: MediaDirectoryStructure)
    ensures
        represents(entries@, root_path@, root_path@, r),
{
    let ghost m = max_path_len(entries@);
    let ghost n = if m > root_path@.len() as int {
        m + 1
    } else {
        root_path@.len() as int + 1
    };
    proof {
        lemma_max_path_len(entries@);
    }
    build_node(root_path, root_path, entries, Ghost(n))
}

/// The scan itself, given the outcome of the walk: a failed enumeration
/// aborts the whole scan as `IoFailure` and no partial tree is returned;
/// a successful one always yields the tree that `represents` describes.
pub fn scan_outcome(root_path: &String, walk: Result<Vec<WalkEntry>, String>) -> (r: Result<
    MediaDirectoryStructure,
    ScanError,
>)
    ensures
        match walk {
            Ok(entries) => r is Ok && represents(entries@, root_path@, root_path@, r->Ok_0),
            Err(m) => r == Err::<MediaDirectoryStructure, ScanError>(ScanError::IoFailure(m)),
        },
{
    match walk {
        Ok(entries) => Ok(scan_entries(root_path, &entries)),
        Err(m) => Err(ScanError::IoFailure(m)),
    }
}

} // verus!
