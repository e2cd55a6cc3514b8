use vstd::prelude::*;

verus! {

/// The possible types of file system entries that the walker reports.
#[derive(Debug, Clone, Copy, PartialEq, Eq, Structural)]
pub enum FileSystemEntryType {
    File,
    Directory,
}

/// One node of a directory-tree snapshot.
///
/// Paths are byte strings (the bytes of the platform path, with `/` as the
/// separator). A `File` whose `content` is `None` is one whose bytes could
/// not be read; a `Directory` whose `children` is `None` is one whose
/// listing could not be read. `Other` stands for an entry that is neither a
/// regular file nor a directory (a symbolic link, a device): the walker
/// skips it without reporting it.
pub enum FsNode {
    File { path: Vec<u8>, content: Option<Vec<u8>> },
    Directory(FsDirectory),
    Other { path: Vec<u8> },
}

/// A directory node: its path and its children, in the order the
/// underlying enumeration yielded them, or `None` if the listing failed.
pub struct FsDirectory {
    pub path: Vec<u8>,
    pub children: Option<Vec<FsNode>>,
}

/// The status of a root path handed to the orchestrator: missing, present
/// but not a directory, or a directory with its snapshot.
pub enum RootSnapshot {
    Missing,
    NotDirectory,
    Root(FsDirectory),
}

/// The possible errors that can occur when processing file system entries.
#[derive(Debug, Clone, Copy, PartialEq, Eq, Structural)]
pub enum FileSystemEntryError {
    NotFound,
    NotADirectory,
    AlreadyExists,
    InvalidInput,
    IoError,
}

/// A wrapper around `Result` with our error type.
pub type FileSystemEntryResult<T> = Result<T, FileSystemEntryError>;

/// A file system entry as handed to a processor: its path, its type, and,
/// for a file, its bytes (`None` when reading them would fail).
pub struct FileSystemEntry {
    pub path: Vec<u8>,
    pub entry_type: FileSystemEntryType,
    pub content: Option<Vec<u8>>,
}

/// The mathematical value of a `FileSystemEntry`.
#[verifier::ext_equal]
pub ghost struct EntryView {
    pub path: Seq<u8>,
    pub entry_type: FileSystemEntryType,
    pub content: Option<Seq<u8>>,
}

impl View for FileSystemEntry {
    type V = EntryView;

    open spec fn view(&self) -> EntryView {
        EntryView {
            path: self.path@,
            entry_type: self.entry_type,
            content: match self.content {
                Some(c) => Some(c@),
                None => None,
            },
        }
    }
}

/// The entry that the walker reports for a node (not defined for `Other`
/// nodes, which are skipped).
pub open spec fn node_entry_view(node: FsNode) -> EntryView {
    match node {
        FsNode::File { path, content } => EntryView {
            path: path@,
            entry_type: FileSystemEntryType::File,
            content: match content {
                Some(c) => Some(c@),
                None => None,
            },
        },
        FsNode::Directory(d) => EntryView {
            path: d.path@,
            entry_type: FileSystemEntryType::Directory,
            content: None,
        },
        FsNode::Other { .. } => arbitrary(),
    }
}

/// A processor of file system entries. The walker invokes `process_entry`
/// once per visited entry, in pre-order.
///
/// Each implementation gives its own abstract state (`Model`) and its own
/// transition (`step`): from the state before the call and the entry, the
/// state after the call and the error, if any. `process_entry` must follow
/// that transition exactly, which lets the walker's contract describe a
/// whole traversal as a fold of `step` over the visited entries.
pub trait FileSystemEntryProcessor: Sized {
    type Model;

    /// The abstract state of the processor.
    spec fn model(&self) -> Self::Model;

    /// The transition: state after processing `entry`, and the error if the
    /// processor fails on it.
    spec fn step(m: Self::Model, entry: EntryView) -> (Self::Model, Option<FileSystemEntryError>);

    /// Process one entry.
    fn process_entry(&mut self, entry: &FileSystemEntry) -> (r: FileSystemEntryResult<()>)
        ensures
            ({
                let (m2, e) = Self::step(old(self).model(), entry@);
                &&& final(self).model() == m2
                &&& match e {
                    None => r is Ok,
                    Some(err) => r == FileSystemEntryResult::<()>::Err(err),
                }
            }),
    ;
}

/// The state a processor reaches by walking one node (pre-order), and the
/// error that aborts the walk, if any.
pub open spec fn walk_node_spec<P: FileSystemEntryProcessor>(
    m: P::Model,
    node: FsNode,
) -> (P::Model, Option<FileSystemEntryError>)
    decreases node, 0int,
{
    match node {
        FsNode::Other { .. } => (m, None),
        FsNode::File { .. } => P::step(m, node_entry_view(node)),
        FsNode::Directory(d) => {
            let (m1, e1) = P::step(m, node_entry_view(node));
            if e1 is Some {
                (m1, e1)
            } else {
                match d.children {
                    None => (m1, Some(FileSystemEntryError::IoError)),
                    Some(kids) => walk_nodes_spec::<P>(m1, kids@, 0),
                }
            }
        },
    }
}

/// The state a processor reaches by walking the nodes of `nodes` from index
/// `i` on, aborting at the first error.
pub open spec fn walk_nodes_spec<P: FileSystemEntryProcessor>(
    m: P::Model,
    nodes: Seq<FsNode>,
    i: int,
) -> (P::Model, Option<FileSystemEntryError>)
    decreases nodes, nodes.len() - i,
{
    if i < 0 || i >= nodes.len() {
        (m, None)
    } else {
        let (m1, e1) = walk_node_spec::<P>(m, nodes[i]);
        if e1 is Some {
            (m1, e1)
        } else {
            walk_nodes_spec::<P>(m1, nodes, i + 1)
        }
    }
}

/// The state a processor reaches by walking the children of a directory:
/// what `FileSystemWalker::walk_directory` does.
pub open spec fn walk_directory_spec<P: FileSystemEntryProcessor>(
    m: P::Model,
    dir: FsDirectory,
) -> (P::Model, Option<FileSystemEntryError>) {
    match dir.children {
        None => (m, Some(FileSystemEntryError::IoError)),
        Some(kids) => walk_nodes_spec::<P>(m, kids@, 0),
    }
}

/// A recursive file system walker over a directory snapshot.
///
/// It owns its processor for the duration of a walk; the caller takes the
/// processor back through the public field when the walk is done.
pub struct FileSystemWalker<P: FileSystemEntryProcessor> {
    pub processor: P,
}

impl<P: FileSystemEntryProcessor> FileSystemWalker<P> {
    pub fn new(processor: P) -> (r: Self)
        ensures
            r.processor == processor,
    {
        Self { processor }
    }

    /// Walk the children of `dir` in depth-first pre-order: classify each
    /// child, skip the ones that are neither files nor directories, hand
    /// every other one to the processor, and recurse into directories.
    /// The first failure — of the processor, or an unreadable directory
    /// listing — aborts the walk.
    #[verifier::loop_isolation(false)]
    pub fn walk_directory(&mut self, dir: &FsDirectory) -> (r: FileSystemEntryResult<()>)
        ensures
            ({
                let (m2, e) = walk_directory_spec::<P>(old(self).processor.model(), *dir);
                &&& final(self).processor.model() == m2
                &&& match e {
                    None => r is Ok,
                    Some(err) => r == FileSystemEntryResult::<()>::Err(err),
                }
            }),
        decreases *dir, 0int,
    {
        match &dir.children {
            None => Err(FileSystemEntryError::IoError),
            Some(kids) => {
                let ghost m0 = self.processor.model();
                proof {
                    assert(dir.children == Some(*kids));
                    assert(walk_directory_spec::<P>(m0, *dir) == walk_nodes_spec::<P>(
                        m0,
                        kids@,
                        0,
                    ));
                }
                let mut i: usize = 0;
                while i < kids.len()
                    invariant
                        0 <= i <= kids.len(),
                        walk_nodes_spec::<P>(m0, kids@, 0) == walk_nodes_spec::<P>(
                            self.processor.model(),
                            kids@,
                            i as int,
                        ),
                    decreases kids.len() - i,
                {
                    let ghost m_pre = self.processor.model();
                    let node = &kids[i];
                    match node {
                        FsNode::Other { .. } => {
                            assert(walk_node_spec::<P>(m_pre, kids@[i as int]) == (
                                m_pre,
                                None::<FileSystemEntryError>,
                            ));
                        },
                        FsNode::File { path, content } => {
                            let entry = FileSystemEntry {
                                path: copy_bytes(path),
                                entry_type: FileSystemEntryType::File,
                                content: match content {
                                    Some(c) => Some(copy_bytes(c)),
                                    None => None,
                                },
                            };
                            assert(entry@ =~= node_entry_view(kids@[i as int]));
                            let res = self.processor.process_entry(&entry);
                            proof {
                                assert(walk_node_spec::<P>(m_pre, kids@[i as int]) == P::step(
                                    m_pre,
                                    node_entry_view(kids@[i as int]),
                                ));
                            }
                            if let Err(e) = res {
                                assert(walk_nodes_spec::<P>(m_pre, kids@, i as int) == (
                                    self.processor.model(),
                                    Some(e),
                                ));
                                return Err(e);
                            }
                        },
                        FsNode::Directory(d) => {
                            let entry = FileSystemEntry {
                                path: copy_bytes(&d.path),
                                entry_type: FileSystemEntryType::Directory,
                                content: None,
                            };
                            assert(entry@ =~= node_entry_view(kids@[i as int]));
                            let res = self.processor.process_entry(&entry);
                            if let Err(e) = res {
                                assert(walk_node_spec::<P>(m_pre, kids@[i as int]) == (
                                    self.processor.model(),
                                    Some(e),
                                ));
                                assert(walk_nodes_spec::<P>(m_pre, kids@, i as int) == (
                                    self.processor.model(),
                                    Some(e),
                                ));
                                return Err(e);
                            }
                            let ghost m_mid = self.processor.model();
                            proof {
                                assert(kids@[i as int] == FsNode::Directory(*d));
                                assert(decreases_to!(*dir => dir.children));
                                assert(decreases_to!(dir.children => dir.children->Some_0));
                                assert(dir.children->Some_0 == *kids);
                                assert(decreases_to!(*kids => kids@));
                                assert(decreases_to!(kids@ => kids@[i as int]));
                                assert(decreases_to!(kids@[i as int] => kids@[i as int]->Directory_0));
                                assert(kids@[i as int]->Directory_0 == *d);
                                assert(decreases_to!(*dir => *d));
                            }
                            let res2 = self.walk_directory(d);
                            proof {
                                assert(walk_node_spec::<P>(m_pre, kids@[i as int])
                                    == walk_directory_spec::<P>(m_mid, *d));
                            }
                            if let Err(e) = res2 {
                                assert(walk_nodes_spec::<P>(m_pre, kids@, i as int) == (
                                    self.processor.model(),
                                    Some(e),
                                ));
                                return Err(e);
                            }
                        },
                    }
                    proof {
                        assert(walk_nodes_spec::<P>(m_pre, kids@, i as int) == walk_nodes_spec::<P>(
                            self.processor.model(),
                            kids@,
                            i as int + 1,
                        ));
                    }
                    i = i + 1;
                }
                Ok(())
            },
        }
    }
}

/// A fresh vector holding the same bytes.
pub fn copy_bytes(v: &Vec<u8>) -> (r: Vec<u8>)
    ensures
        r@ == v@,
{
    let mut r: Vec<u8> = Vec::new();
    let mut i: usize = 0;
    while i < v.len()
        invariant
            0 <= i <= v.len(),
            r@ == v@.take(i as int),
        decreases v.len() - i,
    {
        r.push(v[i]);
        assert(r@ =~= v@.take(i as int + 1));
        i = i + 1;
    }
    assert(r@ =~= v@);
    r
}

} // verus!
