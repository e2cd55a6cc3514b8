use vstd::prelude::*;

use crate::digits::{dec_bytes, push_decimal};
use crate::filesystem_walker::{
    EntryView, FileSystemEntry, FileSystemEntryError, FileSystemEntryProcessor,
    FileSystemEntryResult, FileSystemEntryType, FsDirectory, FsNode, walk_directory_spec,
    walk_node_spec, walk_nodes_spec,
};

verus! {

// ---------------------------------------------------------------------------
// File extensions
//
// A path is a byte string with `/` as the separator. The extension of a path
// is the part of its final component after the last dot, where a dot at the
// very start of the component (a hidden file) does not count.
// ---------------------------------------------------------------------------

/// Index where the final path component starts: just after the last `/`.
pub open spec fn last_sep_end(path: Seq<u8>) -> int
    decreases path.len(),
{
    if path.len() == 0 {
        0
    } else if path.last() == 47 {
        path.len() as int
    } else {
        last_sep_end(path.drop_last())
    }
}

/// Index of the last dot of a file name, where a dot at the very start
/// names no extension.
pub open spec fn last_dot(name: Seq<u8>) -> Option<int>
    decreases name.len(),
{
    if name.len() <= 1 {
        None
    } else if name.last() == 46 {
        Some(name.len() - 1)
    } else {
        last_dot(name.drop_last())
    }
}

/// The extension of a path, if it has one.
pub open spec fn ext_of(path: Seq<u8>) -> Option<Seq<u8>> {
    let name = path.subrange(last_sep_end(path), path.len() as int);
    match last_dot(name) {
        None => None,
        Some(j) => Some(name.subrange(j + 1, name.len() as int)),
    }
}

pub proof fn lemma_last_sep_end_bounds(path: Seq<u8>)
    ensures
        0 <= last_sep_end(path) <= path.len(),
    decreases path.len(),
{
    if path.len() > 0 && path.last() != 47 {
        lemma_last_sep_end_bounds(path.drop_last());
    }
}

/// Where the suffix from `i` on holds no separator and `i` sits just after
/// a separator (or at the start), the final component starts at `i`.
proof fn lemma_last_sep_end_at(path: Seq<u8>, i: int)
    requires
        0 <= i <= path.len(),
        forall|k: int| i <= k < path.len() ==> path[k] != 47,
        i == 0 || path[i - 1] == 47,
    ensures
        last_sep_end(path) == i,
    decreases path.len(),
{
    if path.len() == 0 {
    } else if path.last() == 47 {
        assert(i == path.len());
    } else {
        assert(i < path.len());
        lemma_last_sep_end_at(path.drop_last(), i);
    }
}

/// Where a name holds no dot past its first byte, it has no extension.
proof fn lemma_last_dot_none(name: Seq<u8>)
    requires
        forall|k: int| 1 <= k < name.len() ==> name[k] != 46,
    ensures
        last_dot(name) is None,
    decreases name.len(),
{
    if name.len() > 1 {
        lemma_last_dot_none(name.drop_last());
    }
}

/// Where `j` past the first byte holds a dot and no later byte does, the
/// last dot sits at `j`.
proof fn lemma_last_dot_at(name: Seq<u8>, j: int)
    requires
        1 <= j < name.len(),
        name[j] == 46,
        forall|k: int| j < k < name.len() ==> name[k] != 46,
    ensures
        last_dot(name) == Some(j),
    decreases name.len(),
{
    if j == name.len() - 1 {
    } else {
        lemma_last_dot_at(name.drop_last(), j);
    }
}

/// Whether the extension of `path` is exactly `ext`.
#[verifier::loop_isolation(false)]
pub fn extension_matches(path: &Vec<u8>, ext: &Vec<u8>) -> (r: bool)
    ensures
        r == (ext_of(path@) == Some(ext@)),
{
    proof {
        lemma_last_sep_end_bounds(path@);
    }
    // Find the start of the final component.
    let mut comp_start: usize = path.len();
    while comp_start > 0 && path[comp_start - 1] != 47
        invariant
            0 <= comp_start <= path.len(),
            forall|k: int| comp_start <= k < path@.len() ==> path@[k] != 47,
        decreases comp_start,
    {
        comp_start = comp_start - 1;
    }
    proof {
        lemma_last_sep_end_at(path@, comp_start as int);
    }
    let ghost name = path@.subrange(comp_start as int, path@.len() as int);
    // Find the last dot strictly after the component's first byte.
    let mut p: usize = path.len();
    while p > 0 && p - 1 > comp_start && path[p - 1] != 46
        invariant
            comp_start <= p <= path.len(),
            forall|k: int| p <= k < path@.len() ==> path@[k] != 46,
        decreases p,
    {
        p = p - 1;
    }
    if p == 0 || p - 1 <= comp_start {
        // No dot names an extension in the final component.
        proof {
            assert(forall|k: int| 1 <= k < name.len() ==> name[k] == path@[comp_start + k]
                && name[k] != 46);
            lemma_last_dot_none(name);
        }
        return false;
    }
    // The scan stopped on a dot: it sits at path index p - 1, which is name
    // index p - 1 - comp_start.
    let ghost j = p - 1 - comp_start as int;
    proof {
        assert(name[j] == path@[p - 1]);
        assert(forall|k: int| j < k < name.len() ==> name[k] == path@[comp_start + k]
            && name[k] != 46);
        lemma_last_dot_at(name, j);
        assert(ext_of(path@) == Some(name.subrange(j + 1, name.len() as int)));
        assert(name.subrange(j + 1, name.len() as int) =~= path@.subrange(
            p as int,
            path@.len() as int,
        ));
    }
    // Compare the bytes from p to the end with ext.
    if path.len() - p != ext.len() {
        proof {
            assert(path@.subrange(p as int, path@.len() as int).len() != ext@.len());
        }
        return false;
    }
    let mut k: usize = 0;
    while k < ext.len()
        invariant
            0 <= k <= ext.len(),
            p + ext.len() == path.len(),
            p <= path.len(),
            forall|t: int| 0 <= t < k ==> path@[p + t] == ext@[t],
        decreases ext.len() - k,
    {
        if path[p + k] != ext[k] {
            proof {
                assert(path@.subrange(p as int, path@.len() as int)[k as int] != ext@[k as int]);
            }
            return false;
        }
        k = k + 1;
    }
    proof {
        assert(path@.subrange(p as int, path@.len() as int) =~= ext@);
    }
    true
}

// ---------------------------------------------------------------------------
// Marker lines
// ---------------------------------------------------------------------------

/// The bytes of `// Start of file: `.
pub open spec fn start_marker_prefix() -> Seq<u8> {
    seq![
        47u8, 47u8, 32u8, 83u8, 116u8, 97u8, 114u8, 116u8, 32u8, 111u8, 102u8, 32u8, 102u8, 105u8, 108u8,
        101u8, 58u8, 32u8,
    ]
}

/// The bytes of `// End of file: `.
pub open spec fn end_marker_prefix() -> Seq<u8> {
    seq![47u8, 47u8, 32u8, 69u8, 110u8, 100u8, 32u8, 111u8, 102u8, 32u8, 102u8, 105u8, 108u8, 101u8, 58u8, 32u8]
}

/// The start-marker line for a file, newline included.
pub open spec fn start_marker(path: Seq<u8>) -> Seq<u8> {
    start_marker_prefix() + path + seq![10u8]
}

/// The end-marker line for a file, newline included.
pub open spec fn end_marker(path: Seq<u8>) -> Seq<u8> {
    end_marker_prefix() + path + seq![10u8]
}

/// Append the bytes of `v` to `out`.
pub fn append_bytes(out: &mut Vec<u8>, v: &Vec<u8>)
    ensures
        final(out)@ == old(out)@ + v@,
{
    let mut i: usize = 0;
    while i < v.len()
        invariant
            0 <= i <= v.len(),
            out@ == old(out)@ + v@.take(i as int),
        decreases v.len() - i,
    {
        out.push(v[i]);
        assert(out@ =~= old(out)@ + v@.take(i as int + 1));
        i = i + 1;
    }
    assert(out@ =~= old(out)@ + v@);
}

/// Append the start-marker line for `path` to `out`.
fn push_start_marker(out: &mut Vec<u8>, path: &Vec<u8>)
    ensures
        final(out)@ == old(out)@ + start_marker(path@),
{
    out.push(47u8);
    out.push(47u8);
    out.push(32u8);
    out.push(83u8);
    out.push(116u8);
    out.push(97u8);
    out.push(114u8);
    out.push(116u8);
    out.push(32u8);
    out.push(111u8);
    out.push(102u8);
    out.push(32u8);
    out.push(102u8);
    out.push(105u8);
    out.push(108u8);
    out.push(101u8);
    out.push(58u8);
    out.push(32u8);
    assert(out@ =~= old(out)@ + start_marker_prefix());
    append_bytes(out, path);
    out.push(10u8);
    assert(out@ =~= old(out)@ + start_marker(path@));
}

/// Append the end-marker line for `path` to `out`.
fn push_end_marker(out: &mut Vec<u8>, path: &Vec<u8>)
    ensures
        final(out)@ == old(out)@ + end_marker(path@),
{
    out.push(47u8);
    out.push(47u8);
    out.push(32u8);
    out.push(69u8);
    out.push(110u8);
    out.push(100u8);
    out.push(32u8);
    out.push(111u8);
    out.push(102u8);
    out.push(32u8);
    out.push(102u8);
    out.push(105u8);
    out.push(108u8);
    out.push(101u8);
    out.push(58u8);
    out.push(32u8);
    assert(out@ =~= old(out)@ + end_marker_prefix());
    append_bytes(out, path);
    out.push(10u8);
    assert(out@ =~= old(out)@ + end_marker(path@));
}

// ---------------------------------------------------------------------------
// The concatenating processor
// ---------------------------------------------------------------------------

/// The extension the concatenator selects: `rs`.
pub open spec fn rs_extension() -> Seq<u8> {
    seq![114u8, 115u8]
}

/// The abstract state of a `RustFileConcatenator`: whether its output
/// stream is open, the bytes written so far, the progress counter, and its
/// configuration.
#[verifier::ext_equal]
pub ghost struct ConcatModel {
    pub open: bool,
    pub out: Seq<u8>,
    pub processed: int,
    pub total: int,
    pub target_ext: Seq<u8>,
    pub path: Seq<u8>,
}

/// The transition of the concatenator on one entry.
///
/// Every entry bumps the progress counter. A file whose extension matches
/// the target, while the output is open, appends its start marker, its
/// verbatim bytes and its end marker; an unreadable such file aborts with
/// `IoError` before anything of it is written. Directories, files of other
/// extensions and files seen while the output is closed contribute nothing.
pub open spec fn concat_step(m: ConcatModel, entry: EntryView) -> (
    ConcatModel,
    Option<FileSystemEntryError>,
) {
    let m1 = ConcatModel {
        processed: if m.processed < usize::MAX as int {
            m.processed + 1
        } else {
            m.processed
        },
        ..m
    };
    match entry.entry_type {
        FileSystemEntryType::Directory => (m1, None),
        FileSystemEntryType::File => {
            if m.open && ext_of(entry.path) == Some(m.target_ext) {
                match entry.content {
                    Some(c) => (
                        ConcatModel {
                            out: m.out + start_marker(entry.path) + c + end_marker(entry.path),
                            ..m1
                        },
                        None,
                    ),
                    None => (m1, Some(FileSystemEntryError::IoError)),
                }
            } else {
                (m1, None)
            }
        },
    }
}

/// A processor that concatenates Rust files into a single output stream,
/// wrapped in per-file marker lines, and counts the entries it has seen.
pub struct RustFileConcatenator {
    pub output_file_path: Vec<u8>,
    pub output_file: Option<Vec<u8>>,
    pub num_files_processed: usize,
    pub total_num_files: usize,
    pub start_time: Option<std::time::Instant>,
    pub target_extension: Vec<u8>,
}

#[verifier::external_type_specification]
#[verifier::external_body]
pub struct ExInstant(std::time::Instant);

/// Relies on `std::time::Instant::now`: an opaque reading of the monotonic
/// clock; nothing can be promised of its value.
pub assume_specification[ std::time::Instant::now ]() -> std::time::Instant;

/// Relies on `std::time::Instant::elapsed`: the time since `start`, handed
/// on as whole seconds and the nanosecond remainder, which the standard
/// library documents to be below one billion. The value depends on the
/// clock, so nothing more is promised.
#[verifier::external_body]
fn elapsed_parts(start: &std::time::Instant) -> (r: (u64, u32))
    ensures
        r.1 < 1_000_000_000,
{
    let d = start.elapsed();
    (d.as_secs(), d.subsec_nanos())
}

/// The text `humantime` renders for a duration: it depends on the duration
/// value alone.
pub uninterp spec fn duration_bytes_of(secs: u64, nanos: u32) -> Seq<u8>;

/// Relies on `humantime::format_duration`: a human-readable rendering of a
/// duration, a pure function of the seconds and nanoseconds.
#[verifier::external_body]
fn format_duration_bytes(secs: u64, nanos: u32) -> (r: Vec<u8>)
    requires
        nanos < 1_000_000_000,
    ensures
        r@ == duration_bytes_of(secs, nanos),
{
    humantime::format_duration(std::time::Duration::new(secs, nanos)).to_string().into_bytes()
}

/// The progress line: `Processed <n> of <total> files in <duration>`.
pub open spec fn progress_line(processed: int, total: int, duration: Seq<u8>) -> Seq<u8> {
    seq![80u8, 114u8, 111u8, 99u8, 101u8, 115u8, 115u8, 101u8, 100u8, 32u8] + dec_bytes(processed as nat)
        + seq![32u8, 111u8, 102u8, 32u8] + dec_bytes(total as nat)
        + seq![32u8, 102u8, 105u8, 108u8, 101u8, 115u8, 32u8, 105u8, 110u8, 32u8] + duration
}

impl RustFileConcatenator {
    /// A concatenator for the given output path and expected total, with
    /// the output stream not yet open.
    pub fn new(output_file_path: Vec<u8>, total_num_files: usize) -> (r: Self)
        ensures
            r.output_file_path == output_file_path,
            r.output_file is None,
            r.num_files_processed == 0,
            r.total_num_files == total_num_files,
            r.start_time is None,
            r.target_extension@ == rs_extension(),
    {
        let mut target_extension: Vec<u8> = Vec::new();
        target_extension.push(114u8);
        target_extension.push(115u8);
        assert(target_extension@ =~= rs_extension());
        Self {
            output_file_path,
            output_file: None,
            num_files_processed: 0,
            total_num_files,
            start_time: None,
            target_extension,
        }
    }

    /// Open the output stream; opening it twice without closing fails with
    /// `AlreadyExists` and changes nothing.
    pub fn open_output_file(&mut self) -> (r: FileSystemEntryResult<()>)
        ensures
            old(self).output_file is Some ==> r == FileSystemEntryResult::<()>::Err(
                FileSystemEntryError::AlreadyExists,
            ) && *final(self) == *old(self),
            old(self).output_file is None ==> r is Ok && final(self).output_file is Some
                && final(self).output_file->Some_0@ == Seq::<u8>::empty()
                && final(self).output_file_path == old(self).output_file_path
                && final(self).num_files_processed == old(self).num_files_processed
                && final(self).total_num_files == old(self).total_num_files
                && final(self).start_time == old(self).start_time
                && final(self).target_extension == old(self).target_extension,
    {
        if self.output_file.is_some() {
            return Err(FileSystemEntryError::AlreadyExists);
        }
        self.output_file = Some(Vec::new());
        Ok(())
    }

    /// Close the output stream; closing a closed stream does nothing.
    pub fn close_output_file(&mut self) -> (r: FileSystemEntryResult<()>)
        ensures
            r is Ok,
            final(self).output_file is None,
            final(self).output_file_path == old(self).output_file_path,
            final(self).num_files_processed == old(self).num_files_processed,
            final(self).total_num_files == old(self).total_num_files,
            final(self).start_time == old(self).start_time,
            final(self).target_extension == old(self).target_extension,
    {
        self.output_file = None;
        Ok(())
    }

    /// Count one more entry (the counter sticks at `usize::MAX` rather than
    /// wrap) and start the clock on the first one.
    fn update_progress(&mut self)
        ensures
            final(self).num_files_processed as int == if old(self).num_files_processed
                < usize::MAX {
                old(self).num_files_processed + 1
            } else {
                old(self).num_files_processed as int
            },
            final(self).output_file == old(self).output_file,
            final(self).output_file_path == old(self).output_file_path,
            final(self).total_num_files == old(self).total_num_files,
            final(self).target_extension == old(self).target_extension,
    {
        if self.num_files_processed < usize::MAX {
            self.num_files_processed = self.num_files_processed + 1;
        }
        if self.start_time.is_none() {
            self.start_time = Some(std::time::Instant::now());
        }
    }

    /// The time since the first processed entry, as whole seconds and the
    /// nanosecond remainder, or `None` before any entry was processed.
    pub fn elapsed_time(&self) -> (r: Option<(u64, u32)>)
        ensures
            r is Some <==> self.start_time is Some,
    {
        match &self.start_time {
            Some(start) => Some(elapsed_parts(start)),
            None => None,
        }
    }

    /// The progress line for the current state: `Processed <n> of <total>
    /// files in <duration>`, with the duration measured from the first
    /// processed entry (zero before any entry was processed).
    pub fn progress_message(&self) -> (r: Vec<u8>)
        ensures
            exists|secs: u64, nanos: u32|
                r@ == progress_line(
                    self.num_files_processed as int,
                    self.total_num_files as int,
                    duration_bytes_of(secs, nanos),
                ),
    {
        let (secs, nanos) = match &self.start_time {
            Some(start) => elapsed_parts(start),
            None => (0u64, 0u32),
        };
        let duration = format_duration_bytes(secs, nanos);
        let mut out: Vec<u8> = Vec::new();
        out.push(80u8);
        out.push(114u8);
        out.push(111u8);
        out.push(99u8);
        out.push(101u8);
        out.push(115u8);
        out.push(115u8);
        out.push(101u8);
        out.push(100u8);
        out.push(32u8);
        push_decimal(&mut out, self.num_files_processed);
        out.push(32u8);
        out.push(111u8);
        out.push(102u8);
        out.push(32u8);
        push_decimal(&mut out, self.total_num_files);
        out.push(32u8);
        out.push(102u8);
        out.push(105u8);
        out.push(108u8);
        out.push(101u8);
        out.push(115u8);
        out.push(32u8);
        out.push(105u8);
        out.push(110u8);
        out.push(32u8);
        append_bytes(&mut out, &duration);
        proof {
            assert(out@ =~= progress_line(
                self.num_files_processed as int,
                self.total_num_files as int,
                duration_bytes_of(secs, nanos),
            ));
        }
        out
    }
}

impl FileSystemEntryProcessor for RustFileConcatenator {
    type Model = ConcatModel;

    open spec fn model(&self) -> ConcatModel {
        ConcatModel {
            open: self.output_file is Some,
            out: match self.output_file {
                Some(b) => b@,
                None => Seq::empty(),
            },
            processed: self.num_files_processed as int,
            total: self.total_num_files as int,
            target_ext: self.target_extension@,
            path: self.output_file_path@,
        }
    }

    open spec fn step(m: ConcatModel, entry: EntryView) -> (
        ConcatModel,
        Option<FileSystemEntryError>,
    ) {
        concat_step(m, entry)
    }

    /// Process one entry: count it, and concatenate a matching readable
    /// file's bytes between its marker lines.
    fn process_entry(&mut self, entry: &FileSystemEntry) -> (r: FileSystemEntryResult<()>) {
        let ghost m0 = self.model();
        self.update_progress();
        match entry.entry_type {
            FileSystemEntryType::File => {
                if self.output_file.is_some() {
                    if extension_matches(&entry.path, &self.target_extension) {
                        match &entry.content {
                            Some(contents) => {
                                let mut buf = self.output_file.take().unwrap();
                                push_start_marker(&mut buf, &entry.path);
                                append_bytes(&mut buf, contents);
                                push_end_marker(&mut buf, &entry.path);
                                self.output_file = Some(buf);
                                proof {
                                    assert(self.model() =~= concat_step(m0, entry@).0);
                                }
                            },
                            None => {
                                proof {
                                    assert(self.model() =~= concat_step(m0, entry@).0);
                                }
                                return Err(FileSystemEntryError::IoError);
                            },
                        }
                    } else {
                        proof {
                            assert(self.model() =~= concat_step(m0, entry@).0);
                        }
                    }
                } else {
                    proof {
                        assert(self.model() =~= concat_step(m0, entry@).0);
                    }
                }
            },
            FileSystemEntryType::Directory => {
                proof {
                    assert(self.model() =~= concat_step(m0, entry@).0);
                }
            },
        }
        Ok(())
    }
}

} // verus!

verus! {

// ---------------------------------------------------------------------------
// Laws of the concatenation
// ---------------------------------------------------------------------------

/// The bytes one node of a tree contributes to the output: a marker-wrapped
/// triple for a readable file whose extension matches, the concatenation of
/// its children's contributions for a directory, nothing otherwise.
pub open spec fn node_output(node: FsNode, ext: Seq<u8>) -> Seq<u8>
    decreases node, 0int,
{
    match node {
        FsNode::Other { .. } => Seq::empty(),
        FsNode::File { path, content } => if ext_of(path@) == Some(ext) {
            match content {
                Some(c) => start_marker(path@) + c@ + end_marker(path@),
                None => Seq::empty(),
            }
        } else {
            Seq::empty()
        },
        FsNode::Directory(d) => match d.children {
            Some(kids) => nodes_output(kids@, 0, ext),
            None => Seq::empty(),
        },
    }
}

/// The bytes the nodes of `nodes` from index `i` on contribute, in order.
pub open spec fn nodes_output(nodes: Seq<FsNode>, i: int, ext: Seq<u8>) -> Seq<u8>
    decreases nodes, nodes.len() - i,
{
    if i < 0 || i >= nodes.len() {
        Seq::empty()
    } else {
        node_output(nodes[i], ext) + nodes_output(nodes, i + 1, ext)
    }
}

/// The bytes a whole directory tree contributes.
pub open spec fn dir_output(d: FsDirectory, ext: Seq<u8>) -> Seq<u8> {
    match d.children {
        Some(kids) => nodes_output(kids@, 0, ext),
        None => Seq::empty(),
    }
}

/// Whether every directory of the tree can be listed and every file whose
/// extension matches `ext` can be read.
pub open spec fn node_readable(node: FsNode, ext: Seq<u8>) -> bool
    decreases node, 0int,
{
    match node {
        FsNode::Other { .. } => true,
        FsNode::File { path, content } => ext_of(path@) == Some(ext) ==> content is Some,
        FsNode::Directory(d) => match d.children {
            Some(kids) => nodes_readable(kids@, 0, ext),
            None => false,
        },
    }
}

pub open spec fn nodes_readable(nodes: Seq<FsNode>, i: int, ext: Seq<u8>) -> bool
    decreases nodes, nodes.len() - i,
{
    if i < 0 || i >= nodes.len() {
        true
    } else {
        node_readable(nodes[i], ext) && nodes_readable(nodes, i + 1, ext)
    }
}

pub open spec fn dir_readable(d: FsDirectory, ext: Seq<u8>) -> bool {
    match d.children {
        Some(kids) => nodes_readable(kids@, 0, ext),
        None => false,
    }
}

/// A walk changes neither the open state of the concatenator's output nor
/// its configuration, whatever the tree holds.
pub proof fn lemma_walk_node_config(m: ConcatModel, node: FsNode)
    ensures
        ({
            let (m2, e) = walk_node_spec::<RustFileConcatenator>(m, node);
            m2.open == m.open && m2.target_ext == m.target_ext && m2.total == m.total && m2.path
                == m.path
        }),
    decreases node, 0int,
{
    match node {
        FsNode::Other { .. } => {},
        FsNode::File { .. } => {},
        FsNode::Directory(d) => {
            let (m1, e1) = concat_step(m, crate::filesystem_walker::node_entry_view(node));
            if e1 is None {
                match d.children {
                    None => {},
                    Some(kids) => {
                        lemma_walk_nodes_config(m1, kids@, 0);
                    },
                }
            }
        },
    }
}

pub proof fn lemma_walk_nodes_config(m: ConcatModel, nodes: Seq<FsNode>, i: int)
    ensures
        ({
            let (m2, e) = walk_nodes_spec::<RustFileConcatenator>(m, nodes, i);
            m2.open == m.open && m2.target_ext == m.target_ext && m2.total == m.total && m2.path
                == m.path
        }),
    decreases nodes, nodes.len() - i,
{
    if 0 <= i < nodes.len() {
        lemma_walk_node_config(m, nodes[i]);
        let (m1, e1) = walk_node_spec::<RustFileConcatenator>(m, nodes[i]);
        if e1 is None {
            lemma_walk_nodes_config(m1, nodes, i + 1);
        }
    }
}

pub proof fn lemma_walk_directory_config(m: ConcatModel, d: FsDirectory)
    ensures
        ({
            let (m2, e) = walk_directory_spec::<RustFileConcatenator>(m, d);
            m2.open == m.open && m2.target_ext == m.target_ext && m2.total == m.total && m2.path
                == m.path
        }),
{
    match d.children {
        None => {},
        Some(kids) => {
            lemma_walk_nodes_config(m, kids@, 0);
        },
    }
}

/// Law: walking one readable node with an open output succeeds and appends
/// exactly that node's contribution — one start-marker/content/end-marker
/// triple per file whose extension matches the target, in pre-order, and
/// not a byte from any other file or from a directory.
pub proof fn lemma_walk_node_exact(m: ConcatModel, node: FsNode)
    requires
        m.open,
        node_readable(node, m.target_ext),
    ensures
        ({
            let (m2, e) = walk_node_spec::<RustFileConcatenator>(m, node);
            &&& e is None
            &&& m2.out == m.out + node_output(node, m.target_ext)
            &&& m2.open
            &&& m2.target_ext == m.target_ext
            &&& m2.total == m.total
            &&& m2.path == m.path
        }),
    decreases node, 0int,
{
    match node {
        FsNode::Other { .. } => {
            assert(m.out + Seq::<u8>::empty() =~= m.out);
        },
        FsNode::File { path, content } => {
            let (m2, e) = walk_node_spec::<RustFileConcatenator>(m, node);
            if ext_of(path@) == Some(m.target_ext) {
                let c = content->Some_0;
                assert(m2.out =~= m.out + node_output(node, m.target_ext));
            } else {
                assert(m.out + Seq::<u8>::empty() =~= m.out);
            }
        },
        FsNode::Directory(d) => {
            let (m1, e1) = concat_step(m, crate::filesystem_walker::node_entry_view(node));
            let kids = d.children->Some_0;
            lemma_walk_nodes_exact(m1, kids@, 0);
        },
    }
}

pub proof fn lemma_walk_nodes_exact(m: ConcatModel, nodes: Seq<FsNode>, i: int)
    requires
        m.open,
        nodes_readable(nodes, i, m.target_ext),
    ensures
        ({
            let (m2, e) = walk_nodes_spec::<RustFileConcatenator>(m, nodes, i);
            &&& e is None
            &&& m2.out == m.out + nodes_output(nodes, i, m.target_ext)
            &&& m2.open
            &&& m2.target_ext == m.target_ext
            &&& m2.total == m.total
            &&& m2.path == m.path
        }),
    decreases nodes, nodes.len() - i,
{
    if 0 <= i < nodes.len() {
        lemma_walk_node_exact(m, nodes[i]);
        let (m1, e1) = walk_node_spec::<RustFileConcatenator>(m, nodes[i]);
        lemma_walk_nodes_exact(m1, nodes, i + 1);
        assert(m.out + node_output(nodes[i], m.target_ext) + nodes_output(nodes, i + 1, m.target_ext)
            =~= m.out + nodes_output(nodes, i, m.target_ext));
    } else {
        assert(m.out + Seq::<u8>::empty() =~= m.out);
    }
}

/// Law: over a readable tree, a walk with an open output succeeds, and the
/// output gains exactly one start/content/end triple per file whose
/// extension matches the target, in pre-order traversal order, with zero
/// bytes contributed by any other file or by directories.
pub proof fn lemma_concatenation_exact(m: ConcatModel, d: FsDirectory)
    requires
        m.open,
        dir_readable(d, m.target_ext),
    ensures
        ({
            let (m2, e) = walk_directory_spec::<RustFileConcatenator>(m, d);
            &&& e is None
            &&& m2.out == m.out + dir_output(d, m.target_ext)
        }),
{
    match d.children {
        None => {},
        Some(kids) => {
            lemma_walk_nodes_exact(m, kids@, 0);
        },
    }
}

} // verus!
