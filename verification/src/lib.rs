pub mod digits;
pub mod markdown_preview;
pub mod error;
pub mod filesystem_walker;
pub mod rust_file_concatenator;
pub mod user_input;

use vstd::prelude::*;

use crate::filesystem_walker::{
    copy_bytes, FileSystemEntryError, FileSystemEntryProcessor, FileSystemEntryResult,
    FileSystemWalker, RootSnapshot, walk_directory_spec,
};
use crate::filesystem_walker::FsDirectory;
use crate::rust_file_concatenator::{
    dir_output, dir_readable, lemma_concatenation_exact, lemma_walk_directory_config, ConcatModel,
    RustFileConcatenator, rs_extension,
};

verus! {

/// The state of a freshly constructed concatenator whose output was just
/// opened.
pub open spec fn fresh_model(output_file_path: Seq<u8>, total: int) -> ConcatModel {
    ConcatModel {
        open: true,
        out: Seq::empty(),
        processed: 0,
        total: total,
        target_ext: rs_extension(),
        path: output_file_path,
    }
}

/// What `run` returns: the full output bytes, or the first error.
///
/// A missing root fails with `NotFound` and a root that is no directory
/// with `NotADirectory`, in both cases before any output resource exists;
/// otherwise the result is the walk over the snapshot from a fresh, open
/// concatenator.
pub open spec fn run_spec(root: RootSnapshot, output_file_path: Seq<u8>, total: int) -> Result<
    Seq<u8>,
    FileSystemEntryError,
> {
    match root {
        RootSnapshot::Missing => Err(FileSystemEntryError::NotFound),
        RootSnapshot::NotDirectory => Err(FileSystemEntryError::NotADirectory),
        RootSnapshot::Root(d) => {
            let (m, e) = walk_directory_spec::<RustFileConcatenator>(
                fresh_model(output_file_path, total),
                d,
            );
            match e {
                None => Ok(m.out),
                Some(err) => Err(err),
            }
        },
    }
}

/// Validate the root, open the output, walk the tree with a concatenating
/// processor, close the output, and return the bytes that the output file
/// is to hold.
pub fn run(root: &RootSnapshot, output_file_path: Vec<u8>, total_num_files: usize) -> (r:
    FileSystemEntryResult<Vec<u8>>)
    ensures
        ({
            let s = run_spec(*root, output_file_path@, total_num_files as int);
            match r {
                Ok(v) => s is Ok && v@ == s->Ok_0,
                Err(e) => s == Result::<Seq<u8>, FileSystemEntryError>::Err(e),
            }
        }),
{
    match root {
        RootSnapshot::Missing => Err(FileSystemEntryError::NotFound),
        RootSnapshot::NotDirectory => Err(FileSystemEntryError::NotADirectory),
        RootSnapshot::Root(d) => {
            let mut concatenator = RustFileConcatenator::new(output_file_path, total_num_files);
            let opened = concatenator.open_output_file();
            if let Err(e) = opened {
                return Err(e);
            }
            assert(concatenator.model() =~= fresh_model(
                concatenator.output_file_path@,
                total_num_files as int,
            ));
            let mut walker = FileSystemWalker::new(concatenator);
            let ghost m0 = walker.processor.model();
            let walked = walker.walk_directory(d);
            let mut concatenator = walker.processor;
            if let Err(e) = walked {
                return Err(e);
            }
            proof {
                lemma_walk_directory_config(m0, *d);
            }
            let out_bytes = match &concatenator.output_file {
                Some(buf) => copy_bytes(buf),
                None => Vec::new(),
            };
            let closed = concatenator.close_output_file();
            if let Err(e) = closed {
                return Err(e);
            }
            Ok(out_bytes)
        },
    }
}

/// Law: over a readable tree — every directory can be listed and every
/// file whose extension matches can be read — `run` succeeds, and its
/// output is exactly one start/content/end triple per matching file, in
/// pre-order traversal order, with zero bytes contributed by any other
/// file or by directories.
pub proof fn lemma_run_exact(d: FsDirectory, output_file_path: Seq<u8>, total: int)
    requires
        dir_readable(d, rs_extension()),
    ensures
        run_spec(RootSnapshot::Root(d), output_file_path, total) == Result::<
            Seq<u8>,
            FileSystemEntryError,
        >::Ok(dir_output(d, rs_extension())),
{
    lemma_concatenation_exact(fresh_model(output_file_path, total), d);
    assert(Seq::<u8>::empty() + dir_output(d, rs_extension()) =~= dir_output(
        d,
        rs_extension(),
    ));
}

/// Law: running the concatenator again over an unchanged snapshot gives
/// byte-for-byte identical output. The result `run` promises is a function
/// of the snapshot and the configuration alone, so two runs that see the
/// same snapshot promise the same bytes.
pub proof fn lemma_rerun_identical(
    first: RootSnapshot,
    second: RootSnapshot,
    output_file_path: Seq<u8>,
    total: int,
)
    requires
        first == second,
    ensures
        run_spec(first, output_file_path, total) == run_spec(second, output_file_path, total),
{
}

} // verus!
