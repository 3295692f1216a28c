//! The store of source texts that diagnostics are anchored in.
//!
//! It is backed by `codespan::Files`, seen here through the map from file handles to the
//! `(name, contents)` pair that each handle was registered with.

use codespan::{FileId, Files};
use vstd::prelude::*;

verus! {

#[verifier::external_type_specification]
#[verifier::external_body]
pub struct ExFileId(codespan::FileId);

#[verifier::external_type_specification]
#[verifier::external_body]
#[verifier::reject_recursive_types(Source)]
pub struct ExFiles<Source>(codespan::Files<Source>);

/// What a file database holds: for each handle, the name and the contents it was added with.
pub uninterp spec fn files_entries(f: Files<String>) -> Map<FileId, (Seq<char>, Seq<char>)>;

/// Relies on `codespan::Files::new`: a new database holds no file.
#[verifier::external_body]
fn files_new() -> (r: Files<String>)
    ensures
        files_entries(r).dom() == Set::<FileId>::empty(),
{
    Files::new()
}

/// Relies on `codespan::Files::add`: the file is pushed at index `n` (the number of files held
/// before) and the handle `n + 1` is returned, so no earlier file has it. The handle is built
/// with `NonZeroU32::new(n as u32 + 1).unwrap()`, which panics once `n` reaches `u32::MAX`.
#[verifier::external_body]
fn files_add(files: &mut Files<String>, name: &str, source: String) -> (r: FileId)
    requires
        files_entries(*old(files)).dom().finite(),
        files_entries(*old(files)).len() < u32::MAX,
    ensures
        !files_entries(*old(files)).contains_key(r),
        files_entries(*final(files)) == files_entries(*old(files)).insert(r, (name@, source@)),
{
    files.add(name, source)
}

/// An append-only store of named source texts.
pub struct SourceRegistry {
    files: Files<String>,
    count: usize,
}

impl SourceRegistry {
    /// The registered entries: each handle with the name and the contents it was added with.
    pub closed spec fn entries(&self) -> Map<FileId, (Seq<char>, Seq<char>)> {
        files_entries(self.files)
    }

    /// The count kept beside the files matches them, and stays within what handles can number.
    pub closed spec fn wf(&self) -> bool {
        &&& self.entries().dom().finite()
        &&& self.entries().len() == self.count
        &&& self.count <= u32::MAX
    }

    /// A well-formed registry holds finitely many entries, at most `u32::MAX`.
    pub proof fn lemma_wf(&self)
        requires
            self.wf(),
        ensures
            self.entries().dom().finite(),
            self.entries().len() <= u32::MAX,
    {
    }

    /// An empty registry.
    pub fn new() -> (r: SourceRegistry)
        ensures
            r.wf(),
            r.entries() == Map::<FileId, (Seq<char>, Seq<char>)>::empty(),
            r.entries().dom().finite(),
    {
        let files = files_new();
        assert(files_entries(files) =~= Map::empty());
        SourceRegistry { files, count: 0 }
    }

    /// The number of registered entries.
    pub fn len(&self) -> (r: usize)
        requires
            self.wf(),
        ensures
            r == self.entries().len(),
            r <= u32::MAX,
    {
        self.count
    }

    /// Registers `source` under `name` and returns its new handle.
    pub fn add(&mut self, name: &str, source: String) -> (id: FileId)
        requires
            old(self).wf(),
            old(self).entries().len() < u32::MAX,
        ensures
            final(self).wf(),
            !old(self).entries().contains_key(id),
            final(self).entries() == old(self).entries().insert(id, (name@, source@)),
            final(self).entries().dom().finite(),
            final(self).entries().len() == old(self).entries().len() + 1,
    {
        let id = files_add(&mut self.files, name, source);
        self.count = self.count + 1;
        id
    }

    /// The underlying file database, for a renderer to read the texts from.
    pub fn files(&self) -> (r: &Files<String>)
        ensures
            files_entries(*r) == self.entries(),
    {
        &self.files
    }
}

} // verus!
