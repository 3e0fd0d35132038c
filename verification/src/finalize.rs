//! The batch finalizer: after the last file's tags are confirmed, every
//! file of the batch is converted in order; once all conversions succeed,
//! the metadata collected for the last file is written into that file's
//! output artifact. The first failure abandons the batch; files already
//! converted are left in place.

use vstd::prelude::*;
use crate::metadata::FileMetadata;
use crate::strings::{flac_output_spec, flac_output_path, join_tags_spec};

verus! {

/// Where the finalizer stands.
#[derive(Clone, Copy, Debug, PartialEq, Eq, Structural)]
pub enum FinalizePhase {
    /// Converting the file at the next index.
    Converting,
    /// All conversions succeeded; the last output's metadata is owed.
    WritingMetadata,
    /// Everything succeeded.
    Done,
    /// A step failed; the batch is abandoned.
    Failed,
}

/// One piece of outside work the finalizer asks the loop to perform.
pub enum FinalizeStep {
    /// Run the external encoder from `input` to `output`.
    Convert { input: String, output: String },
    /// Write the fields into the metadata container at `path`.
    WriteMetadata { path: String, tags: Option<String>, location: Option<String> },
    /// Nothing left: the batch succeeded.
    Finished,
    /// Nothing left: the batch failed.
    Aborted,
}

/// The finalizer's state: the files to convert in order, the metadata
/// fields owed to the last file's output, and how far the batch has come.
pub struct Finalizer {
    pub files: Vec<String>,
    pub next_file: usize,
    pub phase: FinalizePhase,
    pub tags_field: Option<String>,
    pub location_field: Option<String>,
}

/// Copy of a string.
fn clone_string(s: &String) -> (r: String)
    ensures
        r == s,
{
    s.clone()
}

/// Copy of an optional string.
fn clone_opt_string(o: &Option<String>) -> (r: Option<String>)
    ensures
        r == o,
{
    match o {
        Some(s) => Some(s.clone()),
        None => None,
    }
}

impl Finalizer {
    /// The finalizer's well-formedness: it exists only for a non-empty
    /// batch, and while converting, the next index names a file.
    pub open spec fn inv(self) -> bool {
        &&& self.files@.len() > 0
        &&& self.next_file <= self.files@.len()
        &&& (self.phase is Converting ==> self.next_file < self.files@.len())
    }

    /// A finalizer for the whole batch, carrying the record collected for
    /// the last file.
    pub fn new(files: Vec<String>, last: &FileMetadata) -> (f: Finalizer)
        requires
            files@.len() > 0,
        ensures
            f.inv(),
            f.files == files,
            f.next_file == 0,
            f.phase == FinalizePhase::Converting,
            last.tags@.len() == 0 ==> f.tags_field is None,
            last.tags@.len() > 0 ==> (f.tags_field matches Some(s) && s@ == join_tags_spec(
                last.tags.deep_view(),
            )),
            f.location_field == last.location,
    {
        Finalizer {
            files,
            next_file: 0,
            phase: FinalizePhase::Converting,
            tags_field: last.tags_field(),
            location_field: clone_opt_string(&last.location),
        }
    }

    /// The step the loop must perform now. Conversions come in file
    /// order; the metadata write names the last file's output artifact
    /// and comes only after every conversion succeeded.
    pub fn current_step(&self) -> (r: FinalizeStep)
        requires
            self.inv(),
        ensures
            self.phase is Converting ==> (r matches FinalizeStep::Convert { input, output }
                && input@ == self.files@[self.next_file as int]@ && output@ == flac_output_spec(
                self.files@[self.next_file as int]@,
            )),
            self.phase is WritingMetadata ==> (r matches FinalizeStep::WriteMetadata {
                path,
                tags,
                location,
            } && path@ == flac_output_spec(self.files@[self.files@.len() - 1]@) && tags
                == self.tags_field && location == self.location_field),
            self.phase is Done ==> r is Finished,
            self.phase is Failed ==> r is Aborted,
    {
        match self.phase {
            FinalizePhase::Converting => {
                let input = clone_string(&self.files[self.next_file]);
                let output = flac_output_path(self.files[self.next_file].as_str());
                FinalizeStep::Convert { input, output }
            },
            FinalizePhase::WritingMetadata => {
                let last_idx: usize = self.files.len() - 1;
                FinalizeStep::WriteMetadata {
                    path: flac_output_path(self.files[last_idx].as_str()),
                    tags: clone_opt_string(&self.tags_field),
                    location: clone_opt_string(&self.location_field),
                }
            },
            FinalizePhase::Done => FinalizeStep::Finished,
            FinalizePhase::Failed => FinalizeStep::Aborted,
        }
    }

    /// Record that the current step succeeded: conversion moves on to the
    /// next file, then to the metadata write; the metadata write finishes
    /// the batch.
    pub fn step_succeeded(&mut self)
        requires
            old(self).inv(),
            old(self).phase is Converting || old(self).phase is WritingMetadata,
        ensures
            final(self).inv(),
            final(self).files == old(self).files,
            final(self).tags_field == old(self).tags_field,
            final(self).location_field == old(self).location_field,
            old(self).phase is Converting && old(self).next_file + 1 < old(self).files@.len()
                ==> final(self).phase is Converting && final(self).next_file == old(self).next_file
                + 1,
            old(self).phase is Converting && old(self).next_file + 1 == old(self).files@.len()
                ==> final(self).phase is WritingMetadata && final(self).next_file == old(
            self).next_file + 1,
            old(self).phase is WritingMetadata ==> final(self).phase is Done && final(
            self).next_file == old(self).next_file,
    {
        match self.phase {
            FinalizePhase::Converting => {
                let len: usize = self.files.len();
                let next: usize = self.next_file + 1;
                self.next_file = next;
                if next == len {
                    self.phase = FinalizePhase::WritingMetadata;
                }
            },
            _ => {
                self.phase = FinalizePhase::Done;
            },
        }
    }

    /// Record that the current step failed: the batch is abandoned. No
    /// further conversion and no metadata write is asked for; what was
    /// already converted stays as it is.
    pub fn step_failed(&mut self)
        requires
            old(self).inv(),
        ensures
            final(self).inv(),
            final(self).phase is Failed,
            final(self).files == old(self).files,
            final(self).next_file == old(self).next_file,
            final(self).tags_field == old(self).tags_field,
            final(self).location_field == old(self).location_field,
    {
        self.phase = FinalizePhase::Failed;
    }
}

} // verus!
