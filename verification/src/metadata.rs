//! The per-file metadata record: the tags and the recording location
//! collected for one file of the batch, and the laws of how confirmations
//! change them.

use vstd::prelude::*;
use crate::strings::{trim_spec, split_tags_spec, join_tags_spec, trim_of, split_tags, join_tags};

verus! {

/// What one confirmation stores as the location: the trimmed input,
/// overwriting whatever was stored before.
pub open spec fn location_after(prev: Option<Seq<char>>, input: Seq<char>) -> Option<Seq<char>> {
    Some(trim_spec(input))
}

/// What one confirmation leaves as the tag list: the tags parsed from the
/// input, appended to the tags already stored.
pub open spec fn tags_after(prev: Seq<Seq<char>>, input: Seq<char>) -> Seq<Seq<char>> {
    prev + split_tags_spec(input)
}

/// Metadata collected for one file.
pub struct FileMetadata {
    pub tags: Vec<String>,
    pub location: Option<String>,
}

impl FileMetadata {
    /// A record with no tags and no location.
    pub fn new() -> (r: Self)
        ensures
            r.tags@.len() == 0,
            r.location is None,
    {
        FileMetadata { tags: Vec::new(), location: None }
    }

    /// Store the trimmed input as the location, replacing any earlier value.
    pub fn set_location(&mut self, input: &str)
        ensures
            final(self).location.deep_view() == location_after(
                old(self).location.deep_view(),
                input@,
            ),
            final(self).tags == old(self).tags,
    {
        self.location = Some(trim_of(input));
    }

    /// Append the tags parsed from the input to the stored tags.
    pub fn append_tags(&mut self, input: &str)
        ensures
            final(self).tags.deep_view() == tags_after(old(self).tags.deep_view(), input@),
            final(self).location == old(self).location,
    {
        let mut parsed = split_tags(input);
        let ghost parsed_view = parsed.deep_view();
        self.tags.append(&mut parsed);
        proof {
            assert(self.tags.deep_view() =~= old(self).tags.deep_view() + parsed_view);
        }
    }

    /// The joined tag field written into the output container: absent when
    /// no tags were stored.
    pub fn tags_field(&self) -> (r: Option<String>)
        ensures
            self.tags@.len() == 0 ==> r is None,
            self.tags@.len() > 0 ==> (r matches Some(s) && s@ == join_tags_spec(
                self.tags.deep_view(),
            )),
    {
        if self.tags.len() == 0 {
            None
        } else {
            Some(join_tags(&self.tags))
        }
    }
}

/// Law: the location is overwritten, not appended — after two
/// confirmations only the trimmed second input remains, whatever was
/// stored before either of them.
pub proof fn lemma_location_overwrite(prev: Option<Seq<char>>, first: Seq<char>, second: Seq<char>)
    ensures
        location_after(location_after(prev, first), second) == location_after(prev, second),
        location_after(location_after(prev, first), second) == Some(trim_spec(second)),
{
}

/// Law: tags accumulate — two confirmations append the tags parsed from
/// both inputs, in order, to whatever was stored before.
pub proof fn lemma_tag_accumulation(prev: Seq<Seq<char>>, first: Seq<char>, second: Seq<char>)
    ensures
        tags_after(tags_after(prev, first), second) == prev + split_tags_spec(first)
            + split_tags_spec(second),
{
    assert(tags_after(tags_after(prev, first), second) =~= prev + split_tags_spec(first)
        + split_tags_spec(second));
}

} // verus!
