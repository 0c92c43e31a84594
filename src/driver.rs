//! The decisions of a run over a directory tree: what becomes of each entry
//! and how the running index moves.

use vstd::prelude::*;
use crate::convert::{
    ConvertError, convert_image_format, decodes_as_image, format_of, is_image_file, reencoded,
};
use crate::naming::{TAG_LEN, all_alnum, name_text, new_file_name};
use crate::stamp::LocalStamp;

verus! {

/// What happened to one entry of the walk.
#[derive(Clone, Copy, Debug, PartialEq, Eq)]
pub enum EntryEvent {
    /// The walk could not produce the entry.
    WalkFailed,
    /// The entry is a directory; it is skipped.
    Directory,
    /// The entry is a file that does not decode as an image.
    NotImage,
    /// The entry is an image, but no output was written.
    ConversionFailed(ConvertError),
    /// The converted image was written to the destination.
    Written,
}

/// How an entry is reported in the log.
#[derive(Clone, Copy, Debug, PartialEq, Eq)]
pub enum Severity {
    Info,
    Warn,
    Error,
}

/// The severity with which each kind of entry is logged.
pub open spec fn severity_of(ev: EntryEvent) -> Severity {
    match ev {
        EntryEvent::WalkFailed => Severity::Error,
        EntryEvent::Directory => Severity::Warn,
        EntryEvent::NotImage => Severity::Warn,
        EntryEvent::ConversionFailed(_) => Severity::Error,
        EntryEvent::Written => Severity::Info,
    }
}

/// The running index after an entry: one more after a written output,
/// unchanged after anything else.
pub open spec fn next_index(index: nat, ev: EntryEvent) -> nat {
    if ev is Written {
        index + 1
    } else {
        index
    }
}

/// The running index after a sequence of entries.
pub open spec fn index_after(start: nat, evs: Seq<EntryEvent>) -> nat
    decreases evs.len(),
{
    if evs.len() == 0 {
        start
    } else {
        next_index(index_after(start, evs.drop_last()), evs.last())
    }
}

/// The number of written outputs in a sequence of entries.
pub open spec fn written_count(evs: Seq<EntryEvent>) -> nat
    decreases evs.len(),
{
    if evs.len() == 0 {
        0
    } else {
        written_count(evs.drop_last()) + if evs.last() is Written {
            1nat
        } else {
            0nat
        }
    }
}

/// What the library makes of one file's contents.
#[derive(Debug)]
pub enum FileOutcome {
    /// The contents do not decode as an image.
    NotImage,
    /// The image was converted; `name` is the new file name and `data` its
    /// contents.
    Converted { name: String, data: Vec<u8> },
    /// The contents are an image, but the conversion failed.
    Failed(ConvertError),
}

/// The state of a run: the index that the next written output takes.
#[derive(Clone, Copy, Debug, PartialEq, Eq)]
pub struct Run {
    pub index: u32,
}

impl Run {
    /// A run whose first output takes `start_index`.
    pub fn new(start_index: u32) -> (r: Run)
        ensures
            r.index == start_index,
    {
        Run { index: start_index }
    }

    /// Probes a file's contents and, for an image, converts it under a fresh
    /// name built from the current index and `new_postfix` as extension.
    /// The state is not changed: that waits for `record`.
    pub fn process_file(&self, contents: &[u8], new_postfix: &str) -> (r: FileOutcome)
        ensures
            r is NotImage <==> !decodes_as_image(contents@),
            decodes_as_image(contents@) && format_of(new_postfix@) is None ==> r matches FileOutcome::Failed(
                ConvertError::UnsupportedFormat,
            ),
            decodes_as_image(contents@) && format_of(new_postfix@) is Some ==> (r is Converted
                || r matches FileOutcome::Failed(ConvertError::Encode)),
            r is Converted <==> decodes_as_image(contents@) && format_of(new_postfix@) is Some
                && reencoded(contents@, format_of(new_postfix@)->0) is Some,
            r matches FileOutcome::Converted { data, .. } ==> reencoded(
                contents@,
                format_of(new_postfix@)->0,
            ) == Some(data@),
            r matches FileOutcome::Converted { name, data } ==> exists|st: LocalStamp, tag: Seq<char>|
                st.wf() && tag.len() == TAG_LEN && all_alnum(tag) && name@ == name_text(
                    st,
                    tag,
                    self.index as nat,
                ) + seq!['.'] + new_postfix@,
    {
        if !is_image_file(contents) {
            return FileOutcome::NotImage;
        }
        let name = new_file_name(self.index, new_postfix);
        match convert_image_format(contents, new_postfix) {
            Ok(data) => FileOutcome::Converted { name, data },
            Err(e) => FileOutcome::Failed(e),
        }
    }

    /// Takes note of what became of an entry, and says how it is logged.
    pub fn record(&mut self, ev: EntryEvent) -> (r: Severity)
        requires
            ev is Written ==> old(self).index < u32::MAX,
        ensures
            final(self).index as nat == next_index(old(self).index as nat, ev),
            r == severity_of(ev),
    {
        match ev {
            EntryEvent::WalkFailed => Severity::Error,
            EntryEvent::Directory => Severity::Warn,
            EntryEvent::NotImage => Severity::Warn,
            EntryEvent::ConversionFailed(_) => Severity::Error,
            EntryEvent::Written => {
                self.index = self.index + 1;
                Severity::Info
            },
        }
    }
}

/// Over any sequence of entries the running index advances by exactly the
/// number of outputs written: skips and failures leave it where it was.
pub proof fn lemma_index_counts_written(start: nat, evs: Seq<EntryEvent>)
    ensures
        index_after(start, evs) == start + written_count(evs),
    decreases evs.len(),
{
    if evs.len() > 0 {
        lemma_index_counts_written(start, evs.drop_last());
    }
}

} // verus!
