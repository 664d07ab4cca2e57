//! The lists that the engine's queries produce.
//!
//! A query writes a count and the address of an array of byte strings. The
//! engine owns that array; the wrapper copies the entries that are text and
//! hands the array back. This module decides how many entries are to be
//! copied, which of them become strings, what is reported of the others,
//! and whether the array has to be handed back.

use crate::call::{CallView, NativeCall};
use crate::hex::{hex_dump, to_hex_str};
use crate::text::{decode, text_of};
use vstd::prelude::*;

verus! {

/// What a list query left behind: the count that it returned and whether
/// it set the address of a list. It stands for a list that the engine owns,
/// so it cannot be copied, and releasing uses it up.
#[derive(Debug, PartialEq, Eq)]
pub struct OutputList {
    pub count: i32,
    pub present: bool,
}

impl OutputList {
    /// Whether the wrapper now holds a list of the engine's: the count is
    /// not zero and the address is set.
    pub open spec fn held(self) -> bool {
        self.count != 0 && self.present
    }

    /// The number of entries that may be read from the list.
    pub open spec fn readable(self) -> nat {
        if self.held() && self.count > 0 {
            self.count as nat
        } else {
            0
        }
    }

    /// The call that hands the list back, where one is held.
    pub open spec fn release_call(self) -> Option<CallView> {
        if self.held() {
            Some(CallView::FreeList { count: self.count })
        } else {
            None
        }
    }

    /// The number of entries that the driver copies out of the list. It is
    /// zero where no list is held, and where the count is negative.
    pub fn len(&self) -> (n: usize)
        ensures
            n == self.readable(),
    {
        if self.count > 0 && self.present {
            self.count as usize
        } else {
            0
        }
    }

    /// The call that the driver makes once the entries are copied: the
    /// list goes back to the engine exactly where one is held, with the
    /// count that the query returned. A zero count frees nothing.
    #[must_use]
    pub fn release(self) -> (call: Option<NativeCall>)
        ensures
            match call {
                Some(c) => self.release_call() == Some(c@),
                None => self.release_call() is None,
            },
    {
        if self.count != 0 && self.present {
            Some(NativeCall::FreeList { count: self.count })
        } else {
            None
        }
    }
}

/// An entry that gave no string.
#[derive(Debug, PartialEq, Eq)]
pub enum Skipped {
    /// The entry at `index` was a null address.
    Null { index: usize },
    /// The entry at `index` was not valid UTF-8; `hex` is the dump of its
    /// bytes.
    NotText { index: usize, hex: String },
}

/// A skipped entry as a mathematical value.
pub enum SkippedView {
    Null { index: int },
    NotText { index: int, hex: Seq<char> },
}

impl DeepView for Skipped {
    type V = SkippedView;

    open spec fn deep_view(&self) -> SkippedView {
        match self {
            Skipped::Null { index } => SkippedView::Null { index: *index as int },
            Skipped::NotText { index, hex } => SkippedView::NotText {
                index: *index as int,
                hex: hex@,
            },
        }
    }
}

/// What came out of a list: the entries that are text, in the engine's
/// order, and a report of each entry that was left out.
#[derive(Debug, PartialEq, Eq)]
pub struct Extraction {
    pub strings: Vec<String>,
    pub skipped: Vec<Skipped>,
}

/// The text of one entry: a null entry has none, nor have bytes that are
/// not valid UTF-8.
pub open spec fn entry_text(entry: Option<Seq<u8>>) -> Option<Seq<char>> {
    match entry {
        Some(bytes) => text_of(bytes),
        None => None,
    }
}

/// The strings that a list gives: the texts of the entries that have one,
/// in the order of the entries.
pub open spec fn texts(entries: Seq<Option<Seq<u8>>>) -> Seq<Seq<char>>
    decreases entries.len(),
{
    if entries.len() == 0 {
        Seq::empty()
    } else {
        let before = texts(entries.drop_last());
        match entry_text(entries.last()) {
            Some(text) => before.push(text),
            None => before,
        }
    }
}

/// The report on the entry at `index`, where it has no text.
pub open spec fn entry_report(index: int, entry: Option<Seq<u8>>) -> Option<SkippedView> {
    match entry {
        None => Some(SkippedView::Null { index }),
        Some(bytes) => if text_of(bytes) is None {
            Some(SkippedView::NotText { index, hex: hex_dump(bytes) })
        } else {
            None
        },
    }
}

/// The reports that a list gives: one for each entry without text, in the
/// order of the entries.
pub open spec fn reports(entries: Seq<Option<Seq<u8>>>) -> Seq<SkippedView>
    decreases entries.len(),
{
    if entries.len() == 0 {
        Seq::empty()
    } else {
        let before = reports(entries.drop_last());
        match entry_report(entries.len() - 1, entries.last()) {
            Some(report) => before.push(report),
            None => before,
        }
    }
}

/// A query that returned a zero count leaves nothing to read and nothing
/// to hand back, whether or not it set an address, and what is then
/// extracted holds no string and no report.
pub proof fn lemma_zero_count(list: OutputList, entries: Seq<Option<Seq<u8>>>)
    requires
        list.count == 0,
        entries.len() == list.readable(),
    ensures
        list.readable() == 0,
        list.release_call() is None,
        texts(entries) == Seq::<Seq<char>>::empty(),
        reports(entries) == Seq::<SkippedView>::empty(),
{
}

/// A list is handed back exactly when the query returned a count other
/// than zero and set an address, and then with that count; what its
/// entries hold has no part in it.
pub proof fn lemma_release_iff_held(list: OutputList)
    ensures
        list.release_call() is Some <==> list.count != 0 && list.present,
        list.release_call() is Some ==> list.release_call() == Some(
            CallView::FreeList { count: list.count },
        ),
{
}

/// Every entry gives a string or a report, and never both.
pub proof fn lemma_every_entry_accounted(entries: Seq<Option<Seq<u8>>>)
    ensures
        texts(entries).len() + reports(entries).len() == entries.len(),
    decreases entries.len(),
{
    if entries.len() > 0 {
        lemma_every_entry_accounted(entries.drop_last());
    }
}

/// Every string that comes out of a list is the text of one of its
/// entries: nothing is made up, and each string is valid text.
pub proof fn lemma_texts_come_from_entries(entries: Seq<Option<Seq<u8>>>, i: int)
    requires
        0 <= i < texts(entries).len(),
    ensures
        exists|j: int|
            0 <= j < entries.len() && entry_text(#[trigger] entries[j]) == Some(texts(entries)[i]),
    decreases entries.len(),
{
    let before = entries.drop_last();
    if i < texts(before).len() {
        lemma_texts_come_from_entries(before, i);
        let j = choose|j: int|
            0 <= j < before.len() && entry_text(#[trigger] before[j]) == Some(texts(before)[i]);
        assert(entries[j] == before[j]);
    } else {
        assert(entry_text(entries[entries.len() - 1]) == Some(texts(entries)[i]));
    }
}

/// Copies the text out of the entries of a list. An entry that is null, or
/// whose bytes are not valid UTF-8, is left out and reported; the others
/// keep their order. No entry makes the extraction fail.
pub fn extract(entries: &Vec<Option<Vec<u8>>>) -> (out: Extraction)
    ensures
        out.strings.deep_view() == texts(entries.deep_view()),
        out.skipped.deep_view() == reports(entries.deep_view()),
{
    let mut strings: Vec<String> = Vec::new();
    let mut skipped: Vec<Skipped> = Vec::new();
    let ghost all = entries.deep_view();
    let mut i: usize = 0;
    while i < entries.len()
        invariant
            i <= entries.len(),
            all == entries.deep_view(),
            strings.deep_view() == texts(all.take(i as int)),
            skipped.deep_view() == reports(all.take(i as int)),
        decreases entries.len() - i,
    {
        let ghost old_strings = strings.deep_view();
        let ghost old_skipped = skipped.deep_view();
        proof {
            assert(all.take(i as int + 1).drop_last() =~= all.take(i as int));
            assert(all.take(i as int + 1).last() == entries@[i as int].deep_view());
        }
        match &entries[i] {
            Some(bytes) => {
                assert(bytes.deep_view() =~= bytes@);
                match decode(bytes.as_slice()) {
                    Some(s) => {
                        strings.push(s);
                        assert(strings.deep_view() =~= old_strings.push(s@));
                    },
                    None => {
                        let hex = to_hex_str(bytes.as_slice());
                        skipped.push(Skipped::NotText { index: i, hex });
                        assert(skipped.deep_view() =~= old_skipped.push(
                            SkippedView::NotText { index: i as int, hex: hex@ },
                        ));
                    },
                }
            },
            None => {
                skipped.push(Skipped::Null { index: i });
                assert(skipped.deep_view() =~= old_skipped.push(
                    SkippedView::Null { index: i as int },
                ));
            },
        }
        i += 1;
    }
    assert(all.take(i as int) =~= all);
    Extraction { strings, skipped }
}

} // verus!
