//! Writing FlatBuffers archives.
//!
//! The `flatbuffers` crate lays the bytes out. This module holds its builder,
//! records every step that is applied to it, and writes tables field by field
//! on top of it.

use vstd::prelude::*;

verus! {

/// The most bytes an archive may hold: FlatBuffers offsets are 31 bits wide.
pub const ARCHIVE_LIMIT: usize = 0x7fff_ffff;

/// The lowest vtable slot of a field: the two slots below it hold the
/// header of the vtable.
pub const MIN_SLOT: u16 = 4;

/// The highest vtable slot that this module writes.
pub const MAX_SLOT: u16 = 32;

/// The most fields that one table may be given.
pub const MAX_FIELDS: usize = 16;

/// One call made on a builder, with the values handed to it.
pub enum BuilderStep {
    /// A string was written.
    Text(Seq<char>),
    /// A table was opened.
    StartTable,
    /// An offset to earlier data was put in a slot of the open table.
    OffsetSlot { slot: u16, offset: u32 },
    /// A 32-bit scalar was offered to a slot of the open table.
    WordSlot { slot: u16, value: u32, default: u32 },
    /// A boolean was offered to a slot of the open table.
    FlagSlot { slot: u16, on: bool, default_on: bool },
    /// The table opened at `start` was closed.
    EndTable { start: u32 },
    /// A vector of offsets to earlier data was written.
    OffsetVector(Seq<u32>),
    /// The buffer was finished with the table at `root` as its root.
    Finish { root: u32 },
}

/// A FlatBuffers builder. Its state is known only as the steps applied to it.
#[verifier::external_body]
pub struct ArchiveBuilder {
    inner: flatbuffers::FlatBufferBuilder<'static>,
}

/// The steps that were applied to a builder since it was made, oldest first.
pub uninterp spec fn builder_steps(b: ArchiveBuilder) -> Seq<BuilderStep>;

/// The number of bytes that a builder holds.
pub uninterp spec fn builder_used(b: ArchiveBuilder) -> nat;

/// The offset of the string that the last of the given steps wrote.
pub uninterp spec fn string_offset(steps: Seq<BuilderStep>) -> u32;

/// The mark of the table that the last of the given steps opened.
pub uninterp spec fn table_start(steps: Seq<BuilderStep>) -> u32;

/// The offset of the table that the last of the given steps closed.
pub uninterp spec fn table_offset(steps: Seq<BuilderStep>) -> u32;

/// The offset of the vector that the last of the given steps wrote.
pub uninterp spec fn vector_offset(steps: Seq<BuilderStep>) -> u32;

/// The bytes of the buffer that the last of the given steps finished.
pub uninterp spec fn finished_bytes(steps: Seq<BuilderStep>) -> Seq<u8>;

/// Whether a table is under construction after the given steps.
pub open spec fn table_open(steps: Seq<BuilderStep>) -> bool {
    steps.len() > 0 && match steps.last() {
        BuilderStep::StartTable => true,
        BuilderStep::OffsetSlot { .. } => true,
        BuilderStep::WordSlot { .. } => true,
        BuilderStep::FlagSlot { .. } => true,
        _ => false,
    }
}

/// Whether the buffer is finished after the given steps.
pub open spec fn sealed(steps: Seq<BuilderStep>) -> bool {
    steps.len() > 0 && steps.last() is Finish
}

/// Whether new data may be started after the given steps.
pub open spec fn idle(steps: Seq<BuilderStep>) -> bool {
    !table_open(steps) && !sealed(steps)
}

/// An upper bound on the bytes that writing a string takes.
pub open spec fn text_cost(s: Seq<char>) -> nat {
    vstd::utf8::encode_utf8(s).len() + 8
}

/// An upper bound on the bytes that writing a table of `n` fields takes.
pub open spec fn table_cost(n: nat) -> nat {
    8 * n + 48
}

/// An upper bound on the bytes that writing a vector of `n` offsets takes.
pub open spec fn vector_cost(n: nat) -> nat {
    4 * n + 16
}

/// Calls `FlatBufferBuilder::new`. Trusted: no step has been applied to the
/// new builder and it holds no bytes.
#[verifier::external_body]
pub(crate) fn new_builder() -> (b: ArchiveBuilder)
    ensures
        builder_steps(b) == Seq::<BuilderStep>::empty(),
        builder_used(b) == 0,
{
    ArchiveBuilder { inner: flatbuffers::FlatBufferBuilder::new() }
}

/// Calls `FlatBufferBuilder::create_string`. Trusted: the step is recorded;
/// the offset handed back is determined by the steps so far and lies within
/// the bytes in use, which grew by at most the string's UTF-8 length, its
/// terminator, its length prefix and three bytes of padding. Left out: a
/// call while a table is open, and one that would pass the size limit.
#[verifier::external_body]
pub(crate) fn create_string(b: &mut ArchiveBuilder, s: &str) -> (offset: u32)
    requires
        idle(builder_steps(*old(b))),
        builder_used(*old(b)) + text_cost(s@) <= ARCHIVE_LIMIT,
    ensures
        builder_steps(*final(b)) == builder_steps(*old(b)).push(BuilderStep::Text(s@)),
        offset == string_offset(builder_steps(*final(b))),
        offset <= builder_used(*final(b)),
        builder_used(*old(b)) <= builder_used(*final(b)),
        builder_used(*final(b)) <= builder_used(*old(b)) + text_cost(s@),
{
    b.inner.create_string(s).value()
}

/// Calls `FlatBufferBuilder::start_table`. Trusted: the step is recorded, no
/// byte is written, and the mark handed back is determined by the steps so
/// far and is the number of bytes in use. Left out: a call while a table is
/// open.
#[verifier::external_body]
pub(crate) fn start_table(b: &mut ArchiveBuilder) -> (start: u32)
    requires
        idle(builder_steps(*old(b))),
        builder_used(*old(b)) <= ARCHIVE_LIMIT,
    ensures
        builder_steps(*final(b)) == builder_steps(*old(b)).push(BuilderStep::StartTable),
        start == table_start(builder_steps(*final(b))),
        start as nat == builder_used(*final(b)),
        builder_used(*final(b)) == builder_used(*old(b)),
{
    b.inner.start_table().value()
}

/// Calls `FlatBufferBuilder::push_slot_always` with an offset. Trusted: the
/// step is recorded and at most four bytes and three of padding are written.
/// Left out: a call with no table open, an offset beyond the bytes in use, a
/// slot below `MIN_SLOT` or above `MAX_SLOT`, and a call that would pass the
/// size limit.
#[verifier::external_body]
pub(crate) fn push_offset_slot(b: &mut ArchiveBuilder, slot: u16, offset: u32)
    requires
        table_open(builder_steps(*old(b))),
        MIN_SLOT <= slot <= MAX_SLOT,
        offset <= builder_used(*old(b)),
        builder_used(*old(b)) + 8 <= ARCHIVE_LIMIT,
    ensures
        builder_steps(*final(b)) == builder_steps(*old(b)).push(
            BuilderStep::OffsetSlot { slot, offset },
        ),
        builder_used(*old(b)) <= builder_used(*final(b)),
        builder_used(*final(b)) <= builder_used(*old(b)) + 8,
{
    let target = flatbuffers::WIPOffset::<flatbuffers::TableFinishedWIPOffset>::new(offset);
    b.inner.push_slot_always(slot, target);
}

/// Calls `FlatBufferBuilder::push_slot` with a 32-bit scalar. Trusted: the
/// step is recorded and at most four bytes and three of padding are written.
/// Left out: a call with no table open, a slot below `MIN_SLOT` or above
/// `MAX_SLOT`, and a call that would pass the size limit.
#[verifier::external_body]
pub(crate) fn push_word_slot(b: &mut ArchiveBuilder, slot: u16, value: u32, default: u32)
    requires
        table_open(builder_steps(*old(b))),
        MIN_SLOT <= slot <= MAX_SLOT,
        builder_used(*old(b)) + 8 <= ARCHIVE_LIMIT,
    ensures
        builder_steps(*final(b)) == builder_steps(*old(b)).push(
            BuilderStep::WordSlot { slot, value, default },
        ),
        builder_used(*old(b)) <= builder_used(*final(b)),
        builder_used(*final(b)) <= builder_used(*old(b)) + 8,
{
    b.inner.push_slot(slot, value, default);
}

/// Calls `FlatBufferBuilder::push_slot` with a boolean. Trusted: the step is
/// recorded and at most one byte is written. Left out: a call with no table
/// open, a slot below `MIN_SLOT` or above `MAX_SLOT`, and a call that would
/// pass the size limit.
#[verifier::external_body]
pub(crate) fn push_flag_slot(b: &mut ArchiveBuilder, slot: u16, on: bool, default_on: bool)
    requires
        table_open(builder_steps(*old(b))),
        MIN_SLOT <= slot <= MAX_SLOT,
        builder_used(*old(b)) + 8 <= ARCHIVE_LIMIT,
    ensures
        builder_steps(*final(b)) == builder_steps(*old(b)).push(
            BuilderStep::FlagSlot { slot, on, default_on },
        ),
        builder_used(*old(b)) <= builder_used(*final(b)),
        builder_used(*final(b)) <= builder_used(*old(b)) + 8,
{
    b.inner.push_slot(slot, on, default_on);
}

/// Calls `FlatBufferBuilder::end_table`. Trusted: the step is recorded; the
/// offset handed back is determined by the steps so far and lies within the
/// bytes in use; at most a four-byte vtable offset, three bytes of padding
/// and a vtable are written. No slot below `MIN_SLOT` or above `MAX_SLOT` is
/// ever pushed, so every field lies behind the four-byte header of the
/// vtable, and the vtable takes at most `MAX_SLOT + 2` bytes. Left out: a
/// call with no table open, a start beyond the bytes in use, a table of
/// 64 KiB or more, and a call that would pass the size limit.
#[verifier::external_body]
pub(crate) fn end_table(b: &mut ArchiveBuilder, start: u32) -> (offset: u32)
    requires
        table_open(builder_steps(*old(b))),
        start <= builder_used(*old(b)) <= start + 0xff00,
        builder_used(*old(b)) + 48 <= ARCHIVE_LIMIT,
    ensures
        builder_steps(*final(b)) == builder_steps(*old(b)).push(BuilderStep::EndTable { start }),
        offset == table_offset(builder_steps(*final(b))),
        offset <= builder_used(*final(b)),
        builder_used(*old(b)) <= builder_used(*final(b)),
        builder_used(*final(b)) <= builder_used(*old(b)) + 48,
{
    let begun = flatbuffers::WIPOffset::<flatbuffers::TableUnfinishedWIPOffset>::new(start);
    b.inner.end_table(begun).value()
}

/// Calls `FlatBufferBuilder::create_vector` with offsets. Trusted: the step
/// is recorded; the offset handed back is determined by the steps so far and
/// lies within the bytes in use, which grew by at most four bytes for each
/// item, a four-byte length and padding. Left out: a call while a table is
/// open, an item beyond the bytes in use, and a call that would pass the
/// size limit.
#[verifier::external_body]
pub(crate) fn create_offset_vector(b: &mut ArchiveBuilder, items: &Vec<u32>) -> (offset: u32)
    requires
        idle(builder_steps(*old(b))),
        forall|i: int| 0 <= i < items@.len() ==> items@[i] <= builder_used(*old(b)),
        builder_used(*old(b)) + vector_cost(items@.len()) <= ARCHIVE_LIMIT,
    ensures
        builder_steps(*final(b)) == builder_steps(*old(b)).push(BuilderStep::OffsetVector(items@)),
        offset == vector_offset(builder_steps(*final(b))),
        offset <= builder_used(*final(b)),
        builder_used(*old(b)) <= builder_used(*final(b)),
        builder_used(*final(b)) <= builder_used(*old(b)) + vector_cost(items@.len()),
{
    let targets: Vec<flatbuffers::WIPOffset<flatbuffers::TableFinishedWIPOffset>> =
        items.iter().map(|o| flatbuffers::WIPOffset::new(*o)).collect();
    b.inner.create_vector(&targets).value()
}

/// Calls `FlatBufferBuilder::finish` without a file identifier. Trusted: the
/// step is recorded. Left out: a call on a builder that nothing was written
/// to, one while a table is open or after the buffer was finished, a root
/// beyond the bytes in use, and a call that would pass the size limit.
#[verifier::external_body]
pub(crate) fn finish(b: &mut ArchiveBuilder, root: u32)
    requires
        idle(builder_steps(*old(b))),
        builder_steps(*old(b)).len() > 0,
        root <= builder_used(*old(b)),
        builder_used(*old(b)) + 16 <= ARCHIVE_LIMIT,
    ensures
        builder_steps(*final(b)) == builder_steps(*old(b)).push(BuilderStep::Finish { root }),
{
    let target = flatbuffers::WIPOffset::<flatbuffers::TableFinishedWIPOffset>::new(root);
    b.inner.finish(target, None);
}

/// Calls `FlatBufferBuilder::finished_data` and copies the bytes. Trusted:
/// they are the buffer that the recorded steps produce. Left out: a call on
/// a buffer that is not finished.
#[verifier::external_body]
pub(crate) fn finished_data(b: &ArchiveBuilder) -> (bytes: Vec<u8>)
    requires
        sealed(builder_steps(*b)),
    ensures
        bytes@ == finished_bytes(builder_steps(*b)),
{
    b.inner.finished_data().to_vec()
}

/// One field of a table that is about to be written.
#[derive(Debug, Clone, Copy, PartialEq, Eq)]
pub enum Field {
    /// An offset to earlier data, left out of the table when absent.
    Offset { slot: u16, offset: Option<u32> },
    /// A 32-bit scalar with the value that the schema takes for granted.
    Word { slot: u16, value: u32, default: u32 },
    /// A boolean with the value that the schema takes for granted.
    Flag { slot: u16, on: bool, default_on: bool },
}

impl Field {
    /// The vtable slot of the field.
    pub open spec fn slot(self) -> u16 {
        match self {
            Field::Offset { slot, .. } => slot,
            Field::Word { slot, .. } => slot,
            Field::Flag { slot, .. } => slot,
        }
    }

    /// Whether the field may be written once `written` bytes are in use.
    pub open spec fn writable(self, written: nat) -> bool {
        &&& MIN_SLOT <= self.slot() <= MAX_SLOT
        &&& match self {
            Field::Offset { offset: Some(o), .. } => o <= written,
            _ => true,
        }
    }
}

/// The steps after a table was opened and its first `n` fields were pushed.
pub open spec fn after_fields(steps: Seq<BuilderStep>, fields: Seq<Field>, n: int) -> Seq<
    BuilderStep,
>
    decreases n,
{
    if n <= 0 || n > fields.len() {
        steps.push(BuilderStep::StartTable)
    } else {
        let before = after_fields(steps, fields, n - 1);
        match fields[n - 1] {
            Field::Offset { slot, offset: Some(offset) } => before.push(
                BuilderStep::OffsetSlot { slot, offset },
            ),
            Field::Offset { slot, offset: None } => before,
            Field::Word { slot, value, default } => before.push(
                BuilderStep::WordSlot { slot, value, default },
            ),
            Field::Flag { slot, on, default_on } => before.push(
                BuilderStep::FlagSlot { slot, on, default_on },
            ),
        }
    }
}

/// The steps after a whole table was written: opened, filled field by field
/// in the order given, and closed.
pub open spec fn after_table(steps: Seq<BuilderStep>, fields: Seq<Field>) -> Seq<BuilderStep> {
    after_fields(steps, fields, fields.len() as int).push(
        BuilderStep::EndTable { start: table_start(steps.push(BuilderStep::StartTable)) },
    )
}

/// Writes one table and hands back its offset.
pub(crate) fn write_table(b: &mut ArchiveBuilder, fields: &Vec<Field>) -> (offset: u32)
    requires
        idle(builder_steps(*old(b))),
        fields@.len() <= MAX_FIELDS,
        forall|i: int|
            0 <= i < fields@.len() ==> (#[trigger] fields@[i]).writable(
                builder_used(*old(b)),
            ),
        builder_used(*old(b)) + table_cost(fields@.len()) <= ARCHIVE_LIMIT,
    ensures
        builder_steps(*final(b)) == after_table(builder_steps(*old(b)), fields@),
        idle(builder_steps(*final(b))),
        offset == table_offset(builder_steps(*final(b))),
        offset <= builder_used(*final(b)),
        builder_used(*old(b)) <= builder_used(*final(b)),
        builder_used(*final(b)) <= builder_used(*old(b)) + table_cost(
            fields@.len(),
        ),
{
    let ghost before = builder_steps(*b);
    let ghost used = builder_used(*b);
    let start = start_table(b);
    let mut i: usize = 0;
    while i < fields.len()
        invariant
            i <= fields@.len() <= MAX_FIELDS,
            builder_steps(*b) == after_fields(before, fields@, i as int),
            table_open(builder_steps(*b)),
            start == table_start(before.push(BuilderStep::StartTable)),
            start as nat == used,
            used <= builder_used(*b) <= used + 8 * i,
            used + table_cost(fields@.len()) <= ARCHIVE_LIMIT,
            forall|k: int| 0 <= k < fields@.len() ==> (#[trigger] fields@[k]).writable(used),
        decreases fields@.len() - i,
    {
        assert(fields@[i as int].writable(used));
        match fields[i] {
            Field::Offset { slot, offset: Some(offset) } => {
                push_offset_slot(b, slot, offset);
            },
            Field::Offset { slot, offset: None } => {},
            Field::Word { slot, value, default } => {
                push_word_slot(b, slot, value, default);
            },
            Field::Flag { slot, on, default_on } => {
                push_flag_slot(b, slot, on, default_on);
            },
        }
        i = i + 1;
    }
    end_table(b, start)
}

/// The view of a text that may be absent.
pub open spec fn text_view(s: Option<String>) -> Option<Seq<char>> {
    match s {
        Some(t) => Some(t@),
        None => None,
    }
}

/// An upper bound on the bytes that writing a string takes, if it is there.
pub open spec fn optional_text_cost(s: Option<Seq<char>>) -> nat {
    match s {
        Some(t) => text_cost(t),
        None => 0,
    }
}

/// The steps after a string was written, if it is there.
pub open spec fn after_optional_text(steps: Seq<BuilderStep>, s: Option<Seq<char>>) -> Seq<
    BuilderStep,
> {
    match s {
        Some(t) => steps.push(BuilderStep::Text(t)),
        None => steps,
    }
}

/// The offset of a string written after the given steps, if it is there.
pub open spec fn optional_string_offset(steps: Seq<BuilderStep>, s: Option<Seq<char>>) -> Option<
    u32,
> {
    match s {
        Some(t) => Some(string_offset(steps.push(BuilderStep::Text(t)))),
        None => None,
    }
}

/// Writes a string, if it is there, and hands back its offset.
pub(crate) fn write_optional_text(b: &mut ArchiveBuilder, s: &Option<String>) -> (offset: Option<
    u32,
>)
    requires
        idle(builder_steps(*old(b))),
        builder_used(*old(b)) + optional_text_cost(text_view(*s)) <= ARCHIVE_LIMIT,
    ensures
        builder_steps(*final(b)) == after_optional_text(builder_steps(*old(b)), text_view(*s)),
        offset == optional_string_offset(builder_steps(*old(b)), text_view(*s)),
        idle(builder_steps(*final(b))),
        offset is Some ==> offset->0 <= builder_used(*final(b)),
        builder_used(*old(b)) <= builder_used(*final(b)),
        builder_used(*final(b)) <= builder_used(*old(b))
            + optional_text_cost(text_view(*s)),
{
    match s {
        Some(t) => Some(create_string(b, t.as_str())),
        None => None,
    }
}

/// A count of bytes, held at one above the limit once it passes it.
pub open spec fn capped(n: nat) -> usize {
    if n > ARCHIVE_LIMIT {
        (ARCHIVE_LIMIT + 1) as usize
    } else {
        n as usize
    }
}

/// Adds two counts of bytes, holding the sum at one above the limit.
pub(crate) fn add_capped(a: usize, b: usize) -> (sum: usize)
    ensures
        sum == capped(a as nat + b as nat),
{
    if a > ARCHIVE_LIMIT || b > ARCHIVE_LIMIT - a {
        ARCHIVE_LIMIT + 1
    } else {
        a + b
    }
}

/// The capped cost of writing a string.
pub(crate) fn text_weight(s: &str) -> (weight: usize)
    ensures
        weight == capped(text_cost(s@)),
{
    add_capped(s.as_bytes().len(), 8)
}

/// The capped cost of writing a string, if it is there.
pub(crate) fn optional_text_weight(s: &Option<String>) -> (weight: usize)
    ensures
        weight == capped(optional_text_cost(text_view(*s))),
{
    match s {
        Some(t) => text_weight(t.as_str()),
        None => 0,
    }
}

} // verus!
