//! Loading an index from CSV text.
//!
//! The text has a header line, `uuid,visibility_level`, and then one entry
//! on each line: a UUID in hyphenated form and a level. Lines are counted
//! from 1, the header being line 1; empty lines are not counted. The text
//! is read record by record, and reading stops at the first fault.

use crate::active::named_duplicate;
use crate::active::ActiveStore;
use crate::algorithm::StoreAlgorithm;
use crate::error::FormatIssue;
use crate::error::StoreError;
use crate::error::StoreFault;
use crate::level_text::level_of_text;
use crate::level_text::parse_level;
use crate::level_text::LevelText;
use crate::model::distinct_uuids;
use crate::model::index_of;
use crate::records::csv_records;
use crate::records::next_record;
use crate::records::open_reader;
use crate::records::unread;
use crate::store_fullhash::FullHashStore;
use crate::store_hashmap::HashMapStore;
use crate::store_hybrid::HybridAuthStore;
use crate::store_vecstore::VecStore;
use crate::uuid_text::hyphenated_uuid;
use crate::uuid_text::parse_uuid;
use vstd::prelude::*;

verus! {

/// The name of the first column: `uuid`.
pub open spec fn uuid_column() -> Seq<u8> {
    seq![117u8, 117u8, 105u8, 100u8]
}

/// The name of the second column: `visibility_level`.
pub open spec fn level_column() -> Seq<u8> {
    seq![
        118u8,
        105u8,
        115u8,
        105u8,
        98u8,
        105u8,
        108u8,
        105u8,
        116u8,
        121u8,
        95u8,
        108u8,
        101u8,
        118u8,
        101u8,
        108u8,
    ]
}

/// Whether a record is the header: the two column names and nothing else.
pub open spec fn is_header(fields: Seq<Seq<u8>>) -> bool {
    fields.len() == 2 && fields[0] == uuid_column() && fields[1] == level_column()
}

/// The number of the line that holds the record at `position`, the header
/// being at position 0: one more than the position, as far as 64 bits hold
/// it.
pub open spec fn line_at(position: nat) -> u64 {
    if position < u64::MAX {
        (position + 1) as u64
    } else {
        u64::MAX
    }
}

/// The entry that a UUID and a level make, as far as both were read from
/// line `line`: an unreadable UUID is reported before an unreadable level.
pub open spec fn entry_of_parts(uuid: Option<u128>, level: LevelText, line: u64) -> Result<
    (u128, u8),
    StoreFault,
> {
    match uuid {
        None => Err(StoreFault::UuidParse { line }),
        Some(uuid) => match level {
            LevelText::Level(level) => Ok((uuid, level)),
            LevelText::OutOfRange(level) => Err(StoreFault::InvalidVisibility { uuid, level }),
            LevelText::NotANumber => Err(
                StoreFault::InvalidFormat { line, issue: FormatIssue::LevelNotANumber },
            ),
        },
    }
}

/// The entry that the record on line `line` holds, or what is wrong with
/// the record.
pub open spec fn entry_of_record(fields: Seq<Seq<u8>>, line: u64) -> Result<(u128, u8), StoreFault> {
    if fields.len() != 2 {
        Err(StoreFault::InvalidFormat { line, issue: FormatIssue::FieldCount })
    } else {
        entry_of_parts(hyphenated_uuid(fields[0]), level_of_text(fields[1]), line)
    }
}

/// The entry that the reader's answer for line `line` holds: where the
/// reader gave up, its message is the fault.
pub open spec fn entry_of_answer(answer: Result<Seq<Seq<u8>>, Seq<char>>, line: u64) -> Result<
    (u128, u8),
    StoreFault,
> {
    match answer {
        Ok(fields) => entry_of_record(fields, line),
        Err(message) => Err(StoreFault::CsvError(message)),
    }
}

/// The entries of the first `count` answers of the reader, the header not
/// among them, or the first fault.
pub open spec fn entries_of_body(
    answers: Seq<Result<Seq<Seq<u8>>, Seq<char>>>,
    count: nat,
) -> Result<Seq<(u128, u8)>, StoreFault>
    decreases count,
{
    if count <= 1 {
        Ok(Seq::empty())
    } else {
        match entries_of_body(answers, (count - 1) as nat) {
            Err(fault) => Err(fault),
            Ok(entries) => match entry_of_answer(
                answers[count - 1],
                line_at((count - 1) as nat),
            ) {
                Err(fault) => Err(fault),
                Ok(entry) => Ok(entries.push(entry)),
            },
        }
    }
}

/// What is wrong with the first answer of the reader, which has to be the
/// header; nothing if it is the header.
pub open spec fn header_fault(answers: Seq<Result<Seq<Seq<u8>>, Seq<char>>>) -> Option<StoreFault> {
    if answers.len() == 0 {
        Some(StoreFault::InvalidFormat { line: 1, issue: FormatIssue::MissingHeader })
    } else {
        match answers[0] {
            Err(message) => Some(StoreFault::CsvError(message)),
            Ok(fields) => if is_header(fields) {
                None
            } else {
                Some(StoreFault::InvalidFormat { line: 1, issue: FormatIssue::WrongHeader })
            },
        }
    }
}

/// The entries that the answers of the reader hold: the first answer must
/// be the header, and every other one must hold an entry. Of several faults
/// the one on the earliest line is reported.
pub open spec fn entries_of_answers(answers: Seq<Result<Seq<Seq<u8>>, Seq<char>>>) -> Result<
    Seq<(u128, u8)>,
    StoreFault,
> {
    match header_fault(answers) {
        Some(fault) => Err(fault),
        None => entries_of_body(answers, answers.len()),
    }
}

/// The entries of a CSV text, or the first fault in it.
pub open spec fn entries_of_text(text: Seq<u8>) -> Result<Seq<(u128, u8)>, StoreFault> {
    entries_of_answers(csv_records(text))
}

/// An entry or an error, as plain values.
pub open spec fn entry_view(entry: Result<(u128, u8), StoreError>) -> Result<(u128, u8), StoreFault> {
    match entry {
        Ok(entry) => Ok(entry),
        Err(error) => Err(error@),
    }
}

/// Entries or an error, as plain values.
pub open spec fn entries_view(loaded: Result<Vec<(u128, u8)>, StoreError>) -> Result<
    Seq<(u128, u8)>,
    StoreFault,
> {
    match loaded {
        Ok(entries) => Ok(entries@),
        Err(error) => Err(error@),
    }
}

/// An index or an error, as plain values.
pub open spec fn index_view<S: View<V = Map<u128, u8>>>(built: Result<S, StoreError>) -> Result<
    Map<u128, u8>,
    StoreFault,
> {
    match built {
        Ok(store) => Ok(store@),
        Err(error) => Err(error@),
    }
}

/// Whether `built` is what loading `text` into an index in the layout
/// `algorithm` comes to: the first fault of the text, if there is one; else
/// the index of the entries, or the duplicate that the layout names.
pub open spec fn is_load_of(
    built: Result<Map<u128, u8>, StoreFault>,
    text: Seq<u8>,
    algorithm: StoreAlgorithm,
) -> bool {
    match entries_of_text(text) {
        Err(fault) => built == Err::<Map<u128, u8>, StoreFault>(fault),
        Ok(entries) => if distinct_uuids(entries) {
            built == Ok::<Map<u128, u8>, StoreFault>(index_of(entries))
        } else {
            built matches Err(StoreFault::DuplicateUuid(uuid)) && named_duplicate(
                algorithm,
                entries,
                uuid,
            )
        },
    }
}

/// Whether the bytes of `field` are those of `name`.
fn reads(field: &Vec<u8>, name: &[u8]) -> (same: bool)
    ensures
        same == (field@ == name@),
{
    if field.len() != name.len() {
        return false;
    }
    let mut i: usize = 0;
    while i < field.len()
        invariant
            i <= field.len(),
            field.len() == name.len(),
            forall|k: int| 0 <= k < i ==> field@[k] == name@[k],
        decreases field.len() - i,
    {
        if field[i] != name[i] {
            return false;
        }
        i += 1;
    }
    proof {
        assert(field@ =~= name@);
    }
    true
}

/// Whether a record is the header.
pub fn header_stands(fields: &Vec<Vec<u8>>) -> (stands: bool)
    ensures
        stands == is_header(fields.deep_view()),
{
    if fields.len() != 2 {
        return false;
    }
    let uuid_name: [u8; 4] = [117, 117, 105, 100];
    let level_name: [u8; 16] = [
        118,
        105,
        115,
        105,
        98,
        105,
        108,
        105,
        116,
        121,
        95,
        108,
        101,
        118,
        101,
        108,
    ];
    proof {
        assert(fields.deep_view()[0] =~= fields@[0]@);
        assert(fields.deep_view()[1] =~= fields@[1]@);
        assert(uuid_name@ =~= uuid_column());
        assert(level_name@ =~= level_column());
    }
    reads(&fields[0], uuid_name.as_slice()) && reads(&fields[1], level_name.as_slice())
}

/// The entry that a UUID and a level make, as far as both were read from
/// line `line`.
pub fn entry_from_parts(uuid: Option<u128>, level: LevelText, line: u64) -> (entry: Result<
    (u128, u8),
    StoreError,
>)
    ensures
        entry_view(entry) == entry_of_parts(uuid, level, line),
{
    match uuid {
        None => Err(StoreError::UuidParse { line }),
        Some(uuid) => match level {
            LevelText::Level(level) => Ok((uuid, level)),
            LevelText::OutOfRange(level) => Err(StoreError::InvalidVisibility { uuid, level }),
            LevelText::NotANumber => Err(
                StoreError::InvalidFormat { line, issue: FormatIssue::LevelNotANumber },
            ),
        },
    }
}

/// The entry that the record on line `line` holds.
pub fn entry_from_record(fields: &Vec<Vec<u8>>, line: u64) -> (entry: Result<
    (u128, u8),
    StoreError,
>)
    ensures
        entry_view(entry) == entry_of_record(fields.deep_view(), line),
{
    if fields.len() != 2 {
        return Err(StoreError::InvalidFormat { line, issue: FormatIssue::FieldCount });
    }
    proof {
        assert(fields.deep_view()[0] =~= fields@[0]@);
        assert(fields.deep_view()[1] =~= fields@[1]@);
    }
    let uuid = parse_uuid(fields[0].as_slice());
    let level = parse_level(fields[1].as_slice());
    entry_from_parts(uuid, level, line)
}

/// A fault among the first answers is the fault of all the answers.
proof fn lemma_body_fault(answers: Seq<Result<Seq<Seq<u8>>, Seq<char>>>, count: nat, all: nat)
    requires
        count <= all,
        entries_of_body(answers, count) is Err,
    ensures
        entries_of_body(answers, all) == entries_of_body(answers, count),
    decreases all - count,
{
    if count < all {
        lemma_body_fault(answers, count, (all - 1) as nat);
    }
}

/// Reads the entries of `text`, record by record.
pub fn load_entries(text: &[u8]) -> (loaded: Result<Vec<(u128, u8)>, StoreError>)
    ensures
        entries_view(loaded) == entries_of_text(text@),
{
    let ghost answers = csv_records(text@);
    let mut reader = open_reader(text);
    match next_record(&mut reader) {
        None => {
            return Err(StoreError::InvalidFormat { line: 1, issue: FormatIssue::MissingHeader });
        },
        Some(Err(message)) => {
            return Err(StoreError::CsvError(message));
        },
        Some(Ok(fields)) => {
            if !header_stands(&fields) {
                return Err(StoreError::InvalidFormat { line: 1, issue: FormatIssue::WrongHeader });
            }
        },
    }
    proof {
        assert(answers.drop_first() == answers.skip(1));
    }
    let mut entries: Vec<(u128, u8)> = Vec::new();
    let ghost mut count: nat = 1;
    let mut line: u64 = 1;
    loop
        invariant
            answers == csv_records(text@),
            header_fault(answers) is None,
            1 <= count <= answers.len(),
            unread(reader) == answers.skip(count as int),
            line == line_at((count - 1) as nat),
            entries_of_body(answers, count) == Ok::<Seq<(u128, u8)>, StoreFault>(entries@),
        decreases answers.len() - count,
    {
        if line < u64::MAX {
            line += 1;
        }
        match next_record(&mut reader) {
            None => {
                return Ok(entries);
            },
            Some(answer) => {
                proof {
                    assert(answers.skip(count as int)[0] == answers[count as int]);
                    assert(answers.skip(count as int).drop_first() == answers.skip(count as int + 1));
                }
                let entry = match answer {
                    Ok(fields) => entry_from_record(&fields, line),
                    Err(message) => Err(StoreError::CsvError(message)),
                };
                match entry {
                    Ok(entry) => {
                        entries.push(entry);
                    },
                    Err(fault) => {
                        proof {
                            lemma_body_fault(answers, count + 1, answers.len());
                        }
                        return Err(fault);
                    },
                }
                proof {
                    count = count + 1;
                }
            },
        }
    }
}

/// Loads `text` into an index in the default layout, one hash table.
pub fn load_from_csv(text: &[u8]) -> (built: Result<ActiveStore, StoreError>)
    ensures
        is_load_of(index_view(built), text@, StoreAlgorithm::HashMap),
        built matches Ok(store) ==> store.layout() == StoreAlgorithm::HashMap,
{
    load_with(StoreAlgorithm::HashMap, text)
}

/// Loads `text` into an index in the layout `algorithm`.
pub fn load_with(algorithm: StoreAlgorithm, text: &[u8]) -> (built: Result<ActiveStore, StoreError>)
    ensures
        is_load_of(index_view(built), text@, algorithm),
        built matches Ok(store) ==> store.layout() == algorithm,
{
    match load_entries(text) {
        Ok(entries) => ActiveStore::build(algorithm, entries),
        Err(fault) => Err(fault),
    }
}

/// Loads `text` into one hash table.
pub fn load_hashmap_from_csv(text: &[u8]) -> (built: Result<HashMapStore, StoreError>)
    ensures
        is_load_of(index_view(built), text@, StoreAlgorithm::HashMap),
{
    match load_entries(text) {
        Ok(entries) => HashMapStore::new(entries),
        Err(fault) => Err(fault),
    }
}

/// Loads `text` into a sorted list.
pub fn load_vec_from_csv(text: &[u8]) -> (built: Result<VecStore, StoreError>)
    ensures
        is_load_of(index_view(built), text@, StoreAlgorithm::Vec),
{
    match load_entries(text) {
        Ok(entries) => VecStore::new(entries),
        Err(fault) => Err(fault),
    }
}

/// Loads `text` into a hash set for level 0 and a sorted list.
pub fn load_hybrid_from_csv(text: &[u8]) -> (built: Result<HybridAuthStore, StoreError>)
    ensures
        is_load_of(index_view(built), text@, StoreAlgorithm::Hybrid),
{
    match load_entries(text) {
        Ok(entries) => HybridAuthStore::new(entries),
        Err(fault) => Err(fault),
    }
}

/// Loads `text` into one hash set for each level.
pub fn load_fullhash_from_csv(text: &[u8]) -> (built: Result<FullHashStore, StoreError>)
    ensures
        is_load_of(index_view(built), text@, StoreAlgorithm::FullHash),
{
    match load_entries(text) {
        Ok(entries) => FullHashStore::new(entries),
        Err(fault) => Err(fault),
    }
}

} // verus!
