//! The rules of a back-up: which kinds there are, which errors stop it,
//! which directory entries it copies, and how it totals the bytes copied.

use vstd::prelude::*;
use crate::text::same_text;

verus! {

/// How much a back-up copies.
#[derive(Clone, Copy, Debug, PartialEq, Eq, Structural)]
pub enum BackupKind {
    /// Every file of the source directory tree (`"full-disk"` or `"directory"`).
    Whole,
    /// Only the files whose extension is listed (`"selective"`).
    Selective,
}

/// Why a back-up stopped.
#[derive(Clone, Debug, PartialEq, Eq)]
pub enum BackupError {
    /// The source path does not exist.
    SourceNotFound,
    /// The configured back-up type is none of the known ones.
    InvalidBackupType,
    /// An input/output operation failed; the text describes it.
    IoError(String),
}

/// The kind of back-up that a configured type names, if any.
pub open spec fn kind_of(backup_type: Seq<char>) -> Option<BackupKind> {
    if backup_type == "full-disk"@ || backup_type == "directory"@ {
        Some(BackupKind::Whole)
    } else if backup_type == "selective"@ {
        Some(BackupKind::Selective)
    } else {
        None
    }
}

/// The kind of back-up that `backup_type` names: `"full-disk"` and
/// `"directory"` copy everything, `"selective"` filters by extension, and
/// any other text is an invalid back-up type.
pub fn backup_kind(backup_type: &str) -> (r: Result<BackupKind, BackupError>)
    ensures
        kind_of(backup_type@) matches Some(k) ==> r == Ok::<BackupKind, BackupError>(k),
        kind_of(backup_type@) is None ==> r == Err::<BackupKind, BackupError>(
            BackupError::InvalidBackupType,
        ),
{
    if same_text(backup_type, "full-disk") || same_text(backup_type, "directory") {
        Ok(BackupKind::Whole)
    } else if same_text(backup_type, "selective") {
        Ok(BackupKind::Selective)
    } else {
        Err(BackupError::InvalidBackupType)
    }
}

/// The message that reports a failed back-up.
pub open spec fn error_message(e: BackupError) -> Seq<char> {
    match e {
        BackupError::SourceNotFound => "Backup failed: Source path does not exist"@,
        BackupError::InvalidBackupType => "Backup failed: Invalid backup type specified"@,
        BackupError::IoError(text) => "Backup failed due to IO error: "@ + text@,
    }
}

impl BackupError {
    /// The message that reports this failure.
    pub fn message(&self) -> (r: String)
        ensures
            r@ == error_message(*self),
    {
        match self {
            BackupError::SourceNotFound => String::from_str("Backup failed: Source path does not exist"),
            BackupError::InvalidBackupType => String::from_str(
                "Backup failed: Invalid backup type specified",
            ),
            BackupError::IoError(text) => String::from_str("Backup failed due to IO error: ").concat(
                text.as_str(),
            ),
        }
    }
}


/// What a directory entry is.
#[derive(Clone, Copy, Debug, PartialEq, Eq, Structural)]
pub enum EntryKind {
    Directory,
    File,
    /// Neither a directory nor a regular file.
    Other,
}

/// What a back-up does with a directory entry.
#[derive(Clone, Copy, Debug, PartialEq, Eq, Structural)]
pub enum EntryAction {
    /// Create the directory at the destination and copy its contents.
    Descend,
    /// Copy the file.
    Copy,
    /// Leave the entry out.
    Skip,
}

/// `filter` lists the extension `ext`, written bare (`jpg`) or with its
/// leading dot (`.jpg`).
pub open spec fn lists_extension(entry: Seq<char>, ext: Seq<char>) -> bool {
    entry == ext || entry == seq!['.'] + ext
}

/// `ext` is one of the extensions in `filter`, in either way of writing it.
pub open spec fn selects(filter: Seq<String>, ext: Seq<char>) -> bool {
    exists|i: int| 0 <= i < filter.len() && lists_extension(#[trigger] filter[i]@, ext)
}

/// What a back-up does with an entry: directories are descended into,
/// other entries that are not files are left out, and files are copied
/// unless an extension filter is given and the file has no extension or
/// one the filter does not list (bare or with a leading dot).
pub open spec fn entry_verdict(
    kind: EntryKind,
    extension: Option<String>,
    filter: Option<Vec<String>>,
) -> EntryAction {
    match kind {
        EntryKind::Directory => EntryAction::Descend,
        EntryKind::Other => EntryAction::Skip,
        EntryKind::File => match filter {
            None => EntryAction::Copy,
            Some(f) => match extension {
                Some(e) => if selects(f@, e@) {
                    EntryAction::Copy
                } else {
                    EntryAction::Skip
                },
                None => EntryAction::Skip,
            },
        },
    }
}

/// In a selective back-up a file is copied exactly when the filter holds
/// its extension, written bare or with one leading dot; a file without
/// extension is never copied; without a filter every file is copied;
/// directories are always descended into and other entries skipped.
pub proof fn lemma_selection_rule(kind: EntryKind, extension: Option<String>, filter: Option<Vec<String>>)
    ensures
        kind == EntryKind::Directory ==> entry_verdict(kind, extension, filter) == EntryAction::Descend,
        kind == EntryKind::Other ==> entry_verdict(kind, extension, filter) == EntryAction::Skip,
        kind == EntryKind::File && filter is None ==> entry_verdict(kind, extension, filter)
            == EntryAction::Copy,
        kind == EntryKind::File && filter is Some && extension is None ==> entry_verdict(
            kind,
            extension,
            filter,
        ) == EntryAction::Skip,
        kind == EntryKind::File && filter is Some && extension is Some ==> (entry_verdict(
            kind,
            extension,
            filter,
        ) == EntryAction::Copy <==> exists|i: int|
            0 <= i < filter->0@.len() && (#[trigger] filter->0@[i]@ == extension->0@
                || filter->0@[i]@ == seq!['.'] + extension->0@)),
        kind == EntryKind::File && filter is Some && extension is Some ==> (entry_verdict(
            kind,
            extension,
            filter,
        ) == EntryAction::Copy || entry_verdict(kind, extension, filter) == EntryAction::Skip),
{
}

/// Whether `ext` is one of the extensions in `filter`, written bare or
/// with a leading dot.
pub fn extension_listed(filter: &Vec<String>, ext: &String) -> (r: bool)
    ensures
        r == selects(filter@, ext@),
{
    let dotted = String::from_str(".").concat(ext.as_str());
    proof {
        reveal_strlit(".");
        assert("."@ =~= seq!['.']);
    }
    let mut i: usize = 0;
    while i < filter.len()
        invariant
            i <= filter.len(),
            dotted@ == seq!['.'] + ext@,
            forall|j: int| 0 <= j < i ==> !lists_extension(#[trigger] filter@[j]@, ext@),
        decreases filter.len() - i,
    {
        if filter[i] == *ext || filter[i] == dotted {
            return true;
        }
        i = i + 1;
    }
    false
}

/// What a back-up does with an entry of the given kind and extension,
/// under an optional extension filter.
pub fn entry_action(kind: EntryKind, extension: &Option<String>, filter: &Option<Vec<String>>) -> (r:
    EntryAction)
    ensures
        r == entry_verdict(kind, *extension, *filter),
{
    match kind {
        EntryKind::Directory => EntryAction::Descend,
        EntryKind::Other => EntryAction::Skip,
        EntryKind::File => match filter {
            None => EntryAction::Copy,
            Some(f) => match extension {
                Some(e) => if extension_listed(f, e) {
                    EntryAction::Copy
                } else {
                    EntryAction::Skip
                },
                None => EntryAction::Skip,
            },
        },
    }
}

/// The sum of the sizes, in bytes.
pub open spec fn total(sizes: Seq<u64>) -> int
    decreases sizes.len(),
{
    if sizes.len() == 0 {
        0
    } else {
        total(sizes.drop_last()) + sizes.last()
    }
}

/// A longer prefix never sums to less.
proof fn lemma_total_monotone(s: Seq<u64>, j: int, k: int)
    requires
        0 <= j <= k <= s.len(),
    ensures
        total(s.take(j)) <= total(s.take(k)),
    decreases k - j,
{
    if j < k {
        lemma_total_monotone(s, j, k - 1);
        assert(s.take(k).drop_last() =~= s.take(k - 1));
    }
}

/// A directory entry as read from disk, with what a size count needs.
#[derive(Debug)]
pub enum DirEntry {
    /// A regular file of the given length in bytes.
    File { size: u64 },
    /// A directory and the entries that could be read from it.
    Directory { entries: Vec<DirEntry> },
    /// Anything else.
    Other,
}

/// The bytes held by the files under an entry.
pub open spec fn entry_bytes(e: DirEntry) -> int
    decreases e, 1int,
{
    match e {
        DirEntry::File { size } => size as int,
        DirEntry::Directory { entries } => listing_bytes(entries@),
        DirEntry::Other => 0,
    }
}

/// The bytes held by the files under a list of entries.
pub open spec fn listing_bytes(es: Seq<DirEntry>) -> int
    decreases es, 0int,
{
    if es.len() == 0 {
        0
    } else {
        listing_bytes(es.drop_last()) + entry_bytes(es.last())
    }
}

proof fn lemma_entry_bytes_nonneg(e: DirEntry)
    ensures
        entry_bytes(e) >= 0,
    decreases e, 1int,
{
    match e {
        DirEntry::Directory { entries } => lemma_listing_bytes_nonneg(entries@),
        _ => {},
    }
}

proof fn lemma_listing_bytes_nonneg(es: Seq<DirEntry>)
    ensures
        listing_bytes(es) >= 0,
    decreases es, 0int,
{
    if es.len() > 0 {
        lemma_listing_bytes_nonneg(es.drop_last());
        lemma_entry_bytes_nonneg(es.last());
    }
}

/// The bytes of a listing add up over its parts: a listing split in two
/// holds the bytes of both parts, a single entry holds that entry's bytes,
/// a file its size, a directory the bytes of its entries, anything else
/// none, and an empty listing none.
pub proof fn lemma_listing_bytes_add(a: Seq<DirEntry>, b: Seq<DirEntry>)
    ensures
        listing_bytes(a + b) == listing_bytes(a) + listing_bytes(b),
        listing_bytes(Seq::<DirEntry>::empty()) == 0,
        forall|e: DirEntry| #[trigger] listing_bytes(seq![e]) == entry_bytes(e),
        forall|size: u64| #[trigger] entry_bytes(DirEntry::File { size }) == size,
        forall|entries: Vec<DirEntry>|
            #[trigger] entry_bytes(DirEntry::Directory { entries }) == listing_bytes(entries@),
        entry_bytes(DirEntry::Other) == 0,
    decreases b.len(),
{
    if b.len() > 0 {
        lemma_listing_bytes_add(a, b.drop_last());
        assert((a + b).drop_last() =~= a + b.drop_last());
        assert((a + b).last() == b.last());
    } else {
        assert(a + b =~= a);
    }
    assert forall|e: DirEntry| #[trigger] listing_bytes(seq![e]) == entry_bytes(e) by {
        assert(seq![e].drop_last() =~= Seq::<DirEntry>::empty());
        assert(listing_bytes(Seq::<DirEntry>::empty()) == 0);
        assert(seq![e].last() == e);
    }
}

/// A longer prefix of a listing never holds fewer bytes.
proof fn lemma_listing_prefix_monotone(es: Seq<DirEntry>, j: int, k: int)
    requires
        0 <= j <= k <= es.len(),
    ensures
        listing_bytes(es.take(j)) <= listing_bytes(es.take(k)),
    decreases k - j,
{
    if j < k {
        lemma_listing_prefix_monotone(es, j, k - 1);
        assert(es.take(k).drop_last() =~= es.take(k - 1));
        lemma_entry_bytes_nonneg(es[k - 1]);
    }
}

/// The bytes held by the files under `entries`, directories included, or
/// `None` when that total does not fit in 64 bits.
pub fn directory_size(entries: &Vec<DirEntry>) -> (r: Option<u64>)
    ensures
        r matches Some(t) ==> t == listing_bytes(entries@),
        r is None ==> listing_bytes(entries@) > u64::MAX,
    decreases entries@,
{
    let mut sum: u64 = 0;
    let mut i: usize = 0;
    assert(entries@.take(0) =~= Seq::<DirEntry>::empty());
    while i < entries.len()
        invariant
            i <= entries.len(),
            sum == listing_bytes(entries@.take(i as int)),
        decreases entries.len() - i,
    {
        assert(entries@.take(i + 1).drop_last() =~= entries@.take(i as int));
        assert(entries@.take(i + 1).last() == entries@[i as int]);
        proof {
            lemma_listing_bytes_nonneg(entries@.take(i as int));
        }
        let ghost e = entries@[i as int];
        let part: Option<u64> = match &entries[i] {
            DirEntry::File { size } => Some(*size),
            DirEntry::Directory { entries: sub } => {
                assert(decreases_to!(entries@ => entries@[i as int]));
                directory_size(sub)
            },
            DirEntry::Other => Some(0),
        };
        assert(part matches Some(p) ==> p == entry_bytes(e));
        assert(part is None ==> entry_bytes(e) > u64::MAX);
        let next = match part {
            Some(p) => sum.checked_add(p),
            None => None,
        };
        match next {
            Some(n) => {
                sum = n;
            },
            None => {
                proof {
                    lemma_listing_prefix_monotone(entries@, i + 1, entries@.len() as int);
                    assert(entries@.take(entries@.len() as int) =~= entries@);
                }
                return None;
            },
        }
        i = i + 1;
    }
    assert(entries@.take(entries@.len() as int) =~= entries@);
    Some(sum)
}

/// The total of the sizes, or `None` when it does not fit in 64 bits.
pub fn sum_sizes(sizes: &Vec<u64>) -> (r: Option<u64>)
    ensures
        r matches Some(t) ==> t == total(sizes@),
        r is None ==> total(sizes@) > u64::MAX,
{
    let mut sum: u64 = 0;
    let mut i: usize = 0;
    assert(sizes@.take(0) =~= Seq::<u64>::empty());
    while i < sizes.len()
        invariant
            i <= sizes.len(),
            sum == total(sizes@.take(i as int)),
        decreases sizes.len() - i,
    {
        assert(sizes@.take(i + 1).drop_last() =~= sizes@.take(i as int));
        match sum.checked_add(sizes[i]) {
            Some(next) => {
                sum = next;
            },
            None => {
                proof {
                    lemma_total_monotone(sizes@, i + 1, sizes@.len() as int);
                    assert(sizes@.take(sizes@.len() as int) =~= sizes@);
                }
                return None;
            },
        }
        i = i + 1;
    }
    assert(sizes@.take(sizes@.len() as int) =~= sizes@);
    Some(sum)
}

} // verus!
