//! Whether an upload is complete: what lies here against what lies there.
use crate::event;
use crate::number;
use crate::outside;
use crate::pattern;
use crate::text;
use vstd::prelude::*;
use vstd::string::*;

verus! {

/// What lies here and there.
#[derive(Debug, Clone)]
pub struct VerifyResult {
    pub local_count: u64,
    pub local_size: u64,
    pub local_size_human: String,
    pub remote_count: u64,
}

/// Something that lies below a local directory.
#[derive(Debug, Clone, Copy)]
pub struct LocalEntry {
    /// Whether it is a file.
    pub is_file: bool,
    /// Its size, where the system tells it.
    pub len: Option<u64>,
}

/// The number of files among `entries`.
pub open spec fn file_count(entries: Seq<LocalEntry>) -> nat {
    entries.filter(|e: LocalEntry| e.is_file).len()
}

/// The size of a file, as far as it is known; nothing for anything else.
pub open spec fn known_size(entry: LocalEntry) -> nat {
    match entry.len {
        Some(len) if entry.is_file => len as nat,
        _ => 0,
    }
}

/// The size of the files among `entries`, as far as it is known.
pub open spec fn file_size(entries: Seq<LocalEntry>) -> nat
    decreases entries.len(),
{
    if entries.len() == 0 {
        0
    } else {
        file_size(entries.drop_last()) + known_size(entries.last())
    }
}

proof fn lemma_file_size_grows(entries: Seq<LocalEntry>, i: int)
    requires
        0 <= i <= entries.len(),
    ensures
        file_size(entries.take(i)) <= file_size(entries),
    decreases entries.len() - i,
{
    if i < entries.len() {
        lemma_file_size_grows(entries, i + 1);
        assert(entries.take(i + 1).drop_last() =~= entries.take(i));
    } else {
        assert(entries.take(i) =~= entries);
    }
}

/// Counts the files among `entries`, and sums up their sizes. A file whose size is not known counts
/// all the same.
pub fn scan_local(entries: &Vec<LocalEntry>) -> (res: (u64, u64))
    requires
        file_size(entries@) <= u64::MAX,
    ensures
        res.0 == file_count(entries@),
        res.1 == file_size(entries@),
{
    let mut count: u64 = 0;
    let mut size: u64 = 0;
    let ghost keep = |e: LocalEntry| e.is_file;
    let mut i: usize = 0;
    reveal(Seq::filter);
    assert(entries@.take(0) =~= seq![]);
    while i < entries.len()
        invariant
            i <= entries.len(),
            keep == (|e: LocalEntry| e.is_file),
            count == entries@.take(i as int).filter(keep).len(),
            count <= i,
            size == file_size(entries@.take(i as int)),
            file_size(entries@) <= u64::MAX,
        decreases entries.len() - i,
    {
        reveal(Seq::filter);
        let entry = entries[i];
        proof {
            assert(entries@.take(i + 1).drop_last() =~= entries@.take(i as int));
            lemma_file_size_grows(entries@, i + 1);
        }
        if entry.is_file {
            count = count + 1;
            if let Some(len) = entry.len {
                size = size + len;
            }
        }
        i = i + 1;
    }
    assert(entries@.take(i as int) =~= entries@);
    (count, size)
}

/// The number of addresses in a listing: the lines that start with the scheme.
pub open spec fn address_count(listing: Seq<char>) -> nat {
    text::lines(listing).filter(|line: Seq<char>| "oss://"@.is_prefix_of(line)).len()
}

/// The number of objects in a listing: what it says, where `group` is the count that it ends with;
/// else the addresses in it are counted.
pub open spec fn object_count(group: Option<Seq<char>>, listing: Seq<char>) -> u64 {
    match event::group_count(group) {
        Some(n) => n,
        None => address_count(listing) as u64,
    }
}

/// The number of addresses in a listing.
fn count_addresses(listing: &str) -> (res: u64)
    ensures
        res == address_count(listing@),
{
    let lines = text::lines_of(listing);
    let ghost all = text::lines(listing@);
    let ghost keep = |line: Seq<char>| "oss://"@.is_prefix_of(line);
    let mut count: u64 = 0;
    let mut i: usize = 0;
    reveal(Seq::filter);
    assert(all.take(0) =~= seq![]);
    while i < lines.len()
        invariant
            i <= lines.len(),
            text::texts(lines@) == all,
            keep == (|line: Seq<char>| "oss://"@.is_prefix_of(line)),
            count == all.take(i as int).filter(keep).len(),
            count <= i,
        decreases lines.len() - i,
    {
        reveal(Seq::filter);
        proof {
            assert(all[i as int] == lines@[i as int]@);
            assert(all.take(i + 1).drop_last() =~= all.take(i as int));
        }
        if text::starts_with(lines[i].as_str(), "oss://") {
            count = count + 1;
        }
        i = i + 1;
    }
    assert(all.take(i as int) =~= all);
    count
}

/// The number of objects in a listing, once it was looked for the count that it ends with.
pub fn count_objects(group: &Option<String>, listing: &str) -> (res: u64)
    ensures
        res == object_count(outside::optional_text(*group), listing@),
        event::group_count(outside::optional_text(*group)) is None ==> res == address_count(
            listing@,
        ),
{
    let addresses = count_addresses(listing);
    match event::cap_u64(group) {
        Some(n) => n,
        None => addresses,
    }
}

/// The number of objects in a listing.
pub fn remote_count(listing: &str) -> (res: u64)
    ensures
        res == object_count(
            outside::regex_group(pattern::OBJECTS@, listing@),
            listing@,
        ),
        event::group_count(outside::regex_group(pattern::OBJECTS@, listing@)) is None ==> res
            == address_count(listing@),
        !text::mentions(listing@, "number"@) ==> res == address_count(listing@),
        forall|before: Seq<char>, n: Seq<char>, after: Seq<char>| #[trigger]
            pattern::has_objects(listing@, before, n, after) && number::count_value(n) is Some
                ==> Some(res) == number::count_value(n),
{
    count_objects(&outside::first_group(pattern::OBJECTS, listing), listing)
}

/// What lies here and there, from the files found here and the listing of what lies there.
pub fn verify_upload(local_count: u64, local_size: u64, listing: &[u8]) -> (res: VerifyResult)
    ensures
        res.local_count == local_count,
        res.local_size == local_size,
        res.local_size_human@ == number::size_text(local_size as nat),
        res.remote_count == object_count(
            outside::regex_group(pattern::OBJECTS@, outside::utf8_lossy(listing@)),
            outside::utf8_lossy(listing@),
        ),
        event::group_count(
            outside::regex_group(pattern::OBJECTS@, outside::utf8_lossy(listing@)),
        ) is None ==> res.remote_count == address_count(outside::utf8_lossy(listing@)),
        !text::mentions(outside::utf8_lossy(listing@), "number"@) ==> res.remote_count
            == address_count(outside::utf8_lossy(listing@)),
        forall|before: Seq<char>, n: Seq<char>, after: Seq<char>| #[trigger]
            pattern::has_objects(outside::utf8_lossy(listing@), before, n, after)
                && number::count_value(n) is Some ==> Some(res.remote_count)
                == number::count_value(n),
{
    let listing = outside::lossy_text(listing);
    VerifyResult {
        local_count,
        local_size,
        local_size_human: number::human_size(local_size),
        remote_count: remote_count(listing.as_str()),
    }
}

proof fn lemma_file_size_adds_up(a: Seq<LocalEntry>, b: Seq<LocalEntry>)
    ensures
        file_size(a + b) == file_size(a) + file_size(b),
    decreases b.len(),
{
    if b.len() == 0 {
        assert(a + b =~= a);
    } else {
        assert((a + b).drop_last() =~= a + b.drop_last());
        lemma_file_size_adds_up(a, b.drop_last());
    }
}

proof fn lemma_scan_adds_up(a: Seq<LocalEntry>, b: Seq<LocalEntry>)
    ensures
        file_count(a + b) == file_count(a) + file_count(b),
        file_size(a + b) == file_size(a) + file_size(b),
{
    lemma_file_size_adds_up(a, b);
    Seq::filter_distributes_over_add(a, b, |e: LocalEntry| e.is_file);
}

/// What one more entry does to a scan, wherever it stands: a file counts for one, and adds its size
/// where that is known; anything else changes nothing, whatever its size is said to be. With no entry
/// there is nothing.
pub proof fn lemma_scan_counts_each_file_once(
    before: Seq<LocalEntry>,
    entry: LocalEntry,
    after: Seq<LocalEntry>,
)
    ensures
        file_count(Seq::<LocalEntry>::empty()) == 0,
        file_size(Seq::<LocalEntry>::empty()) == 0,
        entry.is_file ==> file_count(before + seq![entry] + after) == file_count(before + after) + 1,
        entry.is_file && entry.len is Some ==> file_size(before + seq![entry] + after) == file_size(
            before + after,
        ) + entry.len->0,
        entry.is_file && entry.len is None ==> file_size(before + seq![entry] + after) == file_size(
            before + after,
        ),
        !entry.is_file ==> file_count(before + seq![entry] + after) == file_count(before + after)
            && file_size(before + seq![entry] + after) == file_size(before + after),
{
    let one = seq![entry];
    lemma_scan_adds_up(before + one, after);
    lemma_scan_adds_up(before, one);
    lemma_scan_adds_up(before, after);
    assert(one.drop_last() =~= seq![]);
    reveal(Seq::filter);
    assert(one.drop_last().filter(|e: LocalEntry| e.is_file) =~= seq![]);
    assert(file_size(one) == file_size(one.drop_last()) + known_size(entry));
}

/// A scan sees files only: what is not a file can be left out beforehand.
pub proof fn lemma_scan_sees_files_only(entries: Seq<LocalEntry>)
    ensures
        file_count(entries.filter(|e: LocalEntry| e.is_file)) == file_count(entries),
        file_size(entries.filter(|e: LocalEntry| e.is_file)) == file_size(entries),
        file_count(entries) == entries.filter(|e: LocalEntry| e.is_file).len(),
    decreases entries.len(),
{
    reveal(Seq::filter);
    if entries.len() > 0 {
        let keep = |e: LocalEntry| e.is_file;
        let front = entries.drop_last();
        let entry = entries.last();
        lemma_scan_sees_files_only(front);
        let kept = front.filter(keep);
        assert(entries.filter(keep) == if entry.is_file {
            kept.push(entry)
        } else {
            kept
        });
        lemma_scan_counts_each_file_once(kept, entry, seq![]);
        assert(kept + seq![entry] + seq![] =~= kept.push(entry));
        assert(kept + seq![] =~= kept);
        lemma_scan_counts_each_file_once(front, entry, seq![]);
        assert(front + seq![entry] + seq![] =~= entries);
        assert(front + seq![] =~= front);
    }
}

/// Addresses are counted line by line: a line that starts with the scheme counts for one, and any
/// other for nothing. An empty listing has none.
pub proof fn lemma_addresses_are_counted_by_lines(line: Seq<char>, rest: Seq<char>)
    requires
        forall|i: int| 0 <= i < line.len() ==> #[trigger] line[i] != '\n',
    ensures
        address_count(line + seq!['\n'] + rest) == address_count(rest) + if "oss://"@.is_prefix_of(
            line,
        ) {
            1nat
        } else {
            0
        },
        line.len() > 0 ==> address_count(line) == if "oss://"@.is_prefix_of(line) {
            1nat
        } else {
            0
        },
        address_count(Seq::<char>::empty()) == 0,
{
    let keep = |line: Seq<char>| "oss://"@.is_prefix_of(line);
    text::lemma_lines_are_cut_at_line_feeds(line, rest);
    let cut = if line.len() > 0 && line.last() == '\r' {
        line.drop_last()
    } else {
        line
    };
    reveal_strlit("oss://");
    if "oss://"@.is_prefix_of(line) {
        assert(line.subrange(0, 6)[5] == '/');
        if cut != line {
            assert(line.len() > 6);
            assert(cut.subrange(0, 6) =~= line.subrange(0, 6));
        }
    } else if cut != line && "oss://"@.is_prefix_of(cut) {
        assert(cut.subrange(0, 6) =~= line.subrange(0, 6));
    }
    Seq::filter_distributes_over_add(seq![cut], text::lines(rest), keep);
    reveal(Seq::filter);
    assert(seq![cut].drop_last() =~= seq![]);
    assert(seq![line].drop_last() =~= seq![]);
    assert(Seq::<Seq<char>>::empty().filter(keep) =~= seq![]);
}

/// The number of objects in a listing is the count that the listing gives, where it gives one, and
/// else the number of addresses.
pub proof fn lemma_given_count_comes_first(group: Seq<char>, listing: Seq<char>)
    requires
        address_count(listing) <= u64::MAX,
    ensures
        number::count_value(group) matches Some(n) ==> object_count(Some(group), listing) == n,
        number::count_value(group) is None ==> object_count(Some(group), listing) == address_count(
            listing,
        ),
        object_count(None, listing) == address_count(listing),
{
}

} // verus!
