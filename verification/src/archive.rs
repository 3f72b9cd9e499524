//! Reading a batch: the archive format is left to the `zip` crate, and this
//! module states what the library relies on of it.
//!
//! An archive is known here by the bytes it was opened from. What `zip` finds
//! in those bytes (how many entries, under which names, of what size and
//! content) is not restated: each such finding has a name, a spec function
//! without a body, and the wrapper of the `zip` function that computes it says
//! that its result is that name's value. Everything built on the findings is
//! verified.

use vstd::prelude::*;
use crate::error::Error;
use crate::text::{ascending, lemma_ascending_is_unique, sort_names};

verus! {

/// `zip`'s reader of an archive.
#[verifier::external_type_specification]
#[verifier::external_body]
#[verifier::reject_recursive_types(R)]
pub struct ExZipArchive<R>(zip::ZipArchive<R>);

/// `zip`'s reader of one entry of an archive.
#[verifier::external_type_specification]
#[verifier::external_body]
pub struct ExZipFile<'a>(zip::read::ZipFile<'a>);

/// `zip`'s answer to a password that an entry does not accept.
#[verifier::external_type_specification]
#[verifier::external_body]
pub struct ExInvalidPassword(zip::result::InvalidPassword);

/// std's reader over a buffer in memory.
#[verifier::external_type_specification]
#[verifier::external_body]
#[verifier::reject_recursive_types(T)]
pub struct ExCursor<T>(std::io::Cursor<T>);

/// An archive held in memory.
pub type Archive = zip::ZipArchive<std::io::Cursor<Vec<u8>>>;

/// The bytes that `archive` was opened from.
pub uninterp spec fn archive_bytes(archive: Archive) -> Seq<u8>;

/// The archive that `file` is an entry of, by its bytes, and the entry's
/// index in it.
pub uninterp spec fn file_origin(file: &zip::read::ZipFile<'_>) -> (Seq<u8>, int);

/// Whether `ZipArchive::new` accepts `bytes` as an archive.
pub uninterp spec fn zip_readable(bytes: Seq<u8>) -> bool;

/// The number of entries that `ZipArchive::len` counts in the archive.
pub uninterp spec fn zip_entry_count(bytes: Seq<u8>) -> nat;

/// The index of the entry that the archive holds under `name`, if it holds
/// one: what `ZipArchive::by_name` looks up.
pub uninterp spec fn zip_index_of(bytes: Seq<u8>, name: Seq<char>) -> Option<int>;

/// Whether `ZipArchive::by_index_decrypt`, given an empty password, hands out
/// the entry at `index`.
pub uninterp spec fn zip_entry_plain(bytes: Seq<u8>, index: int) -> bool;

/// Whether `ZipArchive::by_index` hands out the entry at `index`.
pub uninterp spec fn zip_entry_opens(bytes: Seq<u8>, index: int) -> bool;

/// The name of the entry at `index`, as `ZipFile::name` gives it.
pub uninterp spec fn zip_entry_name(bytes: Seq<u8>, index: int) -> Seq<char>;

/// The size that the archive declares for the content of the entry at
/// `index`, as `ZipFile::size` gives it.
pub uninterp spec fn zip_entry_size(bytes: Seq<u8>, index: int) -> nat;

/// The first `len` bytes of the content of the entry at `index`, where
/// reading that many succeeds.
pub uninterp spec fn zip_entry_data(bytes: Seq<u8>, index: int, len: nat) -> Option<Seq<u8>>;

/// Whether the archive holds an entry under `name` that can be asked for
/// without a password.
pub open spec fn name_is_plain(bytes: Seq<u8>, name: Seq<char>) -> bool {
    zip_index_of(bytes, name) matches Some(index) && zip_entry_plain(bytes, index)
}

/// Whether the entry at `index` can be handed out: it needs no password, and
/// the archive yields it.
pub open spec fn entry_is_usable(bytes: Seq<u8>, index: int) -> bool {
    zip_entry_plain(bytes, index) && zip_entry_opens(bytes, index)
}

/// Whether the archive holds an entry under `name` that can be handed out.
pub open spec fn name_is_usable(bytes: Seq<u8>, name: Seq<char>) -> bool {
    zip_index_of(bytes, name) matches Some(index) && entry_is_usable(bytes, index)
}

/// Whether `names` is the listing of the archive: its entries' names, each
/// once, in ascending order.
pub open spec fn is_listing(names: Seq<Seq<char>>, bytes: Seq<u8>) -> bool {
    &&& ascending(names)
    &&& names.no_duplicates()
    &&& forall|name: Seq<char>| #[trigger]
        names.contains(name) <==> zip_index_of(bytes, name) is Some
}

/// The listing of the archive.
pub open spec fn listing_of(bytes: Seq<u8>) -> Seq<Seq<char>> {
    choose|names: Seq<Seq<char>>| is_listing(names, bytes)
}

/// An archive has one listing: the order of the names is fixed by the names.
pub proof fn lemma_listing_is_unique(a: Seq<Seq<char>>, b: Seq<Seq<char>>, bytes: Seq<u8>)
    requires
        is_listing(a, bytes),
        is_listing(b, bytes),
    ensures
        a == b,
        a == listing_of(bytes),
{
    lemma_same_names_once(a, b);
    lemma_ascending_is_unique(a, b);
    let c = listing_of(bytes);
    lemma_same_names_once(a, c);
    lemma_ascending_is_unique(a, c);
}

proof fn lemma_same_names_once(a: Seq<Seq<char>>, b: Seq<Seq<char>>)
    requires
        a.no_duplicates(),
        b.no_duplicates(),
        forall|name: Seq<char>| #[trigger] a.contains(name) <==> #[trigger] b.contains(name),
    ensures
        a.to_multiset() == b.to_multiset(),
{
    broadcast use vstd::seq_lib::group_to_multiset_ensures;

    a.lemma_multiset_has_no_duplicates();
    b.lemma_multiset_has_no_duplicates();
    assert forall|name: Seq<char>| a.to_multiset().count(name) == b.to_multiset().count(
        name,
    ) by {
        assert(a.contains(name) <==> b.contains(name));
    }
    assert(a.to_multiset() =~= b.to_multiset());
}

/// `ZipArchive::new` on a cursor over `bytes`: reads the central directory.
/// The result is an archive exactly where `bytes` are readable as one, and
/// that archive is known by `bytes`.
#[verifier::external_body]
pub(crate) fn zip_open(bytes: Vec<u8>) -> (opened: Result<Archive, zip::result::ZipError>)
    ensures
        opened is Ok <==> zip_readable(bytes@),
        opened is Ok ==> archive_bytes(opened->Ok_0) == bytes@,
{
    zip::ZipArchive::new(std::io::Cursor::new(bytes))
}

/// `ZipArchive::len`: the number of entries.
#[verifier::external_body]
pub(crate) fn zip_len(archive: &Archive) -> (count: usize)
    ensures
        count == zip_entry_count(archive_bytes(*archive)),
{
    archive.len()
}

/// `ZipArchive::file_names`: the names under which the archive holds an
/// entry, each once (they are the keys of a map), in no stated order.
#[verifier::external_body]
pub(crate) fn zip_file_names(archive: &Archive) -> (names: Vec<String>)
    ensures
        names.deep_view().no_duplicates(),
        forall|name: Seq<char>| #[trigger]
            names.deep_view().contains(name) <==> zip_index_of(archive_bytes(*archive), name)
                is Some,
{
    archive.file_names().map(String::from).collect()
}

/// `ZipArchive::by_name_decrypt` with an empty password: looks `name` up and
/// asks for the entry found as `by_index_decrypt` does. Unlike `by_name` it
/// returns on every archive. The archive is the same one afterwards.
#[verifier::external_body]
pub(crate) fn zip_probe_name<'a>(archive: &'a mut Archive, name: &str) -> (probed: Result<
    Result<zip::read::ZipFile<'a>, zip::result::InvalidPassword>,
    zip::result::ZipError,
>)
    ensures
        archive_bytes(*final(archive)) == archive_bytes(*old(archive)),
        (probed matches Ok(Ok(_))) <==> name_is_plain(archive_bytes(*old(archive)), name@),
{
    archive.by_name_decrypt(name, &[])
}

/// `ZipArchive::by_index_decrypt` with an empty password: hands out the entry
/// at `index` where it needs no password or happens to accept the empty one.
/// Unlike `by_index` it returns on every archive. The archive is the same one
/// afterwards.
#[verifier::external_body]
pub(crate) fn zip_probe_index<'a>(archive: &'a mut Archive, index: usize) -> (probed: Result<
    Result<zip::read::ZipFile<'a>, zip::result::InvalidPassword>,
    zip::result::ZipError,
>)
    ensures
        archive_bytes(*final(archive)) == archive_bytes(*old(archive)),
        (probed matches Ok(Ok(_))) <==> zip_entry_plain(archive_bytes(*old(archive)), index as int),
{
    archive.by_index_decrypt(index, &[])
}

/// `ZipArchive::by_name`: the entry held under `name`. It fails where there
/// is none or where the entry cannot be handed out. The archive is the same
/// one afterwards.
///
/// `by_name` asks as `by_name_decrypt` does, without a password, and unwraps
/// the verdict on the password: it panics where that verdict is a refusal,
/// which it is for an entry that carries an AES field without being flagged
/// as encrypted. An entry that is flagged is turned down before any verdict,
/// and one that is not is treated alike with and without a password. So where
/// the probe with the empty password handed the entry out, `by_name` returns;
/// `requires` admits no other entry.
#[verifier::external_body]
pub(crate) fn zip_by_name<'a>(archive: &'a mut Archive, name: &str) -> (opened: Result<
    zip::read::ZipFile<'a>,
    zip::result::ZipError,
>)
    requires
        name_is_plain(archive_bytes(*old(archive)), name@),
    ensures
        archive_bytes(*final(archive)) == archive_bytes(*old(archive)),
        opened is Ok <==> zip_entry_opens(
            archive_bytes(*old(archive)),
            zip_index_of(archive_bytes(*old(archive)), name@)->0,
        ),
        opened is Ok ==> file_origin(&opened->Ok_0) == (
            archive_bytes(*old(archive)),
            zip_index_of(archive_bytes(*old(archive)), name@)->0,
        ),
{
    archive.by_name(name)
}

/// `ZipArchive::by_index`: the entry at `index`, under the same `requires`
/// as [`zip_by_name`] and for the same reason. The archive is the same one
/// afterwards.
#[verifier::external_body]
pub(crate) fn zip_by_index<'a>(archive: &'a mut Archive, index: usize) -> (opened: Result<
    zip::read::ZipFile<'a>,
    zip::result::ZipError,
>)
    requires
        zip_entry_plain(archive_bytes(*old(archive)), index as int),
    ensures
        archive_bytes(*final(archive)) == archive_bytes(*old(archive)),
        opened is Ok <==> zip_entry_opens(archive_bytes(*old(archive)), index as int),
        opened is Ok ==> file_origin(&opened->Ok_0) == (
            archive_bytes(*old(archive)),
            index as int,
        ),
{
    archive.by_index(index)
}

/// `ZipFile::name`: the entry's name.
#[verifier::external_body]
pub(crate) fn zip_file_name(file: &zip::read::ZipFile<'_>) -> (name: String)
    ensures
        name@ == zip_entry_name(file_origin(file).0, file_origin(file).1),
{
    file.name().to_string()
}

/// `ZipFile::size`: the size declared for the entry's content.
#[verifier::external_body]
pub(crate) fn zip_file_size(file: &zip::read::ZipFile<'_>) -> (size: u64)
    ensures
        size == zip_entry_size(file_origin(file).0, file_origin(file).1),
{
    file.size()
}

/// `Read::read_exact` on an entry that was not read from before: its first
/// `len` bytes, or nothing where that many cannot be read. The buffer for
/// them is allocated at once, so `requires` bounds `len`.
#[verifier::external_body]
pub(crate) fn zip_read_exact(file: zip::read::ZipFile<'_>, len: usize) -> (data: Option<Vec<u8>>)
    requires
        len <= crate::product::MAX_MEMBER_BYTES,
    ensures
        data.deep_view() == zip_entry_data(file_origin(&file).0, file_origin(&file).1, len as nat),
{
    let mut file = file;
    let mut buffer = vec![0u8; len];
    match std::io::Read::read_exact(&mut file, &mut buffer) {
        Ok(()) => Some(buffer),
        Err(_) => None,
    }
}

/// Opens `bytes` as an archive. It fails with [`Error::ArchiveFormat`] exactly
/// where the bytes are not readable as one.
pub fn open(bytes: Vec<u8>) -> (opened: Result<Archive, Error>)
    ensures
        opened is Ok <==> zip_readable(bytes@),
        opened is Ok ==> archive_bytes(opened->Ok_0) == bytes@,
        opened is Err ==> opened->Err_0 is ArchiveFormat,
{
    match zip_open(bytes) {
        Ok(archive) => Ok(archive),
        Err(fault) => Err(Error::ArchiveFormat(fault)),
    }
}

/// The listing of `archive`: the names of its entries, each once, in
/// ascending order.
pub fn member_names(archive: &Archive) -> (names: Vec<String>)
    ensures
        names.deep_view() == listing_of(archive_bytes(*archive)),
        is_listing(names.deep_view(), archive_bytes(*archive)),
{
    let unordered = zip_file_names(archive);
    let names = sort_names(unordered);
    proof {
        broadcast use vstd::seq_lib::group_to_multiset_ensures;

        let before = unordered.deep_view();
        let after = names.deep_view();
        before.lemma_multiset_has_no_duplicates();
        after.lemma_multiset_has_no_duplicates_conv();
        assert forall|name: Seq<char>| #[trigger]
            after.contains(name) <==> zip_index_of(archive_bytes(*archive), name) is Some by {
            assert(after.to_multiset().contains(name) <==> before.to_multiset().contains(name));
            assert(before.contains(name) <==> zip_index_of(archive_bytes(*archive), name) is Some);
        }
        lemma_listing_is_unique(after, after, archive_bytes(*archive));
    }
    names
}

/// The entry that `archive` holds under `name`, where it holds one that can
/// be handed out; `None` elsewhere.
pub(crate) fn entry_by_name<'a>(archive: &'a mut Archive, name: &str) -> (entry: Option<
    zip::read::ZipFile<'a>,
>)
    ensures
        archive_bytes(*final(archive)) == archive_bytes(*old(archive)),
        entry is Some <==> name_is_usable(archive_bytes(*old(archive)), name@),
        entry is Some ==> file_origin(&entry->0) == (
            archive_bytes(*old(archive)),
            zip_index_of(archive_bytes(*old(archive)), name@)->0,
        ),
{
    let plain = match zip_probe_name(archive, name) {
        Ok(Ok(_)) => true,
        _ => false,
    };
    if !plain {
        return None;
    }
    match zip_by_name(archive, name) {
        Ok(file) => Some(file),
        Err(_) => None,
    }
}

/// The entry at `index` of `archive`, where it can be handed out; `None`
/// elsewhere.
pub(crate) fn entry_by_index<'a>(archive: &'a mut Archive, index: usize) -> (entry: Option<
    zip::read::ZipFile<'a>,
>)
    ensures
        archive_bytes(*final(archive)) == archive_bytes(*old(archive)),
        entry is Some <==> entry_is_usable(archive_bytes(*old(archive)), index as int),
        entry is Some ==> file_origin(&entry->0) == (archive_bytes(*old(archive)), index as int),
{
    let plain = match zip_probe_index(archive, index) {
        Ok(Ok(_)) => true,
        _ => false,
    };
    if !plain {
        return None;
    }
    match zip_by_index(archive, index) {
        Ok(file) => Some(file),
        Err(_) => None,
    }
}

} // verus!
