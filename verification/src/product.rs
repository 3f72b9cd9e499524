//! Products, and how one is taken out of an archive.

use vstd::prelude::*;
use std::borrow::Cow;
use crate::archive::{
    archive_bytes, entry_by_index, entry_by_name, entry_is_usable, file_origin, name_is_usable,
    zip_entry_count, zip_entry_data, zip_entry_name, zip_entry_size, zip_file_name,
    zip_file_size, zip_index_of, zip_len, zip_open, zip_read_exact, zip_readable, Archive,
};
use crate::error::Error;
use vstd::utf8::{decode_utf8, valid_utf8};
use crate::text::{
    from_utf8_lossy, has_suffix, name_ends_with, to_uppercase, uppercase_of, utf8_lossy,
};

verus! {

/// The largest content that is read from one archive member: 8 MiB.
pub const MAX_MEMBER_BYTES: u64 = 8_388_608;

/// How many containers are opened, one inside the other, on the way to one
/// product: as many as a 64-bit counter counts.
pub const NESTING_LIMIT: u64 = 0xffff_ffff_ffff_ffff;

/// A data product from an EMWIN archive.
#[derive(Debug, Clone, PartialEq, Eq)]
pub struct Product {
    /// The filename of the data product, in upper case.
    pub filename: String,
    /// The binary contents of the data product.
    pub contents: Vec<u8>,
}

/// What taking a member out of an archive comes to, in plain values: the
/// product's name and contents, or the name of the member that failed.
pub type Extraction = Result<(Seq<char>, Seq<u8>), Seq<char>>;

/// The type that a name in upper case declares by its ending, if it declares
/// one.
pub open spec fn mime_of(upper: Seq<char>) -> Option<Seq<char>> {
    if name_ends_with(upper, ".TXT"@) {
        Some("text/plain"@)
    } else if name_ends_with(upper, ".GIF"@) {
        Some("image/gif"@)
    } else if name_ends_with(upper, ".JPG"@) {
        Some("image/jpeg"@)
    } else if name_ends_with(upper, ".PNG"@) {
        Some("image/png"@)
    } else {
        None
    }
}

/// Whether a name in upper case is that of a container, to be opened in turn.
pub open spec fn is_container(upper: Seq<char>) -> bool {
    name_ends_with(upper, ".ZIP"@)
}

/// Whether `bytes` are an archive of exactly one entry, which can be handed
/// out.
pub open spec fn holds_one_entry(bytes: Seq<u8>) -> bool {
    zip_readable(bytes) && zip_entry_count(bytes) == 1 && entry_is_usable(bytes, 0)
}

/// What comes of the entry at `index` of the archive `bytes`, which can be
/// handed out, with `levels` containers still free to open.
///
/// The member is named by its entry's name in upper case. It fails where its
/// declared size is over [`MAX_MEMBER_BYTES`] or where that many bytes cannot
/// be read; what was read is then resolved by [`resolved`].
pub open spec fn extracted(bytes: Seq<u8>, index: int, levels: nat) -> Extraction
    decreases levels, 1nat,
{
    let label = uppercase_of(zip_entry_name(bytes, index));
    let size = zip_entry_size(bytes, index);
    if size > MAX_MEMBER_BYTES {
        Err(label)
    } else {
        match zip_entry_data(bytes, index, size) {
            None => Err(label),
            Some(contents) => resolved(label, contents, levels),
        }
    }
}

/// What comes of a member that was read, `label` being its name in upper case.
///
/// A member that is no container is the product. A container must be an
/// archive of exactly one entry, and what comes of that entry comes of the
/// container; a container that is anything else fails under its own name.
pub open spec fn resolved(label: Seq<char>, contents: Seq<u8>, levels: nat) -> Extraction
    decreases levels, 0nat,
{
    if !is_container(label) {
        Ok((label, contents))
    } else if levels == 0 || !holds_one_entry(contents) {
        Err(label)
    } else {
        extracted(contents, 0, (levels - 1) as nat)
    }
}

/// What comes of asking the archive `bytes` for the member `name`: a failure
/// under that name, in upper case, where the archive has no such entry to
/// hand out, and else what comes of the entry.
pub open spec fn extracted_by_name(bytes: Seq<u8>, name: Seq<char>) -> Extraction {
    if name_is_usable(bytes, name) {
        extracted(bytes, zip_index_of(bytes, name)->0, NESTING_LIMIT as nat)
    } else {
        Err(uppercase_of(name))
    }
}

/// Whether `outcome` is what `expected` says: the product of that name and
/// those contents, or [`Error::ArchiveMember`] with that name.
pub open spec fn matches_extraction(outcome: Result<Product, Error>, expected: Extraction) -> bool {
    match expected {
        Ok((name, contents)) => {
            &&& outcome matches Ok(product)
            &&& product.filename@ == name
            &&& product.contents@ == contents
        },
        Err(member) => {
            &&& outcome matches Err(Error::ArchiveMember(named))
            &&& named@ == member
        },
    }
}

/// The type that `upper`, a name in upper case, declares by its ending.
pub fn mime_type_of(upper: &str) -> (mime: Option<&'static str>)
    ensures
        mime.deep_view() == mime_of(upper@),
{
    if has_suffix(upper, ".TXT") {
        Some("text/plain")
    } else if has_suffix(upper, ".GIF") {
        Some("image/gif")
    } else if has_suffix(upper, ".JPG") {
        Some("image/jpeg")
    } else if has_suffix(upper, ".PNG") {
        Some("image/png")
    } else {
        None
    }
}

/// Reads the entry `file`: its name in upper case and its content, where the
/// declared size is within [`MAX_MEMBER_BYTES`] and that many bytes can be
/// read.
fn read_entry(file: zip::read::ZipFile<'_>) -> (read: Result<(String, Vec<u8>), Error>)
    ensures
        ({
            let (bytes, index) = file_origin(&file);
            let label = uppercase_of(zip_entry_name(bytes, index));
            let size = zip_entry_size(bytes, index);
            match read {
                Ok((name, contents)) => {
                    &&& name@ == label
                    &&& size <= MAX_MEMBER_BYTES
                    &&& zip_entry_data(bytes, index, size) == Some(contents@)
                },
                Err(error) => {
                    &&& error matches Error::ArchiveMember(named)
                    &&& named@ == label
                    &&& size > MAX_MEMBER_BYTES || zip_entry_data(bytes, index, size) is None
                },
            }
        }),
{
    let name = zip_file_name(&file);
    let label = to_uppercase(name.as_str());
    let size = zip_file_size(&file);
    if size > MAX_MEMBER_BYTES {
        return Err(Error::ArchiveMember(label));
    }
    match zip_read_exact(file, size as usize) {
        Some(contents) => Ok((label, contents)),
        None => Err(Error::ArchiveMember(label)),
    }
}

impl Product {
    /// The expected MIME type of this product, if known: what the name's
    /// ending declares, whatever the case of its letters.
    pub fn mime_type(&self) -> (mime: Option<&'static str>)
        ensures
            mime.deep_view() == mime_of(uppercase_of(self.filename@)),
    {
        let upper = to_uppercase(self.filename.as_str());
        mime_type_of(upper.as_str())
    }

    /// The contents as text, with a replacement character wherever they are
    /// not UTF-8. Contents that are UTF-8 throughout are their own text.
    pub fn string_contents(&self) -> (text: Cow<'_, str>)
        ensures
            text@ == utf8_lossy(self.contents@),
            valid_utf8(self.contents@) ==> text@ == decode_utf8(self.contents@),
    {
        from_utf8_lossy(self.contents.as_slice())
    }

    /// The contents as text, as [`Product::string_contents`] gives them.
    pub fn into_string_lossy(self) -> (text: String)
        ensures
            text@ == utf8_lossy(self.contents@),
            valid_utf8(self.contents@) ==> text@ == decode_utf8(self.contents@),
    {
        match from_utf8_lossy(self.contents.as_slice()) {
            Cow::Borrowed(text) => text.to_owned(),
            Cow::Owned(text) => text,
        }
    }

    /// Makes a product of a member that was read: the member itself, or, for
    /// a container, what its one entry comes to, as [`resolved`] says.
    pub fn new(label: String, contents: Vec<u8>) -> (outcome: Result<Product, Error>)
        ensures
            matches_extraction(outcome, resolved(label@, contents@, NESTING_LIMIT as nat)),
    {
        let ghost wanted = resolved(label@, contents@, NESTING_LIMIT as nat);
        let mut member = label;
        let mut data = contents;
        let mut level: u64 = 0;
        loop
            invariant
                level <= NESTING_LIMIT,
                wanted == resolved(label@, contents@, NESTING_LIMIT as nat),
                resolved(member@, data@, (NESTING_LIMIT - level) as nat) == wanted,
            decreases NESTING_LIMIT - level,
        {
            if !has_suffix(member.as_str(), ".ZIP") {
                return Ok(Product { filename: member, contents: data });
            }
            if level == NESTING_LIMIT {
                return Err(Error::ArchiveMember(member));
            }
            let mut inner = match zip_open(data) {
                Ok(archive) => archive,
                Err(_) => {
                    return Err(Error::ArchiveMember(member));
                },
            };
            if zip_len(&inner) != 1 {
                return Err(Error::ArchiveMember(member));
            }
            let read = match entry_by_index(&mut inner, 0) {
                Some(file) => read_entry(file),
                None => {
                    return Err(Error::ArchiveMember(member));
                },
            };
            match read {
                Ok((name, bytes)) => {
                    member = name;
                    data = bytes;
                },
                Err(error) => {
                    return Err(error);
                },
            }
            level = level + 1;
        }
    }

    /// Takes the member `name` out of `archive`.
    ///
    /// It fails with [`Error::ArchiveMember`] and the name, in upper case, of
    /// the member that could not be had: `name` itself where the archive has
    /// no such entry to hand out, a member whose content is too large or
    /// cannot be read, or a container that is not an archive of exactly one
    /// usable entry. A failure concerns this member alone.
    pub fn extract(archive: &mut Archive, name: &str) -> (outcome: Result<Product, Error>)
        ensures
            archive_bytes(*final(archive)) == archive_bytes(*old(archive)),
            matches_extraction(outcome, extracted_by_name(archive_bytes(*old(archive)), name@)),
    {
        let read = match entry_by_name(archive, name) {
            Some(file) => read_entry(file),
            None => {
                return Err(Error::ArchiveMember(to_uppercase(name)));
            },
        };
        match read {
            Ok((label, contents)) => Product::new(label, contents),
            Err(error) => Err(error),
        }
    }
}

} // verus!
