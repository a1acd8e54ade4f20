//! Directory entries as the browser holds them, and how two are compared.

use crate::error_code::{ErrorCode, COULD_NOT_READ_METADATA};
use crate::order::{dotted, entry_lt, lemma_name_trichotomy, name_lt, same_place, Entry, Kind};
use crate::utf8_order::{bytes_lt, bytes_lt_from, lemma_utf8_keeps_order};
use std::cmp::Ordering;
use vstd::prelude::*;
use vstd::string::StrSliceExecFns;

verus! {

/// One child of a directory: its kind, the last component of its path, and
/// the path itself.
pub enum DirObject {
    Dir { name: String, path: String },
    File { name: String, path: String },
    Unknown { name: String, path: String },
}

impl View for DirObject {
    type V = Entry;

    open spec fn view(&self) -> Entry {
        match self {
            DirObject::Dir { name, path } => Entry { kind: Kind::Dir, name: name@, path: path@ },
            DirObject::File { name, path } => Entry { kind: Kind::File, name: name@, path: path@ },
            DirObject::Unknown { name, path } => Entry {
                kind: Kind::Unknown,
                name: name@,
                path: path@,
            },
        }
    }
}

impl Clone for DirObject {
    fn clone(&self) -> (r: Self)
        ensures
            r == *self,
    {
        match self {
            DirObject::Dir { name, path } => DirObject::Dir {
                name: name.clone(),
                path: path.clone(),
            },
            DirObject::File { name, path } => DirObject::File {
                name: name.clone(),
                path: path.clone(),
            },
            DirObject::Unknown { name, path } => DirObject::Unknown {
                name: name.clone(),
                path: path.clone(),
            },
        }
    }
}

/// The plain values of a listing.
pub open spec fn entries(v: Seq<DirObject>) -> Seq<Entry> {
    v.map_values(|o: DirObject| o@)
}

/// What the metadata of a directory item says of its kind.
#[derive(Clone, Copy)]
pub struct RawMetadata {
    pub is_dir: bool,
    pub is_file: bool,
}

/// One item of a directory as it was read: its metadata, unless they could
/// not be read; its name, unless it is no valid Unicode; and its path.
pub struct RawEntry {
    pub metadata: Option<RawMetadata>,
    pub name: Option<String>,
    pub path: String,
}

/// The plain value of a `RawEntry`.
#[verifier::ext_equal]
pub struct RawEntryView {
    pub metadata: Option<RawMetadata>,
    pub name: Option<Seq<char>>,
    pub path: Seq<char>,
}

impl View for RawEntry {
    type V = RawEntryView;

    open spec fn view(&self) -> RawEntryView {
        RawEntryView {
            metadata: self.metadata,
            name: match self.name {
                Some(name) => Some(name@),
                None => None,
            },
            path: self.path@,
        }
    }
}

/// The kind that metadata stand for: a directory where they say so, else a
/// file where they say so, else unknown.
pub open spec fn kind_of(metadata: RawMetadata) -> Kind {
    if metadata.is_dir {
        Kind::Dir
    } else if metadata.is_file {
        Kind::File
    } else {
        Kind::Unknown
    }
}

/// The entry that a directory item stands for. There is none where the
/// metadata or the name could not be read.
pub open spec fn classify(raw: RawEntryView) -> Result<Entry, ErrorCode> {
    match (raw.metadata, raw.name) {
        (Some(metadata), Some(name)) => Ok(Entry { kind: kind_of(metadata), name, path: raw.path }),
        _ => Err(COULD_NOT_READ_METADATA),
    }
}

/// The plain value of the outcome of `new_dir_object`.
pub open spec fn classified(r: Result<DirObject, ErrorCode>) -> Result<Entry, ErrorCode> {
    match r {
        Ok(o) => Ok(o@),
        Err(e) => Err(e),
    }
}

/// Something that stands for one child of a directory.
pub trait IntoDirObject {
    /// The entry that this stands for, or why there is none.
    spec fn dir_object(&self) -> Result<Entry, ErrorCode>;

    /// Makes the entry.
    fn new_dir_object(&self) -> (r: Result<DirObject, ErrorCode>)
        ensures
            classified(r) == self.dir_object(),
    ;
}

impl IntoDirObject for RawEntry {
    open spec fn dir_object(&self) -> Result<Entry, ErrorCode> {
        classify(self@)
    }

    fn new_dir_object(&self) -> (r: Result<DirObject, ErrorCode>) {
        let metadata = match self.metadata {
            Some(metadata) => metadata,
            None => return Err(COULD_NOT_READ_METADATA),
        };
        let name = match &self.name {
            Some(name) => name.clone(),
            None => return Err(COULD_NOT_READ_METADATA),
        };
        let path = self.path.clone();
        if metadata.is_dir {
            Ok(DirObject::Dir { name, path })
        } else if metadata.is_file {
            Ok(DirObject::File { name, path })
        } else {
            Ok(DirObject::Unknown { name, path })
        }
    }
}

impl DirObject {
    /// The name of the entry.
    pub fn filename(&self) -> (r: &str)
        ensures
            r@ == self@.name,
    {
        match self {
            DirObject::Dir { name, .. } => name.as_str(),
            DirObject::File { name, .. } => name.as_str(),
            DirObject::Unknown { name, .. } => name.as_str(),
        }
    }

    /// The path of the entry.
    pub fn path(&self) -> (r: &str)
        ensures
            r@ == self@.path,
    {
        match self {
            DirObject::Dir { path, .. } => path.as_str(),
            DirObject::File { path, .. } => path.as_str(),
            DirObject::Unknown { path, .. } => path.as_str(),
        }
    }
}

/// Whether the name begins with a dot.
fn starts_with_dot(name: &str) -> (r: bool)
    ensures
        r == dotted(name@),
{
    !name.is_empty() && name.get_char(0) == '.'
}

/// The length of the longest prefix that `a` and `b` share.
fn common_prefix_len(a: &[u8], b: &[u8]) -> (n: usize)
    ensures
        n <= a@.len(),
        n <= b@.len(),
        n < a@.len() && n < b@.len() ==> a@[n as int] != b@[n as int],
        bytes_lt(a@, b@) == bytes_lt_from(a@, b@, n as int),
        bytes_lt(b@, a@) == bytes_lt_from(b@, a@, n as int),
{
    let mut i: usize = 0;
    while i < a.len() && i < b.len() && a[i] == b[i]
        invariant
            i <= a@.len(),
            i <= b@.len(),
            bytes_lt(a@, b@) == bytes_lt_from(a@, b@, i as int),
            bytes_lt(b@, a@) == bytes_lt_from(b@, a@, i as int),
        decreases a@.len() - i,
    {
        i = i + 1;
    }
    i
}

/// Compares two byte strings: the first byte in which they differ decides,
/// and a string comes before every string that it begins.
fn bytes_ordering(a: &[u8], b: &[u8]) -> (r: Ordering)
    ensures
        (r == Ordering::Less) == bytes_lt(a@, b@),
        (r == Ordering::Greater) == bytes_lt(b@, a@),
{
    let n = common_prefix_len(a, b);
    if n < b.len() {
        if n < a.len() && a[n] > b[n] {
            Ordering::Greater
        } else {
            Ordering::Less
        }
    } else if n < a.len() {
        Ordering::Greater
    } else {
        Ordering::Equal
    }
}

/// Compares two names as a listing orders them.
pub fn name_ordering(a: &str, b: &str) -> (r: Ordering)
    ensures
        (r == Ordering::Less) == name_lt(a@, b@),
        (r == Ordering::Greater) == name_lt(b@, a@),
        (r == Ordering::Equal) == (a@ == b@),
{
    proof {
        lemma_name_trichotomy(a@, b@);
        lemma_utf8_keeps_order(a@, b@);
        lemma_utf8_keeps_order(b@, a@);
    }
    let a_dot = starts_with_dot(a);
    let b_dot = starts_with_dot(b);
    if a_dot != b_dot {
        if a_dot {
            Ordering::Greater
        } else {
            Ordering::Less
        }
    } else {
        bytes_ordering(a.as_bytes(), b.as_bytes())
    }
}

/// Compares two entries as a listing orders them.
pub fn dir_ordering(a: &DirObject, b: &DirObject) -> (r: Ordering)
    ensures
        (r == Ordering::Less) == entry_lt(a@, b@),
        (r == Ordering::Greater) == entry_lt(b@, a@),
        (r == Ordering::Equal) == same_place(a@, b@),
{
    match (a, b) {
        (DirObject::Dir { name: a_name, .. }, DirObject::Dir { name: b_name, .. }) => {
            name_ordering(a_name.as_str(), b_name.as_str())
        },
        (DirObject::Dir { .. }, _) => Ordering::Less,
        (_, DirObject::Dir { .. }) => Ordering::Greater,
        (_, _) => name_ordering(a.filename(), b.filename()),
    }
}

/// Whether `a` comes before `b` in a listing.
pub fn comes_before(a: &DirObject, b: &DirObject) -> (r: bool)
    ensures
        r == entry_lt(a@, b@),
{
    match dir_ordering(a, b) {
        Ordering::Less => true,
        _ => false,
    }
}

/// Whether the order cannot tell `a` and `b` apart.
pub fn same_place_as(a: &DirObject, b: &DirObject) -> (r: bool)
    ensures
        r == same_place(a@, b@),
{
    match dir_ordering(a, b) {
        Ordering::Equal => true,
        _ => false,
    }
}

} // verus!
