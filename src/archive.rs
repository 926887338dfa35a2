use vstd::prelude::*;
use crate::byte_util::str_equal;

verus! {

/// The container formats that an archive can have.
#[derive(Debug, Clone, Copy, PartialEq, Eq, Structural)]
pub enum ArchiveFormat {
    /// a ZIP file
    Zip,
    /// a TAR file
    Tar,
    /// a directory read as an archive
    Directory,
    /// anything else
    Unknown,
}

impl ArchiveFormat {
    /// The format's name in lower case.
    pub fn name(&self) -> (r: &'static str)
        ensures
            r@ == match *self {
                ArchiveFormat::Zip => "zip"@,
                ArchiveFormat::Tar => "tar"@,
                ArchiveFormat::Directory => "directory"@,
                ArchiveFormat::Unknown => "unknown"@,
            },
    {
        match self {
            ArchiveFormat::Zip => "zip",
            ArchiveFormat::Tar => "tar",
            ArchiveFormat::Directory => "directory",
            ArchiveFormat::Unknown => "unknown",
        }
    }
}

/// The description of one member of an archive.
#[derive(Debug, Clone)]
pub struct ArchiveEntry {
    /// path of the member
    pub name: String,
    /// uncompressed size in bytes
    pub size: u64,
    /// whether the member is a directory
    pub is_dir: bool,
    /// position in the archive
    pub offset: u64,
}

impl ArchiveEntry {
    /// An entry at offset 0.
    pub fn new(name: String, size: u64, is_dir: bool) -> (r: ArchiveEntry)
        ensures
            r.name@ == name@,
            r.size == size,
            r.is_dir == is_dir,
            r.offset == 0,
    {
        ArchiveEntry { name, size, is_dir, offset: 0 }
    }
}

/// The failures of archive access.
#[derive(Debug, Clone, Copy, PartialEq, Eq, Structural)]
pub enum ArchiveError {
    /// The data is in no supported archive format.
    Unsupported,
    /// No member has the given name or index.
    Argument,
}

/// The format that the leading bytes show: `PK\x03\x04` is ZIP, `ustar` at
/// offset 257 is TAR; data shorter than four bytes is unknown.
pub open spec fn spec_detect_format(data: Seq<u8>) -> ArchiveFormat {
    if data.len() < 4 {
        ArchiveFormat::Unknown
    } else if data[0] == 0x50 && data[1] == 0x4B && data[2] == 0x03 && data[3] == 0x04 {
        ArchiveFormat::Zip
    } else if data.len() >= 262 && data.subrange(257, 262) == seq![0x75u8, 0x73u8, 0x74u8, 0x61u8, 0x72u8] {
        ArchiveFormat::Tar
    } else {
        ArchiveFormat::Unknown
    }
}

/// An archive read from bytes in memory: its format and its members, in
/// their order in the archive.
pub struct Archive {
    format: ArchiveFormat,
    entries: Vec<ArchiveEntry>,
}

impl Archive {
    /// The members of the archive.
    pub closed spec fn members(&self) -> Seq<ArchiveEntry> {
        self.entries@
    }

    /// The archive's format.
    pub closed spec fn spec_format(&self) -> ArchiveFormat {
        self.format
    }

    /// The format that the leading bytes of `data` show.
    pub fn detect_format(data: &[u8]) -> (r: ArchiveFormat)
        ensures
            r == spec_detect_format(data@),
    {
        if data.len() < 4 {
            return ArchiveFormat::Unknown;
        }
        if data[0] == 0x50 && data[1] == 0x4B && data[2] == 0x03 && data[3] == 0x04 {
            return ArchiveFormat::Zip;
        }
        if data.len() >= 262 && data[257] == 0x75 && data[258] == 0x73 && data[259] == 0x74
            && data[260] == 0x61 && data[261] == 0x72 {
            assert(data@.subrange(257, 262) =~= seq![0x75u8, 0x73u8, 0x74u8, 0x61u8, 0x72u8]);
            return ArchiveFormat::Tar;
        }
        if data.len() >= 262 {
            assert(data@.subrange(257, 262)[0] == data@[257]);
            assert(data@.subrange(257, 262)[1] == data@[258]);
            assert(data@.subrange(257, 262)[2] == data@[259]);
            assert(data@.subrange(257, 262)[3] == data@[260]);
            assert(data@.subrange(257, 262)[4] == data@[261]);
        }
        ArchiveFormat::Unknown
    }

    /// An archive over bytes in memory: ZIP and TAR are recognised (their
    /// member tables are not read yet, so they list no member); any other
    /// data is unsupported.
    pub fn from_buffer(data: Vec<u8>) -> (r: Result<Archive, ArchiveError>)
        ensures
            match spec_detect_format(data@) {
                ArchiveFormat::Zip | ArchiveFormat::Tar => r matches Ok(a) && a.spec_format()
                    == spec_detect_format(data@) && a.members().len() == 0,
                _ => r == Err::<Archive, ArchiveError>(ArchiveError::Unsupported),
            },
    {
        let format = Archive::detect_format(data.as_slice());
        match format {
            ArchiveFormat::Zip | ArchiveFormat::Tar => Ok(Archive { format, entries: Vec::new() }),
            _ => Err(ArchiveError::Unsupported),
        }
    }

    /// The archive's format.
    pub fn format(&self) -> (r: ArchiveFormat)
        ensures
            r == self.spec_format(),
    {
        self.format
    }

    /// The number of members.
    pub fn count_entries(&self) -> (r: Result<usize, ArchiveError>)
        ensures
            r == Ok::<usize, ArchiveError>(self.members().len() as usize),
    {
        Ok(self.entries.len())
    }

    /// The name of member `idx`.
    pub fn list_entry(&self, idx: usize) -> (r: Result<&str, ArchiveError>)
        ensures
            idx < self.members().len() ==> (r matches Ok(s) && s@ == self.members()[idx as int].name@),
            idx >= self.members().len() ==> r == Err::<&str, ArchiveError>(ArchiveError::Argument),
    {
        if idx < self.entries.len() {
            Ok(self.entries[idx].name.as_str())
        } else {
            Err(ArchiveError::Argument)
        }
    }

    /// Whether a member has the given name.
    pub fn has_entry(&self, name: &str) -> (r: bool)
        ensures
            r == exists|i: int| 0 <= i < self.members().len() && #[trigger] self.members()[i].name@ == name@,
    {
        let mut i: usize = 0;
        while i < self.entries.len()
            invariant
                i <= self.entries@.len(),
                forall|j: int| 0 <= j < i ==> #[trigger] self.entries@[j].name@ != name@,
            decreases self.entries@.len() - i,
        {
            if str_equal(self.entries[i].name.as_str(), name) {
                assert(self.members()[i as int].name@ == name@);
                return true;
            }
            i = i + 1;
        }
        false
    }

    /// The content of the member with the given name; members are not
    /// extracted yet, so a present member reads as empty.
    pub fn read_entry(&mut self, name: &str) -> (r: Result<Vec<u8>, ArchiveError>)
        ensures
            final(self).members() == old(self).members(),
            final(self).spec_format() == old(self).spec_format(),
            (exists|i: int| 0 <= i < old(self).members().len() && #[trigger] old(self).members()[i].name@ == name@)
                ==> (r matches Ok(v) && v@.len() == 0),
            !(exists|i: int| 0 <= i < old(self).members().len() && #[trigger] old(self).members()[i].name@ == name@)
                ==> r == Err::<Vec<u8>, ArchiveError>(ArchiveError::Argument),
    {
        if self.has_entry(name) {
            Ok(Vec::new())
        } else {
            Err(ArchiveError::Argument)
        }
    }

    /// The names of all members, in order.
    pub fn entry_names(&self) -> (r: Vec<&str>)
        ensures
            r@.len() == self.members().len(),
            forall|i: int| 0 <= i < r@.len() ==> #[trigger] r@[i]@ == self.members()[i].name@,
    {
        let mut names: Vec<&str> = Vec::new();
        let mut i: usize = 0;
        while i < self.entries.len()
            invariant
                i <= self.entries@.len(),
                names@.len() == i,
                forall|j: int| 0 <= j < i ==> #[trigger] names@[j]@ == self.entries@[j].name@,
            decreases self.entries@.len() - i,
        {
            names.push(self.entries[i].name.as_str());
            i = i + 1;
        }
        names
    }
}

} // verus!
