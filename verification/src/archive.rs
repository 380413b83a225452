//! The downloaded archive and what is unpacked from it.
use crate::error::Error;
use vstd::prelude::*;
use vstd::string::StringExecFns;

verus! {

/// Why `zip` refuses `bytes` as an archive: the message of the error that
/// `zip::ZipArchive::new` returns for a cursor over them, or `None` where it
/// opens them.
pub uninterp spec fn zip_archive_fault(bytes: Seq<u8>) -> Option<Seq<char>>;

/// What `zip` unpacks from the entry at `index` of the archive `bytes`: the
/// bytes that the reader returned by `zip::ZipArchive::by_index` yields up
/// to its end, or the message of the error that opening the archive, getting
/// the entry or reading it stopped with.
pub uninterp spec fn zip_entry(bytes: Seq<u8>, index: int) -> Result<Seq<u8>, Seq<char>>;

/// `zip::ZipArchive::new` on a cursor over `bytes`: whether they open as an
/// archive, and the error's message where they do not. The archive itself is
/// dropped.
#[verifier::external_body]
fn archive_fault(bytes: &[u8]) -> (fault: Option<String>)
    ensures
        match fault {
            Some(reason) => zip_archive_fault(bytes@) == Some(reason@),
            None => zip_archive_fault(bytes@) is None,
        },
{
    match zip::ZipArchive::new(std::io::Cursor::new(bytes)) {
        Ok(_) => None,
        Err(error) => Some(error.to_string()),
    }
}

/// `zip::ZipArchive::by_index` on the archive opened from `bytes`, read to
/// its end: the unpacked bytes of that entry, or the message of the first
/// error on the way.
#[verifier::external_body]
fn read_entry(bytes: &[u8], index: usize) -> (contents: Result<Vec<u8>, String>)
    ensures
        match contents {
            Ok(unpacked) => zip_entry(bytes@, index as int) == Ok::<Seq<u8>, Seq<char>>(
                unpacked@,
            ),
            Err(reason) => zip_entry(bytes@, index as int) == Err::<Seq<u8>, Seq<char>>(
                reason@,
            ),
        },
{
    let mut archive = match zip::ZipArchive::new(std::io::Cursor::new(bytes)) {
        Ok(archive) => archive,
        Err(error) => return Err(error.to_string()),
    };
    let mut entry = match archive.by_index(index) {
        Ok(entry) => entry,
        Err(error) => return Err(error.to_string()),
    };
    let mut unpacked = Vec::new();
    match std::io::Read::read_to_end(&mut entry, &mut unpacked) {
        Ok(_) => Ok(unpacked),
        Err(error) => Err(error.to_string()),
    }
}

/// The permission bits of an installed program: read, write and execute for
/// the owner, read and execute for the group and for everyone else.
pub const INSTALL_MODE: u32 = 0o755;

/// The permission bits let the owner, the group and everyone else read and
/// execute the file.
pub open spec fn grants_read_and_execute(mode: u32) -> bool {
    mode & 0o555 == 0o555
}

/// The bytes open as a ZIP archive.
pub open spec fn is_archive(bytes: Seq<u8>) -> bool {
    zip_archive_fault(bytes) is None
}

/// A downloaded archive, held as the bytes that were received or read from
/// the cache. A handle exists only for bytes that open as a ZIP archive.
#[derive(Debug, PartialEq, Eq)]
pub struct ArchiveHandle {
    bytes: Vec<u8>,
}

impl View for ArchiveHandle {
    type V = Seq<u8>;

    closed spec fn view(&self) -> Seq<u8> {
        self.bytes@
    }
}

impl ArchiveHandle {
    #[verifier::type_invariant]
    spec fn opens(self) -> bool {
        is_archive(self.bytes@)
    }

    /// Takes `bytes` for an archive if they open as one. Nothing else is
    /// checked of them: not where they came from, nor whether they are what
    /// the publisher put out.
    pub fn open(bytes: Vec<u8>) -> (answer: Result<ArchiveHandle, Error>)
        ensures
            match answer {
                Ok(archive) => is_archive(bytes@) && archive@ == bytes@,
                Err(error) => error matches Error::InvalidArchive { reason }
                    && zip_archive_fault(bytes@) == Some(reason@),
            },
    {
        match archive_fault(bytes.as_slice()) {
            Some(reason) => Err(Error::InvalidArchive { reason }),
            None => Ok(ArchiveHandle { bytes }),
        }
    }

    /// The bytes of the archive, as they were handed to [`ArchiveHandle::open`].
    pub fn bytes(&self) -> (bytes: &Vec<u8>)
        ensures
            bytes@ == self@,
            is_archive(self@),
    {
        proof {
            use_type_invariant(self);
        }
        &self.bytes
    }
}

/// What has to be written to install the program.
#[derive(Debug, PartialEq, Eq)]
pub struct Installation {
    /// The file to create, or to empty if it exists.
    pub path: String,
    /// The permission bits to give it before anything is written.
    pub mode: u32,
    /// The bytes to write into it.
    pub contents: Vec<u8>,
}

/// Unpacks the program from the archive.
///
/// The program is the first entry of the archive, whatever its name. The
/// answer says what to write where: the unpacked entry, to `program_path`,
/// with the permission bits [`INSTALL_MODE`]. An archive without entries, or
/// one whose first entry cannot be unpacked, is an error.
pub fn extract_zip_archive(program_path: &str, archive: &ArchiveHandle) -> (answer: Result<
    Installation,
    Error,
>)
    ensures
        match answer {
            Ok(installation) => {
                &&& zip_entry(archive@, 0) == Ok::<Seq<u8>, Seq<char>>(installation.contents@)
                &&& installation.path@ == program_path@
                &&& installation.mode == INSTALL_MODE
                &&& grants_read_and_execute(installation.mode)
            },
            Err(error) => error matches Error::InvalidArchive { reason } && zip_entry(archive@, 0)
                == Err::<Seq<u8>, Seq<char>>(reason@),
        },
{
    assert(grants_read_and_execute(INSTALL_MODE)) by {
        assert(0o755u32 & 0o555 == 0o555) by (bit_vector);
    }
    match read_entry(archive.bytes().as_slice(), 0) {
        Ok(contents) => Ok(
            Installation { path: String::from_str(program_path), mode: INSTALL_MODE, contents },
        ),
        Err(reason) => Err(Error::InvalidArchive { reason }),
    }
}

} // verus!
