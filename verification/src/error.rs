//! The errors of the parser.
//!
//! An error is a cause, possibly wrapped in the steps that were under way when
//! it came up. Every cause carries what is needed to find the place in the
//! file: the offset that was tried, the length that was there, the index of
//! the entry.

use vstd::prelude::*;

verus! {

/// A record of fixed size that could not be read in full.
#[derive(Debug, Clone, Copy, PartialEq, Eq)]
pub enum Record {
    /// The 24-byte COFF header at the start of the PE part.
    CoffHeader,
    /// The 20-byte entry `index` of the import directory table.
    ImportDirectoryEntry { index: usize },
    /// The 40-byte export directory table.
    ExportDirectoryTable,
    /// The 4-byte entry `index`, out of `count`, of the export name pointer table.
    NamePointer { index: usize, count: usize },
}

/// The step during which an error came up.
#[derive(Debug, Clone, Copy, PartialEq, Eq)]
pub enum Context {
    /// Locating and checking the optional header.
    OptionalHeader,
    /// Reading the section table.
    SectionHeaders,
    /// Translating the address of the import directory table.
    ImportDirectoryRva,
    /// Walking the import directory table.
    ImportDirectory,
    /// Translating the address of the library name of directory entry `entry`.
    DllNameRva { entry: usize },
    /// Reading the library name of directory entry `entry`.
    DllName { entry: usize },
    /// Translating the address of the import lookup table of directory entry `entry`.
    ImportLookupRva { entry: usize },
    /// Walking the import lookup table of directory entry `entry`.
    ImportLookup { entry: usize },
    /// Translating the address of the name that lookup entry `index` points to.
    FunctionNameRva { index: usize },
    /// Reading the name that lookup entry `index` points to.
    FunctionName { index: usize },
    /// Translating the address of the export name pointer table.
    NamePointerTableRva,
    /// Translating the address held by name pointer `index`.
    NamePointerRva { index: usize },
    /// Reading the name that name pointer `index` points to.
    ExportName { index: usize },
}

/// Why an image could not be parsed.
#[derive(Debug, PartialEq, Eq)]
pub enum PeError {
    /// The image has no four bytes at 0x3C, or they point past its end.
    TooShortForHeaderPointer { file_len: usize },
    /// The four bytes at `offset`, to which 0x3C points, are not `P E 0 0`.
    NotAPeImage { offset: u64 },
    /// The buffer of `file_len` bytes ended before `record`, which starts at `offset`.
    UnexpectedEof { record: Record, offset: u64, file_len: usize },
    /// The COFF header announces an optional header of 240 bytes, of which
    /// only `available` are there.
    OptionalHeaderTooShort { available: usize },
    /// The optional header does not start with the magic number of PE32+.
    NotPe32Plus,
    /// The COFF header announces an optional header of `size` bytes, neither 0 nor 240.
    UnexpectedOptionalHeaderSize { size: u16 },
    /// The image has no optional header, so no data directories.
    MissingOptionalHeader,
    /// Of `expected` section headers only `available` could be read in full.
    TruncatedSectionTable { expected: usize, available: usize },
    /// No section holds the relative virtual address `rva`.
    RvaNotInAnySection { rva: u32 },
    /// Entry `entry` of the import directory table would end past the
    /// `table_size` bytes that the data directory gives the table.
    ImportDirectoryTableOverrun { entry: usize, table_size: usize },
    /// The buffer of `file_len` bytes ended at entry `entry` of an import
    /// lookup table, at `offset`, before a zero entry closed the table.
    UnterminatedImportLookupTable { entry: usize, offset: u64, file_len: usize },
    /// The buffer ended `bytes_read` bytes after `offset` with no zero byte
    /// to close the string that starts there.
    UnterminatedString { offset: u64, bytes_read: usize },
    /// The `length` bytes of the string at `offset` are not UTF-8.
    InvalidUtf8 { offset: u64, length: usize },
    /// No section holds `rva`, the address of the export directory table: the
    /// image most likely exports nothing.
    ExportDirectoryAbsent { rva: u32 },
    /// `source` came up during `context`.
    Within { context: Context, source: Box<PeError> },
}

impl PeError {
    /// The cause of this error, without the steps it is wrapped in.
    pub open spec fn cause(self) -> PeError
        decreases self,
    {
        match self {
            PeError::Within { source, .. } => source.cause(),
            _ => self,
        }
    }

    /// Whether this error says that the buffer ended before something that
    /// the file format promises.
    pub open spec fn is_truncation(self) -> bool {
        match self.cause() {
            PeError::TooShortForHeaderPointer { .. } => true,
            PeError::UnexpectedEof { .. } => true,
            PeError::OptionalHeaderTooShort { .. } => true,
            PeError::TruncatedSectionTable { .. } => true,
            PeError::UnterminatedImportLookupTable { .. } => true,
            PeError::UnterminatedString { .. } => true,
            _ => false,
        }
    }

    /// This error, wrapped in the step during which it came up.
    pub open spec fn wrapped(self, context: Context) -> PeError {
        PeError::Within { context, source: Box::new(self) }
    }

    /// Wraps this error in the step during which it came up.
    pub fn within(self, context: Context) -> (r: PeError)
        ensures
            r == self.wrapped(context),
            r.cause() == self.cause(),
    {
        PeError::Within { context, source: Box::new(self) }
    }

    /// The cause of this error, without the steps it is wrapped in.
    pub fn root_cause(&self) -> (r: &PeError)
        ensures
            *r == self.cause(),
            !(*r is Within),
        decreases *self,
    {
        match self {
            PeError::Within { source, .. } => source.root_cause(),
            _ => self,
        }
    }

    /// Whether the buffer ended before something that the file format promises.
    pub fn truncated(&self) -> (r: bool)
        ensures
            r == self.is_truncation(),
    {
        match self.root_cause() {
            PeError::TooShortForHeaderPointer { .. } => true,
            PeError::UnexpectedEof { .. } => true,
            PeError::OptionalHeaderTooShort { .. } => true,
            PeError::TruncatedSectionTable { .. } => true,
            PeError::UnterminatedImportLookupTable { .. } => true,
            PeError::UnterminatedString { .. } => true,
            _ => false,
        }
    }
}

} // verus!
