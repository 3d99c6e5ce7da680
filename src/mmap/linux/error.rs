use vstd::prelude::*;
use vstd::string::*;

verus! {

/// Errors of the file-backed memory map manager.
#[derive(Clone, Copy, Debug)]
pub enum ManagerError {
    /// min length must be a positive integer
    ErrZeroLength,
    /// the filename is invalid
    ErrInvalidFilename(&'static str),
    /// Could not reserve address space
    ErrReserveMemory,
    /// File size is not multiple of page size
    ErrFileSize,
    /// Max pages reached
    ErrMaxPages,
    /// Memory map is already being extended
    ErrIsExtending,
    /// Error opening file
    ErrOpenFile,
    /// Error allocating memory
    ErrAllocate,
    /// Error remapping mmap
    ErrRemap,
    /// Overflow error
    ErrOverflow,
}

/// Errors of a memory mapping.
#[derive(Clone, Copy, Debug)]
pub enum MapError {
    /// fd was not open for reading or, if using `MapWritable`, was not open for
    /// writing.
    ErrFdNotAvail,
    /// fd was not valid
    ErrInvalidFd,
    /// Either the address or the offset was not a multiple of the page size.
    ErrUnaligned,
    /// The fd does not support mapping.
    ErrNoMapSupport,
    /// The address range was outside of the process's address space, or the
    /// target of the fd didn't have enough resources to fulfill the request.
    ErrNoMem,
    /// A zero-length map was requested.
    ErrZeroLength,
    /// Unrecognized error. The inner value is the unrecognized errno.
    ErrUnknown(isize),
}

/// The text of a manager error.
pub open spec fn manager_error_text(e: ManagerError) -> Seq<char> {
    match e {
        ManagerError::ErrInvalidFilename(err) => "Invalid filename error: "@ + err@,
        ManagerError::ErrZeroLength => "Minimum length must be greater than zero"@,
        ManagerError::ErrReserveMemory => "Could not reserve memory for all pages"@,
        ManagerError::ErrFileSize => "File size is not multiple of page size"@,
        ManagerError::ErrMaxPages => "Maximum number of pages reached"@,
        ManagerError::ErrIsExtending => "Memory map is already extending"@,
        ManagerError::ErrOpenFile => "Error while opening mmap file"@,
        ManagerError::ErrAllocate => "Error allocating memory to mmap"@,
        ManagerError::ErrRemap => "Error performing mmap"@,
        ManagerError::ErrOverflow => "Error overflowing variable"@,
    }
}

/// The decimal digit `d`.
pub open spec fn digit_char(d: nat) -> char {
    if d == 0 { '0' } else if d == 1 { '1' } else if d == 2 { '2' } else if d == 3 { '3' }
    else if d == 4 { '4' } else if d == 5 { '5' } else if d == 6 { '6' } else if d == 7 { '7' }
    else if d == 8 { '8' } else { '9' }
}

/// Decimal digits of `n`, most significant first.
pub open spec fn nat_text(n: nat) -> Seq<char>
    decreases n,
{
    if n < 10 {
        seq![digit_char(n)]
    } else {
        nat_text(n / 10).push(digit_char(n % 10))
    }
}

/// Decimal text of `v`, with a leading `-` when negative.
pub open spec fn int_text(v: int) -> Seq<char> {
    if v < 0 {
        seq!['-'] + nat_text((-v) as nat)
    } else {
        nat_text(v as nat)
    }
}

/// The text of a map error.
pub open spec fn map_error_text(e: MapError) -> Seq<char> {
    match e {
        MapError::ErrFdNotAvail => "fd not available for reading or writing"@,
        MapError::ErrInvalidFd => "Invalid fd"@,
        MapError::ErrUnaligned => "Unaligned address, invalid flags, negative length or unaligned offset"@,
        MapError::ErrNoMapSupport => "File doesn't support mapping"@,
        MapError::ErrNoMem => "Invalid address, or not enough available memory"@,
        MapError::ErrZeroLength => "Zero-length mapping not allowed"@,
        MapError::ErrUnknown(code) => "Unknown error = "@ + int_text(code as int),
    }
}

/// The one-character text of decimal digit `d`.
fn digit_str(d: u64) -> (r: &'static str)
    requires
        d < 10,
    ensures
        r@ == seq![digit_char(d as nat)],
{
    if d == 0 {
        proof { reveal_strlit("0"); }
        "0"
    } else if d == 1 {
        proof { reveal_strlit("1"); }
        "1"
    } else if d == 2 {
        proof { reveal_strlit("2"); }
        "2"
    } else if d == 3 {
        proof { reveal_strlit("3"); }
        "3"
    } else if d == 4 {
        proof { reveal_strlit("4"); }
        "4"
    } else if d == 5 {
        proof { reveal_strlit("5"); }
        "5"
    } else if d == 6 {
        proof { reveal_strlit("6"); }
        "6"
    } else if d == 7 {
        proof { reveal_strlit("7"); }
        "7"
    } else if d == 8 {
        proof { reveal_strlit("8"); }
        "8"
    } else {
        proof { reveal_strlit("9"); }
        "9"
    }
}

/// Decimal text of `n`.
fn nat_string(n: u64) -> (r: String)
    ensures
        r@ == nat_text(n as nat),
    decreases n,
{
    if n < 10 {
        String::from_str(digit_str(n))
    } else {
        let mut s = nat_string(n / 10);
        s.append(digit_str(n % 10));
        proof {
            assert(s@ =~= nat_text((n / 10) as nat).push(digit_char((n % 10) as nat)));
        }
        s
    }
}

/// Decimal text of `v`, with a leading `-` when negative.
fn isize_text(v: isize) -> (r: String)
    ensures
        r@ == int_text(v as int),
{
    if v < 0 {
        let magnitude = (0i128 - v as i128) as u64;
        let digits = nat_string(magnitude);
        proof { reveal_strlit("-"); }
        let r = String::from_str("-").concat(digits.as_str());
        assert(r@ =~= seq!['-'] + nat_text((-(v as int)) as nat));
        r
    } else {
        nat_string(v as u64)
    }
}

impl ManagerError {
    /// The error's message.
    pub fn message(&self) -> (r: String)
        ensures
            r@ == manager_error_text(*self),
    {
        let text = match *self {
            ManagerError::ErrInvalidFilename(err) => {
                return String::from_str("Invalid filename error: ").concat(err);
            },
            ManagerError::ErrZeroLength => "Minimum length must be greater than zero",
            ManagerError::ErrReserveMemory => "Could not reserve memory for all pages",
            ManagerError::ErrFileSize => "File size is not multiple of page size",
            ManagerError::ErrMaxPages => "Maximum number of pages reached",
            ManagerError::ErrIsExtending => "Memory map is already extending",
            ManagerError::ErrOpenFile => "Error while opening mmap file",
            ManagerError::ErrAllocate => "Error allocating memory to mmap",
            ManagerError::ErrRemap => "Error performing mmap",
            ManagerError::ErrOverflow => "Error overflowing variable",
        };
        String::from_str(text)
    }

    pub fn description(&self) -> (r: &'static str)
        ensures
            r@ == "memory map manager error"@,
    {
        "memory map manager error"
    }
}

/// `std::io::Error`, carried through opaque.
#[verifier::external_type_specification]
#[verifier::external_body]
pub struct ExIoError(std::io::Error);

/// Text a manager error takes when it comes from an I/O error.
pub const IO_ERROR_TEXT: &'static str = "\"{}\", _err";

impl From<std::io::Error> for ManagerError {
    fn from(_err: std::io::Error) -> (r: ManagerError) {
        ManagerError::ErrInvalidFilename(IO_ERROR_TEXT)
    }
}

impl vstd::std_specs::convert::FromSpecImpl<std::io::Error> for ManagerError {
    open spec fn obeys_from_spec() -> bool {
        true
    }

    open spec fn from_spec(v: std::io::Error) -> ManagerError {
        ManagerError::ErrInvalidFilename(IO_ERROR_TEXT)
    }
}

impl MapError {
    /// The error's message.
    pub fn message(&self) -> (r: String)
        ensures
            r@ == map_error_text(*self),
    {
        let text = match *self {
            MapError::ErrFdNotAvail => "fd not available for reading or writing",
            MapError::ErrInvalidFd => "Invalid fd",
            MapError::ErrUnaligned => "Unaligned address, invalid flags, negative length or unaligned offset",
            MapError::ErrNoMapSupport => "File doesn't support mapping",
            MapError::ErrNoMem => "Invalid address, or not enough available memory",
            MapError::ErrZeroLength => "Zero-length mapping not allowed",
            MapError::ErrUnknown(code) => {
                let digits = isize_text(code);
                return String::from_str("Unknown error = ").concat(digits.as_str());
            },
        };
        String::from_str(text)
    }

    pub fn description(&self) -> (r: &'static str)
        ensures
            r@ == "memory map error"@,
    {
        "memory map error"
    }
}

} // verus!
