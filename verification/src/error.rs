//! Every failure mode the backend can produce.

use vstd::prelude::*;

use crate::text::{cat, dec, dec_string, owned};

verus! {

/// `std::io::Error`, which `HwError::from_io` classifies.
#[verifier::external_type_specification]
#[verifier::external_body]
pub struct ExIoError(std::io::Error);

/// The part of `std::io::ErrorKind` the classification looks at.
#[derive(Debug, Clone, Copy, PartialEq, Eq, Structural)]
pub enum IoKind {
    NotFound,
    PermissionDenied,
    Other,
}

/// An I/O failure, held as plain values: its kind, its OS error number if
/// it came from the OS, and its message (`Display` of the `io::Error`).
#[derive(Debug, Clone)]
pub struct IoFault {
    pub kind: IoKind,
    pub raw_os_error: Option<i32>,
    pub message: String,
}

pub struct IoFaultView {
    pub kind: IoKind,
    pub raw_os_error: Option<i32>,
    pub message: Seq<char>,
}

impl View for IoFault {
    type V = IoFaultView;

    open spec fn view(&self) -> IoFaultView {
        IoFaultView { kind: self.kind, raw_os_error: self.raw_os_error, message: self.message@ }
    }
}

/// Every failure mode the backend can produce.
#[derive(Debug, Clone)]
pub enum HwError {
    /// The kernel does not expose this feature on this machine (path absent).
    NotSupported,
    /// The caller lacks the rights to write this sysfs file (i.e. is not root).
    PermissionDenied,
    /// The kernel refused the write because a precondition is unmet — for the
    /// `ppt_*` firmware attributes this means the platform profile is not
    /// `custom`.
    Busy,
    /// Any other I/O failure.
    Io(IoFault),
    /// A sysfs value (or a user-supplied name) that does not parse.
    Parse(String),
}

pub enum HwErrorView {
    NotSupported,
    PermissionDenied,
    Busy,
    Io(IoFaultView),
    Parse(Seq<char>),
}

impl View for HwError {
    type V = HwErrorView;

    open spec fn view(&self) -> HwErrorView {
        match self {
            HwError::NotSupported => HwErrorView::NotSupported,
            HwError::PermissionDenied => HwErrorView::PermissionDenied,
            HwError::Busy => HwErrorView::Busy,
            HwError::Io(f) => HwErrorView::Io(f@),
            HwError::Parse(m) => HwErrorView::Parse(m@),
        }
    }
}

/// A `Result` with its error taken by its view.
pub open spec fn rv<T>(r: Result<T, HwError>) -> Result<T, HwErrorView> {
    match r {
        Ok(v) => Ok(v),
        Err(e) => Err(e@),
    }
}

/// A `Result<String, _>` taken by its views.
pub open spec fn rsv(r: Result<String, HwError>) -> Result<Seq<char>, HwErrorView> {
    match r {
        Ok(v) => Ok(v@),
        Err(e) => Err(e@),
    }
}

/// The OS error numbers the classification distinguishes.
#[derive(Debug, Clone, Copy, PartialEq, Eq, Structural)]
pub enum Errno {
    /// `EBUSY`
    Busy,
    /// `ENODEV`
    NoDev,
    /// `EOPNOTSUPP`
    OpNotSupp,
    /// `EISDIR`
    IsDir,
}

/// The number the OS uses for `e`, as `rustix::io::Errno::raw_os_error`
/// reports it.
pub uninterp spec fn os_errno(e: Errno) -> i32;

/// The OS error number of `e`.
///
/// Calls `rustix::io::Errno::raw_os_error` on rustix's constant for `e`
/// (`Errno::BUSY`, `Errno::NODEV`, `Errno::OPNOTSUPP`, `Errno::ISDIR`); the
/// contract only names the number, which rustix takes from the target's
/// errno table.
#[verifier::external_body]
pub fn errno_value(e: Errno) -> (r: i32)
    ensures
        r == os_errno(e),
{
    match e {
        Errno::Busy => rustix::io::Errno::BUSY.raw_os_error(),
        Errno::NoDev => rustix::io::Errno::NODEV.raw_os_error(),
        Errno::OpNotSupp => rustix::io::Errno::OPNOTSUPP.raw_os_error(),
        Errno::IsDir => rustix::io::Errno::ISDIR.raw_os_error(),
    }
}

/// How an I/O failure is reported, given the OS numbers of `EBUSY`,
/// `ENODEV` and `EOPNOTSUPP`.
pub open spec fn classify_spec(f: IoFaultView, busy: i32, nodev: i32, notsup: i32) -> HwErrorView {
    match f.kind {
        IoKind::NotFound => HwErrorView::NotSupported,
        IoKind::PermissionDenied => HwErrorView::PermissionDenied,
        IoKind::Other => if f.raw_os_error == Some(busy) {
            HwErrorView::Busy
        } else if f.raw_os_error == Some(nodev) || f.raw_os_error == Some(notsup) {
            // ENODEV/EOPNOTSUPP show up when a driver advertises an
            // attribute its firmware does not actually implement.
            HwErrorView::NotSupported
        } else {
            HwErrorView::Io(f)
        },
    }
}

/// How an I/O failure is reported on this system.
pub open spec fn fault_error(f: IoFaultView) -> HwErrorView {
    classify_spec(f, os_errno(Errno::Busy), os_errno(Errno::NoDev), os_errno(Errno::OpNotSupp))
}

/// Decimal text of a signed number.
pub open spec fn dec_i32(n: i32) -> Seq<char> {
    if n < 0 {
        seq!['-'] + dec((-n) as nat)
    } else {
        dec(n as nat)
    }
}

/// What reading or writing a directory as a file fails with.
pub open spec fn dir_fault() -> IoFaultView {
    IoFaultView {
        kind: IoKind::Other,
        raw_os_error: Some(os_errno(Errno::IsDir)),
        message: "Is a directory (os error "@ + dec_i32(os_errno(Errno::IsDir)) + ")"@,
    }
}

/// What `std::io::Error::kind` gives for `e`, reduced to `NotFound`,
/// `PermissionDenied` and every other kind.
pub uninterp spec fn io_kind(e: std::io::Error) -> IoKind;

/// What `std::io::Error::raw_os_error` gives for `e`.
pub uninterp spec fn io_os_error(e: std::io::Error) -> Option<i32>;

/// The `std::io::ErrorKind` of `e`, reduced to the kinds the classification
/// tells apart.
///
/// Calls `std::io::Error::kind` and maps `NotFound` and `PermissionDenied`
/// to themselves, every other kind to `Other`. The contract only names the
/// result, which `kind` reads from the error value alone.
#[verifier::external_body]
fn io_error_kind(e: &std::io::Error) -> (r: IoKind)
    ensures
        r == io_kind(*e),
{
    match e.kind() {
        std::io::ErrorKind::NotFound => IoKind::NotFound,
        std::io::ErrorKind::PermissionDenied => IoKind::PermissionDenied,
        _ => IoKind::Other,
    }
}

/// The OS error number of an `io::Error`, as `std::io::Error::raw_os_error`
/// gives it. The contract only names the result, which is read from the
/// error value alone.
#[verifier::external_body]
fn io_raw_os_error(e: &std::io::Error) -> (r: Option<i32>)
    ensures
        r == io_os_error(*e),
{
    e.raw_os_error()
}

/// `Display` of a `std::io::Error`, via `ToString::to_string`. Nothing is
/// claimed of the result: for an OS error it holds the system's error
/// string, which may depend on the locale.
#[verifier::external_body]
fn io_error_text(e: &std::io::Error) -> String {
    e.to_string()
}

fn i32_string(n: i32) -> (r: String)
    ensures
        r@ == dec_i32(n),
{
    if n < 0 {
        let m: u64 = (0i64 - (n as i64)) as u64;
        let d = dec_string(m);
        proof {
            reveal_strlit("-");
        }
        cat("-", d.as_str())
    } else {
        dec_string(n as u64)
    }
}

impl IoFault {
    /// The plain-value description of an `io::Error`: its kind, its OS error
    /// number and its message, as `kind`, `raw_os_error` and `to_string`
    /// give them. Nothing is claimed of the message.
    pub fn from_io_error(e: &std::io::Error) -> (r: IoFault)
        ensures
            r.kind == io_kind(*e),
            r.raw_os_error == io_os_error(*e),
    {
        IoFault { kind: io_error_kind(e), raw_os_error: io_raw_os_error(e), message: io_error_text(e) }
    }

    /// What reading or writing a directory as a file fails with.
    pub fn directory() -> (r: IoFault)
        ensures
            r@ == dir_fault(),
    {
        let code = errno_value(Errno::IsDir);
        let head = cat("Is a directory (os error ", i32_string(code).as_str());
        IoFault { kind: IoKind::Other, raw_os_error: Some(code), message: cat(head.as_str(), ")") }
    }
}

impl HwError {
    /// Classify an I/O failure, given the OS numbers of `EBUSY`, `ENODEV`
    /// and `EOPNOTSUPP`.
    pub fn classify(f: IoFault, busy: i32, nodev: i32, notsup: i32) -> (r: HwError)
        ensures
            r@ == classify_spec(f@, busy, nodev, notsup),
    {
        match f.kind {
            IoKind::NotFound => HwError::NotSupported,
            IoKind::PermissionDenied => HwError::PermissionDenied,
            IoKind::Other => {
                if f.raw_os_error == Some(busy) {
                    HwError::Busy
                } else if f.raw_os_error == Some(nodev) || f.raw_os_error == Some(notsup) {
                    HwError::NotSupported
                } else {
                    HwError::Io(f)
                }
            },
        }
    }

    /// Classify an I/O failure held as plain values.
    pub fn from_fault(f: IoFault) -> (r: HwError)
        ensures
            r@ == fault_error(f@),
    {
        let busy = errno_value(Errno::Busy);
        let nodev = errno_value(Errno::NoDev);
        let notsup = errno_value(Errno::OpNotSupp);
        HwError::classify(f, busy, nodev, notsup)
    }

    /// Classify a raw `io::Error` coming out of a sysfs read/write, by its
    /// kind and its OS error number; the message, should it be kept, is
    /// the error's `Display` text, of which nothing is claimed.
    pub fn from_io(e: std::io::Error) -> (r: HwError)
        ensures
            exists|m: Seq<char>|
                r@ == fault_error(IoFaultView { kind: io_kind(e), raw_os_error: io_os_error(e), message: m }),
    {
        let f = IoFault::from_io_error(&e);
        HwError::from_fault(f)
    }

    /// Stable machine-readable tag, used by the daemon to pick a D-Bus error
    /// name and by the CLI to pick an exit code.
    pub fn kind_str(&self) -> (r: &'static str)
        ensures
            r@ == kind_str_spec(self@),
    {
        match self {
            HwError::NotSupported => "not-supported",
            HwError::PermissionDenied => "permission-denied",
            HwError::Busy => "custom-mode-required",
            HwError::Io(_) => "io",
            HwError::Parse(_) => "parse",
        }
    }

    /// The human-readable message (what `Display` shows).
    pub fn message(&self) -> (r: String)
        ensures
            r@ == message_spec(self@),
    {
        match self {
            HwError::NotSupported => owned("not supported on this machine"),
            HwError::PermissionDenied => owned(
                "permission denied (only the daemon, running as root, may write here)",
            ),
            HwError::Busy => owned("device busy: switch the power profile to Custom first"),
            HwError::Io(f) => cat("i/o error: ", f.message.as_str()),
            HwError::Parse(m) => cat("could not parse sysfs value: ", m.as_str()),
        }
    }
}

pub open spec fn kind_str_spec(e: HwErrorView) -> Seq<char> {
    match e {
        HwErrorView::NotSupported => "not-supported"@,
        HwErrorView::PermissionDenied => "permission-denied"@,
        HwErrorView::Busy => "custom-mode-required"@,
        HwErrorView::Io(_) => "io"@,
        HwErrorView::Parse(_) => "parse"@,
    }
}

pub open spec fn message_spec(e: HwErrorView) -> Seq<char> {
    match e {
        HwErrorView::NotSupported => "not supported on this machine"@,
        HwErrorView::PermissionDenied => "permission denied (only the daemon, running as root, may write here)"@,
        HwErrorView::Busy => "device busy: switch the power profile to Custom first"@,
        HwErrorView::Io(f) => "i/o error: "@ + f.message,
        HwErrorView::Parse(m) => "could not parse sysfs value: "@ + m,
    }
}

} // verus!

verus! {

/// A `Result<Vec<_>, _>` taken by its views.
pub open spec fn rvv<T>(r: Result<Vec<T>, HwError>) -> Result<Seq<T>, HwErrorView> {
    match r {
        Ok(v) => Ok(v@),
        Err(e) => Err(e@),
    }
}

} // verus!
