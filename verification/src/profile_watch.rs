//! Fn+Q detection: re-reading the `profile` attribute after each `POLLPRI`
//! wakeup, and deciding which readings are changes worth announcing.
//!
//! The kernel's only notification of a firmware-initiated profile change is
//! `POLLPRI` on the `profile` attribute; re-reading the file is what re-arms
//! it. The descriptor and the waiting belong to the program around the
//! library; what a reading means, and whether it is news, is decided here.

use vstd::prelude::*;

use crate::error::{rv, HwError, HwErrorView};
use crate::profile::{from_sysfs_spec, get, get_spec, profile_file, profile_file_spec, PowerProfile};
use crate::sysfs::{SysRoot, SysView};
use crate::text::{trim, trimmed};

verus! {

/// The `profile` attribute a watcher is armed on, as a path relative to the
/// [`SysRoot`].
///
/// It is the attribute of the device [`crate::profile::device_dir`]
/// discovers by name, so the watcher never ends up on a second handler's
/// file.
#[derive(Debug)]
pub struct ProfileWatchFd {
    file: String,
}

impl View for ProfileWatchFd {
    type V = Seq<char>;

    closed spec fn view(&self) -> Seq<char> {
        self.file@
    }
}

/// What one read of the attribute at `file` yields.
pub open spec fn reading_spec(v: SysView, file: Seq<char>) -> Result<PowerProfile, HwErrorView> {
    match v.read(file) {
        Err(e) => Err(e),
        Ok(raw) => from_sysfs_spec(raw),
    }
}

impl ProfileWatchFd {
    /// Resolve the profile attribute and perform the arming read.
    ///
    /// Fails as reading the profile fails: `NotSupported` without a
    /// platform-profile device, the I/O error of the file, or the parse error
    /// of an unknown value.
    pub fn open(root: &SysRoot) -> (r: Result<ProfileWatchFd, HwError>)
        ensures
            match r {
                Ok(w) => profile_file_spec(root@) == Some(w@) && get_spec(root@) is Ok,
                Err(e) => get_spec(root@) == Err::<PowerProfile, HwErrorView>(e@),
            },
    {
        let file = match profile_file(root) {
            Some(f) => f,
            None => return Err(HwError::NotSupported),
        };
        let watcher = ProfileWatchFd { file };
        match watcher.consume(root) {
            Ok(_) => Ok(watcher),
            Err(e) => Err(e),
        }
    }

    /// Re-read the current profile; call once per wakeup.
    pub fn consume(&self, root: &SysRoot) -> (r: Result<PowerProfile, HwError>)
        ensures
            rv(r) == reading_spec(root@, self@),
    {
        let raw = root.read(self.file.as_str())?;
        PowerProfile::from_sysfs(raw.as_str())
    }

    /// The attribute's path, relative to the root.
    pub fn file(&self) -> (r: &str)
        ensures
            r@ == self@,
    {
        self.file.as_str()
    }
}

/// The profile named by text read from the attribute (surrounding
/// whitespace ignored).
pub fn parse_reading(raw: &str) -> (r: Result<PowerProfile, HwError>)
    ensures
        rv(r) == from_sysfs_spec(trim(raw@)),
{
    let t = trimmed(raw);
    PowerProfile::from_sysfs(t.as_str())
}

/// Read the current profile without holding a watcher open.
pub fn current(root: &SysRoot) -> (r: Result<PowerProfile, HwError>)
    ensures
        rv(r) == get_spec(root@),
{
    get(root)
}

/// One step of change detection: from the last announced profile and a
/// reading, the new last profile and what to announce.
///
/// A failed reading changes nothing; a reading equal to the last announced
/// profile is swallowed (the daemon's own writes also wake the watcher).
pub open spec fn observe_spec(last: Option<PowerProfile>, reading: Result<PowerProfile, HwErrorView>) -> (
    Option<PowerProfile>,
    Option<PowerProfile>,
) {
    match reading {
        Ok(p) => if last == Some(p) {
            (last, None)
        } else {
            (Some(p), Some(p))
        },
        Err(_) => (last, None),
    }
}

/// Which profile readings are changes worth announcing.
#[derive(Debug)]
pub struct ChangeFilter {
    last: Option<PowerProfile>,
}

impl View for ChangeFilter {
    type V = Option<PowerProfile>;

    closed spec fn view(&self) -> Option<PowerProfile> {
        self.last
    }
}

impl ChangeFilter {
    /// A filter that has announced nothing yet.
    pub fn new() -> (r: ChangeFilter)
        ensures
            r@ is None,
    {
        ChangeFilter { last: None }
    }

    /// The last profile announced.
    pub fn last(&self) -> (r: Option<PowerProfile>)
        ensures
            r == self@,
    {
        self.last
    }

    /// Feed one reading; returns the profile to announce, if the reading is
    /// a change.
    pub fn observe(&mut self, reading: Result<PowerProfile, HwError>) -> (r: Option<PowerProfile>)
        ensures
            (final(self)@, r) == observe_spec(old(self)@, rv(reading)),
    {
        match reading {
            Ok(p) => {
                let same = match self.last {
                    Some(q) => q == p,
                    None => false,
                };
                if same {
                    None
                } else {
                    self.last = Some(p);
                    Some(p)
                }
            },
            Err(_) => None,
        }
    }
}

/// The filter never announces the same profile twice in a row: what it
/// announces differs from the last announcement and becomes the last one,
/// and the same reading right after is swallowed.
pub proof fn lemma_no_repeat(
    last: Option<PowerProfile>,
    reading: Result<PowerProfile, HwErrorView>,
    p: PowerProfile,
)
    ensures
        observe_spec(last, reading).1 == Some(p) ==> last != Some(p) && observe_spec(last, reading).0
            == Some(p),
        observe_spec(observe_spec(last, Ok(p)).0, Ok(p)).1 is None,
        observe_spec(last, Ok(p)).0 == Some(p),
{
}

} // verus!
