use vstd::prelude::*;

use crate::icons::{
    icon_block_device, icon_char_device, icon_dev_null, icon_directory, icon_disk, icon_error,
    icon_file, icon_pipe, icon_socket, icon_symlink, icon_tty, spec_icon_block_device,
    spec_icon_char_device, spec_icon_dev_null, spec_icon_directory, spec_icon_disk,
    spec_icon_error, spec_icon_file, spec_icon_pipe, spec_icon_socket, spec_icon_symlink,
    spec_icon_tty,
};

verus! {

/// A single entry of the listing we will produce: one variant per
/// recognized filesystem-object kind, each carrying its display name and
/// the icon chosen for it at construction time.
#[derive(PartialEq, Eq)]
pub enum ListingEntry {
    Unknown { name: String, icon: String },
    Regular { name: String, icon: String },
    Directory { name: String, icon: String },
    Symlink { name: String, target: String, icon: String },
    Pipe { name: String, icon: String },
    Socket { name: String, icon: String },
    CharDevice { name: String, dev_id: u64, icon: String },
    BlockDevice { name: String, dev_id: u64, icon: String },
}

/// Placeholder shown when a name (or a link target) cannot be read as text.
pub open spec fn placeholder_name() -> Seq<char> {
    "???"@
}

/// The on-disk type of a directory entry, as the type query reports it.
pub enum RawKind {
    Directory,
    Symlink,
    Fifo,
    CharDevice,
    BlockDevice,
    Socket,
    Other,
}

/// One raw directory entry, reduced to the plain values that
/// classification reads. Each field models one fallible probe of the
/// filesystem: `None` means that probe failed.
pub struct RawEntry {
    /// The entry's name, or `None` if it could not be decoded as text.
    pub name: Option<String>,
    /// The entry's on-disk type, or `None` if the type query failed.
    pub kind: Option<RawKind>,
    /// For a symbolic link: its target, or `None` if the target could not
    /// be resolved or is not representable as text.
    pub link_target: Option<String>,
    /// For a device: its raw device identifier, or `None` if the metadata
    /// read failed.
    pub dev_id: Option<u64>,
}

/// Icon chosen for a character device, special-casing a few well-known
/// device identities by the 8-bit major field (bits 8..16 of the raw
/// device id) and the 8-bit minor field (bits 0..8).
pub open spec fn spec_char_device_icon(dev_id: u64) -> Seq<char> {
    let dev_major = (dev_id & 0xff00) >> 8;
    let dev_minor = dev_id & 0xff;
    if dev_major == 1 && dev_minor == 3 {
        spec_icon_dev_null()
    } else if dev_major == 4 {
        spec_icon_tty()
    } else if dev_major == 5 && (dev_minor == 0 || dev_minor == 1) {
        spec_icon_tty()
    } else if dev_major == 241 {
        spec_icon_disk()
    } else {
        spec_icon_char_device()
    }
}

/// What classification owes for a raw entry: exactly one `ListingEntry`,
/// with each failed probe downgraded to its placeholder or default, never
/// an error. The name decode is tried first, then the type query; a
/// symlink's target and a device's identifier fall back independently.
pub open spec fn classifies(raw: RawEntry, e: ListingEntry) -> bool {
    if raw.name is None {
        &&& e is Unknown
        &&& e.spec_name() == placeholder_name()
        &&& e.spec_icon() == spec_icon_error()
    } else {
        let n = raw.name->0@;
        match raw.kind {
            None => {
                &&& e is Unknown
                &&& e.spec_name() == n
                &&& e.spec_icon() == spec_icon_error()
            },
            Some(RawKind::Directory) => {
                &&& e is Directory
                &&& e.spec_name() == n
                &&& e.spec_icon() == spec_icon_directory()
            },
            Some(RawKind::Symlink) => {
                &&& e is Symlink
                &&& e.spec_name() == n
                &&& e.spec_target() == (if raw.link_target is Some {
                    raw.link_target->0@
                } else {
                    placeholder_name()
                })
                &&& e.spec_icon() == spec_icon_symlink()
            },
            Some(RawKind::Fifo) => {
                &&& e is Pipe
                &&& e.spec_name() == n
                &&& e.spec_icon() == spec_icon_pipe()
            },
            Some(RawKind::CharDevice) => {
                let d = if raw.dev_id is Some { raw.dev_id->0 } else { 0u64 };
                &&& e is CharDevice
                &&& e.spec_name() == n
                &&& e.spec_dev_id() == d
                &&& e.spec_icon() == spec_char_device_icon(d)
            },
            Some(RawKind::BlockDevice) => {
                let d = if raw.dev_id is Some { raw.dev_id->0 } else { 0u64 };
                &&& e is BlockDevice
                &&& e.spec_name() == n
                &&& e.spec_dev_id() == d
                &&& e.spec_icon() == spec_icon_block_device()
            },
            Some(RawKind::Socket) => {
                &&& e is Socket
                &&& e.spec_name() == n
                &&& e.spec_icon() == spec_icon_socket()
            },
            Some(RawKind::Other) => {
                &&& e is Regular
                &&& e.spec_name() == n
                &&& e.spec_icon() == spec_icon_file()
            },
        }
    }
}

impl ListingEntry {
    /// The display name of the entry, as a sequence of characters.
    pub open spec fn spec_name(self) -> Seq<char> {
        match self {
            ListingEntry::Unknown { name, .. } => name@,
            ListingEntry::Regular { name, .. } => name@,
            ListingEntry::Directory { name, .. } => name@,
            ListingEntry::Symlink { name, .. } => name@,
            ListingEntry::Pipe { name, .. } => name@,
            ListingEntry::Socket { name, .. } => name@,
            ListingEntry::CharDevice { name, .. } => name@,
            ListingEntry::BlockDevice { name, .. } => name@,
        }
    }

    /// The icon of the entry, as a sequence of characters.
    pub open spec fn spec_icon(self) -> Seq<char> {
        match self {
            ListingEntry::Unknown { icon, .. } => icon@,
            ListingEntry::Regular { icon, .. } => icon@,
            ListingEntry::Directory { icon, .. } => icon@,
            ListingEntry::Symlink { icon, .. } => icon@,
            ListingEntry::Pipe { icon, .. } => icon@,
            ListingEntry::Socket { icon, .. } => icon@,
            ListingEntry::CharDevice { icon, .. } => icon@,
            ListingEntry::BlockDevice { icon, .. } => icon@,
        }
    }

    /// The link target of a symbolic-link entry.
    pub open spec fn spec_target(self) -> Seq<char>
        recommends
            self is Symlink,
    {
        match self {
            ListingEntry::Symlink { target, .. } => target@,
            _ => Seq::empty(),
        }
    }

    /// The raw device identifier of a device entry.
    pub open spec fn spec_dev_id(self) -> u64
        recommends
            self is CharDevice || self is BlockDevice,
    {
        match self {
            ListingEntry::CharDevice { dev_id, .. } => dev_id,
            ListingEntry::BlockDevice { dev_id, .. } => dev_id,
            _ => 0,
        }
    }

    pub fn get_name(&self) -> (r: String)
        ensures
            r@ == self.spec_name(),
    {
        match self {
            ListingEntry::Unknown { name, .. } => name.clone(),
            ListingEntry::Regular { name, .. } => name.clone(),
            ListingEntry::Directory { name, .. } => name.clone(),
            ListingEntry::Symlink { name, .. } => name.clone(),
            ListingEntry::Pipe { name, .. } => name.clone(),
            ListingEntry::Socket { name, .. } => name.clone(),
            ListingEntry::CharDevice { name, .. } => name.clone(),
            ListingEntry::BlockDevice { name, .. } => name.clone(),
        }
    }

    /// The display name, borrowed rather than copied.
    pub fn name_str(&self) -> (r: &str)
        ensures
            r@ == self.spec_name(),
    {
        match self {
            ListingEntry::Unknown { name, .. } => name.as_str(),
            ListingEntry::Regular { name, .. } => name.as_str(),
            ListingEntry::Directory { name, .. } => name.as_str(),
            ListingEntry::Symlink { name, .. } => name.as_str(),
            ListingEntry::Pipe { name, .. } => name.as_str(),
            ListingEntry::Socket { name, .. } => name.as_str(),
            ListingEntry::CharDevice { name, .. } => name.as_str(),
            ListingEntry::BlockDevice { name, .. } => name.as_str(),
        }
    }

    pub fn get_icon(&self) -> (r: String)
        ensures
            r@ == self.spec_icon(),
    {
        match self {
            ListingEntry::Unknown { icon, .. } => icon.clone(),
            ListingEntry::Regular { icon, .. } => icon.clone(),
            ListingEntry::Directory { icon, .. } => icon.clone(),
            ListingEntry::Symlink { icon, .. } => icon.clone(),
            ListingEntry::Pipe { icon, .. } => icon.clone(),
            ListingEntry::Socket { icon, .. } => icon.clone(),
            ListingEntry::CharDevice { icon, .. } => icon.clone(),
            ListingEntry::BlockDevice { icon, .. } => icon.clone(),
        }
    }

    pub fn is_directory(&self) -> (r: bool)
        ensures
            r == (self is Directory),
    {
        match self {
            ListingEntry::Directory { .. } => true,
            _ => false,
        }
    }

    pub fn new_regular(name: &str) -> (e: ListingEntry)
        ensures
            e is Regular,
            e.spec_name() == name@,
            e.spec_icon() == spec_icon_file(),
    {
        ListingEntry::Regular { name: name.to_owned(), icon: icon_file().to_owned() }
    }

    pub fn new_dir(name: &str) -> (e: ListingEntry)
        ensures
            e is Directory,
            e.spec_name() == name@,
            e.spec_icon() == spec_icon_directory(),
    {
        ListingEntry::Directory { name: name.to_owned(), icon: icon_directory().to_owned() }
    }

    pub fn new_symlink(name: &str, target: &str) -> (e: ListingEntry)
        ensures
            e is Symlink,
            e.spec_name() == name@,
            e.spec_target() == target@,
            e.spec_icon() == spec_icon_symlink(),
    {
        ListingEntry::Symlink {
            name: name.to_owned(),
            target: target.to_owned(),
            icon: icon_symlink().to_owned(),
        }
    }

    pub fn new_unknown(name: &str) -> (e: ListingEntry)
        ensures
            e is Unknown,
            e.spec_name() == name@,
            e.spec_icon() == spec_icon_error(),
    {
        ListingEntry::Unknown { name: name.to_owned(), icon: icon_error().to_owned() }
    }

    pub fn new_pipe(name: &str) -> (e: ListingEntry)
        ensures
            e is Pipe,
            e.spec_name() == name@,
            e.spec_icon() == spec_icon_pipe(),
    {
        ListingEntry::Pipe { name: name.to_owned(), icon: icon_pipe().to_owned() }
    }

    pub fn new_char_device(name: &str, dev_id: u64) -> (e: ListingEntry)
        ensures
            e is CharDevice,
            e.spec_name() == name@,
            e.spec_dev_id() == dev_id,
            e.spec_icon() == spec_char_device_icon(dev_id),
    {
        let dev_major = (dev_id & 0xff00) >> 8u64;
        let dev_minor = dev_id & 0xff;
        let icon: &str = if dev_major == 1 && dev_minor == 3 {
            // the null device
            icon_dev_null()
        } else if dev_major == 4 {
            // oldschool ttys
            icon_tty()
        } else if dev_major == 5 && (dev_minor == 0 || dev_minor == 1) {
            // the controlling tty and the console
            icon_tty()
        } else if dev_major == 241 {
            // disks
            icon_disk()
        } else {
            icon_char_device()
        };
        ListingEntry::CharDevice { name: name.to_owned(), dev_id: dev_id, icon: icon.to_owned() }
    }

    pub fn new_block_device(name: &str, dev_id: u64) -> (e: ListingEntry)
        ensures
            e is BlockDevice,
            e.spec_name() == name@,
            e.spec_dev_id() == dev_id,
            e.spec_icon() == spec_icon_block_device(),
    {
        ListingEntry::BlockDevice {
            name: name.to_owned(),
            dev_id: dev_id,
            icon: icon_block_device().to_owned(),
        }
    }

    pub fn new_socket(name: &str) -> (e: ListingEntry)
        ensures
            e is Socket,
            e.spec_name() == name@,
            e.spec_icon() == spec_icon_socket(),
    {
        ListingEntry::Socket { name: name.to_owned(), icon: icon_socket().to_owned() }
    }

    /// Classifies one raw directory entry. Total: every input, including
    /// one whose probes all failed, maps to exactly one entry, with
    /// `Unknown` as the catch-all.
    pub fn from_dentry(raw: RawEntry) -> (e: ListingEntry)
        ensures
            classifies(raw, e),
    {
        let RawEntry { name, kind, link_target, dev_id } = raw;

        // the name may be undecodable, in which case we show "???"
        // to at least show that there is something
        let name = match name {
            None => {
                return ListingEntry::new_unknown("???");
            },
            Some(n) => n,
        };

        // the type query can also fail, in which case we show the name
        // with unknown type
        let kind = match kind {
            None => {
                return ListingEntry::new_unknown(name.as_str());
            },
            Some(k) => k,
        };

        match kind {
            RawKind::Directory => ListingEntry::new_dir(name.as_str()),
            RawKind::Symlink => {
                match link_target {
                    Some(target) => ListingEntry::new_symlink(name.as_str(), target.as_str()),
                    None => ListingEntry::new_symlink(name.as_str(), "???"),
                }
            },
            RawKind::Fifo => ListingEntry::new_pipe(name.as_str()),
            RawKind::CharDevice => {
                match dev_id {
                    Some(d) => ListingEntry::new_char_device(name.as_str(), d),
                    None => ListingEntry::new_char_device(name.as_str(), 0),
                }
            },
            RawKind::BlockDevice => {
                match dev_id {
                    Some(d) => ListingEntry::new_block_device(name.as_str(), d),
                    None => ListingEntry::new_block_device(name.as_str(), 0),
                }
            },
            RawKind::Socket => ListingEntry::new_socket(name.as_str()),
            RawKind::Other => ListingEntry::new_regular(name.as_str()),
        }
    }
}

} // verus!
