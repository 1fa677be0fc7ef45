use vstd::prelude::*;

verus! {

// Each icon is a glyph followed by a variation selector that forces
// text-style rendering. One fixed glyph per entry kind, plus the
// special-cased character-device glyphs (null device, terminal, disk).

/// Icon for entries whose name or type could not be read.
pub open spec fn spec_icon_error() -> Seq<char> {
    "\u{2753}\u{FE0E}"@
}

pub fn icon_error() -> (r: &'static str)
    ensures
        r@ == spec_icon_error(),
{
    "\u{2753}\u{FE0E}"
}

/// Icon for regular files (carries a trailing space in the source glyph).
pub open spec fn spec_icon_file() -> Seq<char> {
    "\u{1F5CE}\u{FE0E} "@
}

pub fn icon_file() -> (r: &'static str)
    ensures
        r@ == spec_icon_file(),
{
    "\u{1F5CE}\u{FE0E} "
}

/// Icon for directories.
pub open spec fn spec_icon_directory() -> Seq<char> {
    "\u{1F4C1}\u{FE0E}"@
}

pub fn icon_directory() -> (r: &'static str)
    ensures
        r@ == spec_icon_directory(),
{
    "\u{1F4C1}\u{FE0E}"
}

/// Icon for symbolic links.
pub open spec fn spec_icon_symlink() -> Seq<char> {
    "\u{1F517}\u{FE0E}"@
}

pub fn icon_symlink() -> (r: &'static str)
    ensures
        r@ == spec_icon_symlink(),
{
    "\u{1F517}\u{FE0E}"
}

/// Icon for sockets.
pub open spec fn spec_icon_socket() -> Seq<char> {
    "\u{1F50C}\u{FE0E}"@
}

pub fn icon_socket() -> (r: &'static str)
    ensures
        r@ == spec_icon_socket(),
{
    "\u{1F50C}\u{FE0E}"
}

/// Icon for named pipes.
pub open spec fn spec_icon_pipe() -> Seq<char> {
    "\u{1F6B0}\u{FE0E}"@
}

pub fn icon_pipe() -> (r: &'static str)
    ensures
        r@ == spec_icon_pipe(),
{
    "\u{1F6B0}\u{FE0E}"
}

/// Generic icon for character devices.
pub open spec fn spec_icon_char_device() -> Seq<char> {
    "\u{1F5A8}\u{FE0E}"@
}

pub fn icon_char_device() -> (r: &'static str)
    ensures
        r@ == spec_icon_char_device(),
{
    "\u{1F5A8}\u{FE0E}"
}

/// Icon for block devices.
pub open spec fn spec_icon_block_device() -> Seq<char> {
    "\u{1F4BF}\u{FE0E}"@
}

pub fn icon_block_device() -> (r: &'static str)
    ensures
        r@ == spec_icon_block_device(),
{
    "\u{1F4BF}\u{FE0E}"
}

/// Icon for character devices in the disk major range.
pub open spec fn spec_icon_disk() -> Seq<char> {
    "\u{1F5D4}\u{FE0E}"@
}

pub fn icon_disk() -> (r: &'static str)
    ensures
        r@ == spec_icon_disk(),
{
    "\u{1F5D4}\u{FE0E}"
}

/// Icon for the null device.
pub open spec fn spec_icon_dev_null() -> Seq<char> {
    "\u{1F6BD}\u{FE0E}"@
}

pub fn icon_dev_null() -> (r: &'static str)
    ensures
        r@ == spec_icon_dev_null(),
{
    "\u{1F6BD}\u{FE0E}"
}

/// Icon for terminal character devices.
pub open spec fn spec_icon_tty() -> Seq<char> {
    "\u{1F4BB}\u{FE0E}"@
}

pub fn icon_tty() -> (r: &'static str)
    ensures
        r@ == spec_icon_tty(),
{
    "\u{1F4BB}\u{FE0E}"
}

} // verus!
