//! The archive formats that packages are made of, through the `tar` and
//! `ar` crates.
//!
//! A tar header is handled as its 512-byte block: each wrapper below turns
//! the block into a `tar::Header`, makes one call on it and hands the block
//! back. The archives under construction are held in [`TarArchive`] and
//! [`ArArchive`], whose bytes written so far are named by `tar_written` and
//! `ar_written`.
use vstd::prelude::*;

use crate::text::{dec, oct};

verus! {

/// The `k` lowest octal digits of `n` as ASCII, most significant first.
pub open spec fn octal_digits(n: nat, k: nat) -> Seq<u8>
    decreases k,
{
    if k == 0 {
        Seq::empty()
    } else {
        octal_digits(n / 8, (k - 1) as nat).push((48 + n % 8) as u8)
    }
}

/// `octal_digits` has as many digits as asked for.
pub broadcast proof fn lemma_octal_digits_len(n: nat, k: nat)
    ensures
        #[trigger] octal_digits(n, k).len() == k,
    decreases k,
{
    if k > 0 {
        lemma_octal_digits_len(n / 8, (k - 1) as nat);
    }
}

/// A tar numeric field of `w` bytes holding `n` in octal: `w - 1` digits
/// padded with `'0'` on the left (the low ones where `n` has more), then NUL.
pub open spec fn octal_field(n: nat, w: nat) -> Seq<u8> {
    octal_digits(n, (w - 1) as nat).push(0u8)
}

/// `block` with the bytes from `at` on replaced by `field`.
pub open spec fn put(block: Seq<u8>, at: int, field: Seq<u8>) -> Seq<u8> {
    block.subrange(0, at) + field + block.subrange(at + field.len(), block.len() as int)
}

/// The bytes of `"ustar "` and `" \0"`: the magic and version of a GNU header.
pub open spec fn gnu_magic() -> Seq<u8> {
    seq![117u8, 115u8, 116u8, 97u8, 114u8, 32u8, 32u8, 0u8]
}

/// The block of `tar::Header::new_gnu()`: zeros, the GNU magic and version
/// at offset 257, and the modification time 0 encoded at offset 136.
pub open spec fn gnu_header_block() -> Seq<u8> {
    put(put(Seq::new(512, |i: int| 0u8), 257, gnu_magic()), 136, octal_field(0, 12))
}

/// The type byte of an entry: `'0'` regular file, `'2'` symlink, `'5'`
/// directory.
pub enum TarKind {
    Regular,
    Symlink,
    Directory,
}

/// The byte that `tar::EntryType::as_byte` gives for a kind.
pub open spec fn tar_kind_byte(k: TarKind) -> u8 {
    match k {
        TarKind::Regular => 48u8,
        TarKind::Symlink => 50u8,
        TarKind::Directory => 53u8,
    }
}

/// The sum of the bytes of a sequence.
pub open spec fn byte_sum(s: Seq<u8>) -> nat
    decreases s.len(),
{
    if s.len() == 0 {
        0
    } else {
        byte_sum(s.drop_last()) + s.last() as nat
    }
}

/// The header checksum: the sum of all bytes, with the eight bytes of the
/// checksum field (offset 148) counted as spaces.
pub open spec fn header_checksum(block: Seq<u8>) -> nat {
    byte_sum(block.subrange(0, 148)) + 8 * 32 + byte_sum(block.subrange(156, 512))
}

/// What `Header::set_path` makes of a block and a path: whether it
/// succeeded, and the block afterwards.
pub uninterp spec fn tar_path_set(block: Seq<u8>, path: Seq<char>) -> (bool, Seq<u8>);

/// What `Header::set_link_name` makes of a block and a link target.
pub uninterp spec fn tar_link_set(block: Seq<u8>, target: Seq<char>) -> (bool, Seq<u8>);

/// What `Header::set_username` makes of a block and a user name.
pub uninterp spec fn tar_username_set(block: Seq<u8>, name: Seq<char>) -> (bool, Seq<u8>);

/// What `Header::set_groupname` makes of a block and a group name.
pub uninterp spec fn tar_groupname_set(block: Seq<u8>, name: Seq<char>) -> (bool, Seq<u8>);

/// The `k` low bytes of `n`, most significant first.
pub open spec fn be_bytes(n: nat, k: nat) -> Seq<u8>
    decreases k,
{
    if k == 0 {
        Seq::empty()
    } else {
        be_bytes(n / 256, (k - 1) as nat).push((n % 256) as u8)
    }
}

/// A tar numeric field of `w` (at least 8) bytes in the binary extension:
/// zeros, then `n` in 8 big-endian bytes, with the top bit of the first
/// byte set.
pub open spec fn binary_field(n: nat, w: nat) -> Seq<u8> {
    let b = Seq::new((w - 8) as nat, |i: int| 0u8) + be_bytes(n, 8);
    b.update(0, b[0] | 0x80u8)
}

/// A tar numeric field of `w` bytes: octal, or the binary extension when
/// `n` is at least `8^11`, or at least `8^7` in an 8-byte field
/// (`num_field_wrapper_into`).
pub open spec fn numeric_field(n: u64, w: nat) -> Seq<u8> {
    if n >= 8589934592 || (n >= 2097152 && w == 8) {
        binary_field(n as nat, w)
    } else {
        octal_field(n as nat, w)
    }
}

/// The block after `Header::set_size`: the 12-byte field at offset 124.
pub open spec fn tar_size_set(block: Seq<u8>, size: u64) -> Seq<u8> {
    put(block, 124, numeric_field(size, 12))
}

/// The block after `Header::set_uid`: the 8-byte field at offset 108.
pub open spec fn tar_uid_set(block: Seq<u8>, uid: u64) -> Seq<u8> {
    put(block, 108, numeric_field(uid, 8))
}

/// The block after `Header::set_gid`: the 8-byte field at offset 116.
pub open spec fn tar_gid_set(block: Seq<u8>, gid: u64) -> Seq<u8> {
    put(block, 116, numeric_field(gid, 8))
}

/// The block after `Header::set_mode`: the mode in octal at offset 100.
pub open spec fn tar_mode_set(block: Seq<u8>, mode: u32) -> Seq<u8> {
    put(block, 100, octal_field(mode as nat, 8))
}

/// The block after `Header::set_entry_type`: the type byte at offset 156.
pub open spec fn tar_kind_set(block: Seq<u8>, kind: TarKind) -> Seq<u8> {
    block.update(156, tar_kind_byte(kind))
}

/// The block after `Header::set_cksum`: the checksum in octal at offset 148.
pub open spec fn tar_cksum_set(block: Seq<u8>) -> Seq<u8> {
    put(block, 148, octal_field(header_checksum(block), 8))
}

/// `tar::Header::new_gnu()`, as its block.
#[verifier::external_body]
pub(crate) fn tar_header_new_gnu() -> (res: Vec<u8>)
    ensures
        res@ == gnu_header_block(),
{
    tar::Header::new_gnu().as_bytes().to_vec()
}

/// `Header::set_entry_type` on a block.
#[verifier::external_body]
pub(crate) fn tar_set_entry_type(block: &mut Vec<u8>, kind: TarKind)
    requires
        old(block)@.len() == 512,
    ensures
        final(block)@ == tar_kind_set(old(block)@, kind),
{
    let mut h = tar::Header::from_byte_slice(block).clone();
    h.set_entry_type(match kind {
        TarKind::Regular => tar::EntryType::Regular,
        TarKind::Symlink => tar::EntryType::Symlink,
        TarKind::Directory => tar::EntryType::Directory,
    });
    block.copy_from_slice(h.as_bytes());
}

/// `Header::set_path` on a block.
#[verifier::external_body]
pub(crate) fn tar_set_path(block: &mut Vec<u8>, path: &str) -> (res: Result<(), std::io::Error>)
    requires
        old(block)@.len() == 512,
    ensures
        (res is Ok, final(block)@) == tar_path_set(old(block)@, path@),
        final(block)@.len() == 512,
{
    let mut h = tar::Header::from_byte_slice(block).clone();
    let res = h.set_path(path);
    block.copy_from_slice(h.as_bytes());
    res
}

/// `Header::set_link_name` on a block.
#[verifier::external_body]
pub(crate) fn tar_set_link_name(block: &mut Vec<u8>, target: &str) -> (res: Result<(), std::io::Error>)
    requires
        old(block)@.len() == 512,
    ensures
        (res is Ok, final(block)@) == tar_link_set(old(block)@, target@),
        final(block)@.len() == 512,
{
    let mut h = tar::Header::from_byte_slice(block).clone();
    let res = h.set_link_name(target);
    block.copy_from_slice(h.as_bytes());
    res
}

/// `Header::set_username` on a block.
#[verifier::external_body]
pub(crate) fn tar_set_username(block: &mut Vec<u8>, name: &str) -> (res: Result<(), std::io::Error>)
    requires
        old(block)@.len() == 512,
    ensures
        (res is Ok, final(block)@) == tar_username_set(old(block)@, name@),
        final(block)@.len() == 512,
{
    let mut h = tar::Header::from_byte_slice(block).clone();
    let res = h.set_username(name);
    block.copy_from_slice(h.as_bytes());
    res
}

/// `Header::set_groupname` on a block.
#[verifier::external_body]
pub(crate) fn tar_set_groupname(block: &mut Vec<u8>, name: &str) -> (res: Result<(), std::io::Error>)
    requires
        old(block)@.len() == 512,
    ensures
        (res is Ok, final(block)@) == tar_groupname_set(old(block)@, name@),
        final(block)@.len() == 512,
{
    let mut h = tar::Header::from_byte_slice(block).clone();
    let res = h.set_groupname(name);
    block.copy_from_slice(h.as_bytes());
    res
}

/// `Header::set_mode` on a block.
#[verifier::external_body]
pub(crate) fn tar_set_mode(block: &mut Vec<u8>, mode: u32)
    requires
        old(block)@.len() == 512,
    ensures
        final(block)@ == tar_mode_set(old(block)@, mode),
{
    let mut h = tar::Header::from_byte_slice(block).clone();
    h.set_mode(mode);
    block.copy_from_slice(h.as_bytes());
}

/// `Header::set_size` on a block.
#[verifier::external_body]
pub(crate) fn tar_set_size(block: &mut Vec<u8>, size: u64)
    requires
        old(block)@.len() == 512,
    ensures
        final(block)@ == tar_size_set(old(block)@, size),
        final(block)@.len() == 512,

{
    let mut h = tar::Header::from_byte_slice(block).clone();
    h.set_size(size);
    block.copy_from_slice(h.as_bytes());
}

/// `Header::set_uid` on a block.
#[verifier::external_body]
pub(crate) fn tar_set_uid(block: &mut Vec<u8>, uid: u64)
    requires
        old(block)@.len() == 512,
    ensures
        final(block)@ == tar_uid_set(old(block)@, uid),
        final(block)@.len() == 512,

{
    let mut h = tar::Header::from_byte_slice(block).clone();
    h.set_uid(uid);
    block.copy_from_slice(h.as_bytes());
}

/// `Header::set_gid` on a block.
#[verifier::external_body]
pub(crate) fn tar_set_gid(block: &mut Vec<u8>, gid: u64)
    requires
        old(block)@.len() == 512,
    ensures
        final(block)@ == tar_gid_set(old(block)@, gid),
        final(block)@.len() == 512,

{
    let mut h = tar::Header::from_byte_slice(block).clone();
    h.set_gid(gid);
    block.copy_from_slice(h.as_bytes());
}

/// `Header::set_cksum` on a block.
#[verifier::external_body]
pub(crate) fn tar_set_cksum(block: &mut Vec<u8>)
    requires
        old(block)@.len() == 512,
    ensures
        final(block)@ == tar_cksum_set(old(block)@),
{
    let mut h = tar::Header::from_byte_slice(block).clone();
    h.set_cksum();
    block.copy_from_slice(h.as_bytes());
}

/// `n` zero bytes.
pub open spec fn zeros(n: nat) -> Seq<u8> {
    Seq::new(n, |i: int| 0u8)
}

/// The zero bytes that pad `len` bytes of entry data to a whole block.
pub open spec fn tar_padding(len: nat) -> Seq<u8> {
    if len % 512 == 0 {
        Seq::empty()
    } else {
        zeros((512 - len % 512) as nat)
    }
}

/// A tar archive being written into memory with `tar::Builder`.
#[verifier::external_body]
pub struct TarArchive {
    inner: tar::Builder<Vec<u8>>,
}

/// The bytes written to a [`TarArchive`] so far.
pub uninterp spec fn tar_written(a: TarArchive) -> Seq<u8>;

impl TarArchive {
    /// `tar::Builder::new` over an empty buffer.
    #[verifier::external_body]
    pub(crate) fn new() -> (res: TarArchive)
        ensures
            tar_written(res) == Seq::<u8>::empty(),
    {
        TarArchive { inner: tar::Builder::new(Vec::new()) }
    }

    /// `Builder::append`: the header block, the data, and zeros up to the
    /// next block boundary. It writes into a `Vec<u8>` and reads from a
    /// slice, so it does not fail.
    #[verifier::external_body]
    pub(crate) fn append(&mut self, header: &[u8], data: &[u8]) -> (res: Result<(), std::io::Error>)
        requires
            header@.len() == 512,
        ensures
            res is Ok,
            tar_written(*final(self)) == tar_written(*old(self)) + header@ + data@ + tar_padding(
                data@.len(),
            ),
    {
        self.inner.append(tar::Header::from_byte_slice(header), data)
    }

    /// `Builder::into_inner`: finish the archive with two zero blocks and
    /// hand back its bytes (a write into a `Vec<u8>`, which does not fail).
    #[verifier::external_body]
    pub(crate) fn into_bytes(self) -> (res: Result<Vec<u8>, std::io::Error>)
        ensures
            res is Ok,
            res matches Ok(v) ==> v@ == tar_written(self) + zeros(1024),
    {
        self.inner.into_inner()
    }
}

/// ASCII text as bytes.
pub open spec fn ascii(s: Seq<char>) -> Seq<u8> {
    s.map_values(|c: char| c as u8)
}

/// `s` left-aligned in a field of `w` characters (as `{:<w}` formats it).
pub open spec fn pad_right(s: Seq<char>, w: nat) -> Seq<char> {
    if s.len() >= w {
        s
    } else {
        s + Seq::new((w - s.len()) as nat, |i: int| ' ')
    }
}

/// The global header that starts an ar archive.
pub open spec fn ar_magic() -> Seq<u8> {
    seq![33u8, 60u8, 97u8, 114u8, 99u8, 104u8, 62u8, 10u8]
}

/// What `ar::Builder::append` writes for a member whose identifier is
/// longer than 16 bytes or holds a space (the BSD long-name form): `#1/`
/// and the identifier's length padded to a multiple of 4, the fixed-width
/// fields (modification time 0, owner, group, octal mode, and the size
/// counting the padded identifier), the terminator, the identifier and its
/// NUL padding, the data, and a newline after data of odd length.
pub open spec fn ar_long_member(identifier: Seq<u8>, mode: u32, uid: u32, gid: u32, data: Seq<u8>) -> Seq<u8> {
    let pad = ((4 - identifier.len() % 4) % 4) as nat;
    let plen = identifier.len() + pad;
    ascii("#1/"@ + pad_right(dec(plen), 13) + pad_right(dec(0), 12) + pad_right(dec(uid as nat), 6)
        + pad_right(dec(gid as nat), 6) + pad_right(oct(mode as nat), 8) + pad_right(dec(data.len() + plen), 10))
        + seq![96u8, 10u8]
        + identifier
        + zeros(pad)
        + data
        + (if data.len() % 2 == 1 { seq![10u8] } else { Seq::empty() })
}

/// An ar member. With a short identifier: the identifier padded with spaces
/// to 16 bytes, modification time 0, owner, group, octal mode and size in
/// their fixed-width fields, the terminator, the data, and a newline after
/// data of odd length.
pub open spec fn ar_member(identifier: Seq<u8>, mode: u32, uid: u32, gid: u32, data: Seq<u8>) -> Seq<u8> {
    if identifier.len() > 16 || identifier.contains(32u8) {
        ar_long_member(identifier, mode, uid, gid, data)
    } else {
        ar_short_member(identifier, mode, uid, gid, data)
    }
}

/// An ar member with an identifier of at most 16 bytes and no space.
pub open spec fn ar_short_member(identifier: Seq<u8>, mode: u32, uid: u32, gid: u32, data: Seq<u8>) -> Seq<u8> {
    identifier + Seq::new((16 - identifier.len()) as nat, |i: int| 32u8)
        + ascii(pad_right(dec(0), 12) + pad_right(dec(uid as nat), 6) + pad_right(dec(gid as nat), 6)
            + pad_right(oct(mode as nat), 8) + pad_right(dec(data.len()), 10))
        + seq![96u8, 10u8]
        + data
        + (if data.len() % 2 == 1 { seq![10u8] } else { Seq::empty() })
}

/// An ar archive being written into memory with `ar::Builder`.
#[verifier::external_body]
pub struct ArArchive {
    inner: ar::Builder<Vec<u8>>,
}

/// The bytes written to an [`ArArchive`] so far.
pub uninterp spec fn ar_written(a: ArArchive) -> Seq<u8>;

impl ArArchive {
    /// `ar::Builder::new` over an empty buffer.
    #[verifier::external_body]
    pub(crate) fn new() -> (res: ArArchive)
        ensures
            ar_written(res) == Seq::<u8>::empty(),
    {
        ArArchive { inner: ar::Builder::new(Vec::new()) }
    }

    /// `ar::Builder::append` of a member whose `ar::Header` has the given
    /// identifier, the data's length as size, and the given mode, owner and
    /// group (the header is built with `Header::new` and its setters). The
    /// first member is preceded by the archive's global header. The size in
    /// the header is the data's length and the archive is a `Vec<u8>`, so
    /// the call does not fail.
    #[verifier::external_body]
    pub(crate) fn append(&mut self, identifier: &[u8], mode: u32, uid: u32, gid: u32, data: &[u8]) -> (res:
        Result<(), std::io::Error>)
        ensures
            res is Ok,
            ar_written(*final(self)) == ar_written(*old(self)) + (if ar_written(
                *old(self),
            ).len() == 0 {
                ar_magic()
            } else {
                Seq::empty()
            }) + if identifier@.len() > 16 || identifier@.contains(32u8) {
                ar_long_member(identifier@, mode, uid, gid, data@)
            } else {
                ar_short_member(identifier@, mode, uid, gid, data@)
            },
    {
        let mut header = ar::Header::new(identifier.to_vec(), data.len() as u64);
        header.set_mode(mode);
        header.set_uid(uid);
        header.set_gid(gid);
        self.inner.append(&header, data)
    }

    /// `Builder::into_inner`: the bytes of the archive (it does not fail).
    #[verifier::external_body]
    pub(crate) fn into_bytes(self) -> (res: Result<Vec<u8>, std::io::Error>)
        ensures
            res is Ok,
            res matches Ok(v) ==> v@ == ar_written(self),
    {
        self.inner.into_inner()
    }
}

} // verus!
