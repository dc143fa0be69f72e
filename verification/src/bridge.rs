//! What the HID owner publishes about itself for reader processes, and how
//! a reader turns a published snapshot back into local state.

use vstd::prelude::*;
use vstd::utf8::*;
use vstd::string::StringSliceAdditionalSpecFns;
use crate::protocol::DriverMode;

verus! {

/// std's UTF-8 validation error, carried opaquely.
#[verifier::external_type_specification]
#[verifier::external_body]
pub struct ExUtf8Error(core::str::Utf8Error);

/// `core::str::from_utf8` succeeds exactly on valid UTF-8, and then yields
/// the string those bytes encode (the std documentation: "Returns `Err` if
/// the slice is not UTF-8").
pub assume_specification[ core::str::from_utf8 ](v: &[u8]) -> (res: Result<&str, core::str::Utf8Error>)
    ensures
        res is Ok <==> valid_utf8(v@),
        res matches Ok(s) ==> s@ == decode_utf8(v@),
;

/// Capacity in bytes of the published device name.
pub const DEVICE_NAME_CAPACITY: usize = 64;

/// Name shown when no usable device name was published.
pub open spec fn no_tablet_name() -> Seq<char> {
    "No Tablet Detected"@
}

/// Number of name bytes actually used: the published length, capped at capacity.
pub open spec fn name_len(len: int) -> int {
    if len < 64 {
        len
    } else {
        64
    }
}

/// The device name a reader sees for a published buffer and length: the
/// first `min(len, 64)` bytes when they are valid, non-empty UTF-8, and
/// "No Tablet Detected" otherwise.
pub open spec fn published_name(buf: Seq<u8>, len: int) -> Seq<char> {
    let bytes = buf.take(name_len(len));
    if valid_utf8(bytes) && decode_utf8(bytes).len() > 0 {
        decode_utf8(bytes)
    } else {
        no_tablet_name()
    }
}

/// Wire byte under which a driver mode is published: 0 absolute, 1 relative.
pub open spec fn published_mode_byte(mode: DriverMode) -> u8 {
    match mode {
        DriverMode::Absolute => 0,
        DriverMode::Relative => 1,
    }
}

/// Mode a reader adopts for a published byte: relative for 1, absolute otherwise.
pub open spec fn mode_of_published(byte: u8) -> DriverMode {
    if byte == 1 {
        DriverMode::Relative
    } else {
        DriverMode::Absolute
    }
}

/// Byte under which the owner publishes its driver mode.
pub fn published_mode(mode: DriverMode) -> (byte: u8)
    ensures
        byte == published_mode_byte(mode),
{
    match mode {
        DriverMode::Absolute => 0,
        DriverMode::Relative => 1,
    }
}

/// Driver mode a reader adopts from the published byte.
pub fn mode_from_published(byte: u8) -> (mode: DriverMode)
    ensures
        mode == mode_of_published(byte),
{
    if byte == 1 {
        DriverMode::Relative
    } else {
        DriverMode::Absolute
    }
}

/// A published mode reads back as the mode that was published.
pub proof fn lemma_published_mode_round_trip(mode: DriverMode)
    ensures
        mode_of_published(published_mode_byte(mode)) == mode,
{
}

/// Lays a device name out for publishing: its UTF-8 bytes, truncated to
/// 64, zero-padded, and the number of bytes kept.
pub fn device_name_for_publish(name: &str) -> (out: ([u8; DEVICE_NAME_CAPACITY], u32))
    ensures
        out.1 == name_len(name.spec_bytes().len() as int),
        out.0@.take(out.1 as int) == name.spec_bytes().take(out.1 as int),
        forall|i: int| out.1 <= i < 64 ==> out.0@[i] == 0,
{
    let bytes = name.as_bytes();
    let n: usize = if bytes.len() < DEVICE_NAME_CAPACITY {
        bytes.len()
    } else {
        DEVICE_NAME_CAPACITY
    };
    let mut buf = [0u8; DEVICE_NAME_CAPACITY];
    let mut i: usize = 0;
    while i < n
        invariant
            n <= bytes@.len(),
            n <= 64,
            i <= n,
            buf@.len() == 64,
            forall|j: int| 0 <= j < i ==> buf@[j] == bytes@[j],
            forall|j: int| i <= j < 64 ==> buf@[j] == 0,
        decreases n - i,
    {
        buf[i] = bytes[i];
        i = i + 1;
    }
    assert(buf@.take(n as int) =~= name.spec_bytes().take(n as int));
    (buf, n as u32)
}

/// Recovers the device name from a published buffer and length (see
/// [`published_name`]).
pub fn device_name_from_published(buf: &[u8; DEVICE_NAME_CAPACITY], len: u32) -> (name: String)
    ensures
        name@ == published_name(buf@, len as int),
{
    let n: usize = if (len as usize) < DEVICE_NAME_CAPACITY {
        len as usize
    } else {
        DEVICE_NAME_CAPACITY
    };
    let mut bytes: Vec<u8> = Vec::new();
    let mut i: usize = 0;
    while i < n
        invariant
            n == name_len(len as int),
            n <= 64,
            buf@.len() == 64,
            i <= n,
            bytes@ == buf@.take(i as int),
        decreases n - i,
    {
        bytes.push(buf[i]);
        i = i + 1;
        assert(bytes@ =~= buf@.take(i as int));
    }
    match core::str::from_utf8(bytes.as_slice()) {
        Ok(s) => {
            if !s.is_empty() {
                return s.to_owned();
            }
        },
        Err(_) => {},
    }
    "No Tablet Detected".to_owned()
}

/// A device name whose UTF-8 encoding is 1 to 64 bytes long reaches
/// readers unchanged.
pub proof fn lemma_device_name_round_trip(name: Seq<char>, buf: Seq<u8>, len: int)
    requires
        0 < encode_utf8(name).len() <= 64,
        len == encode_utf8(name).len(),
        buf.take(len) == encode_utf8(name).take(len),
    ensures
        published_name(buf, len) == name,
{
    assert(encode_utf8(name).take(len) =~= encode_utf8(name));
    encode_utf8_valid_utf8(name);
    encode_utf8_decode_utf8(name);
    if name.len() == 0 {
        assert(encode_utf8(name) =~= Seq::<u8>::empty());
    }
}

/// Whether a reader that last applied config `last` must adopt the
/// config of a snapshot published under `version`.
pub open spec fn must_adopt(last: Option<u32>, version: u32) -> bool {
    last != Some(version)
}

/// Records that the snapshot of config `version` has been seen and says
/// whether it differs from the last one applied, in which case the reader
/// must adopt the published mode and active area.
pub fn config_version_changed(last: &mut Option<u32>, version: u32) -> (changed: bool)
    ensures
        changed == must_adopt(*old(last), version),
        *final(last) == Some(version),
{
    if *last != Some(version) {
        *last = Some(version);
        true
    } else {
        false
    }
}

/// A published config version is applied once: after it has been seen,
/// seeing it again changes nothing until a different version arrives.
pub proof fn lemma_config_applied_once(version: u32, next: u32)
    ensures
        !must_adopt(Some(version), version),
        must_adopt(Some(version), next) <==> version != next,
        must_adopt(None, next),
{
}

} // verus!
