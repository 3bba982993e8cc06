//! Device enumeration: judging raw block-device registry entries.
//!
//! The host walks its block-device registry and collects, for each
//! entry, the raw bytes of the attribute files it could read.  The
//! functions here make every decision about those entries: an entry
//! qualifies only if it has a nested device descriptor and its device
//! node exists; unreadable vendor and model values degrade to empty
//! strings, and unreadable removable and size values degrade to zero,
//! without failing the enumeration.

use vstd::prelude::*;
use vstd::string::StringExecFns;
use vstd::slice::slice_subrange;
use crate::errors::EnumerationError;

verus! {

/// A discovered storage device, one per qualifying registry entry.
#[derive(Debug, Clone)]
pub struct DeviceInfo {
    /// The `/dev/...` node path, not the registry path it came from.
    pub device_name: String,
    /// Vendor string, empty when unreadable.
    pub vendor_name: String,
    /// Model string, empty when unreadable.
    pub model_name: String,
    /// 1 for a hot-pluggable device, 0 otherwise or when unreadable.
    pub removable: u8,
    /// Size field as the registry reports it, 0 when unreadable.
    pub size: u64,
}

/// One entry of the block-device registry as the host exposes it:
/// the short name, two existence facts, and the raw bytes of each
/// attribute file, absent where the file could not be read.
#[derive(Debug, Clone)]
pub struct RawDeviceEntry {
    /// Final path component of the registry entry.
    pub name: String,
    /// Whether the entry has a nested device descriptor; entries
    /// without one are partitions or virtual devices.
    pub has_device_dir: bool,
    /// Whether the `/dev/<name>` node exists on the filesystem.
    pub dev_node_exists: bool,
    /// Raw bytes of the vendor attribute, if readable.
    pub vendor: Option<Vec<u8>>,
    /// Raw bytes of the model attribute, if readable.
    pub model: Option<Vec<u8>>,
    /// Raw bytes of the removable flag, if readable.
    pub removable: Option<Vec<u8>>,
    /// Raw bytes of the size attribute, if readable.
    pub size: Option<Vec<u8>>,
}

/// ASCII whitespace as attribute files carry it: space, tab,
/// newline, carriage return.
pub open spec fn is_space(b: u8) -> bool {
    b == 32 || b == 9 || b == 10 || b == 13
}

/// Leading whitespace removed.
pub open spec fn trim_front(s: Seq<u8>) -> Seq<u8>
    decreases s.len(),
{
    if s.len() > 0 && is_space(s[0]) {
        trim_front(s.drop_first())
    } else {
        s
    }
}

/// Trailing whitespace removed.
pub open spec fn trim_back(s: Seq<u8>) -> Seq<u8>
    decreases s.len(),
{
    if s.len() > 0 && is_space(s.last()) {
        trim_back(s.drop_last())
    } else {
        s
    }
}

/// Surrounding whitespace removed.
pub open spec fn trimmed(s: Seq<u8>) -> Seq<u8> {
    trim_back(trim_front(s))
}

/// Whether a byte is ASCII whitespace.
fn is_space_byte(b: u8) -> (r: bool)
    ensures
        r == is_space(b),
{
    b == 32 || b == 9 || b == 10 || b == 13
}

/// The whitespace-trimmed middle of a byte slice.
pub fn trim_bytes<'a>(s: &'a [u8]) -> (r: &'a [u8])
    ensures
        r@ == trimmed(s@),
{
    let mut lo: usize = 0;
    proof {
        assert(s@.skip(0) =~= s@);
    }
    while lo < s.len() && is_space_byte(s[lo])
        invariant
            lo <= s@.len(),
            trim_front(s@) == trim_front(s@.skip(lo as int)),
        decreases s@.len() - lo,
    {
        proof {
            assert(s@.skip(lo as int)[0] == s@[lo as int]);
            assert(s@.skip(lo as int).drop_first() =~= s@.skip(lo as int + 1));
        }
        lo = lo + 1;
    }
    proof {
        assert(trim_front(s@.skip(lo as int)) == s@.skip(lo as int));
    }
    let mut hi: usize = s.len();
    while hi > lo && is_space_byte(s[hi - 1])
        invariant
            lo <= hi <= s@.len(),
            trim_front(s@) == s@.skip(lo as int),
            trim_back(s@.skip(lo as int)) == trim_back(s@.subrange(lo as int, hi as int)),
        decreases hi,
    {
        proof {
            assert(s@.subrange(lo as int, hi as int).last() == s@[hi as int - 1]);
            assert(s@.subrange(lo as int, hi as int).drop_last() =~= s@.subrange(
                lo as int,
                hi as int - 1,
            ));
        }
        hi = hi - 1;
    }
    proof {
        assert(trim_back(s@.subrange(lo as int, hi as int)) == s@.subrange(lo as int, hi as int));
        assert(s@.skip(lo as int) =~= s@.subrange(lo as int, s@.len() as int));
    }
    slice_subrange(s, lo, hi)
}

/// A decimal digit byte.
pub open spec fn is_digit_byte(b: u8) -> bool {
    48 <= b <= 57
}

/// Every byte is a decimal digit.
pub open spec fn all_digits(s: Seq<u8>) -> bool {
    forall|i: int| 0 <= i < s.len() ==> is_digit_byte(s[i])
}

/// Value of a sequence of decimal digit bytes, most significant
/// first.
pub open spec fn dec_value(s: Seq<u8>) -> int
    decreases s.len(),
{
    if s.len() == 0 {
        0
    } else {
        10 * dec_value(s.drop_last()) + s.last() - 48
    }
}

/// The size an attribute file parses to: its trimmed content read as
/// a decimal number, or 0 when it is empty, holds a non-digit, or
/// does not fit in 64 bits.
pub open spec fn parse_size_spec(s: Seq<u8>) -> int {
    let t = trimmed(s);
    if t.len() > 0 && all_digits(t) && dec_value(t) <= u64::MAX {
        dec_value(t)
    } else {
        0
    }
}

/// A digit sequence has a non-negative value.
proof fn lemma_dec_value_nonneg(s: Seq<u8>)
    requires
        all_digits(s),
    ensures
        dec_value(s) >= 0,
    decreases s.len(),
{
    if s.len() > 0 {
        lemma_dec_value_nonneg(s.drop_last());
    }
}

/// A prefix of a digit sequence has a value no larger than the whole.
proof fn lemma_dec_value_prefix(s: Seq<u8>, k: int)
    requires
        all_digits(s),
        0 <= k <= s.len(),
    ensures
        0 <= dec_value(s.take(k)) <= dec_value(s),
    decreases s.len(),
{
    lemma_dec_value_nonneg(s);
    if k == s.len() {
        assert(s.take(k) =~= s);
    } else {
        assert(s.drop_last().take(k) =~= s.take(k));
        lemma_dec_value_prefix(s.drop_last(), k);
        lemma_dec_value_nonneg(s.drop_last());
    }
}

/// Parse a size attribute: trimmed decimal digits, with empty,
/// malformed and overflowing content all degrading to 0.
pub fn parse_device_size(s: &[u8]) -> (r: u64)
    ensures
        r as int == parse_size_spec(s@),
{
    let t = trim_bytes(s);
    if t.len() == 0 {
        return 0;
    }
    let mut v: u64 = 0;
    let mut i: usize = 0;
    while i < t.len()
        invariant
            i <= t@.len(),
            t@ == trimmed(s@),
            t@.len() > 0,
            forall|j: int| 0 <= j < i ==> is_digit_byte(t@[j]),
            v as int == dec_value(t@.take(i as int)),
        decreases t@.len() - i,
    {
        let b = t[i];
        if b < 48 || b > 57 {
            return 0;
        }
        let d: u64 = (b - 48) as u64;
        proof {
            assert(t@.take(i as int + 1).drop_last() =~= t@.take(i as int));
            assert(t@.take(i as int + 1).last() == t@[i as int]);
            vstd::arithmetic::div_mod::lemma_fundamental_div_mod(
                u64::MAX as int - d as int,
                10,
            );
            vstd::arithmetic::div_mod::lemma_mod_bound(u64::MAX as int - d as int, 10);
        }
        if v > (u64::MAX - d) / 10 {
            proof {
                if all_digits(t@) {
                    lemma_dec_value_prefix(t@, i as int + 1);
                }
            }
            return 0;
        }
        v = v * 10 + d;
        i = i + 1;
    }
    proof {
        assert(t@.take(i as int) =~= t@);
    }
    v
}

/// Newline bytes removed, as attribute values are reported without
/// the trailing newline the registry stores.
pub open spec fn strip_newlines(s: Seq<u8>) -> Seq<u8> {
    s.filter(|b: u8| b != 10)
}

/// One step of `strip_newlines` over a growing prefix.
proof fn lemma_strip_newlines_step(s: Seq<u8>, i: int)
    requires
        0 <= i < s.len(),
    ensures
        strip_newlines(s.take(i + 1)) == if s[i] != 10 {
            strip_newlines(s.take(i)).push(s[i])
        } else {
            strip_newlines(s.take(i))
        },
{
    reveal(Seq::filter);
    assert(s.take(i + 1).drop_last() =~= s.take(i));
    assert(s.take(i + 1).last() == s[i]);
}

/// Remove newline bytes from an attribute value.
pub fn clean_attribute(s: &[u8]) -> (r: Vec<u8>)
    ensures
        r@ == strip_newlines(s@),
{
    let mut r: Vec<u8> = Vec::new();
    let mut i: usize = 0;
    while i < s.len()
        invariant
            i <= s@.len(),
            r@ == strip_newlines(s@.take(i as int)),
        decreases s@.len() - i,
    {
        let b = s[i];
        if b != 10 {
            r.push(b);
        }
        proof {
            lemma_strip_newlines_step(s@, i as int);
        }
        i = i + 1;
    }
    proof {
        assert(s@.take(s@.len() as int) =~= s@);
    }
    r
}

/// Every byte is ASCII.
pub open spec fn all_ascii(s: Seq<u8>) -> bool {
    forall|i: int| 0 <= i < s.len() ==> s[i] < 128
}

/// The characters that a sequence of ASCII bytes decodes to.
pub open spec fn ascii_chars(s: Seq<u8>) -> Seq<char> {
    s.map_values(|b: u8| b as char)
}

/// Relies on `String::from_utf8_lossy`: bytes that are all ASCII
/// decode to exactly those characters.
#[verifier::external_body]
fn bytes_to_string(v: &[u8]) -> (r: String)
    ensures
        all_ascii(v@) ==> r@ == ascii_chars(v@),
{
    String::from_utf8_lossy(v).into_owned()
}

/// The raw bytes of an optional attribute, empty when it was
/// unreadable.
pub open spec fn attr_bytes(o: Option<Vec<u8>>) -> Seq<u8> {
    match o {
        Some(v) => v@,
        None => Seq::empty(),
    }
}

/// The removable flag an attribute value parses to: 1 exactly when
/// its trimmed content is the single byte `1`, otherwise 0.
pub open spec fn removable_value(s: Seq<u8>) -> u8 {
    if trimmed(s) == seq![49u8] {
        1
    } else {
        0
    }
}

/// Parse a removable flag attribute.
pub fn parse_removable_flag(s: &[u8]) -> (r: u8)
    ensures
        r == removable_value(s@),
{
    let t = trim_bytes(s);
    if t.len() == 1 && t[0] == 49 {
        proof {
            assert(trimmed(s@) =~= seq![49u8]);
        }
        1
    } else {
        0
    }
}

/// Whether a registry entry is a top-level storage device worth
/// reporting: it has a nested device descriptor and its device node
/// exists.
pub open spec fn qualifies(e: RawDeviceEntry) -> bool {
    e.has_device_dir && e.dev_node_exists
}

/// How a reported descriptor relates to the raw entry it came from:
/// the node path under `/dev/`, vendor and model cleaned of newlines
/// (pinned exactly for ASCII attribute values), and the removable
/// flag and size parsed with unreadable values degraded to zero.
pub open spec fn matches_entry(d: DeviceInfo, e: RawDeviceEntry) -> bool {
    &&& d.device_name@ == "/dev/"@ + e.name@
    &&& (all_ascii(strip_newlines(attr_bytes(e.vendor))) ==> d.vendor_name@ == ascii_chars(
        strip_newlines(attr_bytes(e.vendor)),
    ))
    &&& (all_ascii(strip_newlines(attr_bytes(e.model))) ==> d.model_name@ == ascii_chars(
        strip_newlines(attr_bytes(e.model)),
    ))
    &&& d.removable == removable_value(attr_bytes(e.removable))
    &&& d.size as int == parse_size_spec(attr_bytes(e.size))
}

/// Judge one registry entry: a descriptor for a qualifying entry,
/// nothing for a partition or a device without a node.  Attribute
/// failures never reject the entry; they degrade its fields.
pub fn describe_entry(e: &RawDeviceEntry) -> (r: Option<DeviceInfo>)
    ensures
        r is Some <==> qualifies(*e),
        r is Some ==> matches_entry(r.unwrap(), *e),
{
    if !(e.has_device_dir && e.dev_node_exists) {
        return None;
    }
    let vendor_clean = match &e.vendor {
        Some(v) => clean_attribute(v.as_slice()),
        None => Vec::new(),
    };
    let model_clean = match &e.model {
        Some(v) => clean_attribute(v.as_slice()),
        None => Vec::new(),
    };
    proof {
        reveal(Seq::filter);
        assert(strip_newlines(Seq::<u8>::empty()) =~= Seq::<u8>::empty());
    }
    let vendor_name = bytes_to_string(vendor_clean.as_slice());
    let model_name = bytes_to_string(model_clean.as_slice());
    let removable: u8 = match &e.removable {
        Some(v) => parse_removable_flag(v.as_slice()),
        None => 0,
    };
    let size: u64 = match &e.size {
        Some(v) => parse_device_size(v.as_slice()),
        None => 0,
    };
    proof {
        assert(trimmed(Seq::<u8>::empty()) =~= Seq::<u8>::empty());
    }
    let device_name = String::from_str("/dev/").concat(e.name.as_str());
    Some(
        DeviceInfo {
            device_name,
            vendor_name,
            model_name,
            removable,
            size,
        },
    )
}

/// The qualifying entries of a registry walk, in registry order.
pub open spec fn qualifying(entries: Seq<RawDeviceEntry>) -> Seq<RawDeviceEntry> {
    entries.filter(|e: RawDeviceEntry| qualifies(e))
}

/// One step of `qualifying` over a growing prefix.
proof fn lemma_qualifying_step(s: Seq<RawDeviceEntry>, i: int)
    requires
        0 <= i < s.len(),
    ensures
        qualifying(s.take(i + 1)) == if qualifies(s[i]) {
            qualifying(s.take(i)).push(s[i])
        } else {
            qualifying(s.take(i))
        },
{
    reveal(Seq::filter);
    assert(s.take(i + 1).drop_last() =~= s.take(i));
    assert(s.take(i + 1).last() == s[i]);
}

/// Judge a whole registry walk: exactly one descriptor per
/// qualifying entry, in registry order, each related to its entry as
/// `matches_entry` says.  Entries without a nested descriptor or
/// without a device node are excluded; no attribute failure fails
/// the call.
pub fn list_devices(entries: &Vec<RawDeviceEntry>) -> (r: Vec<DeviceInfo>)
    ensures
        r@.len() == qualifying(entries@).len(),
        forall|k: int| 0 <= k < r@.len() ==> matches_entry(r@[k], qualifying(entries@)[k]),
{
    let mut r: Vec<DeviceInfo> = Vec::new();
    let mut i: usize = 0;
    while i < entries.len()
        invariant
            i <= entries@.len(),
            r@.len() == qualifying(entries@.take(i as int)).len(),
            forall|k: int|
                0 <= k < r@.len() ==> matches_entry(
                    r@[k],
                    qualifying(entries@.take(i as int))[k],
                ),
        decreases entries@.len() - i,
    {
        match describe_entry(&entries[i]) {
            Some(d) => {
                r.push(d);
            },
            None => {},
        }
        proof {
            lemma_qualifying_step(entries@, i as int);
        }
        i = i + 1;
    }
    proof {
        assert(entries@.take(entries@.len() as int) =~= entries@);
    }
    r
}

/// Outcome of a registry walk handed in by the host: the collected
/// entries, or the fact that the registry itself was unreadable —
/// the one failure that fails the whole enumeration.
pub fn devices_from_registry(walk: Result<Vec<RawDeviceEntry>, ()>) -> (r: Result<
    Vec<DeviceInfo>,
    EnumerationError,
>)
    ensures
        match r {
            Ok(devices) => {
                &&& walk is Ok
                &&& devices@.len() == qualifying(walk.unwrap()@).len()
                &&& forall|k: int|
                    0 <= k < devices@.len() ==> matches_entry(
                        devices@[k],
                        qualifying(walk.unwrap()@)[k],
                    )
            },
            Err(e) => walk is Err && e == EnumerationError::RegistryUnreadable,
        },
{
    match walk {
        Ok(entries) => Ok(list_devices(&entries)),
        Err(()) => Err(EnumerationError::RegistryUnreadable),
    }
}

} // verus!
