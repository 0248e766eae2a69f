//! Output-device identifiers and their resolution.
//!
//! A device identifier is an opaque string: the literal `"default"` names
//! the platform default output device, and any other string must be the
//! decimal number of a device. Resolution validates the identifier; the
//! OS bindings that enumerate and open the actual hardware live in the
//! host, which also builds the enumeration list through
//! [`with_default_entry`] so that a synthetic default entry always comes
//! first.

use crate::error::AudioError;
use vstd::prelude::*;

verus! {

/// The identifier that names the platform default output device.
pub open spec fn default_device_id() -> Seq<char> {
    "default"@
}

/// Whether `c` is a decimal digit.
pub open spec fn is_digit(c: char) -> bool {
    48 <= c as int <= 57
}

/// The value of the decimal digit `c`.
pub open spec fn digit_val(c: char) -> int {
    c as int - 48
}

/// Whether `s` is one or more decimal digits and nothing else.
pub open spec fn is_digits(s: Seq<char>) -> bool {
    s.len() > 0 && (forall|i: int| 0 <= i < s.len() ==> is_digit(#[trigger] s[i]))
}

/// The number that the digit string `s` denotes in base ten.
pub open spec fn dec_val(s: Seq<char>) -> int
    decreases s.len(),
{
    if s.len() == 0 {
        0
    } else {
        dec_val(s.drop_last()) * 10 + digit_val(s.last())
    }
}

/// Whether a device identifier is well formed: the literal `"default"`,
/// or a decimal device number that fits in 32 bits.
pub open spec fn device_id_ok(s: Seq<char>) -> bool {
    s == default_device_id() || (is_digits(s) && dec_val(s) <= u32::MAX)
}

/// A resolved device identifier.
#[derive(Clone, Copy, Debug, PartialEq, Eq, Structural)]
pub enum DeviceSelector {
    /// The platform default output device.
    SystemDefault,
    /// The output device with this stable number.
    DeviceNumber(u32),
}

/// One entry of the output-device enumeration handed to callers.
#[derive(Debug)]
pub struct AudioOutputDevice {
    pub id: String,
    pub name: String,
}

/// The mathematical content of one enumeration entry.
pub ghost struct DeviceEntryView {
    pub id: Seq<char>,
    pub name: Seq<char>,
}

impl View for AudioOutputDevice {
    type V = DeviceEntryView;

    open spec fn view(&self) -> DeviceEntryView {
        DeviceEntryView { id: self.id@, name: self.name@ }
    }
}

/// A digit string denotes a non-negative number.
proof fn lemma_dec_val_nonneg(s: Seq<char>)
    requires
        forall|k: int| 0 <= k < s.len() ==> is_digit(#[trigger] s[k]),
    ensures
        dec_val(s) >= 0,
    decreases s.len(),
{
    if s.len() > 0 {
        lemma_dec_val_nonneg(s.drop_last());
    }
}

/// Extending a digit prefix never makes its value smaller.
proof fn lemma_dec_val_prefix_le(s: Seq<char>, i: int, j: int)
    requires
        0 <= i <= j <= s.len(),
        forall|k: int| 0 <= k < j ==> is_digit(#[trigger] s[k]),
    ensures
        dec_val(s.take(i)) <= dec_val(s.take(j)),
    decreases j - i,
{
    if i < j {
        lemma_dec_val_prefix_le(s, i, j - 1);
        assert(s.take(j).drop_last() =~= s.take(j - 1));
        assert(forall|k: int| 0 <= k < j - 1 ==> is_digit(#[trigger] s.take(j - 1)[k]));
        lemma_dec_val_nonneg(s.take(j - 1));
        assert(dec_val(s.take(j - 1)) <= dec_val(s.take(j)));
    }
}

/// Whether `s` is exactly the literal `"default"`.
fn is_default_str(s: &str) -> (b: bool)
    ensures
        b == (s@ == default_device_id()),
{
    let d: &str = "default";
    proof {
        reveal_strlit("default");
    }
    let n: usize = s.unicode_len();
    if n != 7 {
        return false;
    }
    let mut i: usize = 0;
    while i < 7
        invariant
            i <= 7,
            n == s@.len(),
            n == 7,
            d@ == default_device_id(),
            d@.len() == 7,
            forall|j: int| 0 <= j < i ==> s@[j] == d@[j],
        decreases 7 - i,
    {
        if s.get_char(i) != d.get_char(i) {
            return false;
        }
        i = i + 1;
    }
    proof {
        assert(s@ =~= d@);
    }
    true
}

/// Parses a decimal device number, accepting exactly the digit strings
/// whose value fits in 32 bits.
pub fn parse_device_number(s: &str) -> (r: Option<u32>)
    ensures
        r is Some <==> is_digits(s@) && dec_val(s@) <= u32::MAX,
        r matches Some(v) ==> v == dec_val(s@),
{
    let n: usize = s.unicode_len();
    if n == 0 {
        return None;
    }
    let mut acc: u64 = 0;
    let mut i: usize = 0;
    while i < n
        invariant
            0 < n,
            n == s@.len(),
            i <= n,
            forall|j: int| 0 <= j < i ==> is_digit(#[trigger] s@[j]),
            acc == dec_val(s@.take(i as int)),
            acc <= u32::MAX,
        decreases n - i,
    {
        let c: char = s.get_char(i);
        let cv: u32 = c as u32;
        if cv < 48 || cv > 57 {
            proof {
                assert(!is_digit(s@[i as int]));
            }
            return None;
        }
        let d: u64 = (cv - 48) as u64;
        acc = acc * 10 + d;
        i = i + 1;
        proof {
            assert(s@.take(i as int).drop_last() =~= s@.take(i as int - 1));
            assert(s@.take(i as int).last() == s@[i as int - 1]);
        }
        if acc > 0xFFFF_FFFF {
            proof {
                if is_digits(s@) {
                    lemma_dec_val_prefix_le(s@, i as int, s@.len() as int);
                    assert(s@.take(s@.len() as int) =~= s@);
                }
            }
            return None;
        }
    }
    proof {
        assert(s@.take(n as int) =~= s@);
    }
    Some(acc as u32)
}

/// Resolves a device identifier, failing with `DeviceError` exactly when
/// it is neither `"default"` nor a 32-bit decimal device number.
pub fn resolve_device_id(s: &str) -> (r: Result<DeviceSelector, AudioError>)
    ensures
        r is Ok <==> device_id_ok(s@),
        r matches Ok(sel) ==> (match sel {
            DeviceSelector::SystemDefault => s@ == default_device_id(),
            DeviceSelector::DeviceNumber(v) => s@ != default_device_id() && v == dec_val(s@),
        }),
        r is Err ==> r == Err::<DeviceSelector, AudioError>(AudioError::DeviceError),
{
    if is_default_str(s) {
        Ok(DeviceSelector::SystemDefault)
    } else {
        match parse_device_number(s) {
            Some(v) => Ok(DeviceSelector::DeviceNumber(v)),
            None => Err(AudioError::DeviceError),
        }
    }
}

/// Builds the caller-facing device list: a synthetic entry for the
/// platform default device first, then every discovered device in the
/// order given. The list is therefore never empty.
pub fn with_default_entry(default_name: String, devices: Vec<AudioOutputDevice>) -> (out: Vec<
    AudioOutputDevice,
>)
    ensures
        out@.len() == devices@.len() + 1,
        out@[0]@.id == default_device_id(),
        out@[0]@.name == default_name@,
        forall|i: int| 1 <= i < out@.len() ==> out@[i] == devices@[i - 1],
{
    let ghost orig = devices@;
    let mut out: Vec<AudioOutputDevice> = Vec::new();
    out.push(AudioOutputDevice { id: String::from_str("default"), name: default_name });
    let mut rev: Vec<AudioOutputDevice> = Vec::new();
    let mut src: Vec<AudioOutputDevice> = devices;
    while src.len() > 0
        invariant
            src@.len() + rev@.len() == orig.len(),
            src@ == orig.take(src@.len() as int),
            forall|j: int| 0 <= j < rev@.len() ==> rev@[j] == orig[orig.len() - 1 - j],
        decreases src@.len(),
    {
        let e = src.pop().unwrap();
        rev.push(e);
    }
    while rev.len() > 0
        invariant
            out@.len() >= 1,
            out@.len() + rev@.len() == orig.len() + 1,
            out@[0]@.id == default_device_id(),
            out@[0]@.name == default_name@,
            forall|j: int| 0 <= j < rev@.len() ==> rev@[j] == orig[orig.len() - 1 - j],
            forall|i: int| 1 <= i < out@.len() ==> out@[i] == orig[i - 1],
        decreases rev@.len(),
    {
        let e = rev.pop().unwrap();
        let ghost prev = out@;
        out.push(e);
        proof {
            assert(out@[0] == prev[0]);
            assert(forall|i: int| 1 <= i < prev.len() ==> out@[i] == prev[i]);
        }
    }
    out
}

} // verus!
