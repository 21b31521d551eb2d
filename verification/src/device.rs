//! Where a tensor is stored, and the texts that name a device.

use vstd::prelude::*;
use vstd::string::*;
use crate::error::BellandeError;

verus! {

/// Where a tensor's storage lives. Only the CPU is available; CUDA devices
/// are a distinct kind so that a request for one is reported precisely.
#[derive(Copy, Clone, Debug, PartialEq, Eq, Structural)]
pub enum Device {
    CPU,
    CUDA(usize),
}

/// What `str::to_lowercase` makes of a text.
pub uninterp spec fn lowercase(s: Seq<char>) -> Seq<char>;

/// `str::to_lowercase` of std: the lowercase form of `s`. The contract only
/// names the result; it is a function of the text alone.
#[verifier::external_body]
fn to_lowercase(s: &str) -> (r: String)
    ensures
        r@ == lowercase(s@),
{
    s.to_lowercase()
}

pub open spec fn is_digit(c: char) -> bool {
    '0' <= c <= '9'
}

/// The number a run of decimal digits denotes.
pub open spec fn digits_value(s: Seq<char>) -> nat
    decreases s.len(),
{
    if s.len() == 0 {
        0
    } else {
        digits_value(s.drop_last()) * 10 + (s.last() as nat - '0' as nat) as nat
    }
}

/// Whether a text denotes a device ordinal: an optional `+`, then at least
/// one decimal digit, with a value that fits in `usize`.
pub open spec fn is_ordinal(s: Seq<char>) -> bool {
    let body = strip_plus(s);
    &&& body.len() > 0
    &&& all_digits(body)
    &&& digits_value(body) <= usize::MAX
}

/// The text without its leading `+`, if it has one.
pub open spec fn strip_plus(s: Seq<char>) -> Seq<char> {
    if s.len() > 0 && s[0] == '+' {
        s.subrange(1, s.len() as int)
    } else {
        s
    }
}

pub open spec fn all_digits(s: Seq<char>) -> bool {
    forall|i: int| 0 <= i < s.len() ==> is_digit(#[trigger] s[i])
}

pub open spec fn count_colons(s: Seq<char>) -> nat
    decreases s.len(),
{
    if s.len() == 0 {
        0
    } else {
        count_colons(s.drop_last()) + if s.last() == ':' {
            1nat
        } else {
            0nat
        }
    }
}

pub open spec fn starts_with_cuda(s: Seq<char>) -> bool {
    s.len() >= 4 && s[0] == 'c' && s[1] == 'u' && s[2] == 'd' && s[3] == 'a'
}

pub open spec fn is_cpu_text(s: Seq<char>) -> bool {
    s.len() == 3 && s[0] == 'c' && s[1] == 'p' && s[2] == 'u'
}

/// The device a lowercase specification denotes.
///
/// `cpu` is the CPU and a bare `cuda` is CUDA device 0. Any other text that
/// begins with `cuda` must consist of two parts around a single `:`, the
/// second an ordinal; since no CUDA device exists, every such ordinal is
/// unavailable. Everything else is invalid.
pub open spec fn parse_spec(s: Seq<char>) -> Result<Device, BellandeError> {
    if is_cpu_text(s) {
        Ok(Device::CPU)
    } else if starts_with_cuda(s) {
        if s.len() == 4 {
            Ok(Device::CUDA(0))
        } else if count_colons(s) != 1 {
            Err(BellandeError::InvalidDevice)
        } else if is_ordinal(s.subrange(s.index_of(':') + 1, s.len() as int)) {
            Err(BellandeError::DeviceNotAvailable)
        } else {
            Err(BellandeError::InvalidDevice)
        }
    } else {
        Err(BellandeError::InvalidDevice)
    }
}

proof fn lemma_count_colons_zero(s: Seq<char>)
    requires
        forall|i: int| 0 <= i < s.len() ==> s[i] != ':',
    ensures
        count_colons(s) == 0,
    decreases s.len(),
{
    if s.len() > 0 {
        lemma_count_colons_zero(s.drop_last());
    }
}

proof fn lemma_digits_value_grows(s: Seq<char>, n: int)
    requires
        0 <= n <= s.len(),
        all_digits(s),
    ensures
        digits_value(s.subrange(0, n)) <= digits_value(s),
    decreases s.len() - n,
{
    if n < s.len() {
        lemma_digits_value_grows(s, n + 1);
        let t = s.subrange(0, n + 1);
        assert(t.drop_last() =~= s.subrange(0, n));
        assert(is_digit(s[n]));
    } else {
        assert(s.subrange(0, n) =~= s);
    }
}

/// Decides whether `s`, from character `from` on, is an ordinal.
fn ordinal_from(s: &str, from: usize) -> (r: bool)
    requires
        from <= s@.len(),
    ensures
        r == is_ordinal(s@.subrange(from as int, s@.len() as int)),
{
    let n = s.unicode_len();
    let ghost whole = s@.subrange(from as int, n as int);
    let mut i = from;
    if i < n && s.get_char(i) == '+' {
        i = i + 1;
    }
    let start = i;
    let ghost body = s@.subrange(start as int, n as int);
    assert(body =~= strip_plus(whole));
    if start == n {
        return false;
    }
    let mut value: usize = 0;
    while i < n
        invariant
            start <= i <= n,
            n == s@.len(),
            body == s@.subrange(start as int, n as int),
            body.len() > 0,
            is_ordinal(s@.subrange(from as int, s@.len() as int)) <==> all_digits(body)
                && digits_value(body) <= usize::MAX,
            forall|k: int| 0 <= k < i - start ==> is_digit(#[trigger] body[k]),
            value == digits_value(body.subrange(0, i - start)),
        decreases n - i,
    {
        let c = s.get_char(i);
        assert(c == body[i - start]);
        if !(c >= '0' && c <= '9') {
            return false;
        }
        let d: usize = (c as u32 - '0' as u32) as usize;
        let ghost next = body.subrange(0, i - start + 1);
        assert(next.drop_last() =~= body.subrange(0, i - start));
        assert(next.last() == c);
        let shifted = value.checked_mul(10);
        let total = match shifted {
            Some(v) => v.checked_add(d),
            None => None,
        };
        match total {
            Some(v) => {
                value = v;
            },
            None => {
                assert(digits_value(next) > usize::MAX);
                proof {
                    if all_digits(body) {
                        lemma_digits_value_grows(body, i - start + 1);
                    }
                }
                return false;
            },
        }
        i = i + 1;
    }
    assert(body.subrange(0, i - start) =~= body);
    true
}

/// The decimal digit of a number below ten.
pub open spec fn digit_of(d: nat) -> char {
    if d == 0 {
        '0'
    } else if d == 1 {
        '1'
    } else if d == 2 {
        '2'
    } else if d == 3 {
        '3'
    } else if d == 4 {
        '4'
    } else if d == 5 {
        '5'
    } else if d == 6 {
        '6'
    } else if d == 7 {
        '7'
    } else if d == 8 {
        '8'
    } else {
        '9'
    }
}

/// A number in decimal digits, without leading zeros.
pub open spec fn decimal(n: nat) -> Seq<char>
    decreases n,
{
    if n < 10 {
        seq![digit_of(n)]
    } else {
        decimal(n / 10).push(digit_of(n % 10))
    }
}

/// The text that names a device: `cpu`, or `cuda:` and the ordinal.
pub open spec fn text_of(device: Device) -> Seq<char> {
    match device {
        Device::CPU => "cpu"@,
        Device::CUDA(id) => "cuda:"@ + decimal(id as nat),
    }
}

fn digit_text(d: usize) -> (r: &'static str)
    requires
        d < 10,
    ensures
        r@ == seq![digit_of(d as nat)],
{
    proof {
        reveal_strlit("0");
        reveal_strlit("1");
        reveal_strlit("2");
        reveal_strlit("3");
        reveal_strlit("4");
        reveal_strlit("5");
        reveal_strlit("6");
        reveal_strlit("7");
        reveal_strlit("8");
        reveal_strlit("9");
    }
    let r = if d == 0 {
        "0"
    } else if d == 1 {
        "1"
    } else if d == 2 {
        "2"
    } else if d == 3 {
        "3"
    } else if d == 4 {
        "4"
    } else if d == 5 {
        "5"
    } else if d == 6 {
        "6"
    } else if d == 7 {
        "7"
    } else if d == 8 {
        "8"
    } else {
        "9"
    };
    assert(r@ =~= seq![digit_of(d as nat)]);
    r
}

fn decimal_text(n: usize) -> (r: String)
    ensures
        r@ == decimal(n as nat),
    decreases n,
{
    if n < 10 {
        String::from_str(digit_text(n))
    } else {
        let r = decimal_text(n / 10).concat(digit_text(n % 10));
        assert(r@ =~= decimal((n / 10) as nat).push(digit_of((n % 10) as nat)));
        r
    }
}

impl Device {
    pub fn is_cuda(&self) -> (r: bool)
        ensures
            r == (*self is CUDA),
    {
        match self {
            Device::CUDA(_) => true,
            Device::CPU => false,
        }
    }

    pub fn is_cpu(&self) -> (r: bool)
        ensures
            r == (*self is CPU),
    {
        match self {
            Device::CPU => true,
            Device::CUDA(_) => false,
        }
    }

    /// The number of CUDA devices that can be used: none.
    pub fn cuda_device_count() -> (r: usize)
        ensures
            r == 0,
    {
        0
    }

    pub fn default() -> (r: Self)
        ensures
            r == Device::CPU,
    {
        Device::CPU
    }

    /// The text that names the device.
    pub fn to_text(&self) -> (r: String)
        ensures
            r@ == text_of(*self),
    {
        match self {
            Device::CPU => String::from_str("cpu"),
            Device::CUDA(id) => String::from_str("cuda:").concat(decimal_text(*id).as_str()),
        }
    }

    /// Reads a device specification that is already in lowercase.
    pub fn parse_lowercase(s: &str) -> (r: Result<Device, BellandeError>)
        ensures
            r == parse_spec(s@),
    {
        let n = s.unicode_len();
        if n == 3 && s.get_char(0) == 'c' && s.get_char(1) == 'p' && s.get_char(2) == 'u' {
            return Ok(Device::CPU);
        }
        if !(n >= 4 && s.get_char(0) == 'c' && s.get_char(1) == 'u' && s.get_char(2) == 'd'
            && s.get_char(3) == 'a') {
            return Err(BellandeError::InvalidDevice);
        }
        if n == 4 {
            return Ok(Device::CUDA(0));
        }
        let mut colons: usize = 0;
        let mut first: usize = 0;
        let mut i: usize = 0;
        while i < n
            invariant
                i <= n,
                n == s@.len(),
                colons == count_colons(s@.subrange(0, i as int)),
                colons <= i,
                colons > 0 ==> first < i && s@[first as int] == ':',
                forall|k: int|
                    0 <= k < i && (colons == 0 || (colons == 1 && k != first)) ==> s@[k] != ':',
            decreases n - i,
        {
            let ghost next = s@.subrange(0, i + 1);
            assert(next.drop_last() =~= s@.subrange(0, i as int));
            if s.get_char(i) == ':' {
                if colons == 0 {
                    first = i;
                }
                colons = colons + 1;
            }
            i = i + 1;
        }
        assert(s@.subrange(0, n as int) =~= s@);
        if colons != 1 {
            return Err(BellandeError::InvalidDevice);
        }
        assert(s@.contains(':'));
        assert(s@.index_of(':') == first) by {
            let j = s@.index_of(':');
            assert(0 <= j < s@.len() && s@[j] == ':');
        }
        if ordinal_from(s, first + 1) {
            Err(BellandeError::DeviceNotAvailable)
        } else {
            Err(BellandeError::InvalidDevice)
        }
    }

    /// Reads a device specification, ignoring case.
    pub fn from_str(s: &str) -> (r: Result<Device, BellandeError>)
        ensures
            r == parse_spec(lowercase(s@)),
    {
        let lower = to_lowercase(s);
        Device::parse_lowercase(lower.as_str())
    }

    /// Reads a device specification, ignoring case.
    pub fn from(device_str: &str) -> (r: Result<Device, BellandeError>)
        ensures
            r == parse_spec(lowercase(device_str@)),
    {
        Device::from_str(device_str)
    }
}

impl Default for Device {
    fn default() -> (r: Self)
        ensures
            r == Device::CPU,
    {
        Device::CPU
    }
}

/// The digits of a number are digits, none of them a colon or a plus
/// sign, and they denote the number.
proof fn lemma_decimal(n: nat)
    ensures
        decimal(n).len() > 0,
        all_digits(decimal(n)),
        digits_value(decimal(n)) == n,
        count_colons(decimal(n)) == 0,
        decimal(n)[0] != '+',
    decreases n,
{
    let text = decimal(n);
    if n >= 10 {
        lemma_decimal(n / 10);
        let head = decimal(n / 10);
        assert(text.drop_last() =~= head);
        assert(text.last() == digit_of(n % 10));
        assert(digit_of(n % 10) as nat - '0' as nat == n % 10);
        assert(text[0] == head[0]);
    } else {
        assert(text.drop_last() =~= Seq::<char>::empty());
        assert(digit_of(n) as nat - '0' as nat == n);
        assert(digits_value(text.drop_last()) == 0);
        assert(count_colons(text.drop_last()) == 0);
    }
    assert forall|i: int| 0 <= i < text.len() implies is_digit(#[trigger] text[i]) by {
        if n >= 10 && i < text.len() - 1 {
            assert(text[i] == decimal(n / 10)[i]);
        }
    }
}

/// Colons are counted part by part.
proof fn lemma_count_colons_joined(a: Seq<char>, b: Seq<char>)
    ensures
        count_colons(a + b) == count_colons(a) + count_colons(b),
    decreases b.len(),
{
    if b.len() == 0 {
        assert(a + b =~= a);
    } else {
        lemma_count_colons_joined(a, b.drop_last());
        assert((a + b).drop_last() =~= a + b.drop_last());
    }
}

/// The name of the CPU is read back as the CPU. The name of a CUDA device
/// is understood as a CUDA device, which is not available.
pub proof fn lemma_names_are_understood(device: Device)
    ensures
        parse_spec(text_of(device)) == match device {
            Device::CPU => Ok::<Device, BellandeError>(Device::CPU),
            Device::CUDA(_) => Err::<Device, BellandeError>(BellandeError::DeviceNotAvailable),
        },
{
    reveal_strlit("cpu");
    reveal_strlit("cuda:");
    match device {
        Device::CPU => {},
        Device::CUDA(id) => {
            let prefix = "cuda:"@;
            let digits = decimal(id as nat);
            let text = text_of(device);
            lemma_decimal(id as nat);
            lemma_count_colons_joined(prefix, digits);
            assert(count_colons(prefix) == 1) by {
                reveal_with_fuel(count_colons, 6);
                assert(prefix.drop_last() =~= seq!['c', 'u', 'd', 'a']);
                assert(seq!['c', 'u', 'd', 'a'].drop_last() =~= seq!['c', 'u', 'd']);
                assert(seq!['c', 'u', 'd'].drop_last() =~= seq!['c', 'u']);
                assert(seq!['c', 'u'].drop_last() =~= seq!['c']);
                assert(seq!['c'].drop_last() =~= Seq::<char>::empty());
            }
            assert(text[4] == ':');
            assert(text.contains(':'));
            assert(text.index_of(':') == 4) by {
                let j = text.index_of(':');
                assert(0 <= j < text.len() && text[j] == ':');
                if j > 4 {
                    assert(text[j] == digits[j - 5]);
                    assert(is_digit(digits[j - 5]));
                }
            }
            assert(text.subrange(5, text.len() as int) =~= digits);
            assert(strip_plus(digits) == digits);
        },
    }
}

} // verus!
