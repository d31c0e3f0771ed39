use vstd::prelude::*;
use vstd::std_specs::iter::IteratorSpec;

verus! {

/// The UTF-16 code unit of `':'`.
pub const COLON_UNIT: u16 = 58;

/// A UTF-16 string slice. Surrogate pairs need not be complete.
///
/// The contents are the code units in order; `@` gives them as a sequence.
#[derive(Clone, Debug, PartialEq, Eq, PartialOrd, Ord, Hash, Default)]
pub struct Utf16Str {
    data: Vec<u16>,
}

impl View for Utf16Str {
    type V = Seq<u16>;

    closed spec fn view(&self) -> Seq<u16> {
        self.data@
    }
}

impl Utf16Str {
    /// Builds a string from the given code units.
    pub fn new(data: &[u16]) -> (r: Utf16Str)
        ensures
            r@ == data@,
    {
        let mut v: Vec<u16> = Vec::new();
        let mut i: usize = 0;
        while i < data.len()
            invariant
                i <= data@.len(),
                v@ == data@.take(i as int),
            decreases data@.len() - i,
        {
            v.push(data[i]);
            i = i + 1;
            assert(v@ =~= data@.take(i as int));
        }
        assert(data@.take(data@.len() as int) =~= data@);
        Utf16Str { data: v }
    }

    /// The code units of the string.
    pub fn as_u16s(&self) -> (r: &[u16])
        ensures
            r@ == self@,
    {
        self.data.as_slice()
    }

    /// The code units of the string, to be changed in place.
    pub fn as_mut_u16s(&mut self) -> (r: &mut [u16])
        ensures
            r@ == old(self)@,
            final(self)@ == final(r)@,
    {
        self.data.as_mut_slice()
    }

    /// The number of code units.
    pub fn len(&self) -> (r: usize)
        ensures
            r == self@.len(),
    {
        self.data.len()
    }

    /// The code unit at `index`.
    pub fn get(&self, index: usize) -> (r: u16)
        requires
            index < self@.len(),
        ensures
            r == self@[index as int],
    {
        self.data[index]
    }

    /// Replaces the code unit at `index`.
    pub fn set(&mut self, index: usize, unit: u16)
        requires
            index < old(self)@.len(),
        ensures
            final(self)@ == old(self)@.update(index as int, unit),
    {
        self.data.set(index, unit);
    }

    /// Whether two strings hold the same code units.
    pub fn eq_str(&self, other: &Utf16Str) -> (r: bool)
        ensures
            r == (self@ == other@),
    {
        if self.data.len() != other.data.len() {
            return false;
        }
        let mut i: usize = 0;
        while i < self.data.len()
            invariant
                self@.len() == other@.len(),
                i <= self@.len(),
                forall|j: int| 0 <= j < i ==> self@[j] == other@[j],
            decreases self@.len() - i,
        {
            if self.data[i] != other.data[i] {
                return false;
            }
            i = i + 1;
        }
        assert(self@ =~= other@);
        true
    }

    /// Whether the string equals the given code units.
    pub fn eq_u16s(&self, other: &[u16]) -> (r: bool)
        ensures
            r == (self@ == other@),
    {
        if self.data.len() != other.len() {
            return false;
        }
        let mut i: usize = 0;
        while i < self.data.len()
            invariant
                self@.len() == other@.len(),
                i <= self@.len(),
                forall|j: int| 0 <= j < i ==> self@[j] == other@[j],
            decreases self@.len() - i,
        {
            if self.data[i] != other[i] {
                return false;
            }
            i = i + 1;
        }
        assert(self@ =~= other@);
        true
    }

    /// An owned copy of the string.
    pub fn to_owned(&self) -> (r: Utf16String)
        ensures
            r@ == self@,
    {
        Utf16String::from_iter(self.as_u16s())
    }

    /// A copy of the string slice.
    pub fn copy(&self) -> (r: Utf16Str)
        ensures
            r@ == self@,
    {
        Utf16Str::new(self.data.as_slice())
    }

    /// The string decoded for display: each unpaired surrogate becomes U+FFFD.
    pub fn to_display_string(&self) -> (r: String)
        ensures
            r@ == utf16_decode_lossy(self@),
    {
        decode_utf16_lossy(self.data.as_slice())
    }

    /// The text that debug output shows for the string: the same as its display.
    pub fn debug_text(&self) -> (r: String)
        ensures
            r@ == utf16_decode_lossy(self@),
    {
        decode_utf16_lossy(self.data.as_slice())
    }

    /// The code units of the string, consumed.
    pub fn into_u16s(self) -> (r: Vec<u16>)
        ensures
            r@ == self@,
    {
        self.data
    }
}

/// A growable UTF-16 string. Surrogate pairs need not be complete.
#[derive(Clone, Debug, PartialEq, Eq, PartialOrd, Ord, Hash, Default)]
pub struct Utf16String {
    inner: Utf16Str,
}

impl View for Utf16String {
    type V = Seq<u16>;

    closed spec fn view(&self) -> Seq<u16> {
        self.inner@
    }
}

impl Utf16String {
    /// The empty string.
    pub fn new() -> (r: Utf16String)
        ensures
            r@ == Seq::<u16>::empty(),
    {
        Utf16String { inner: Utf16Str { data: Vec::new() } }
    }

    /// The empty string, with room for `capacity` code units.
    pub fn with_capacity(capacity: usize) -> (r: Utf16String)
        ensures
            r@ == Seq::<u16>::empty(),
    {
        Utf16String { inner: Utf16Str { data: Vec::with_capacity(capacity) } }
    }

    /// A string holding the given code units.
    pub fn from_iter(units: &[u16]) -> (r: Utf16String)
        ensures
            r@ == units@,
    {
        Utf16String { inner: Utf16Str::new(units) }
    }

    /// A string holding the code units of the given slice.
    pub fn from_utf16_str(s: &Utf16Str) -> (r: Utf16String)
        ensures
            r@ == s@,
    {
        Utf16String { inner: s.copy() }
    }

    /// The UTF-16 encoding of a Rust string.
    pub fn from(s: &str) -> (r: Utf16String)
        ensures
            r@ == utf16_encode(s@),
    {
        Utf16String { inner: Utf16Str { data: encode_utf16_units(s) } }
    }

    /// A string of one code unit.
    pub fn from_unit(unit: u16) -> (r: Utf16String)
        ensures
            r@ == seq![unit],
    {
        let mut data: Vec<u16> = Vec::new();
        data.push(unit);
        Utf16String { inner: Utf16Str { data } }
    }

    /// The number of code units.
    pub fn len(&self) -> (r: usize)
        ensures
            r == self@.len(),
    {
        self.inner.len()
    }

    /// The string as a slice.
    pub fn as_utf16_str(&self) -> (r: &Utf16Str)
        ensures
            r@ == self@,
    {
        &self.inner
    }

    /// The string as a slice, to be changed in place.
    pub fn as_mut_utf16_str(&mut self) -> (r: &mut Utf16Str)
        ensures
            r@ == old(self)@,
            final(self)@ == final(r)@,
    {
        &mut self.inner
    }

    /// The code units of the string.
    pub fn as_u16s(&self) -> (r: &[u16])
        ensures
            r@ == self@,
    {
        self.inner.as_u16s()
    }

    /// Whether the string has no code units.
    pub fn is_empty(&self) -> (r: bool)
        ensures
            r == (self@.len() == 0),
    {
        self.inner.data.len() == 0
    }

    /// Appends one code unit.
    pub fn push(&mut self, ch: u16)
        ensures
            final(self)@ == old(self)@.push(ch),
    {
        self.inner.data.push(ch);
    }

    /// Appends the code units of `s`.
    pub fn push_str(&mut self, s: &Utf16Str)
        ensures
            final(self)@ == old(self)@ + s@,
    {
        let ghost start = self@;
        let mut i: usize = 0;
        while i < s.data.len()
            invariant
                i <= s@.len(),
                self@ == start + s@.take(i as int),
            decreases s@.len() - i,
        {
            self.inner.data.push(s.data[i]);
            i = i + 1;
            assert(self@ =~= start + s@.take(i as int));
        }
        assert(s@.take(s@.len() as int) =~= s@);
    }

    /// The string with `s` appended.
    pub fn concat(self, s: &Utf16Str) -> (r: Utf16String)
        ensures
            r@ == self@ + s@,
    {
        let mut out = self;
        out.push_str(s);
        out
    }

    /// The string with one code unit appended.
    pub fn concat_unit(self, unit: u16) -> (r: Utf16String)
        ensures
            r@ == self@.push(unit),
    {
        let mut out = self;
        out.push(unit);
        out
    }

    /// The code unit at `index`.
    pub fn get(&self, index: usize) -> (r: u16)
        requires
            index < self@.len(),
        ensures
            r == self@[index as int],
    {
        self.inner.get(index)
    }

    /// Replaces the code unit at `index`.
    pub fn set(&mut self, index: usize, unit: u16)
        requires
            index < old(self)@.len(),
        ensures
            final(self)@ == old(self)@.update(index as int, unit),
    {
        self.inner.set(index, unit);
    }

    /// Whether two strings hold the same code units.
    pub fn eq_str(&self, other: &Utf16String) -> (r: bool)
        ensures
            r == (self@ == other@),
    {
        self.inner.eq_str(&other.inner)
    }

    /// A copy of the string.
    pub fn copy(&self) -> (r: Utf16String)
        ensures
            r@ == self@,
    {
        Utf16String { inner: self.inner.copy() }
    }

    /// Joins `strings`, putting `sep` between each two neighbours.
    pub fn join(strings: &[Utf16Str], sep: &Utf16Str) -> (r: Utf16String)
        ensures
            r@ == join_spec(strings@.map_values(|s: Utf16Str| s@), sep@),
    {
        let ghost parts = strings@.map_values(|s: Utf16Str| s@);
        let mut result = Utf16String::new();
        if strings.len() == 0 {
            return result;
        }
        result.push_str(&strings[0]);
        assert(parts.take(1) =~= seq![parts[0]]);
        let mut i: usize = 1;
        while i < strings.len()
            invariant
                1 <= i <= strings@.len(),
                parts == strings@.map_values(|s: Utf16Str| s@),
                result@ == join_spec(parts.take(i as int), sep@),
            decreases strings@.len() - i,
        {
            result.push_str(sep);
            result.push_str(&strings[i]);
            assert(parts.take(i + 1).drop_last() =~= parts.take(i as int));
            i = i + 1;
        }
        assert(parts.take(strings@.len() as int) =~= parts);
        result
    }

    /// The string decoded for display: each unpaired surrogate becomes U+FFFD.
    pub fn to_display_string(&self) -> (r: String)
        ensures
            r@ == utf16_decode_lossy(self@),
    {
        self.inner.to_display_string()
    }

    /// The text that debug output shows for the string: the same as its display.
    pub fn debug_text(&self) -> (r: String)
        ensures
            r@ == utf16_decode_lossy(self@),
    {
        self.inner.to_display_string()
    }

    /// The code units of the string, consumed.
    pub fn into_u16s(self) -> (r: Vec<u16>)
        ensures
            r@ == self@,
    {
        self.inner.data
    }

    /// An iterator over the code units, consuming the string.
    pub fn into_iter(self) -> (r: std::vec::IntoIter<u16>)
        ensures
            vstd::std_specs::iter::IteratorSpec::remaining(&r) == self@,
    {
        let ghost units = self.inner.data;
        let r = self.inner.data.into_iter();
        proof {
            vstd::std_specs::vec::axiom_spec_into_iter(units);
        }
        r
    }
}

/// The strings of `parts` with `sep` between each two neighbours.
pub open spec fn join_spec(parts: Seq<Seq<u16>>, sep: Seq<u16>) -> Seq<u16>
    decreases parts.len(),
{
    if parts.len() == 0 {
        Seq::empty()
    } else if parts.len() == 1 {
        parts[0]
    } else {
        join_spec(parts.drop_last(), sep) + sep + parts.last()
    }
}

/// Whether a code unit is a high (leading) surrogate.
pub open spec fn is_high_surrogate(u: u16) -> bool {
    0xD800 <= u < 0xDC00
}

/// Whether a code unit is a low (trailing) surrogate.
pub open spec fn is_low_surrogate(u: u16) -> bool {
    0xDC00 <= u < 0xE000
}

/// UTF-16 decoding in which every unpaired surrogate becomes U+FFFD.
pub open spec fn utf16_decode_lossy(s: Seq<u16>) -> Seq<char>
    decreases s.len(),
{
    if s.len() == 0 {
        Seq::empty()
    } else if s.len() >= 2 && is_high_surrogate(s[0]) && is_low_surrogate(s[1]) {
        seq![(0x10000 + (s[0] - 0xD800) * 0x400 + (s[1] - 0xDC00)) as char]
            + utf16_decode_lossy(s.skip(2))
    } else if is_high_surrogate(s[0]) || is_low_surrogate(s[0]) {
        seq!['\u{FFFD}'] + utf16_decode_lossy(s.skip(1))
    } else {
        seq![s[0] as char] + utf16_decode_lossy(s.skip(1))
    }
}

/// The UTF-16 encoding of a character.
pub open spec fn utf16_encode_char(c: char) -> Seq<u16> {
    let v = c as int;
    if v < 0x10000 {
        seq![v as u16]
    } else {
        seq![(0xD800 + (v - 0x10000) / 0x400) as u16, (0xDC00 + (v - 0x10000) % 0x400) as u16]
    }
}

/// The UTF-16 encoding of a sequence of characters.
pub open spec fn utf16_encode(s: Seq<char>) -> Seq<u16>
    decreases s.len(),
{
    if s.len() == 0 {
        Seq::empty()
    } else {
        utf16_encode_char(s[0]) + utf16_encode(s.skip(1))
    }
}

/// Encoding a character after some characters appends its encoding.
pub proof fn lemma_utf16_encode_push(a: Seq<char>, c: char)
    ensures
        utf16_encode(a.push(c)) == utf16_encode(a) + utf16_encode_char(c),
    decreases a.len(),
{
    if a.len() == 0 {
        assert(a.push(c).skip(1) =~= Seq::<char>::empty());
        assert(a.push(c)[0] == c);
        assert(utf16_encode(Seq::<char>::empty()) == Seq::<u16>::empty());
        assert(utf16_encode(a) == Seq::<u16>::empty());
        assert(utf16_encode_char(c) + Seq::<u16>::empty() =~= utf16_encode_char(c));
        assert(Seq::<u16>::empty() + utf16_encode_char(c) =~= utf16_encode_char(c));
    } else {
        assert(a.push(c).skip(1) =~= a.skip(1).push(c));
        lemma_utf16_encode_push(a.skip(1), c);
        assert(a.push(c)[0] == a[0]);
        assert(a.push(c).len() > 0);
        assert(utf16_encode(a.push(c)) == utf16_encode_char(a[0]) + utf16_encode(a.skip(1).push(c)));
        assert(utf16_encode_char(a[0]) + (utf16_encode(a.skip(1)) + utf16_encode_char(c))
            =~= (utf16_encode_char(a[0]) + utf16_encode(a.skip(1))) + utf16_encode_char(c));
    }
}

/// Appends the UTF-16 encoding of `c` to `units`.
fn push_utf16_char(units: &mut Vec<u16>, c: char)
    ensures
        final(units)@ == old(units)@ + utf16_encode_char(c),
{
    let v = c as u32;
    if v < 0x10000 {
        units.push(v as u16);
    } else {
        let w: u32 = v - 0x10000;
        assert(w < 0x100000);
        let high: u32 = 0xD800 + w / 0x400;
        let low: u32 = 0xDC00 + w % 0x400;
        units.push(high as u16);
        units.push(low as u16);
    }
    assert(final(units)@ =~= old(units)@ + utf16_encode_char(c));
}

/// The UTF-16 encoding of the text, character by character.
fn encode_utf16_units(s: &str) -> (r: Vec<u16>)
    ensures
        r@ == utf16_encode(s@),
{
    let mut r: Vec<u16> = Vec::new();
    let mut chars = s.chars();
    let ghost mut k: int = 0;
    proof {
        assert(s@.take(0) =~= Seq::<char>::empty());
        assert(s@.skip(0) =~= s@);
    }
    loop
        invariant_except_break
            0 <= k <= s@.len(),
            chars.remaining() == s@.skip(k),
            r@ == utf16_encode(s@.take(k)),
        ensures
            r@ == utf16_encode(s@),
        decreases s@.len() - k,
    {
        match chars.next() {
            Some(c) => {
                proof {
                    assert(s@.skip(k).len() > 0);
                    assert(c == s@[k]);
                    assert(s@.take(k + 1) =~= s@.take(k).push(c));
                    assert(s@.skip(k).drop_first() =~= s@.skip(k + 1));
                    lemma_utf16_encode_push(s@.take(k), c);
                }
                push_utf16_char(&mut r, c);
                proof {
                    k = k + 1;
                }
            },
            None => {
                proof {
                    assert(k == s@.len());
                    assert(s@.take(k) =~= s@);
                }
                break;
            },
        }
    }
    r
}

/// Calls `String::from_utf16_lossy`, which decodes UTF-16 and puts U+FFFD for each code
/// unit that is not part of a valid character: the contract states that decoding.
#[verifier::external_body]
fn decode_utf16_lossy(units: &[u16]) -> (r: String)
    ensures
        r@ == utf16_decode_lossy(units@),
{
    String::from_utf16_lossy(units)
}


/// The decimal digits of `n`.
pub open spec fn decimal(n: nat) -> Seq<char>
    decreases n,
{
    if n < 10 {
        seq![(48 + n) as char]
    } else {
        decimal(n / 10).push((48 + n % 10) as char)
    }
}

/// The text of one decimal digit.
fn digit_text(d: usize) -> (r: &'static str)
    requires
        d < 10,
    ensures
        r@ == seq![(48 + d) as char],
{
    proof {
        reveal_strlit("0");
        reveal_strlit("1");
        reveal_strlit("2");
        reveal_strlit("3");
        reveal_strlit("4");
        reveal_strlit("5");
        reveal_strlit("6");
        reveal_strlit("7");
        reveal_strlit("8");
        reveal_strlit("9");
    }
    if d == 0 {
        "0"
    } else if d == 1 {
        "1"
    } else if d == 2 {
        "2"
    } else if d == 3 {
        "3"
    } else if d == 4 {
        "4"
    } else if d == 5 {
        "5"
    } else if d == 6 {
        "6"
    } else if d == 7 {
        "7"
    } else if d == 8 {
        "8"
    } else {
        "9"
    }
}

/// The decimal digits of `n`, as `usize::to_string` writes them.
pub fn decimal_text(n: usize) -> (r: String)
    ensures
        r@ == decimal(n as nat),
    decreases n,
{
    if n < 10 {
        digit_text(n).to_owned()
    } else {
        let mut r = decimal_text(n / 10);
        r.append(digit_text(n % 10));
        r
    }
}

} // verus!
