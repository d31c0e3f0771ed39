use vstd::prelude::*;

use super::string::{join_spec, Utf16Str, Utf16String, COLON_UNIT};

verus! {

/// The number of times `u` occurs in `s`.
pub open spec fn count_unit(s: Seq<u16>, u: u16) -> nat
    decreases s.len(),
{
    if s.len() == 0 {
        0
    } else {
        count_unit(s.drop_last(), u) + if s.last() == u { 1nat } else { 0nat }
    }
}

/// The number of `:`-separated segments of a path: none for the empty path.
pub open spec fn segment_count_spec(s: Seq<u16>) -> nat {
    if s.len() == 0 {
        0
    } else {
        count_unit(s, COLON_UNIT) + 1
    }
}

/// The path `prefix` with `name` appended as a further segment.
pub open spec fn append_spec(prefix: Seq<u16>, name: Seq<u16>) -> Seq<u16> {
    if prefix.len() == 0 {
        name
    } else {
        prefix.push(COLON_UNIT) + name
    }
}

/// A variable name path such as `Ns:id`: segments joined by `:`.
#[derive(Clone, Debug, PartialEq, Eq, Hash, Default)]
pub struct NamePath {
    inner: Utf16String,
}

impl View for NamePath {
    type V = Seq<u16>;

    closed spec fn view(&self) -> Seq<u16> {
        self.inner@
    }
}

impl NamePath {
    /// The empty path.
    pub fn new() -> (r: NamePath)
        ensures
            r@ == Seq::<u16>::empty(),
    {
        NamePath { inner: Utf16String::new() }
    }

    /// The path whose text is `value`.
    pub fn from(value: Utf16Str) -> (r: NamePath)
        ensures
            r@ == value@,
    {
        NamePath { inner: Utf16String::from_utf16_str(&value) }
    }

    /// The path whose text is `value`.
    pub fn from_string(value: Utf16String) -> (r: NamePath)
        ensures
            r@ == value@,
    {
        NamePath { inner: value }
    }

    /// The segments joined by `:`.
    pub fn from_segments(segments: &[Utf16Str]) -> (r: NamePath)
        ensures
            r@ == join_spec(segments@.map_values(|s: Utf16Str| s@), seq![COLON_UNIT]),
    {
        let sep = Utf16String::from_unit(COLON_UNIT);
        NamePath { inner: Utf16String::join(segments, sep.as_utf16_str()) }
    }

    /// Whether the path is empty.
    pub fn is_empty(&self) -> (r: bool)
        ensures
            r == (self@.len() == 0),
    {
        self.inner.is_empty()
    }

    /// The number of segments: the number of `:` plus one, or none for the empty path.
    pub fn segment_count(&self) -> (r: usize)
        requires
            self@.len() < usize::MAX,
        ensures
            r == segment_count_spec(self@),
    {
        if self.is_empty() {
            return 0;
        }
        let units = self.inner.as_u16s();
        let mut count: usize = 0;
        let mut i: usize = 0;
        while i < units.len()
            invariant
                i <= units@.len(),
                units@ == self@,
                count == count_unit(units@.take(i as int), COLON_UNIT),
                count <= i,
            decreases units@.len() - i,
        {
            assert(units@.take(i + 1).drop_last() =~= units@.take(i as int));
            if units[i] == COLON_UNIT {
                count = count + 1;
            }
            i = i + 1;
        }
        assert(units@.take(units@.len() as int) =~= units@);
        count + 1
    }

    /// Appends `name` as a further segment.
    pub fn append(&mut self, name: &Utf16Str)
        ensures
            final(self)@ == append_spec(old(self)@, name@),
    {
        if !self.is_empty() {
            self.inner.push(COLON_UNIT);
        }
        self.inner.push_str(name);
    }

    /// Appends the segments of `path`.
    pub fn append_path(&mut self, path: &NamePath)
        ensures
            final(self)@ == append_spec(old(self)@, path@),
    {
        if !self.is_empty() {
            self.inner.push(COLON_UNIT);
        }
        self.inner.push_str(path.inner.as_utf16_str());
    }

    /// The text of the path.
    pub fn as_utf16_str(&self) -> (r: &Utf16Str)
        ensures
            r@ == self@,
    {
        self.inner.as_utf16_str()
    }

    /// Whether two paths are the same.
    pub fn eq_path(&self, other: &NamePath) -> (r: bool)
        ensures
            r == (self@ == other@),
    {
        self.inner.eq_str(&other.inner)
    }

    /// A copy of the path.
    pub fn copy(&self) -> (r: NamePath)
        ensures
            r@ == self@,
    {
        NamePath { inner: self.inner.copy() }
    }

    /// The path decoded for display.
    pub fn to_display_string(&self) -> (r: String)
        ensures
            r@ == super::string::utf16_decode_lossy(self@),
    {
        self.inner.to_display_string()
    }
}

} // verus!
