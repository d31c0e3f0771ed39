use vstd::prelude::*;

use crate::common::string::Utf16Str;

verus! {

/// A path of names: the segments in order.
#[derive(Clone, PartialEq, Eq)]
pub struct Path {
    segments: Vec<Utf16Str>,
}

impl View for Path {
    type V = Seq<Seq<u16>>;

    closed spec fn view(&self) -> Seq<Seq<u16>> {
        self.segments@.map_values(|s: Utf16Str| s@)
    }
}

impl Path {
    /// The path of the one segment `name`.
    pub fn new(name: &Utf16Str) -> (r: Path)
        ensures
            r@ == seq![name@],
    {
        let mut segments: Vec<Utf16Str> = Vec::new();
        segments.push(name.copy());
        let r = Path { segments };
        assert(r@ =~= seq![name@]);
        r
    }

    /// The path with `name` added as its last segment.
    pub fn resolve(&self, name: &Utf16Str) -> (r: Path)
        ensures
            r@ == self@.push(name@),
    {
        let mut segments: Vec<Utf16Str> = Vec::new();
        let mut i: usize = 0;
        while i < self.segments.len()
            invariant
                i <= self.segments@.len(),
                segments@.map_values(|s: Utf16Str| s@) =~= self@.take(i as int),
            decreases self.segments@.len() - i,
        {
            let ghost before = segments@;
            let item = self.segments[i].copy();
            assert(self@[i as int] == self.segments@[i as int]@);
            segments.push(item);
            assert(segments@.map_values(|s: Utf16Str| s@) =~= before.map_values(|s: Utf16Str| s@).push(item@));
            assert(self@.take(i + 1) =~= self@.take(i as int).push(self@[i as int]));
            i = i + 1;
        }
        segments.push(name.copy());
        let r = Path { segments };
        assert(self@.take(self@.len() as int) =~= self@);
        assert(r@ =~= self@.push(name@));
        r
    }
}

} // verus!
