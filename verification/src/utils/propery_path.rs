use vstd::prelude::*;

use crate::values::value_variant::{JSValueVariant, ValueModel};

verus! {

/// The synthetic property a property-bearing value exposes under `key`:
/// only strings bear properties, and only the cached `length`.
pub open spec fn get_property_model(v: ValueModel, key: Seq<char>) -> Option<ValueModel> {
    match v {
        ValueModel::Str { text: _, length_bits } => if key == "length"@ {
            Some(ValueModel::Num(length_bits))
        } else {
            None
        },
        _ => None,
    }
}

/// Walks the segments from `i` onward against `cur`: each segment resolves
/// against the previous resolved value's property-bearing capability, and
/// the walk short-circuits to `Undefined` at the first missing segment or
/// at a value without the capability.
pub open spec fn resolve_model(segs: Seq<Seq<char>>, i: int, cur: ValueModel) -> ValueModel
    decreases segs.len() - i,
{
    if i < 0 || i >= segs.len() {
        cur
    } else {
        match get_property_model(cur, segs[i]) {
            Some(v) => resolve_model(segs, i + 1, v),
            None => ValueModel::Undefined,
        }
    }
}

/// An ordered sequence of property-name segments, built incrementally and
/// walked once against a starting value.
#[derive(Debug)]
pub struct PropertyPath {
    pub segments: Vec<String>,
}

pub open spec fn path_view(p: PropertyPath) -> Seq<Seq<char>> {
    Seq::new(p.segments@.len(), |i: int| p.segments@[i]@)
}

impl View for PropertyPath {
    type V = Seq<Seq<char>>;

    open spec fn view(&self) -> Seq<Seq<char>> {
        path_view(*self)
    }
}

impl PropertyPath {
    /// A path with no segments yet.
    pub fn new() -> (r: PropertyPath)
        ensures
            r@ == Seq::<Seq<char>>::empty(),
    {
        let r = PropertyPath { segments: Vec::new() };
        proof {
            assert(r@ =~= Seq::<Seq<char>>::empty());
        }
        r
    }

    /// Appends one property-name segment at the end of the path.
    pub fn add_path(&mut self, path_name: String)
        ensures
            final(self)@ == old(self)@.push(path_name@),
    {
        self.segments.push(path_name);
        proof {
            assert(final(self)@ =~= old(self)@.push(final(self).segments@.last()@));
        }
    }

    /// Walks the path's segments in insertion order against `object`,
    /// yielding the value found at the end, or `Undefined` from the first
    /// missing or unsupported segment onward.
    #[verifier::loop_isolation(false)]
    pub fn resolve_path(&self, object: &JSValueVariant) -> (r: JSValueVariant)
        ensures
            r@ == resolve_model(self@, 0, object@),
    {
        let mut cur = object.clone();
        let mut i: usize = 0;
        while i < self.segments.len()
            invariant
                i <= self@.len(),
                resolve_model(self@, 0, object@) == resolve_model(self@, i as int, cur@),
            decreases self@.len() - i,
        {
            match &cur {
                JSValueVariant::JSString(s) => {
                    match s.get_property(&self.segments[i]) {
                        Some(v) => {
                            proof {
                                assert(get_property_model(cur@, self@[i as int]) == Some(v@));
                            }
                            cur = v;
                        },
                        None => {
                            proof {
                                assert(get_property_model(cur@, self@[i as int]) is None);
                            }
                            return JSValueVariant::Undefined;
                        },
                    }
                },
                _ => {
                    return JSValueVariant::Undefined;
                },
            }
            i = i + 1;
        }
        cur
    }
}

} // verus!
