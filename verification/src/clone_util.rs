//! A clone whose result is pinned down: `deep_clone` returns a value
//! with the same mathematical model as the original. The configuration
//! pass copies group contents through it.

use vstd::prelude::*;

verus! {

/// A clone that provably preserves the value's model.
pub trait DeepClone: DeepView + Sized {
    /// A copy of `self` with the same model.
    fn deep_clone(&self) -> (r: Self)
        ensures
            r.deep_view() == self.deep_view(),
    ;
}

impl DeepClone for String {
    fn deep_clone(&self) -> (r: Self) {
        self.clone()
    }
}

impl DeepClone for bool {
    fn deep_clone(&self) -> (r: Self) {
        *self
    }
}

impl DeepClone for u16 {
    fn deep_clone(&self) -> (r: Self) {
        *self
    }
}

impl<T: DeepClone> DeepClone for Option<T> {
    fn deep_clone(&self) -> (r: Self) {
        match self {
            Option::Some(t) => Option::Some(t.deep_clone()),
            Option::None => Option::None,
        }
    }
}

impl<T: DeepClone> DeepClone for Box<T> {
    fn deep_clone(&self) -> (r: Self) {
        Box::new((**self).deep_clone())
    }
}

impl<T: DeepClone> DeepClone for Vec<T> {
    fn deep_clone(&self) -> (r: Self) {
        let mut out: Vec<T> = Vec::new();
        let mut i: usize = 0;
        while i < self.len()
            invariant
                i <= self.len(),
                out.deep_view() =~= self.deep_view().subrange(0, i as int),
            decreases self.len() - i,
        {
            let ghost prev = out.deep_view();
            out.push(self[i].deep_clone());
            proof {
                assert(out.deep_view() =~= prev.push(self.deep_view()[i as int]));
            }
            i = i + 1;
        }
        proof {
            assert(out.deep_view() =~= self.deep_view());
        }
        out
    }
}

impl<A: DeepClone, B: DeepClone> DeepClone for (A, B) {
    fn deep_clone(&self) -> (r: Self) {
        (self.0.deep_clone(), self.1.deep_clone())
    }
}

} // verus!
