//! Small option-like containers used throughout the configuration model:
//! a value that may be absent, a single value, or a list of values.

use vstd::prelude::*;

use crate::clone_util::DeepClone;

verus! {

/// Zero or one value, with a distinct state for "not mentioned at all".
#[derive(Debug, Clone)]
pub enum NoneOrOne<T> {
    Unspecified,
    Absent,
    One(T),
}

impl<T> NoneOrOne<T> {
    /// True when a value is present.
    pub fn is_one(&self) -> (r: bool)
        ensures
            r == (self is One),
    {
        match self {
            NoneOrOne::One(_) => true,
            _ => false,
        }
    }

    /// The contained value, which must be present.
    pub fn unwrap(self) -> (r: T)
        requires
            self is One,
        ensures
            r == self->One_0,
    {
        match self {
            NoneOrOne::One(t) => t,
            _ => unreached(),
        }
    }
}

impl<T: DeepView> DeepView for NoneOrOne<T> {
    type V = Option<T::V>;

    open spec fn deep_view(&self) -> Option<T::V> {
        match self {
            NoneOrOne::One(t) => Option::Some(t.deep_view()),
            _ => Option::None,
        }
    }
}

impl<T: DeepClone> DeepClone for NoneOrOne<T> {
    fn deep_clone(&self) -> (r: Self) {
        match self {
            NoneOrOne::Unspecified => NoneOrOne::Unspecified,
            NoneOrOne::Absent => NoneOrOne::Absent,
            NoneOrOne::One(t) => NoneOrOne::One(t.deep_clone()),
        }
    }
}

/// Zero or more values: nothing said, one value, or an explicit list.
#[derive(Debug, Clone)]
pub enum NoneOrSome<T> {
    Unspecified,
    One(T),
    Many(Vec<T>),
}

impl<T> NoneOrSome<T> {
    /// The values as a sequence, in order.
    pub open spec fn items(&self) -> Seq<T> {
        match self {
            NoneOrSome::Unspecified => Seq::empty(),
            NoneOrSome::One(t) => seq![*t],
            NoneOrSome::Many(v) => v@,
        }
    }

    /// True when no value is present.
    pub fn is_empty(&self) -> (r: bool)
        ensures
            r == (self.items().len() == 0),
    {
        match self {
            NoneOrSome::Unspecified => true,
            NoneOrSome::One(_) => false,
            NoneOrSome::Many(v) => v.len() == 0,
        }
    }

    /// The number of values present.
    pub fn len(&self) -> (r: usize)
        ensures
            r == self.items().len(),
    {
        match self {
            NoneOrSome::Unspecified => 0,
            NoneOrSome::One(_) => 1,
            NoneOrSome::Many(v) => v.len(),
        }
    }

    /// A reference to the value at a position.
    pub fn get(&self, i: usize) -> (r: &T)
        requires
            i < self.items().len(),
        ensures
            *r == self.items()[i as int],
    {
        match self {
            NoneOrSome::Unspecified => unreached(),
            NoneOrSome::One(t) => t,
            NoneOrSome::Many(v) => &v[i],
        }
    }

    /// The values as a vector, in order.
    pub fn into_vec(self) -> (r: Vec<T>)
        ensures
            r@ == self.items(),
    {
        match self {
            NoneOrSome::Unspecified => Vec::new(),
            NoneOrSome::One(t) => {
                let mut v = Vec::new();
                v.push(t);
                proof {
                    assert(v@ =~= self.items());
                }
                v
            },
            NoneOrSome::Many(v) => v,
        }
    }
}

impl<T: DeepView> DeepView for NoneOrSome<T> {
    type V = Seq<T::V>;

    open spec fn deep_view(&self) -> Seq<T::V> {
        match self {
            NoneOrSome::Unspecified => Seq::empty(),
            NoneOrSome::One(t) => seq![t.deep_view()],
            NoneOrSome::Many(v) => v.deep_view(),
        }
    }
}

impl<T: DeepClone> DeepClone for NoneOrSome<T> {
    fn deep_clone(&self) -> (r: Self) {
        match self {
            NoneOrSome::Unspecified => NoneOrSome::Unspecified,
            NoneOrSome::One(t) => NoneOrSome::One(t.deep_clone()),
            NoneOrSome::Many(v) => NoneOrSome::Many(v.deep_clone()),
        }
    }
}

/// One or more values: a single value or an explicit list.
#[derive(Debug, Clone)]
pub enum OneOrSome<T> {
    One(T),
    Many(Vec<T>),
}

impl<T: DeepView> DeepView for OneOrSome<T> {
    type V = Seq<T::V>;

    open spec fn deep_view(&self) -> Seq<T::V> {
        match self {
            OneOrSome::One(t) => seq![t.deep_view()],
            OneOrSome::Many(v) => v.deep_view(),
        }
    }
}

impl<T: DeepClone> DeepClone for OneOrSome<T> {
    fn deep_clone(&self) -> (r: Self) {
        match self {
            OneOrSome::One(t) => OneOrSome::One(t.deep_clone()),
            OneOrSome::Many(v) => OneOrSome::Many(v.deep_clone()),
        }
    }
}

impl<T> OneOrSome<T> {
    /// The values as a sequence, in order.
    pub open spec fn items(&self) -> Seq<T> {
        match self {
            OneOrSome::One(t) => seq![*t],
            OneOrSome::Many(v) => v@,
        }
    }

    /// The number of values present.
    pub fn len(&self) -> (r: usize)
        ensures
            r == self.items().len(),
    {
        match self {
            OneOrSome::One(_) => 1,
            OneOrSome::Many(v) => v.len(),
        }
    }

    /// A reference to the value at a position.
    pub fn get(&self, i: usize) -> (r: &T)
        requires
            i < self.items().len(),
        ensures
            *r == self.items()[i as int],
    {
        match self {
            OneOrSome::One(t) => t,
            OneOrSome::Many(v) => &v[i],
        }
    }

    /// The values as a vector, in order.
    pub fn into_vec(self) -> (r: Vec<T>)
        ensures
            r@ == self.items(),
    {
        match self {
            OneOrSome::One(t) => {
                let mut v = Vec::new();
                v.push(t);
                proof {
                    assert(v@ =~= self.items());
                }
                v
            },
            OneOrSome::Many(v) => v,
        }
    }
}

impl<T: DeepView> NoneOrSome<T> {
    /// The model is the item sequence, viewed element by element.
    pub proof fn lemma_deep_view(&self)
        ensures
            self.deep_view().len() == self.items().len(),
            forall|i: int|
                0 <= i < self.items().len() ==> self.deep_view()[i] == self.items()[i].deep_view(),
    {
    }
}

impl<T: DeepView> OneOrSome<T> {
    /// The model is the item sequence, viewed element by element.
    pub proof fn lemma_deep_view(&self)
        ensures
            self.deep_view().len() == self.items().len(),
            forall|i: int|
                0 <= i < self.items().len() ==> self.deep_view()[i] == self.items()[i].deep_view(),
    {
    }
}

} // verus!
