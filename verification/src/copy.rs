//! Exact copies of values, up to their deep views.
use vstd::prelude::*;

verus! {

/// A value that can be copied into a value with the same deep view.
pub trait Duplicate: DeepView + Sized {
    /// A copy with the same deep view.
    fn duplicate(&self) -> (r: Self)
        ensures
            r.deep_view() == self.deep_view(),
    ;
}

impl Duplicate for String {
    fn duplicate(&self) -> (r: String) {
        self.clone()
    }
}

impl Duplicate for i32 {
    fn duplicate(&self) -> (r: i32) {
        *self
    }
}

impl<A: Duplicate, B: Duplicate> Duplicate for (A, B) {
    fn duplicate(&self) -> (r: (A, B)) {
        (self.0.duplicate(), self.1.duplicate())
    }
}

impl<T: Duplicate> Duplicate for Option<T> {
    fn duplicate(&self) -> (r: Option<T>) {
        match self {
            Some(v) => Some(v.duplicate()),
            None => None,
        }
    }
}

impl<T: Duplicate> Duplicate for Vec<T> {
    fn duplicate(&self) -> (r: Vec<T>) {
        let mut out: Vec<T> = Vec::new();
        let mut i: usize = 0;
        while i < self.len()
            invariant
                i <= self@.len(),
                out@.len() == i,
                forall|k: int| 0 <= k < i ==> #[trigger] out@[k].deep_view() == self@[k].deep_view(),
            decreases self.len() - i,
        {
            let item = self[i].duplicate();
            out.push(item);
            i = i + 1;
        }
        assert(out.deep_view() =~= self.deep_view());
        out
    }
}

} // verus!
