//! Paths of the file system.

use vstd::prelude::*;

verus! {

/// A path, as its components from the root down. A component is the bytes of its name.
#[derive(Debug, PartialEq, Eq)]
pub struct FilePath {
    pub components: Vec<Vec<u8>>,
}

impl DeepView for FilePath {
    type V = Seq<Seq<u8>>;

    open spec fn deep_view(&self) -> Seq<Seq<u8>> {
        Seq::new(self.components@.len(), |i: int| self.components@[i]@)
    }
}

/// Whether two names are the same.
fn same_name(a: &Vec<u8>, b: &Vec<u8>) -> (r: bool)
    ensures
        r == (a@ == b@),
{
    if a.len() != b.len() {
        return false;
    }
    let mut i: usize = 0;
    while i < a.len()
        invariant
            i <= a@.len() == b@.len(),
            a@.take(i as int) == b@.take(i as int),
        decreases a.len() - i,
    {
        if a[i] != b[i] {
            return false;
        }
        assert(a@.take(i + 1) =~= a@.take(i as int).push(a@[i as int]));
        assert(b@.take(i + 1) =~= b@.take(i as int).push(b@[i as int]));
        i += 1;
    }
    assert(a@.take(i as int) =~= a@);
    assert(b@.take(i as int) =~= b@);
    true
}

impl FilePath {
    /// Whether another path leads to this one or to a directory that it lies in. Only whole
    /// components count.
    pub fn starts_with(&self, base: &FilePath) -> (r: bool)
        ensures
            r == base.deep_view().is_prefix_of(self.deep_view()),
    {
        let ghost path = self.deep_view();
        let ghost start = base.deep_view();
        if base.components.len() > self.components.len() {
            return false;
        }
        let mut i: usize = 0;
        while i < base.components.len()
            invariant
                i <= base.components@.len() <= self.components@.len(),
                path == self.deep_view(),
                start == base.deep_view(),
                forall|j: int| 0 <= j < i ==> #[trigger] start[j] == path[j],
            decreases base.components.len() - i,
        {
            if !same_name(&base.components[i], &self.components[i]) {
                assert(path.subrange(0, start.len() as int)[i as int] != start[i as int]);
                return false;
            }
            i += 1;
        }
        assert(start =~= path.subrange(0, start.len() as int));
        true
    }

    /// Whether another path has the same components.
    pub fn same(&self, other: &FilePath) -> (r: bool)
        ensures
            r == (self.deep_view() == other.deep_view()),
    {
        let r = self.components.len() == other.components.len() && self.starts_with(other);
        proof {
            let path = self.deep_view();
            let known = other.deep_view();
            if path.len() == known.len() {
                assert(path.subrange(0, known.len() as int) =~= path);
            }
        }
        r
    }
}

}
