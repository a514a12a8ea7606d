//! A filesystem path modelled as its sequence of name components.
//!
//! Discovery walks this structure upward one component at a time, so the
//! model keeps the components explicit instead of packing them into one
//! separator-joined string.

use vstd::prelude::*;

verus! {

/// A path, as the sequence of its name components from the root.
/// The empty sequence stands for the topmost directory.
pub struct SysPath {
    pub components: Vec<String>,
}

/// The separator-joined rendering of a component sequence, used when a path
/// has to appear inside an error value.
pub open spec fn path_display_spec(components: Seq<Seq<char>>) -> Seq<char>
    decreases components.len(),
{
    if components.len() == 0 {
        Seq::<char>::empty()
    } else if components.len() == 1 {
        components[0]
    } else {
        path_display_spec(components.drop_last()) + seq!['/'] + components.last()
    }
}

impl SysPath {
    pub open spec fn view(&self) -> Seq<Seq<char>> {
        self.components.deep_view()
    }

    /// The empty path.
    pub fn empty() -> (r: SysPath)
        ensures
            r@ == Seq::<Seq<char>>::empty(),
    {
        SysPath { components: Vec::new() }
    }

    pub fn from_components(components: Vec<String>) -> (r: SysPath)
        ensures
            r@ == components.deep_view(),
    {
        SysPath { components }
    }

    pub fn depth(&self) -> (n: usize)
        ensures
            n == self@.len(),
    {
        self.components.len()
    }

    /// The path extended by one further component.
    pub fn join(&self, name: &String) -> (r: SysPath)
        ensures
            r@ == self@.push(name@),
    {
        let mut components = self.clone_components();
        components.push(name.clone());
        let r = SysPath { components };
        proof {
            assert(r@ =~= self@.push(name@));
        }
        r
    }

    /// The path with its last component removed; `None` when there is no
    /// component left to remove.
    pub fn parent(&self) -> (r: Option<SysPath>)
        ensures
            self@.len() == 0 ==> r is None,
            self@.len() > 0 ==> r is Some && r->Some_0@ == self@.drop_last(),
    {
        if self.components.len() == 0 {
            None
        } else {
            let mut components = self.clone_components();
            let _ = components.pop();
            let r = SysPath { components };
            proof {
                assert(r@ =~= self@.drop_last());
            }
            Some(r)
        }
    }

    pub fn clone_path(&self) -> (r: SysPath)
        ensures
            r@ == self@,
    {
        SysPath { components: self.clone_components() }
    }

    fn clone_components(&self) -> (r: Vec<String>)
        ensures
            r.deep_view() == self@,
    {
        let mut r: Vec<String> = Vec::new();
        let mut i: usize = 0;
        while i < self.components.len()
            invariant
                i <= self.components.len(),
                r@.len() == i,
                forall|j: int| 0 <= j < i ==> #[trigger] r@[j]@ == self@[j],
            decreases self.components.len() - i,
        {
            r.push(self.components[i].clone());
            i += 1;
        }
        proof {
            assert(r.deep_view() =~~= self@);
        }
        r
    }

    /// Component-wise equality of two paths.
    pub fn same_path(&self, other: &SysPath) -> (r: bool)
        ensures
            r == (self@ == other@),
    {
        if self.components.len() != other.components.len() {
            proof {
                assert(self@.len() != other@.len());
            }
            return false;
        }
        let mut i: usize = 0;
        while i < self.components.len()
            invariant
                i <= self.components.len(),
                self.components.len() == other.components.len(),
                self@.len() == other@.len(),
                forall|j: int| 0 <= j < i ==> self@[j] == other@[j],
            decreases self.components.len() - i,
        {
            if self.components[i] != other.components[i] {
                proof {
                    assert(self@[i as int] != other@[i as int]);
                }
                return false;
            }
            i += 1;
        }
        proof {
            assert(self@ =~= other@);
        }
        true
    }

    /// The separator-joined textual form of the path, for error reporting.
    pub fn display(&self) -> (r: String)
        ensures
            r@ == path_display_spec(self@),
    {
        let mut out = String::new();
        let mut i: usize = 0;
        while i < self.components.len()
            invariant
                i <= self.components.len(),
                out@ == path_display_spec(self@.subrange(0, i as int)),
            decreases self.components.len() - i,
        {
            if i > 0 {
                out.append("/");
            }
            out.append(self.components[i].as_str());
            proof {
                assert(self@.subrange(0, i + 1 as int).drop_last() =~= self@.subrange(
                    0,
                    i as int,
                ));
                assert(self@.subrange(0, i + 1 as int).last() == self@[i as int]);
                reveal_strlit("/");
            }
            i += 1;
        }
        proof {
            assert(self@.subrange(0, self@.len() as int) =~= self@);
        }
        out
    }
}

} // verus!
