//! Walking a path from the root down, or from the path up.
use crate::path::Path;
use crate::path_resolve::spec_resolve_path;
use crate::text::{
    chars_of,
    join,
    join_with,
    slice,
    split,
    split_on,
    string_of,
    string_views,
    views,
};
use vstd::prelude::*;

verus! {

/// The ancestors of a path and the path itself, handed out from either
/// end.
#[derive(Debug)]
pub struct PathIterator {
    pub components: Vec<String>,
    pub front_idx: usize,
    pub back_idx: usize,
    pub has_trailing_slash: bool,
}

/// The path without the `/` at its start and the one at its end.
pub open spec fn spec_inner(path: Seq<char>) -> Seq<char> {
    let tail = if path.len() > 0 && path[0] == '/' {
        path.skip(1)
    } else {
        path
    };
    if tail.len() > 0 && tail.last() == '/' {
        tail.drop_last()
    } else {
        tail
    }
}

/// The components of a path: an empty one for the root where the path
/// starts there, then what lies between the slashes.
pub open spec fn spec_components(path: Seq<char>) -> Seq<Seq<char>> {
    let root = if path.len() > 0 && path[0] == '/' {
        seq![Seq::<char>::empty()]
    } else {
        Seq::<Seq<char>>::empty()
    };
    if spec_inner(path).len() > 0 {
        root + split(spec_inner(path), '/')
    } else {
        root
    }
}

/// Whether the path ends in a `/` that is not all of it.
pub open spec fn spec_trailing(path: Seq<char>) -> bool {
    path.len() > 1 && path.last() == '/'
}

/// The path made of the first `n` components: the root for the first
/// alone.
pub open spec fn spec_prefix_path(components: Seq<Seq<char>>, n: int, trailing: bool) -> Seq<char> {
    if n == 1 {
        "/"@
    } else {
        spec_resolve_path(
            join(components.take(n), "/"@) + (if trailing {
                "/"@
            } else {
                Seq::<char>::empty()
            }),
        )
    }
}

impl PathIterator {
    pub open spec fn wf(&self) -> bool {
        self.front_idx >= 1 && self.back_idx <= self.components@.len()
    }

    /// How many paths are left to hand out.
    pub open spec fn remaining(&self) -> nat {
        if self.front_idx > self.back_idx {
            0
        } else {
            (self.back_idx - self.front_idx + 1) as nat
        }
    }

    pub fn new(path: &Path) -> (it: PathIterator)
        ensures
            it.wf(),
            string_views(it.components@) == spec_components(path@),
            it.front_idx == 1,
            it.back_idx == it.components@.len(),
            it.has_trailing_slash == spec_trailing(path@),
    {
        let chars = chars_of(path.as_str());
        let n = chars.len();
        let has_leading_slash = n > 0 && chars[0] == '/';
        let has_trailing_slash = n > 1 && chars[n - 1] == '/';
        let from: usize = if has_leading_slash {
            1
        } else {
            0
        };
        let tail = slice(&chars, from, n);
        assert(tail@ =~= (if has_leading_slash {
            path@.skip(1)
        } else {
            path@
        }));
        let m = tail.len();
        let inner = if m > 0 && tail[m - 1] == '/' {
            let inner = slice(&tail, 0, m - 1);
            assert(inner@ =~= tail@.drop_last());
            inner
        } else {
            tail
        };
        assert(inner@ == spec_inner(path@));
        let mut components: Vec<String> = Vec::new();
        if has_leading_slash {
            components.push(String::new());
        }
        let ghost root = string_views(components@);
        assert(root =~= (if has_leading_slash {
            seq![Seq::<char>::empty()]
        } else {
            Seq::<Seq<char>>::empty()
        }));
        if inner.len() > 0 {
            let parts = split_on(&inner, '/');
            let mut i: usize = 0;
            while i < parts.len()
                invariant
                    i <= parts.len(),
                    string_views(components@) == root + views(parts@).take(i as int),
                decreases parts.len() - i,
            {
                let ghost before = string_views(components@);
                components.push(string_of(&parts[i]));
                assert(string_views(components@) =~= before.push(parts@[i as int]@));
                assert(root + views(parts@).take(i + 1) =~= (root + views(parts@).take(
                    i as int,
                )).push(parts@[i as int]@));
                i += 1;
            }
            assert(views(parts@).take(parts.len() as int) =~= views(parts@));
        }
        let back_idx = components.len();
        PathIterator { components, front_idx: 1, back_idx, has_trailing_slash }
    }

    fn prefix_path(&self, n: usize, trailing: bool) -> (p: Path)
        requires
            1 <= n <= self.components@.len(),
        ensures
            p@ == spec_prefix_path(string_views(self.components@), n as int, trailing),
    {
        if n == 1 {
            return Path::root();
        }
        let mut parts: Vec<Vec<char>> = Vec::new();
        let mut i: usize = 0;
        while i < n
            invariant
                i <= n <= self.components@.len(),
                parts.len() == i,
                forall|j: int| 0 <= j < i ==> parts@[j]@ == self.components@[j]@,
            decreases n - i,
        {
            parts.push(chars_of(self.components[i].as_str()));
            i += 1;
        }
        assert(views(parts@) =~= string_views(self.components@).take(n as int));
        let mut text = join_with(&parts, "/");
        if trailing {
            text.push('/');
            proof {
                reveal_strlit("/");
            }
            assert(text@ =~= join(views(parts@), "/"@) + "/"@);
        } else {
            assert(text@ =~= join(views(parts@), "/"@) + Seq::<char>::empty());
        }
        let s = string_of(&text);
        Path::from_str(s.as_str())
    }

    /// The next path from the root down: first the root, then one more
    /// component each time, with the `/` at the end where the path had
    /// one.
    pub fn next(&mut self) -> (item: Option<Path>)
        requires
            old(self).wf(),
        ensures
            final(self).wf(),
            final(self).components == old(self).components,
            final(self).has_trailing_slash == old(self).has_trailing_slash,
            old(self).remaining() == 0 ==> item is None && final(self).front_idx == old(
                self,
            ).front_idx && final(self).back_idx == old(self).back_idx,
            old(self).remaining() > 0 ==> item is Some && item->0@ == spec_prefix_path(
                string_views(old(self).components@),
                old(self).front_idx as int,
                old(self).has_trailing_slash,
            ) && final(self).remaining() == old(self).remaining() - 1,
            old(self).remaining() > 1 ==> final(self).front_idx == old(self).front_idx + 1
                && final(self).back_idx == old(self).back_idx,
    {
        if self.front_idx > self.back_idx {
            return None;
        }
        let front_idx = self.front_idx;
        if self.front_idx < self.back_idx {
            self.front_idx += 1;
        } else {
            self.back_idx -= 1;
        }
        Some(self.prefix_path(front_idx, self.has_trailing_slash))
    }

    /// The next path from the path up: first the path itself, then one
    /// component less each time, at last the root.
    pub fn next_back(&mut self) -> (item: Option<Path>)
        requires
            old(self).wf(),
        ensures
            final(self).wf(),
            final(self).components == old(self).components,
            final(self).front_idx == old(self).front_idx,
            final(self).has_trailing_slash == old(self).has_trailing_slash,
            old(self).remaining() == 0 ==> item is None && final(self).back_idx == old(
                self,
            ).back_idx,
            old(self).remaining() > 0 ==> item is Some && item->0@ == spec_prefix_path(
                string_views(old(self).components@),
                old(self).back_idx as int,
                false,
            ) && final(self).back_idx == old(self).back_idx - 1,
    {
        if self.front_idx > self.back_idx {
            return None;
        }
        let back_idx = self.back_idx;
        self.back_idx -= 1;
        Some(self.prefix_path(back_idx, false))
    }
}

} // verus!
