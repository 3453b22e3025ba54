//! Bringing a path to its shortest spelling.
use crate::text::{
    append, chars_of, ends_with, has_suffix, is_text, join, join_with, slice, split, split_on,
    string_of, views,
};
use vstd::prelude::*;

verus! {

/// What one component does to the components kept so far: `.` and an empty
/// component inside the path are dropped, `..` takes the last component
/// away unless there is none to take (then it is kept) or the path is at the
/// root (then it is dropped), and an empty component at the very start
/// stands for the root.
pub open spec fn spec_resolve_step(kept: Seq<Seq<char>>, component: Seq<char>) -> Seq<Seq<char>> {
    if component == ".."@ {
        if kept.len() > 0 && kept.last().len() == 0 {
            kept
        } else if kept.len() > 0 && kept.last() != ".."@ {
            kept.drop_last()
        } else {
            kept.push(".."@)
        }
    } else if component == "."@ {
        kept
    } else if component.len() == 0 {
        if kept.len() == 0 {
            kept.push(Seq::<char>::empty())
        } else {
            kept
        }
    } else {
        kept.push(component)
    }
}

/// The components kept of the first `n`.
pub open spec fn spec_resolve_components(components: Seq<Seq<char>>, n: nat) -> Seq<Seq<char>>
    decreases n,
{
    if n == 0 {
        Seq::empty()
    } else {
        spec_resolve_step(spec_resolve_components(components, (n - 1) as nat), components[n - 1])
    }
}

/// The shortest spelling of a path. The empty path stays empty; a path that
/// ends in `/` keeps that ending; what comes down to the root alone is `/`.
pub open spec fn spec_resolve_path(input: Seq<char>) -> Seq<char> {
    if input.len() == 0 {
        Seq::empty()
    } else {
        let components = split(input, '/');
        let kept = spec_resolve_components(components, components.len());
        let all = if ends_with(input, "/"@) {
            kept.push(Seq::<char>::empty())
        } else {
            kept
        };
        if all.len() == 1 && all[0].len() == 0 {
            "/"@
        } else {
            join(all, "/"@)
        }
    }
}

fn copy_chars(v: &Vec<char>) -> (copy: Vec<char>)
    ensures
        copy@ == v@,
{
    let copy = slice(v, 0, v.len());
    assert(copy@ =~= v@);
    copy
}

/// `resolve_path` on characters.
pub fn resolve_chars(input: &Vec<char>) -> (resolved: Vec<char>)
    ensures
        resolved@ == spec_resolve_path(input@),
{
    if input.len() == 0 {
        return Vec::new();
    }
    let components = split_on(input, '/');
    let mut kept: Vec<Vec<char>> = Vec::new();
    let mut i: usize = 0;
    assert(views(kept@) =~= spec_resolve_components(views(components@), 0));
    while i < components.len()
        invariant
            i <= components.len(),
            views(kept@) == spec_resolve_components(views(components@), i as nat),
        decreases components.len() - i,
    {
        let component = &components[i];
        assert(views(components@)[i as int] == component@);
        let ghost before = views(kept@);
        if is_text(component, "..") {
            let n = kept.len();
            if n > 0 && kept[n - 1].len() == 0 {
                assert(before.last() == kept@[n - 1]@);
            } else if n > 0 && !is_text(&kept[n - 1], "..") {
                assert(before.last() == kept@[n - 1]@);
                kept.pop();
                assert(views(kept@) =~= before.drop_last());
            } else {
                if n > 0 {
                    assert(before.last() == kept@[n - 1]@);
                }
                kept.push(chars_of(".."));
                assert(views(kept@) =~= before.push(".."@));
            }
        } else if is_text(component, ".") {
        } else if component.len() == 0 {
            if kept.len() == 0 {
                kept.push(Vec::new());
                assert(views(kept@) =~= before.push(Seq::<char>::empty()));
            }
        } else {
            kept.push(copy_chars(component));
            assert(views(kept@) =~= before.push(component@));
        }
        i += 1;
    }
    if has_suffix(input, "/") {
        let ghost before = views(kept@);
        kept.push(Vec::new());
        assert(views(kept@) =~= before.push(Seq::<char>::empty()));
    }
    if kept.len() == 1 && kept[0].len() == 0 {
        assert(views(kept@)[0] == kept@[0]@);
        chars_of("/")
    } else {
        if kept.len() == 1 {
            assert(views(kept@)[0] == kept@[0]@);
        }
        join_with(&kept, "/")
    }
}

/// Brings a path to its shortest spelling.
pub fn resolve_path(input: &str) -> (resolved: String)
    ensures
        resolved@ == spec_resolve_path(input@),
{
    let chars = chars_of(input);
    let resolved = resolve_chars(&chars);
    string_of(&resolved)
}

/// The path `rel` as seen from the directory `base`: `rel` itself where it
/// starts at the root or `base` is empty, and else `base`, `/` and `rel`;
/// in its shortest spelling either way.
pub open spec fn spec_join_path(base: Seq<char>, rel: Seq<char>) -> Seq<char> {
    if base.len() == 0 || (rel.len() > 0 && rel[0] == '/') {
        spec_resolve_path(rel)
    } else {
        spec_resolve_path(base + "/"@ + rel)
    }
}

/// Joins a path onto a directory.
pub fn join_path(base: &str, rel: &str) -> (joined: String)
    ensures
        joined@ == spec_join_path(base@, rel@),
{
    let r = chars_of(rel);
    let mut all = chars_of(base);
    if all.len() == 0 || (r.len() > 0 && r[0] == '/') {
        return string_of(&resolve_chars(&r));
    }
    crate::text::append_str(&mut all, "/");
    append(&mut all, &r);
    string_of(&resolve_chars(&all))
}

} // verus!
