//! Resolving placement parameters for an add request: the quality tier,
//! the storage root and the label ids, from the operator's configuration
//! and the manager's live snapshot of tiers, roots and tags.

use vstd::prelude::*;
use crate::models::{QualityProfile, RootFolder, Tag};

verus! {

/// Id of the first reported tier whose name matches exactly, if any.
pub open spec fn profile_id_search(l: Seq<QualityProfile>, name: Seq<char>) -> Option<i32>
    decreases l.len(),
{
    if l.len() == 0 {
        None
    } else if l[0].name@ == name {
        Some(l[0].id)
    } else {
        profile_id_search(l.drop_first(), name)
    }
}

/// The tier used when no configured name settles it: the first reported
/// tier, or id 1 when the manager reports none.
pub open spec fn default_profile_id(l: Seq<QualityProfile>) -> i32 {
    if l.len() == 0 {
        1
    } else {
        l[0].id
    }
}

/// What tier resolution must yield: the matching tier's id when the
/// configured name matches a reported tier; the default otherwise, with
/// the warning signal raised exactly when a name was configured but
/// matched nothing.
pub open spec fn resolve_profile_post(
    configured: Option<String>,
    profiles: Seq<QualityProfile>,
    r: (i32, bool),
) -> bool {
    match configured {
        Some(name) => match profile_id_search(profiles, name@) {
            Some(id) => r == (id, false),
            None => r == (default_profile_id(profiles), true),
        },
        None => r == (default_profile_id(profiles), false),
    }
}

/// Resolve the quality tier: the id to use and whether to warn about a
/// configured name that matched nothing.
pub fn resolve_quality_profile(configured: &Option<String>, profiles: &Vec<QualityProfile>) -> (r:
    (i32, bool))
    ensures
        resolve_profile_post(*configured, profiles@, r),
{
    let fallback: i32 = if profiles.len() == 0 {
        1
    } else {
        profiles[0].id
    };
    match configured {
        None => (fallback, false),
        Some(name) => {
            let n = profiles.len();
            proof {
                assert(profiles@.skip(0) =~= profiles@);
            }
            let mut i: usize = 0;
            while i < n
                invariant
                    i <= n,
                    n == profiles@.len(),
                    *configured == Some(*name),
                    profile_id_search(profiles@, name@) == profile_id_search(
                        profiles@.skip(i as int),
                        name@,
                    ),
                decreases n - i,
            {
                let ghost tail = profiles@.skip(i as int);
                proof {
                    assert(tail[0] == profiles@[i as int]);
                    assert(tail.drop_first() =~= profiles@.skip(i as int + 1));
                }
                if profiles[i].name == *name {
                    return (profiles[i].id, false);
                }
                i = i + 1;
            }
            proof {
                assert(profiles@.skip(n as int) =~= Seq::<QualityProfile>::empty());
            }
            (fallback, true)
        },
    }
}

/// The view of an optional configured string.
pub open spec fn opt_str_view(o: Option<String>) -> Option<Seq<char>> {
    match o {
        Some(s) => Some(s@),
        None => None,
    }
}

/// What the storage root must be: the configured path verbatim when one
/// is set, else the first reported root, else the caller's fixed
/// fallback path.
pub open spec fn spec_root_path(
    configured: Option<Seq<char>>,
    roots: Seq<RootFolder>,
    fallback: Seq<char>,
) -> Seq<char> {
    match configured {
        Some(p) => p,
        None => if roots.len() == 0 {
            fallback
        } else {
            roots[0].path@
        },
    }
}

/// Resolve the storage root path.
pub fn resolve_root_folder(configured: &Option<String>, roots: &Vec<RootFolder>, fallback: &str)
    -> (r: String)
    ensures
        r@ == spec_root_path(opt_str_view(*configured), roots@, fallback@),
{
    match configured {
        Some(p) => p.clone(),
        None => if roots.len() == 0 {
            fallback.to_owned()
        } else {
            roots[0].path.clone()
        },
    }
}

/// Id of the first reported tag with the given label, if any.
pub open spec fn tag_id_search(l: Seq<Tag>, label: Seq<char>) -> Option<i32>
    decreases l.len(),
{
    if l.len() == 0 {
        None
    } else if l[0].label@ == label {
        Some(l[0].id)
    } else {
        tag_id_search(l.drop_first(), label)
    }
}

/// The ids of the configured label names that the manager knows, in
/// configuration order; names the manager does not know are dropped.
pub open spec fn spec_resolve_tags(names: Seq<String>, tags: Seq<Tag>) -> Seq<i32>
    decreases names.len(),
{
    if names.len() == 0 {
        Seq::empty()
    } else {
        let rest = spec_resolve_tags(names.drop_last(), tags);
        match tag_id_search(tags, names.last()@) {
            Some(id) => rest.push(id),
            None => rest,
        }
    }
}

fn find_tag(tags: &Vec<Tag>, label: &String) -> (r: Option<i32>)
    ensures
        r == tag_id_search(tags@, label@),
{
    let n = tags.len();
    proof {
        assert(tags@.skip(0) =~= tags@);
    }
    let mut i: usize = 0;
    while i < n
        invariant
            i <= n,
            n == tags@.len(),
            tag_id_search(tags@, label@) == tag_id_search(tags@.skip(i as int), label@),
        decreases n - i,
    {
        let ghost tail = tags@.skip(i as int);
        proof {
            assert(tail[0] == tags@[i as int]);
            assert(tail.drop_first() =~= tags@.skip(i as int + 1));
        }
        if tags[i].label == *label {
            return Some(tags[i].id);
        }
        i = i + 1;
    }
    proof {
        assert(tags@.skip(n as int) =~= Seq::<Tag>::empty());
    }
    None
}

/// Resolve configured label names against the manager's tag snapshot.
pub fn resolve_tag_ids(names: &Vec<String>, tags: &Vec<Tag>) -> (r: Vec<i32>)
    ensures
        r@ == spec_resolve_tags(names@, tags@),
{
    let mut out: Vec<i32> = Vec::new();
    let n = names.len();
    let mut i: usize = 0;
    while i < n
        invariant
            i <= n,
            n == names@.len(),
            out@ == spec_resolve_tags(names@.take(i as int), tags@),
        decreases n - i,
    {
        let ghost taken = names@.take(i as int + 1);
        proof {
            assert(taken.drop_last() =~= names@.take(i as int));
            assert(taken.last() == names@[i as int]);
        }
        match find_tag(tags, &names[i]) {
            Some(id) => {
                out.push(id);
            },
            None => {},
        }
        i = i + 1;
    }
    proof {
        assert(names@.take(n as int) =~= names@);
    }
    out
}

} // verus!
