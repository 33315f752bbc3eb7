//! The index from source directories to the music targets found below them, which tells a
//! companion image where the music of its folder went.

use vstd::prelude::*;
use vstd::hash_map::StringHashMap;
use crate::candidates::{anchor_views, copy_anchor, copy_anchors, AnchorView, MusicImageAnchor};
use crate::domain::{FileKind, NamingRules, PlanItem};
use crate::paths::{normal_form, parent_of, path_normal_form, path_parent};
use crate::plan::{disc_parent, disc_parent_for_music_item};

verus! {

/// The directories above `p`, nearest first, as repeated `Path::parent` yields them.
pub open spec fn ancestors(p: Seq<char>) -> Seq<Seq<char>>
    decreases p.len(),
{
    match path_parent(p) {
        Some(q) => if q.len() < p.len() {
            seq![q] + ancestors(q)
        } else {
            Seq::<Seq<char>>::empty()
        },
        None => Seq::<Seq<char>>::empty(),
    }
}

/// How many of `dirs` have the normal form `key`.
pub open spec fn matching(dirs: Seq<Seq<char>>, key: Seq<char>) -> nat
    decreases dirs.len(),
{
    if dirs.len() == 0 {
        0
    } else {
        (if path_normal_form(dirs[0]) == key {
            1nat
        } else {
            0nat
        }) + matching(dirs.skip(1), key)
    }
}

/// The anchor that a planned music item leaves for the images above its source: the
/// directory of its target, the album directory its disc component proves, and its id.
pub open spec fn item_anchor(it: PlanItem, naming: NamingRules) -> Option<AnchorView> {
    if it.file.kind == FileKind::Music {
        match it.target {
            Some(t) => match path_parent(t@) {
                Some(dir) => Some(
                    AnchorView { dir, disc_parent: disc_parent(dir, it.file, naming), id: it.id },
                ),
                None => None,
            },
            None => None,
        }
    } else {
        None
    }
}

/// The anchors that item `it` records under directory key `key`: its anchor once for each
/// directory above its source with that key.
pub open spec fn item_anchors_at(it: PlanItem, key: Seq<char>, naming: NamingRules) -> Seq<AnchorView> {
    match item_anchor(it, naming) {
        Some(a) => Seq::new(matching(ancestors(it.file.path@), key), |_i: int| a),
        None => Seq::<AnchorView>::empty(),
    }
}

/// The anchors recorded under directory key `key` by the items of `s`, in order.
pub open spec fn anchors_at(s: Seq<PlanItem>, key: Seq<char>, naming: NamingRules) -> Seq<AnchorView>
    decreases s.len(),
{
    if s.len() == 0 {
        Seq::<AnchorView>::empty()
    } else {
        anchors_at(s.drop_last(), key, naming) + item_anchors_at(s.last(), key, naming)
    }
}

/// The anchors of the nearest of `dirs` under which any anchor was recorded (none if no
/// directory has any).
pub open spec fn nearest_anchors(dirs: Seq<Seq<char>>, items: Seq<PlanItem>, naming: NamingRules) -> Seq<
    AnchorView,
>
    decreases dirs.len(),
{
    if dirs.len() == 0 {
        Seq::<AnchorView>::empty()
    } else {
        let l = anchors_at(items, path_normal_form(dirs[0]), naming);
        if l.len() > 0 {
            l
        } else {
            nearest_anchors(dirs.skip(1), items, naming)
        }
    }
}

/// The keys and lists of an index hold exactly `content`: a key is present when its content
/// is not empty, each present key has a list of its own, and that list holds the content.
pub open spec fn index_holds(
    keys: Map<Seq<char>, usize>,
    lists: Seq<Vec<MusicImageAnchor>>,
    content: spec_fn(Seq<char>) -> Seq<AnchorView>,
) -> bool {
    &&& forall|key: Seq<char>| #[trigger] keys.contains_key(key) <==> content(key).len() > 0
    &&& forall|key: Seq<char>| #[trigger]
        keys.contains_key(key) ==> keys[key] < lists.len() && anchor_views(lists[keys[key] as int]@)
            == content(key)
    &&& forall|k1: Seq<char>, k2: Seq<char>|
        #![trigger keys[k1], keys[k2]]
        keys.contains_key(k1) && keys.contains_key(k2) && k1 != k2 ==> keys[k1] != keys[k2]
}

/// The directory index after the items of `s`.
pub open spec fn index_content(s: Seq<PlanItem>, naming: NamingRules) -> spec_fn(Seq<char>) -> Seq<
    AnchorView,
> {
    |key: Seq<char>| anchors_at(s, key, naming)
}

/// The directories above `dir` and `dir` itself, nearest first; none for no directory.
pub open spec fn walk_from(dir: Option<String>) -> Seq<Seq<char>> {
    match dir {
        Some(d) => seq![d@] + ancestors(d@),
        None => Seq::<Seq<char>>::empty(),
    }
}

fn parent_walk(p: &str) -> (r: Option<String>)
    ensures
        walk_from(r) == ancestors(p@),
{
    let r = parent_of(p);
    r
}

/// Records the anchor of `it` (if it leaves one) under each directory above its source.
pub fn record_item_anchors(
    keys: &mut StringHashMap<usize>,
    lists: &mut Vec<Vec<MusicImageAnchor>>,
    it: &PlanItem,
    naming: &NamingRules,
    Ghost(prev): Ghost<Seq<PlanItem>>,
)
    requires
        index_holds(old(keys)@, old(lists)@, index_content(prev, *naming)),
    ensures
        index_holds(final(keys)@, final(lists)@, index_content(prev.push(*it), *naming)),
{
    assert forall|key: Seq<char>| anchors_at(prev.push(*it), key, *naming) == anchors_at(
        prev,
        key,
        *naming,
    ) + item_anchors_at(*it, key, *naming) by {
        assert(prev.push(*it).drop_last() =~= prev);
    }
    if it.file.kind != FileKind::Music {
        assert forall|key: Seq<char>| anchors_at(prev.push(*it), key, *naming) == anchors_at(
            prev,
            key,
            *naming,
        ) by {
            assert(anchors_at(prev, key, *naming) + item_anchors_at(*it, key, *naming) =~= anchors_at(prev, key, *naming));
        }
        assert(index_content(prev.push(*it), *naming) =~= index_content(prev, *naming));
        return;
    }
    let target = match &it.target {
        Some(t) => t,
        None => {
            assert forall|key: Seq<char>| anchors_at(prev.push(*it), key, *naming) == anchors_at(
                prev,
                key,
                *naming,
            ) by {
                assert(anchors_at(prev, key, *naming) + item_anchors_at(*it, key, *naming) =~= anchors_at(prev, key, *naming));
            }
            assert(index_content(prev.push(*it), *naming) =~= index_content(prev, *naming));
            return;
        },
    };
    let dir = match parent_of(target.as_str()) {
        Some(d) => d,
        None => {
            assert forall|key: Seq<char>| anchors_at(prev.push(*it), key, *naming) == anchors_at(
                prev,
                key,
                *naming,
            ) by {
                assert(anchors_at(prev, key, *naming) + item_anchors_at(*it, key, *naming) =~= anchors_at(prev, key, *naming));
            }
            assert(index_content(prev.push(*it), *naming) =~= index_content(prev, *naming));
            return;
        },
    };
    let disc = disc_parent_for_music_item(dir.as_str(), &it.file, naming);
    let anchor = MusicImageAnchor { target_directory: dir, disc_parent: disc, music_item_id: it.id };
    assert(item_anchor(*it, *naming) == Some(anchor@));
    let ghost a = anchor@;
    let ghost all = ancestors(it.file.path@);
    let ghost before = index_content(prev, *naming);
    let ghost after = index_content(prev.push(*it), *naming);
    let mut cur = parent_walk(it.file.path.as_str());
    loop
        invariant
            a == anchor@,
            all == ancestors(it.file.path@),
            forall|key: Seq<char>| #[trigger] matching(walk_from(cur), key) <= matching(all, key),
            index_holds(
                keys@,
                lists@,
                |key: Seq<char>|
                    before(key) + Seq::new(
                        (matching(all, key) - matching(walk_from(cur), key)) as nat,
                        |_i: int| a,
                    ),
            ),
            forall|key: Seq<char>|
                #[trigger] after(key) == before(key) + Seq::new(matching(all, key), |_i: int| a),
        ensures
            cur is None,
            index_holds(
                keys@,
                lists@,
                |key: Seq<char>|
                    before(key) + Seq::new(
                        (matching(all, key) - matching(walk_from(cur), key)) as nat,
                        |_i: int| a,
                    ),
            ),
        decreases
                (match cur {
                    Some(d) => d@.len() + 1,
                    None => 0,
                }),
    {
        let ghost old_walk = walk_from(cur);
        let d = match cur {
            Some(d) => d,
            None => break,
        };
        let ghost rest = ancestors(d@);
        assert(old_walk == seq![d@] + rest);
        let ghost content = |key: Seq<char>|
            before(key) + Seq::new(
                (matching(all, key) - matching(seq![d@] + rest, key)) as nat,
                |_i: int| a,
            );
        let key = normal_form(d.as_str());
        assert((seq![d@] + rest)[0] == d@);
        assert((seq![d@] + rest).skip(1) =~= rest);
        assert forall|k: Seq<char>| #[trigger] matching(seq![d@] + rest, k) == (if path_normal_form(d@)
            == k {
            1nat
        } else {
            0nat
        }) + matching(rest, k) by {
            assert((seq![d@] + rest)[0] == d@);
            assert((seq![d@] + rest).skip(1) =~= rest);
        }
        let ghost next = |k: Seq<char>|
            before(k) + Seq::new((matching(all, k) - matching(rest, k)) as nat, |_i: int| a);
        assert forall|k: Seq<char>| k != key@ implies #[trigger] next(k) == content(k) by {}
        assert(next(key@) =~= content(key@).push(a));
        match keys.get(key.as_str()) {
            Some(index) => {
                let idx = *index;
                let ghost old_lists = lists@;
                lists[idx].push(copy_anchor(&anchor));
                assert(anchor_views(lists@[idx as int]@) =~= anchor_views(old_lists[idx as int]@).push(a));
                assert(index_holds(keys@, lists@, next)) by {
                    assert forall|k: Seq<char>| #[trigger] keys@.contains_key(k) implies keys@[k]
                        < lists@.len() && anchor_views(lists@[keys@[k] as int]@) == next(k) by {
                        if k != key@ {
                            assert(keys@[k] != idx);
                            assert(lists@[keys@[k] as int] == old_lists[keys@[k] as int]);
                        }
                    }
                }
            },
            None => {
                let idx = lists.len();
                let mut fresh: Vec<MusicImageAnchor> = Vec::new();
                fresh.push(copy_anchor(&anchor));
                assert(content(key@).len() == 0);
                assert(anchor_views(fresh@) =~= next(key@));
                let ghost old_lists = lists@;
                let ghost old_keys = keys@;
                lists.push(fresh);
                keys.insert(key, idx);
                assert(index_holds(keys@, lists@, next)) by {
                    assert forall|k: Seq<char>| #[trigger] keys@.contains_key(k) implies keys@[k]
                        < lists@.len() && anchor_views(lists@[keys@[k] as int]@) == next(k) by {
                        if k != key@ {
                            assert(old_keys.contains_key(k));
                            assert(lists@[keys@[k] as int] == old_lists[keys@[k] as int]);
                        }
                    }
                    assert forall|k1: Seq<char>, k2: Seq<char>|
                        keys@.contains_key(k1) && keys@.contains_key(k2) && k1 != k2 implies #[trigger] keys@[k1]
                        != #[trigger] keys@[k2] by {
                        if k1 != key@ && k2 != key@ {
                            assert(old_keys[k1] != old_keys[k2]);
                        }
                    }
                }
            },
        }
        cur = parent_walk(d.as_str());
        assert(walk_from(cur) == rest);
        assert forall|k: Seq<char>| #[trigger] matching(walk_from(cur), k) <= matching(all, k) by {
            assert(matching(old_walk, k) <= matching(all, k));
            assert(matching(seq![d@] + rest, k) >= matching(rest, k));
        }
    }
    assert forall|key: Seq<char>| #[trigger] matching(walk_from(cur), key) == 0 by {}
    assert(index_holds(keys@, lists@, after)) by {
        assert forall|key: Seq<char>|
            (before(key) + Seq::new(
                (matching(all, key) - matching(walk_from(cur), key)) as nat,
                |_i: int| a,
            )) == after(key) by {
            assert(matching(walk_from(cur), key) == 0);
        }
    }
}

/// The anchors of the nearest directory above `path` that has any (see `nearest_anchors`).
pub fn nearest_anchor_list(
    keys: &StringHashMap<usize>,
    lists: &Vec<Vec<MusicImageAnchor>>,
    path: &str,
    Ghost(items): Ghost<Seq<PlanItem>>,
    naming: &NamingRules,
) -> (r: Vec<MusicImageAnchor>)
    requires
        index_holds(keys@, lists@, index_content(items, *naming)),
    ensures
        anchor_views(r@) == nearest_anchors(ancestors(path@), items, *naming),
{
    let mut cur = parent_walk(path);
    loop
        invariant
            index_holds(keys@, lists@, index_content(items, *naming)),
            nearest_anchors(walk_from(cur), items, *naming) == nearest_anchors(
                ancestors(path@),
                items,
                *naming,
            ),
        decreases
                (match cur {
                    Some(d) => d@.len() + 1,
                    None => 0,
                }),
    {
        let d = match cur {
            Some(d) => d,
            None => {
                return Vec::new();
            },
        };
        let key = normal_form(d.as_str());
        let ghost walk = seq![d@] + ancestors(d@);
        assert(walk[0] == d@);
        assert(walk.skip(1) =~= ancestors(d@));
        match keys.get(key.as_str()) {
            Some(index) => {
                return copy_anchors(&lists[*index]);
            },
            None => {},
        }
        cur = parent_walk(d.as_str());
    }
}

} // verus!
