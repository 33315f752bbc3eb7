//! The comparison key under which Windows treats two target paths as the same.

use vstd::prelude::*;
use crate::text::{
    append_chars, ascii_lower, ascii_lowercase, chars_of, is_space_or_dot, string_of, sub_chars,
    trim_end_by, trim_end_space_dot, trimmed_end_len,
};

verus! {

/// What `str::to_lowercase` gives for a text (full Unicode lower-casing).
pub uninterp spec fn lowercase(s: Seq<char>) -> Seq<char>;

/// Every character is ASCII.
pub open spec fn ascii_text(s: Seq<char>) -> bool {
    forall|i: int| 0 <= i < s.len() ==> (s[i] as u32) < 128
}

/// Calls `str::to_lowercase`; its result is named `lowercase` of the argument's characters.
/// On ASCII text, Unicode lower-casing maps `A`..`Z` to `a`..`z` and keeps every other
/// character, which is what the second clause states.
#[verifier::external_body]
pub(crate) fn to_lowercase(s: &str) -> (r: String)
    ensures
        r@ == lowercase(s@),
        ascii_text(s@) ==> r@ == ascii_lowercase(s@),
{
    s.to_lowercase()
}

/// Forward slashes read as backslashes.
pub open spec fn backslashed(s: Seq<char>) -> Seq<char> {
    s.map_values(|c: char| if c == '/' { '\\' } else { c })
}

/// The parts of `s` between backslashes, as `str::split('\\')` yields them (never empty).
pub open spec fn split_backslash(s: Seq<char>) -> Seq<Seq<char>>
    decreases s.len(),
{
    if s.len() == 0 {
        seq![Seq::<char>::empty()]
    } else {
        let p = split_backslash(s.drop_last());
        if s.last() == '\\' {
            p.push(Seq::<char>::empty())
        } else {
            p.update(p.len() - 1, p.last().push(s.last()))
        }
    }
}

/// The parts joined with backslashes, as `join("\\")` does.
pub open spec fn join_backslash(parts: Seq<Seq<char>>) -> Seq<char>
    decreases parts.len(),
{
    if parts.len() == 0 {
        Seq::<char>::empty()
    } else if parts.len() == 1 {
        parts[0]
    } else {
        join_backslash(parts.drop_last()) + seq!['\\'] + parts.last()
    }
}

/// One component of the key: trailing spaces and full stops dropped, then lower-cased.
pub open spec fn key_component(c: Seq<char>) -> Seq<char> {
    lowercase(trim_end_space_dot(c))
}

/// The comparison key of a path: separators unified to backslashes, and every component
/// stripped of trailing spaces and full stops and lower-cased.
pub open spec fn path_key(path: Seq<char>) -> Seq<char> {
    join_backslash(split_backslash(backslashed(path)).map_values(|c: Seq<char>| key_component(c)))
}

/// One component of the key of an ASCII path: trailing spaces and full stops dropped, then
/// lower-cased in the ASCII range.
pub open spec fn ascii_key_component(c: Seq<char>) -> Seq<char> {
    ascii_lowercase(trim_end_space_dot(c))
}

/// The comparison key of a path lower-cased in the ASCII range; for an ASCII path it is
/// `path_key` (see `windows_path_key`).
pub open spec fn ascii_path_key(path: Seq<char>) -> Seq<char> {
    join_backslash(split_backslash(backslashed(path)).map_values(|c: Seq<char>| ascii_key_component(c)))
}

proof fn lemma_split_lowercase(s: Seq<char>)
    ensures
        split_backslash(ascii_lowercase(s)) =~= split_backslash(s).map_values(|c: Seq<char>| ascii_lowercase(c)),
    decreases s.len(),
{
    let ls = ascii_lowercase(s);
    if s.len() == 0 {
        assert(ls =~= Seq::<char>::empty());
        assert(ascii_lowercase(Seq::<char>::empty()) =~= Seq::<char>::empty());
    } else {
        let init = s.drop_last();
        lemma_split_lowercase(init);
        lemma_split_nonempty(init);
        assert(ls.drop_last() =~= ascii_lowercase(init));
        let c = s.last();
        assert(ls.last() == ascii_lower(c));
        assert((ascii_lower(c) == '\\') == (c == '\\')) by {
            if 'A' <= c <= 'Z' {
                assert(65 <= (c as u32) <= 90);
            }
        }
        let p = split_backslash(init);
        let lp = p.map_values(|x: Seq<char>| ascii_lowercase(x));
        if c == '\\' {
            assert(ascii_lowercase(Seq::<char>::empty()) =~= Seq::<char>::empty());
            assert(split_backslash(ls) == lp.push(Seq::<char>::empty()));
            assert(split_backslash(s) == p.push(Seq::<char>::empty()));
        } else {
            assert(ascii_lowercase(p.last().push(c)) =~= ascii_lowercase(p.last()).push(ascii_lower(c)));
            assert(lp.last() == ascii_lowercase(p.last()));
            assert(split_backslash(ls) == lp.update(lp.len() - 1, lp.last().push(ascii_lower(c))));
            assert(split_backslash(s) == p.update(p.len() - 1, p.last().push(c)));
        }
    }
}

proof fn lemma_trim_lowercase(c: Seq<char>)
    ensures
        trim_end_space_dot(ascii_lowercase(c)) =~= ascii_lowercase(trim_end_space_dot(c)),
    decreases c.len(),
{
    if c.len() > 0 {
        assert(ascii_lowercase(c).drop_last() =~= ascii_lowercase(c.drop_last()));
        lemma_trim_lowercase(c.drop_last());
    }
}

proof fn lemma_lowercase_twice(c: Seq<char>)
    ensures
        ascii_lowercase(ascii_lowercase(c)) =~= ascii_lowercase(c),
{
}

/// Collision keys ignore case: an ASCII path has the key of its lower-cased form (for
/// ASCII paths `ascii_path_key` is the key, see `windows_path_key`).
pub proof fn law_key_ignores_ascii_case(p: Seq<char>)
    ensures
        ascii_path_key(ascii_lowercase(p)) == ascii_path_key(p),
{
    let b = backslashed(p);
    assert(backslashed(ascii_lowercase(p)) =~= ascii_lowercase(b));
    lemma_split_lowercase(b);
    let parts = split_backslash(b);
    let lowered = parts.map_values(|c: Seq<char>| ascii_lowercase(c));
    assert forall|k: int| 0 <= k < parts.len() implies ascii_key_component(#[trigger] lowered[k])
        == ascii_key_component(parts[k]) by {
        lemma_trim_lowercase(parts[k]);
        lemma_lowercase_twice(trim_end_space_dot(parts[k]));
    }
    assert(lowered.map_values(|c: Seq<char>| ascii_key_component(c)) =~= parts.map_values(
        |c: Seq<char>| ascii_key_component(c),
    ));
}

/// `s` holds no `c`.
pub open spec fn free_of(s: Seq<char>, c: char) -> bool {
    forall|j: int| 0 <= j < s.len() ==> s[j] != c
}

proof fn lemma_split_parts_free(s: Seq<char>, c: char)
    requires
        c == '\\' || free_of(s, c),
    ensures
        forall|k: int| 0 <= k < split_backslash(s).len() ==> free_of(#[trigger] split_backslash(s)[k], '\\'),
        free_of(s, c) ==> forall|k: int|
            0 <= k < split_backslash(s).len() ==> free_of(#[trigger] split_backslash(s)[k], c),
    decreases s.len(),
{
    if s.len() > 0 {
        let init = s.drop_last();
        assert(c == '\\' || free_of(init, c));
        lemma_split_parts_free(init, c);
        lemma_split_nonempty(init);
        let p = split_backslash(init);
        if s.last() != '\\' {
            let q = split_backslash(s);
            assert forall|k: int| 0 <= k < q.len() implies free_of(#[trigger] q[k], '\\') && (free_of(
                s,
                c,
            ) ==> free_of(q[k], c)) by {
                if k == p.len() - 1 {
                    assert(q[k] == p.last().push(s.last()));
                    assert(p.last() == p[p.len() - 1]);
                } else {
                    assert(q[k] == p[k]);
                }
            }
        } else {
            let q = split_backslash(s);
            assert forall|k: int| 0 <= k < q.len() implies free_of(#[trigger] q[k], '\\') && (free_of(
                s,
                c,
            ) ==> free_of(q[k], c)) by {
                if k < p.len() {
                    assert(q[k] == p[k]);
                }
            }
        }
    }
}

proof fn lemma_split_append_free(a: Seq<char>, b: Seq<char>)
    requires
        free_of(b, '\\'),
    ensures
        split_backslash(a + b) == split_backslash(a).update(
            split_backslash(a).len() - 1,
            split_backslash(a).last() + b,
        ),
    decreases b.len(),
{
    lemma_split_nonempty(a);
    if b.len() == 0 {
        assert(a + b =~= a);
        assert(split_backslash(a).last() + b =~= split_backslash(a).last());
        assert(split_backslash(a).update(split_backslash(a).len() - 1, split_backslash(a).last())
            =~= split_backslash(a));
    } else {
        let b0 = b.drop_last();
        lemma_split_append_free(a, b0);
        assert((a + b).drop_last() =~= a + b0);
        assert((a + b).last() == b.last());
        let p = split_backslash(a + b0);
        lemma_split_nonempty(a + b0);
        assert(p.last().push(b.last()) =~= split_backslash(a).last() + b);
        assert(split_backslash(a + b) =~= split_backslash(a).update(
            split_backslash(a).len() - 1,
            split_backslash(a).last() + b,
        ));
    }
}

proof fn lemma_split_join(parts: Seq<Seq<char>>)
    requires
        parts.len() >= 1,
        forall|k: int| 0 <= k < parts.len() ==> free_of(#[trigger] parts[k], '\\'),
    ensures
        split_backslash(join_backslash(parts)) == parts,
    decreases parts.len(),
{
    if parts.len() == 1 {
        lemma_split_append_free(Seq::<char>::empty(), parts[0]);
        assert(Seq::<char>::empty() + parts[0] =~= parts[0]);
        assert(split_backslash(parts[0]) =~= parts);
    } else {
        let init = parts.drop_last();
        lemma_split_join(init);
        let a = join_backslash(init) + seq!['\\'];
        assert(a.drop_last() =~= join_backslash(init));
        assert(split_backslash(a) == init.push(Seq::<char>::empty()));
        lemma_split_append_free(a, parts.last());
        assert(Seq::<char>::empty() + parts.last() =~= parts.last());
        assert(split_backslash(a + parts.last()) =~= parts);
    }
}

proof fn lemma_join_free(parts: Seq<Seq<char>>, c: char)
    requires
        c != '\\',
        forall|k: int| 0 <= k < parts.len() ==> free_of(#[trigger] parts[k], c),
    ensures
        free_of(join_backslash(parts), c),
    decreases parts.len(),
{
    if parts.len() > 1 {
        lemma_join_free(parts.drop_last(), c);
        assert(parts.last() == parts[parts.len() - 1]);
    }
}

proof fn lemma_trim_prefix(s: Seq<char>)
    ensures
        trim_end_space_dot(s).len() <= s.len(),
        forall|j: int| 0 <= j < trim_end_space_dot(s).len() ==> trim_end_space_dot(s)[j] == s[j],
        trim_end_space_dot(trim_end_space_dot(s)) == trim_end_space_dot(s),
    decreases s.len(),
{
    if s.len() > 0 && is_space_or_dot(s.last()) {
        let init = s.drop_last();
        lemma_trim_prefix(init);
        assert(trim_end_space_dot(s) == trim_end_space_dot(init));
        assert forall|j: int| 0 <= j < trim_end_space_dot(s).len() implies trim_end_space_dot(s)[j]
            == s[j] by {
            assert(trim_end_space_dot(init)[j] == init[j]);
        }
    } else {
        assert(trim_end_space_dot(s) == s);
        if s.len() > 0 {
            assert(trim_end_space_dot(trim_end_space_dot(s)) == trim_end_space_dot(s));
        }
    }
}

proof fn lemma_lower_keeps_separators(s: Seq<char>, c: char)
    requires
        c == '\\' || c == '/',
        free_of(s, c),
    ensures
        free_of(ascii_lowercase(s), c),
{
    assert forall|j: int| 0 <= j < s.len() implies ascii_lowercase(s)[j] != c by {
        let x = s[j];
        if 'A' <= x <= 'Z' {
            assert(65 <= (x as u32) <= 90);
        }
    }
}

/// A key is its own key: taking the comparison key of an ASCII-lower-cased key changes
/// nothing (`ascii_path_key` is the key of every ASCII path, see `windows_path_key`).
pub proof fn law_key_is_idempotent(p: Seq<char>)
    ensures
        ascii_path_key(ascii_path_key(p)) == ascii_path_key(p),
{
    let b = backslashed(p);
    assert(free_of(b, '/'));
    lemma_split_parts_free(b, '/');
    lemma_split_nonempty(b);
    let parts = split_backslash(b);
    let keys = parts.map_values(|c: Seq<char>| ascii_key_component(c));
    assert forall|k: int| 0 <= k < keys.len() implies free_of(#[trigger] keys[k], '\\') && free_of(
        keys[k],
        '/',
    ) by {
        lemma_trim_prefix(parts[k]);
        let t = trim_end_space_dot(parts[k]);
        assert(free_of(parts[k], '\\'));
        assert(free_of(parts[k], '/'));
        assert forall|j: int| 0 <= j < t.len() implies t[j] != '\\' && t[j] != '/' by {
            assert(t[j] == parts[k][j]);
        }
        lemma_lower_keeps_separators(t, '\\');
        lemma_lower_keeps_separators(t, '/');
    }
    let key = join_backslash(keys);
    lemma_join_free(keys, '/');
    assert(backslashed(key) =~= key);
    lemma_split_join(keys);
    assert forall|k: int| 0 <= k < keys.len() implies ascii_key_component(#[trigger] keys[k])
        == keys[k] by {
        let t = trim_end_space_dot(parts[k]);
        lemma_trim_prefix(parts[k]);
        lemma_trim_lowercase(t);
        lemma_lowercase_twice(t);
    }
    assert(keys.map_values(|c: Seq<char>| ascii_key_component(c)) =~= keys);
}

/// Forward slashes and backslashes separate components alike: a path has the key of its
/// backslashed form.
pub proof fn law_key_ignores_separator_style(p: Seq<char>)
    ensures
        path_key(p) == path_key(backslashed(p)),
{
    assert(backslashed(backslashed(p)) =~= backslashed(p));
}

/// Windows ignores spaces and full stops at the end of a component: adding one to a path
/// leaves its key unchanged.
pub proof fn law_key_ignores_trailing_space_or_dot(p: Seq<char>, c: char)
    requires
        c == ' ' || c == '.',
    ensures
        path_key(p.push(c)) == path_key(p),
{
    let b = backslashed(p);
    assert(backslashed(p.push(c)) =~= b.push(c));
    lemma_split_nonempty(b);
    let parts = split_backslash(b);
    let longer = split_backslash(b.push(c));
    assert(b.push(c).drop_last() =~= b);
    assert(longer == parts.update(parts.len() - 1, parts.last().push(c)));
    assert(parts.last().push(c).drop_last() =~= parts.last());
    assert(key_component(parts.last().push(c)) == key_component(parts.last()));
    assert(longer.map_values(|x: Seq<char>| key_component(x)) =~= parts.map_values(
        |x: Seq<char>| key_component(x),
    ));
}

proof fn lemma_split_nonempty(s: Seq<char>)
    ensures
        split_backslash(s).len() >= 1,
    decreases s.len(),
{
    if s.len() > 0 {
        lemma_split_nonempty(s.drop_last());
    }
}

fn component_key(current: &Vec<char>) -> (r: Vec<char>)
    ensures
        r@ == key_component(current@),
        ascii_text(current@) ==> key_component(current@) == ascii_key_component(current@),
{
    let keep = trimmed_end_len(current);
    let trimmed = sub_chars(current, 0, keep);
    let text = string_of(&trimmed);
    assert(current@.take(keep as int) =~= current@.subrange(0, keep as int));
    let lowered = to_lowercase(text.as_str());
    chars_of(lowered.as_str())
}

/// A single comparison key for Windows target collision checks and persistence.
pub fn windows_path_key(path: &str) -> (r: String)
    ensures
        r@ == path_key(path@),
        ascii_text(path@) ==> r@ == ascii_path_key(path@),
{
    let chars = chars_of(path);
    let ghost mapped = backslashed(path@);
    let ghost key = |c: Seq<char>| key_component(c);
    let mut out: Vec<char> = Vec::new();
    let mut current: Vec<char> = Vec::new();
    let mut done: usize = 0;
    let mut i: usize = 0;
    while i < chars.len()
        invariant
            i <= chars.len(),
            chars@ == path@,
            mapped == backslashed(path@),
            key == (|c: Seq<char>| key_component(c)),
            done <= i,
            split_backslash(mapped.take(i as int)).len() == done + 1,
            current@ == split_backslash(mapped.take(i as int)).last(),
            out@ == join_backslash(
                split_backslash(mapped.take(i as int)).drop_last().map_values(key),
            ),
            ascii_text(path@) ==> ascii_text(current@),
            ascii_text(path@) ==> forall|k: int|
                0 <= k < done ==> key_component(#[trigger] split_backslash(mapped.take(i as int))[k])
                    == ascii_key_component(split_backslash(mapped.take(i as int))[k]),
        decreases chars.len() - i,
    {
        let c = if chars[i] == '/' {
            '\\'
        } else {
            chars[i]
        };
        let ghost before = mapped.take(i as int);
        let ghost parts = split_backslash(before);
        assert(mapped.take(i + 1) == before.push(c));
        assert(mapped.take(i + 1).drop_last() == before);
        if c == '\\' {
            let k = component_key(&current);
            if done > 0 {
                out.push('\\');
            }
            append_chars(&mut out, &k);
            proof {
                let np = split_backslash(mapped.take(i + 1));
                assert(np == parts.push(Seq::<char>::empty()));
                assert(np.drop_last() == parts);
                let m = parts.map_values(key);
                if done > 0 {
                    assert(m.drop_last() == parts.drop_last().map_values(key));
                    assert(out@ == join_backslash(m.drop_last()) + seq!['\\'] + m.last());
                } else {
                    assert(m =~= seq![key_component(current@)]);
                }
            }
            proof {
                let np = split_backslash(mapped.take(i + 1));
                assert(np == parts.push(Seq::<char>::empty()));
                if ascii_text(path@) {
                    assert forall|k: int| 0 <= k < done + 1 implies key_component(#[trigger] np[k])
                        == ascii_key_component(np[k]) by {
                        assert(np[k] == parts[k]);
                    }
                }
            }
            current = Vec::new();
            done += 1;
        } else {
            let ghost old_current = current@;
            current.push(c);
            proof {
                let np = split_backslash(mapped.take(i + 1));
                assert(np == parts.update(parts.len() - 1, parts.last().push(c)));
                assert(np.drop_last() =~= parts.drop_last());
                if ascii_text(path@) {
                    assert((chars@[i as int] as u32) < 128);
                    assert forall|j: int| 0 <= j < current@.len() implies (current@[j] as u32) < 128 by {
                        if j < old_current.len() {
                            assert(current@[j] == old_current[j]);
                        }
                    }
                }
            }
        }
        i += 1;
    }
    assert(mapped.take(chars.len() as int) == mapped);
    let k = component_key(&current);
    if done > 0 {
        out.push('\\');
    }
    append_chars(&mut out, &k);
    proof {
        let parts = split_backslash(mapped);
        let m = parts.map_values(key);
        if done > 0 {
            assert(m.drop_last() == parts.drop_last().map_values(key));
            assert(out@ == join_backslash(m.drop_last()) + seq!['\\'] + m.last());
        } else {
            assert(m =~= seq![key_component(current@)]);
        }
        assert(path_key(path@) == join_backslash(m));
        if ascii_text(path@) {
            let am = parts.map_values(|c: Seq<char>| ascii_key_component(c));
            assert forall|k: int| 0 <= k < parts.len() implies #[trigger] m[k] == am[k] by {
                if k < done {
                } else {
                    assert(parts[k] == current@);
                }
            }
            assert(m =~= am);
        }
    }
    string_of(&out)
}

} // verus!
