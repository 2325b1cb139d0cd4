//! The target-list bookkeeping: membership, deduplicating addition,
//! removal, and the recognition of image files by their extension.

use vstd::prelude::*;

use crate::text::{eq_ignore_ascii_case, eq_ignore_case};

verus! {

/// Some element of `ts` reads as the path `p`.
pub open spec fn contains_path(ts: Seq<String>, p: Seq<char>) -> bool {
    exists|i: int| 0 <= i < ts.len() && ts[i]@ == p
}

/// The index of the first element of `ts` that reads as `p`, or `-1` when
/// none does.
pub open spec fn first_pos(ts: Seq<String>, p: Seq<char>) -> int
    decreases ts.len(),
{
    if ts.len() == 0 {
        -1
    } else if ts.first()@ == p {
        0
    } else {
        let r = first_pos(ts.drop_first(), p);
        if r < 0 {
            -1
        } else {
            r + 1
        }
    }
}

/// `first_pos` finds the first match: it is nonnegative exactly when some
/// element matches, it is then in range and matching, and no earlier
/// element matches.
pub proof fn lemma_first_pos(ts: Seq<String>, p: Seq<char>)
    ensures
        first_pos(ts, p) >= 0 <==> contains_path(ts, p),
        first_pos(ts, p) >= 0 ==> first_pos(ts, p) < ts.len() && ts[first_pos(ts, p)]@ == p,
        forall|j: int| 0 <= j < first_pos(ts, p) ==> ts[j]@ != p,
    decreases ts.len(),
{
    if ts.len() == 0 {
    } else if ts.first()@ == p {
        assert(ts[0]@ == p);
    } else {
        let rest = ts.drop_first();
        lemma_first_pos(rest, p);
        assert(forall|j: int| 0 <= j < rest.len() ==> rest[j] == ts[j + 1]);
        let r = first_pos(rest, p);
        if r >= 0 {
            assert(ts[r + 1]@ == p);
            assert forall|j: int| 0 <= j < first_pos(ts, p) implies ts[j]@ != p by {
                if j > 0 {
                    assert(rest[j - 1]@ != p);
                }
            }
        } else {
            assert forall|i: int| 0 <= i < ts.len() implies ts[i]@ != p by {
                if i > 0 {
                    assert(rest[i - 1]@ != p);
                }
            }
        }
    }
}

/// Whether some element of `targets` equals the path `p`.
pub fn contains_target(targets: &Vec<String>, p: &String) -> (r: bool)
    ensures
        r == contains_path(targets@, p@),
{
    let mut i: usize = 0;
    while i < targets.len()
        invariant
            i <= targets@.len(),
            forall|j: int| 0 <= j < i ==> targets@[j]@ != p@,
        decreases targets@.len() - i,
    {
        if targets[i] == *p {
            assert(targets@[i as int]@ == p@);
            return true;
        }
        i += 1;
    }
    false
}

/// The target list after appending, in order, those paths of `news` not
/// already present — deduplication applied at the point of modification.
pub open spec fn merge_targets(ts: Seq<String>, news: Seq<String>) -> Seq<String>
    decreases news.len(),
{
    if news.len() == 0 {
        ts
    } else {
        let prev = merge_targets(ts, news.drop_last());
        if contains_path(prev, news.last()@) {
            prev
        } else {
            prev.push(news.last())
        }
    }
}

/// Appends each path of `news` that is not already in `targets`, keeping
/// the order of `news` and suppressing duplicates.
pub fn add_new_targets(targets: &mut Vec<String>, news: &Vec<String>)
    ensures
        final(targets)@ == merge_targets(old(targets)@, news@),
{
    let ghost ts0 = targets@;
    let mut i: usize = 0;
    while i < news.len()
        invariant
            i <= news@.len(),
            targets@ == merge_targets(ts0, news@.subrange(0, i as int)),
        decreases news@.len() - i,
    {
        proof {
            let ext = news@.subrange(0, i + 1);
            assert(ext.drop_last() =~= news@.subrange(0, i as int));
            assert(ext.last() == news@[i as int]);
        }
        if !contains_target(targets, &news[i]) {
            let cp = news[i].clone();
            targets.push(cp);
        }
        i += 1;
    }
    proof {
        assert(news@.subrange(0, news@.len() as int) =~= news@);
    }
}

/// The target list with every element reading as `p` removed, the order of
/// the rest kept.
pub open spec fn remove_matching(ts: Seq<String>, p: Seq<char>) -> Seq<String>
    decreases ts.len(),
{
    if ts.len() == 0 {
        ts
    } else {
        let prev = remove_matching(ts.drop_last(), p);
        if ts.last()@ == p {
            prev
        } else {
            prev.push(ts.last())
        }
    }
}

/// Removes every element equal to the path `p`, keeping the order of the
/// rest.
pub fn remove_target(targets: &mut Vec<String>, p: &String)
    ensures
        final(targets)@ == remove_matching(old(targets)@, p@),
{
    let mut out: Vec<String> = Vec::new();
    let mut i: usize = 0;
    while i < targets.len()
        invariant
            i <= targets@.len(),
            targets@ == old(targets)@,
            out@ == remove_matching(targets@.subrange(0, i as int), p@),
        decreases targets@.len() - i,
    {
        proof {
            let ext = targets@.subrange(0, i + 1);
            assert(ext.drop_last() =~= targets@.subrange(0, i as int));
            assert(ext.last() == targets@[i as int]);
        }
        if targets[i] == *p {
        } else {
            out.push(targets[i].clone());
        }
        i += 1;
    }
    proof {
        assert(targets@.subrange(0, targets@.len() as int) =~= targets@);
    }
    *targets = out;
}

/// The target list after removing, in turn, every path in `ps`.
pub open spec fn remove_each(ts: Seq<String>, ps: Seq<String>) -> Seq<String>
    decreases ps.len(),
{
    if ps.len() == 0 {
        ts
    } else {
        remove_matching(remove_each(ts, ps.drop_last()), ps.last()@)
    }
}

/// Every element surviving `remove_matching` is an element of the input
/// and does not read as the removed path.
pub proof fn lemma_remove_matching_membership(ts: Seq<String>, p: Seq<char>)
    ensures
        forall|i: int|
            0 <= i < remove_matching(ts, p).len() ==> (#[trigger] remove_matching(ts, p)[i])@ != p
                && ts.contains(remove_matching(ts, p)[i]),
    decreases ts.len(),
{
    if ts.len() == 0 {
    } else {
        let head = ts.drop_last();
        let prev = remove_matching(head, p);
        let res = remove_matching(ts, p);
        lemma_remove_matching_membership(head, p);
        assert forall|x: String| head.contains(x) implies ts.contains(x) by {
            let j = choose|j: int| 0 <= j < head.len() && head[j] == x;
            assert(ts[j] == x);
        }
        assert(ts[ts.len() - 1] == ts.last());
        assert(ts.contains(ts.last()));
        assert forall|i: int| 0 <= i < res.len() implies (res[i])@ != p && ts.contains(
            res[i],
        ) by {
            if ts.last()@ == p {
                assert(res == prev);
                assert((prev[i])@ != p && head.contains(prev[i]));
            } else {
                assert(res == prev.push(ts.last()));
                if i < prev.len() {
                    assert(res[i] == prev[i]);
                    assert((prev[i])@ != p && head.contains(prev[i]));
                } else {
                    assert(res[i] == ts.last());
                }
            }
        }
    }
}

/// Every element surviving `remove_each` is an element of the input and
/// reads as none of the removed paths.
pub proof fn lemma_remove_each_membership(ts: Seq<String>, ps: Seq<String>)
    ensures
        forall|i: int|
            0 <= i < remove_each(ts, ps).len() ==> ts.contains(
                #[trigger] remove_each(ts, ps)[i],
            ),
        forall|i: int, k: int|
            0 <= i < remove_each(ts, ps).len() && 0 <= k < ps.len() ==> (#[trigger] remove_each(
                ts,
                ps,
            )[i])@ != (#[trigger] ps[k])@,
    decreases ps.len(),
{
    if ps.len() == 0 {
    } else {
        let front = ps.drop_last();
        let prevr = remove_each(ts, front);
        lemma_remove_each_membership(ts, front);
        lemma_remove_matching_membership(prevr, ps.last()@);
        assert(forall|k: int| 0 <= k < front.len() ==> front[k] == ps[k]);
        let res = remove_each(ts, ps);
        assert forall|i: int, k: int|
            0 <= i < res.len() && 0 <= k < ps.len() implies (res[i])@ != (ps[k])@ by {
            let x = res[i];
            assert(prevr.contains(x));
            let j = choose|j: int| 0 <= j < prevr.len() && prevr[j] == x;
            if k < ps.len() - 1 {
                assert(prevr[j]@ != front[k]@);
            }
        }
        assert forall|i: int| 0 <= i < res.len() implies ts.contains(res[i]) by {
            let x = res[i];
            assert(prevr.contains(x));
            let j = choose|j: int| 0 <= j < prevr.len() && prevr[j] == x;
            assert(ts.contains(prevr[j]));
        }
    }
}

/// Law: removing, one after the other, every path of a target list from
/// that list leaves it empty — so adding a batch of files and then
/// removing each path the addition reported gives back an empty list.
pub proof fn lemma_remove_all_returned_empties(ts: Seq<String>)
    ensures
        remove_each(ts, ts).len() == 0,
{
    lemma_remove_each_membership(ts, ts);
    let res = remove_each(ts, ts);
    if res.len() > 0 {
        let x = res[0];
        assert(ts.contains(x));
        let j = choose|j: int| 0 <= j < ts.len() && ts[j] == x;
        assert(res[0]@ != ts[j]@);
        assert(false);
    }
}

/// A path separator.
pub open spec fn is_path_sep(c: char) -> bool {
    c == '/' || c == '\\'
}

/// The index where the file name begins: just after the last separator, or
/// `0` when there is none.
pub open spec fn name_start(s: Seq<char>) -> int
    decreases s.len(),
{
    if s.len() == 0 {
        0
    } else if is_path_sep(s.last()) {
        s.len() as int
    } else {
        name_start(s.drop_last())
    }
}

/// `name_start` lands just after the last separator: it is in range, a
/// separator stands right before it when it is positive, and no separator
/// follows it.
pub proof fn lemma_name_start(s: Seq<char>)
    ensures
        0 <= name_start(s) <= s.len(),
        name_start(s) > 0 ==> is_path_sep(s[name_start(s) - 1]),
        forall|j: int| name_start(s) <= j < s.len() ==> !is_path_sep(s[j]),
    decreases s.len(),
{
    if s.len() == 0 {
    } else if is_path_sep(s.last()) {
    } else {
        let head = s.drop_last();
        lemma_name_start(head);
        assert(forall|j: int| 0 <= j < head.len() ==> head[j] == s[j]);
    }
}

/// The index of the last occurrence of `c` at an index at least `lo`, or
/// `-1` when there is none.
pub open spec fn last_index_from(s: Seq<char>, c: char, lo: int) -> int
    decreases s.len(),
{
    if s.len() == 0 {
        -1
    } else if s.len() <= lo {
        -1
    } else if s.last() == c {
        s.len() - 1
    } else {
        last_index_from(s.drop_last(), c, lo)
    }
}

/// `last_index_from` finds the last occurrence at or after `lo`: in range
/// and matching when nonnegative, and no occurrence follows it.
pub proof fn lemma_last_index_from(s: Seq<char>, c: char, lo: int)
    requires
        lo >= 0,
    ensures
        last_index_from(s, c, lo) >= 0 ==> lo <= last_index_from(s, c, lo) < s.len() && s[
            last_index_from(s, c, lo)
        ] == c,
        forall|j: int| lo <= j < s.len() && j > last_index_from(s, c, lo) ==> s[j] != c,
    decreases s.len(),
{
    if s.len() == 0 {
    } else if s.len() <= lo {
    } else if s.last() == c {
    } else {
        let head = s.drop_last();
        lemma_last_index_from(head, c, lo);
        assert(forall|j: int| 0 <= j < head.len() ==> head[j] == s[j]);
    }
}

/// The recognised image extensions.
pub open spec fn is_image_ext(e: Seq<char>) -> bool {
    ||| eq_ignore_case(e, "jpg"@)
    ||| eq_ignore_case(e, "jpeg"@)
    ||| eq_ignore_case(e, "png"@)
    ||| eq_ignore_case(e, "bmp"@)
    ||| eq_ignore_case(e, "gif"@)
    ||| eq_ignore_case(e, "webp"@)
}

/// Whether the path names an image file: its file name (the part after the
/// last separator) has an extension (the part after the last dot, that dot
/// not being the name's first character) that is a recognised image
/// extension, ignoring ASCII case.
pub open spec fn spec_is_image_file(s: Seq<char>) -> bool {
    let dot = last_index_from(s, '.', name_start(s) + 1);
    dot >= 0 && is_image_ext(s.subrange(dot + 1, s.len() as int))
}

/// Decides whether a path names an image file by its extension.
pub fn is_image_file(path: &str) -> (r: bool)
    ensures
        r == spec_is_image_file(path@),
{
    let n = path.unicode_len();
    proof {
        lemma_name_start(path@);
        lemma_last_index_from(path@, '.', name_start(path@) + 1);
    }
    let mut i: usize = n;
    let mut scanning = true;
    while scanning && i > 0
        invariant
            i <= n,
            n == path@.len(),
            forall|j: int| i <= j < n ==> !is_path_sep(path@[j]),
            !scanning ==> i > 0 && is_path_sep(path@[i - 1]),
        decreases (if scanning { i + 1 } else { 0 }),
    {
        let c = path.get_char(i - 1);
        if c == '/' || c == '\\' {
            scanning = false;
        } else {
            i -= 1;
        }
    }
    proof {
        if name_start(path@) > i {
            assert(!is_path_sep(path@[name_start(path@) - 1]));
            assert(false);
        }
        if name_start(path@) < i {
            assert(false);
        }
    }
    let mut k: usize = n;
    let mut dscan = true;
    while dscan && k > i
        invariant
            i <= k <= n,
            n == path@.len(),
            forall|j: int| k <= j < n ==> path@[j] != '.',
            !dscan ==> k > i && path@[k - 1] == '.',
        decreases (if dscan { k + 1 } else { 0 }),
    {
        let c = path.get_char(k - 1);
        if c == '.' {
            dscan = false;
        } else {
            k -= 1;
        }
    }
    let ghost dot_spec = last_index_from(path@, '.', name_start(path@) + 1);
    if dscan {
        proof {
            if dot_spec >= 0 {
                assert(path@[dot_spec] == '.');
                assert(false);
            }
        }
        return false;
    }
    if k - 1 == i {
        proof {
            if dot_spec >= 0 {
                assert(path@[dot_spec] == '.');
                assert(dot_spec >= i + 1);
                assert(false);
            }
        }
        return false;
    }
    let dot = k - 1;
    proof {
        assert(dot_spec == dot as int) by {
            if dot_spec > dot as int {
                assert(path@[dot_spec] == '.');
                assert(false);
            }
            if dot_spec < dot as int {
                assert(path@[dot as int] != '.');
                assert(false);
            }
        }
    }
    let ext = path.substring_char(dot + 1, n);
    let r = eq_ignore_ascii_case(ext, "jpg") || eq_ignore_ascii_case(ext, "jpeg")
        || eq_ignore_ascii_case(ext, "png") || eq_ignore_ascii_case(ext, "bmp")
        || eq_ignore_ascii_case(ext, "gif") || eq_ignore_ascii_case(ext, "webp");
    r
}

} // verus!
