//! Relative paths that stay below the directory they are joined to.

use crate::text;
use vstd::prelude::*;

verus! {

/// A character that parts two segments of a path, on any platform.
pub open spec fn is_separator(c: char) -> bool {
    c == '/' || c == '\\'
}

/// The segments of a path: what stands between its separators.
pub open spec fn segments(s: Seq<char>) -> Seq<Seq<char>>
    decreases s.len(),
{
    if s.len() == 0 {
        seq![Seq::empty()]
    } else {
        let before = segments(s.drop_last());
        if is_separator(s.last()) {
            before.push(Seq::empty())
        } else {
            before.drop_last().push(before.last().push(s.last()))
        }
    }
}

/// A segment that names something: neither empty nor `.`.
pub open spec fn names_something(seg: Seq<char>) -> bool {
    seg.len() > 0 && seg != "."@
}

/// The segments that name something, in order.
pub open spec fn kept_segments(s: Seq<char>) -> Seq<Seq<char>> {
    segments(s).filter(|seg: Seq<char>| names_something(seg))
}

/// One of the segments leads upwards.
pub open spec fn climbs(s: Seq<char>) -> bool {
    segments(s).contains(".."@)
}

/// The relative path that an archive entry may be written to; none for a path
/// that is anchored, climbs, holds a colon or a zero character, or names
/// nothing.
pub open spec fn sanitized(raw: Seq<char>) -> Option<Seq<char>> {
    if raw.contains('\0') || raw.contains(':') || (raw.len() > 0 && is_separator(raw[0])) || climbs(
        raw,
    ) || kept_segments(raw).len() == 0 {
        None
    } else {
        Some(text::join(kept_segments(raw), "/"@))
    }
}

/// A path that stays below any directory it is joined to: it is relative, and
/// its segments all name something and none leads upwards.
pub open spec fn safe_path(p: Seq<char>) -> bool {
    &&& p.len() > 0
    &&& !is_separator(p[0])
    &&& forall|i: int|
        0 <= i < p.len() ==> #[trigger] p[i] != '\\' && p[i] != ':' && p[i] != '\0'
    &&& forall|i: int|
        0 <= i < segments(p).len() ==> names_something(#[trigger] segments(p)[i]) && segments(p)[i]
            != ".."@
}

/// No separator stands in the text.
pub open spec fn no_separator(s: Seq<char>) -> bool {
    forall|i: int| 0 <= i < s.len() ==> !is_separator(#[trigger] s[i])
}

proof fn lemma_segments_nonempty(s: Seq<char>)
    ensures
        segments(s).len() > 0,
    decreases s.len(),
{
    if s.len() > 0 {
        lemma_segments_nonempty(s.drop_last());
    }
}

/// Every segment is made of characters of the path, none of them a separator.
proof fn lemma_segment_chars(s: Seq<char>)
    ensures
        forall|i: int, k: int|
            0 <= i < segments(s).len() && 0 <= k < segments(s)[i].len() ==> !is_separator(
                #[trigger] segments(s)[i][k],
            ) && s.contains(segments(s)[i][k]),
    decreases s.len(),
{
    if s.len() > 0 {
        let d = s.drop_last();
        lemma_segment_chars(d);
        lemma_segments_nonempty(d);
        let before = segments(d);
        assert forall|i: int, k: int|
            0 <= i < segments(s).len() && 0 <= k < segments(s)[i].len() implies !is_separator(
            #[trigger] segments(s)[i][k],
        ) && s.contains(segments(s)[i][k]) by {
            assert(s[s.len() - 1] == s.last());
            if i < before.len() - 1 {
                assert(segments(s)[i] == before[i]);
                let j = choose|j: int| 0 <= j < d.len() && d[j] == before[i][k];
                assert(s[j] == before[i][k]);
            } else if i == before.len() - 1 {
                if k < before[i].len() {
                    assert(segments(s)[i][k] == before[i][k]);
                    let j = choose|j: int| 0 <= j < d.len() && d[j] == before[i][k];
                    assert(s[j] == before[i][k]);
                }
            }
        }
    }
}

/// A segment can be put behind a path with a slash, and taken off again.
proof fn lemma_segments_extend(a: Seq<char>, seg: Seq<char>)
    requires
        no_separator(seg),
    ensures
        segments(a + "/"@ + seg) == segments(a).push(seg),
    decreases seg.len(),
{
    reveal_strlit("/");
    let s = a + "/"@ + seg;
    if seg.len() == 0 {
        assert(s.drop_last() =~= a);
        assert(s.last() == '/');
        assert(seg =~= Seq::<char>::empty());
        assert(segments(s) =~= segments(a).push(seg));
    } else {
        let t = seg.drop_last();
        assert forall|i: int| 0 <= i < t.len() implies !is_separator(#[trigger] t[i]) by {
            assert(t[i] == seg[i]);
        }
        lemma_segments_extend(a, t);
        assert(s.drop_last() =~= a + "/"@ + t);
        assert(s.last() == seg[seg.len() - 1]);
        assert(segments(s) =~= segments(a).push(seg)) by {
            assert(t.push(seg.last()) =~= seg);
        }
    }
}

proof fn lemma_single_segment(seg: Seq<char>)
    requires
        no_separator(seg),
    ensures
        segments(seg) == seq![seg],
    decreases seg.len(),
{
    if seg.len() > 0 {
        let t = seg.drop_last();
        assert forall|i: int| 0 <= i < t.len() implies !is_separator(#[trigger] t[i]) by {
            assert(t[i] == seg[i]);
        }
        lemma_single_segment(t);
        assert(!is_separator(seg[seg.len() - 1]));
        assert(t.push(seg.last()) =~= seg);
        assert(segments(seg) =~= seq![seg]);
    } else {
        assert(seg =~= Seq::<char>::empty());
    }
}

/// Joining segments and taking the result apart gives the segments back.
proof fn lemma_segments_of_join(segs: Seq<Seq<char>>)
    requires
        segs.len() > 0,
        forall|i: int| 0 <= i < segs.len() ==> no_separator(#[trigger] segs[i]),
    ensures
        segments(text::join(segs, "/"@)) == segs,
    decreases segs.len(),
{
    if segs.len() == 1 {
        lemma_single_segment(segs[0]);
        assert(segs =~= seq![segs[0]]);
    } else {
        let d = segs.drop_last();
        assert forall|i: int| 0 <= i < d.len() implies no_separator(#[trigger] d[i]) by {
            assert(d[i] == segs[i]);
        }
        lemma_segments_of_join(d);
        lemma_segments_extend(text::join(d, "/"@), segs[segs.len() - 1]);
        assert(d.push(segs.last()) =~= segs);
    }
}

/// Every character of a join stands in one of the texts or in the separator.
proof fn lemma_join_chars(segs: Seq<Seq<char>>, sep: Seq<char>, i: int)
    requires
        0 <= i < text::join(segs, sep).len(),
    ensures
        sep.contains(text::join(segs, sep)[i]) || exists|j: int|
            0 <= j < segs.len() && (#[trigger] segs[j]).contains(text::join(segs, sep)[i]),
    decreases segs.len(),
{
    let p = text::join(segs, sep);
    if segs.len() == 1 {
        assert(segs[0].contains(p[i]));
    } else if segs.len() > 1 {
        let d = segs.drop_last();
        let q = text::join(d, sep);
        if i < q.len() {
            lemma_join_chars(d, sep, i);
            assert(p[i] == q[i]);
            if !sep.contains(q[i]) {
                let j = choose|j: int| 0 <= j < d.len() && (#[trigger] d[j]).contains(q[i]);
                assert(segs[j].contains(p[i]));
            }
        } else if i < q.len() + sep.len() {
            assert(p[i] == sep[i - q.len()]);
        } else {
            assert(p[i] == segs.last()[i - q.len() - sep.len()]);
            assert(segs[segs.len() - 1].contains(p[i]));
        }
    }
}

proof fn lemma_filter_member<A>(s: Seq<A>, pred: spec_fn(A) -> bool, i: int)
    requires
        0 <= i < s.filter(pred).len(),
    ensures
        pred(s.filter(pred)[i]),
        s.contains(s.filter(pred)[i]),
{
    s.lemma_filter_pred(pred, i);
    assert(s.filter(pred).contains(s.filter(pred)[i]));
    s.lemma_filter_contains_rev(pred, s.filter(pred)[i]);
}

/// A path that is let through is safe to join to any directory.
pub proof fn law_sanitized_paths_are_safe(raw: Seq<char>)
    requires
        sanitized(raw) is Some,
    ensures
        safe_path(sanitized(raw)->Some_0),
        segments(sanitized(raw)->Some_0) == kept_segments(raw),
{
    let p = sanitized(raw)->Some_0;
    let kept = kept_segments(raw);
    let pred = |seg: Seq<char>| names_something(seg);
    lemma_segment_chars(raw);
    reveal_strlit("/");
    assert forall|i: int| 0 <= i < kept.len() implies no_separator(#[trigger] kept[i])
        && names_something(kept[i]) && segments(raw).contains(kept[i]) by {
        lemma_filter_member(segments(raw), pred, i);
        let j = choose|j: int| 0 <= j < segments(raw).len() && segments(raw)[j] == kept[i];
        assert forall|k: int| 0 <= k < kept[i].len() implies !is_separator(#[trigger] kept[i][k]) by {
            assert(!is_separator(segments(raw)[j][k]));
        }
    }
    lemma_segments_of_join(kept);
    assert forall|i: int| 0 <= i < segments(p).len() implies names_something(
        #[trigger] segments(p)[i],
    ) && segments(p)[i] != ".."@ by {
        assert(kept[i] == segments(p)[i]);
    }
    assert forall|i: int| 0 <= i < p.len() implies #[trigger] p[i] != '\\' && p[i] != ':' && p[i]
        != '\0' by {
        lemma_join_chars(kept, "/"@, i);
        if !"/"@.contains(p[i]) {
            let j = choose|j: int| 0 <= j < kept.len() && (#[trigger] kept[j]).contains(p[i]);
            let m = choose|m: int|
                0 <= m < segments(raw).len() && segments(raw)[m] == kept[j];
            let k = choose|k: int| 0 <= k < kept[j].len() && kept[j][k] == p[i];
            assert(!is_separator(segments(raw)[m][k]) && raw.contains(segments(raw)[m][k]));
        }
    }
    lemma_join_head(kept, "/"@);
}

proof fn lemma_join_head(segs: Seq<Seq<char>>, sep: Seq<char>)
    requires
        segs.len() > 0,
        segs[0].len() > 0,
    ensures
        text::join(segs, sep).len() > 0,
        text::join(segs, sep)[0] == segs[0][0],
    decreases segs.len(),
{
    if segs.len() > 1 {
        let d = segs.drop_last();
        lemma_join_head(d, sep);
        assert(d[0] == segs[0]);
    }
}

fn split_segments(s: &[char]) -> (r: Vec<String>)
    ensures
        text::views(r@) == segments(s@),
{
    let mut done: Vec<String> = Vec::new();
    let mut cur = String::new();
    let mut i: usize = 0;
    assert(text::views(done@).push(cur@) =~= seq![Seq::<char>::empty()]);
    while i < s.len()
        invariant
            i <= s.len(),
            text::views(done@).push(cur@) == segments(s@.take(i as int)),
        decreases s.len() - i,
    {
        let ghost before = text::views(done@);
        let ghost last = cur@;
        assert(s@.take(i + 1).drop_last() =~= s@.take(i as int));
        let c = s[i];
        if c == '/' || c == '\\' {
            let mut fresh = String::new();
            std::mem::swap(&mut fresh, &mut cur);
            done.push(fresh);
            assert(text::views(done@) =~= before.push(last));
        } else {
            cur.push(c);
            assert(before.push(last).drop_last() =~= before);
        }
        assert(text::views(done@).push(cur@) =~= segments(s@.take(i + 1)));
        i += 1;
    }
    assert(s@.take(i as int) =~= s@);
    let ghost before = text::views(done@);
    let ghost last = cur@;
    done.push(cur);
    assert(text::views(done@) =~= before.push(last));
    done
}

/// The relative path that an archive entry may be written to.
pub fn sanitize_entry_path(raw: &str) -> (r: Option<String>)
    ensures
        text::opt_view(r) == sanitized(raw@),
        r is Some ==> safe_path(r->Some_0@),
{
    let v = text::chars_of(raw);
    let len = v.len();
    let nul = text::find_char(v.as_slice(), '\0');
    let colon = text::find_char(v.as_slice(), ':');
    proof {
        text::lemma_first_at_is_first(raw@, '\0');
        text::lemma_first_at_is_first(raw@, ':');
    }
    if nul < len || colon < len {
        return None;
    }
    if len > 0 && (v[0] == '/' || v[0] == '\\') {
        return None;
    }
    let segs = split_segments(v.as_slice());
    let ghost all = segments(raw@);
    let ghost pred = |seg: Seq<char>| names_something(seg);
    let mut kept: Vec<String> = Vec::new();
    let mut i: usize = 0;
    assert(all.take(0).filter(pred) =~= Seq::<Seq<char>>::empty()) by {
        reveal(Seq::filter);
    }
    assert(text::views(kept@) =~= Seq::<Seq<char>>::empty());
    while i < segs.len()
        invariant
            i <= segs.len(),
            all == segments(raw@),
            text::views(segs@) == all,
            pred == (|seg: Seq<char>| names_something(seg)),
            text::views(kept@) == all.take(i as int).filter(pred),
            forall|j: int| 0 <= j < i ==> #[trigger] all[j] != ".."@,
        decreases segs.len() - i,
    {
        let ghost t = all.take(i + 1);
        assert(all[i as int] == segs@[i as int]@);
        assert(t.drop_last() =~= all.take(i as int));
        assert(t.last() == all[i as int]);
        proof {
            reveal(Seq::filter);
        }
        if text::same(segs[i].as_str(), "..") {
            assert(all.contains(".."@));
            return None;
        }
        if !segs[i].as_str().is_empty() && !text::same(segs[i].as_str(), ".") {
            let ghost before = text::views(kept@);
            kept.push(segs[i].clone());
            assert(text::views(kept@) =~= before.push(all[i as int]));
        }
        i += 1;
    }
    assert(all.take(i as int) =~= all);
    if kept.len() == 0 {
        return None;
    }
    proof {
        law_sanitized_paths_are_safe(raw@);
    }
    Some(text::join_of(kept.as_slice(), "/"))
}

/// The name at the end of a path.
pub open spec fn file_name(path: Seq<char>) -> Seq<char> {
    text::after_last(path, '/')
}

/// The extension of a file name: what follows its last dot, where something
/// stands in front of the dot.
pub open spec fn extension(name: Seq<char>) -> Option<Seq<char>> {
    let ext = text::after_last(name, '.');
    if ext.len() + 1 < name.len() {
        Some(ext)
    } else {
        None
    }
}

/// The extension of the file that a path names.
pub fn extension_of(path: &str) -> (r: Option<String>)
    ensures
        text::opt_view(r) == extension(file_name(path@)),
{
    let name = text::text_after_last(path, '/');
    let v = text::chars_of(name.as_str());
    let len = v.len();
    let k = text::find_past_last(v.as_slice(), '.');
    if k > 1 {
        Some(text::string_of(vstd::slice::slice_subrange(v.as_slice(), k, len)))
    } else {
        None
    }
}

/// A path below a directory.
pub open spec fn joined(dir: Seq<char>, child: Seq<char>) -> Seq<char> {
    if dir.len() == 0 || dir.last() == '/' {
        dir + child
    } else {
        dir + "/"@ + child
    }
}

/// The path of something below a directory.
pub fn join_path(dir: &str, child: &str) -> (r: String)
    ensures
        r@ == joined(dir@, child@),
{
    let v = text::chars_of(dir);
    if v.len() == 0 || v[v.len() - 1] == '/' {
        dir.to_string().concat(child)
    } else {
        dir.to_string().concat("/").concat(child)
    }
}

proof fn lemma_segments(a: Seq<char>, sep: char, b: Seq<char>)
    requires
        sep == '/' || sep == '\\',
    ensures
        segments(a).len() > 0,
        segments(a.push(sep) + b) == segments(a) + segments(b),
    decreases b.len(),
{
    lemma_segments_len(a);
    lemma_segments_len(b);
    let s = a.push(sep) + b;
    if b.len() == 0 {
        assert(s =~= a.push(sep));
        assert(s.drop_last() =~= a);
        assert(segments(s) =~= segments(a) + segments(b));
    } else {
        let d = b.drop_last();
        lemma_segments(a, sep, d);
        lemma_segments_len(d);
        assert(s.drop_last() =~= a.push(sep) + d);
        assert(s.last() == b.last());
        let before = segments(a) + segments(d);
        if is_separator(b.last()) {
            assert(segments(s) =~= segments(a) + segments(b));
        } else {
            assert(before.last() == segments(d).last());
            assert(segments(s) =~= segments(a) + segments(b));
        }
    }
}

proof fn lemma_segments_len(s: Seq<char>)
    ensures
        segments(s).len() > 0,
    decreases s.len(),
{
    if s.len() > 0 {
        lemma_segments_len(s.drop_last());
    }
}

proof fn lemma_one_segment(s: Seq<char>)
    requires
        forall|i: int| 0 <= i < s.len() ==> #[trigger] s[i] != '/' && s[i] != '\\',
    ensures
        segments(s) == seq![s],
    decreases s.len(),
{
    if s.len() > 0 {
        let d = s.drop_last();
        assert forall|i: int| 0 <= i < d.len() implies #[trigger] d[i] != '/' && d[i] != '\\' by {
            assert(d[i] == s[i]);
        }
        lemma_one_segment(d);
        assert(s[s.len() - 1] != '/');
        assert(segments(s) =~= seq![s]) by {
            assert(segments(d).last().push(s.last()) =~= s);
        }
    } else {
        assert(s =~= Seq::<char>::empty());
    }
}

/// Slashes and backslashes part a path: the segments of two paths with one
/// between them are those of the first and those of the second, and a path
/// without any is one segment.
pub proof fn law_separators_part_paths(a: Seq<char>, sep: char, b: Seq<char>)
    requires
        sep == '/' || sep == '\\',
    ensures
        segments(a.push(sep) + b) == segments(a) + segments(b),
        (forall|i: int| 0 <= i < a.len() ==> #[trigger] a[i] != '/' && a[i] != '\\') ==> segments(
            a,
        ) == seq![a],
{
    lemma_segments(a, sep, b);
    if forall|i: int| 0 <= i < a.len() ==> #[trigger] a[i] != '/' && a[i] != '\\' {
        lemma_one_segment(a);
    }
}

proof fn lemma_joined_segments(s: Seq<char>)
    requires
        forall|i: int| 0 <= i < s.len() ==> #[trigger] s[i] != '\\',
    ensures
        text::join(segments(s), "/"@) == s,
    decreases s.len(),
{
    reveal_strlit("/");
    lemma_segments_len(s);
    if s.len() == 0 {
        assert(segments(s)[0] =~= s);
    } else {
        let d = s.drop_last();
        assert forall|i: int| 0 <= i < d.len() implies #[trigger] d[i] != '\\' by {
            assert(d[i] == s[i]);
        }
        lemma_joined_segments(d);
        lemma_segments_len(d);
        let before = segments(d);
        assert(s[s.len() - 1] != '\\');
        if s.last() == '/' {
            let all = before.push(Seq::empty());
            assert(all.drop_last() =~= before);
            assert(text::join(all, "/"@) =~= s);
        } else {
            let longer = before.last().push(s.last());
            let all = before.drop_last().push(longer);
            assert(all.drop_last() =~= before.drop_last());
            assert(before.drop_last().push(before.last()) =~= before);
            if all.len() == 1 {
                assert(text::join(all, "/"@) =~= s);
            } else {
                assert(text::join(before, "/"@) == text::join(before.drop_last(), "/"@) + "/"@
                    + before.last());
                assert(all.last() == longer);
                assert(text::join(all, "/"@) == text::join(before.drop_last(), "/"@) + "/"@
                    + longer);
                assert(text::join(all, "/"@) =~= d.push(s.last()));
                assert(d.push(s.last()) =~= s);
            }
        }
    }
}

proof fn lemma_keep_all(s: Seq<Seq<char>>)
    requires
        forall|i: int| 0 <= i < s.len() ==> names_something(#[trigger] s[i]),
    ensures
        s.filter(|seg: Seq<char>| names_something(seg)) == s,
    decreases s.len(),
{
    reveal(Seq::filter);
    if s.len() > 0 {
        let d = s.drop_last();
        assert forall|i: int| 0 <= i < d.len() implies names_something(#[trigger] d[i]) by {
            assert(d[i] == s[i]);
        }
        lemma_keep_all(d);
        assert(names_something(s[s.len() - 1]));
        assert(d.push(s.last()) =~= s);
    }
}

proof fn lemma_keep_none(s: Seq<Seq<char>>)
    requires
        forall|i: int| 0 <= i < s.len() ==> !names_something(#[trigger] s[i]),
    ensures
        s.filter(|seg: Seq<char>| names_something(seg)).len() == 0,
    decreases s.len(),
{
    reveal(Seq::filter);
    if s.len() > 0 {
        let d = s.drop_last();
        assert forall|i: int| 0 <= i < d.len() implies !names_something(#[trigger] d[i]) by {
            assert(d[i] == s[i]);
        }
        lemma_keep_none(d);
        assert(!names_something(s[s.len() - 1]));
    }
}

/// A path that is safe is left as it is.
pub proof fn law_safe_paths_are_kept(p: Seq<char>)
    requires
        safe_path(p),
    ensures
        sanitized(p) == Some(p),
{
    assert(!p.contains('\0') && !p.contains(':')) by {
        if p.contains('\0') {
            let i = choose|i: int| 0 <= i < p.len() && p[i] == '\0';
            assert(p[i] != '\0');
        }
        if p.contains(':') {
            let i = choose|i: int| 0 <= i < p.len() && p[i] == ':';
            assert(p[i] != ':');
        }
    }
    assert(!climbs(p)) by {
        if climbs(p) {
            let i = choose|i: int| 0 <= i < segments(p).len() && segments(p)[i] == ".."@;
            assert(segments(p)[i] != ".."@);
        }
    }
    lemma_segments_len(p);
    lemma_keep_all(segments(p));
    assert forall|i: int| 0 <= i < p.len() implies #[trigger] p[i] != '\\' by {}
    lemma_joined_segments(p);
}

/// A path that would leave the directory is refused: one that starts at a root,
/// holds a colon or a NUL, or goes up anywhere.
pub proof fn law_paths_that_leave_are_refused(a: Seq<char>, b: Seq<char>, c: char)
    ensures
        c == ':' || c == '\0' ==> sanitized(a.push(c) + b) is None,
        c == '/' || c == '\\' ==> sanitized(seq![c] + a) is None,
        c == '/' || c == '\\' ==> sanitized((a.push(c) + ".."@).push(c) + b) is None,
        c == '/' || c == '\\' ==> sanitized(a.push(c) + ".."@) is None,
        c == '/' || c == '\\' ==> sanitized(".."@.push(c) + b) is None,
        sanitized(".."@) is None,
        sanitized(Seq::empty()) is None,
{
    reveal_strlit("..");
    if c == ':' || c == '\0' {
        assert((a.push(c) + b)[a.len() as int] == c);
        assert((a.push(c) + b).contains(c));
    }
    let up = ".."@;
    assert forall|i: int| 0 <= i < up.len() implies #[trigger] up[i] != '/' && up[i] != '\\' by {}
    lemma_one_segment(up);
    assert(seq![up][0] == up);
    if c == '/' || c == '\\' {
        assert((seq![c] + a)[0] == c);
        lemma_segments(a, c, up);
        let x = a.push(c) + up;
        assert((segments(a) + segments(up))[segments(a).len() as int] == up);
        lemma_segments(x, c, b);
        assert((segments(x) + segments(b))[segments(a).len() as int] == up);
        lemma_segments(up, c, b);
        assert((segments(up) + segments(b))[0] == up);
    }
    let none = Seq::<char>::empty();
    assert(segments(none) =~= seq![none]);
    lemma_keep_none(segments(none));
}

/// A child is put behind its directory with one slash between them.
pub proof fn law_children_lie_below_their_directory(dir: Seq<char>, child: Seq<char>)
    ensures
        dir.len() > 0 && dir.last() != '/' ==> joined(dir, child) == dir + "/"@ + child,
        dir.len() > 0 && dir.last() == '/' ==> joined(dir, child) == dir + child,
        dir.len() == 0 ==> joined(dir, child) == child,
{
    assert(Seq::<char>::empty() + child =~= child);
    if dir.len() == 0 {
        assert(dir + child =~= child);
    }
}

/// The extension of a file is what follows the last dot of its name, where the
/// name has something in front of that dot.
pub proof fn law_extensions_follow_the_last_dot(dir: Seq<char>, stem: Seq<char>, ext: Seq<char>)
    requires
        !stem.contains('/'),
        !ext.contains('/'),
        !ext.contains('.'),
    ensures
        stem.len() > 0 ==> extension(file_name(dir.push('/') + (stem.push('.') + ext))) == Some(
            ext,
        ),
        stem.len() > 0 ==> extension(file_name(stem.push('.') + ext)) == Some(ext),
        extension(file_name(seq!['.'] + ext)) is None,
        extension(file_name(ext)) is None,
{
    let name = stem.push('.') + ext;
    assert(!name.contains('/')) by {
        if name.contains('/') {
            let i = choose|i: int| 0 <= i < name.len() && name[i] == '/';
            if i < stem.len() {
                assert(stem[i] == '/');
            } else {
                assert(ext[i - stem.len() - 1] == '/');
            }
        }
    }
    text::law_after_last_is_the_rest(dir, '/', name);
    text::law_after_last_is_the_rest(stem, '.', ext);
    let hidden = seq!['.'] + ext;
    assert(!hidden.contains('/')) by {
        if hidden.contains('/') {
            let i = choose|i: int| 0 <= i < hidden.len() && hidden[i] == '/';
            assert(ext[i - 1] == '/');
        }
    }
    text::law_after_last_is_the_rest(dir, '/', hidden);
    text::law_after_last_is_the_rest(Seq::empty(), '.', ext);
    assert(Seq::<char>::empty().push('.') + ext =~= hidden);
    text::law_after_last_is_the_rest(dir, '/', ext);
}

} // verus!
