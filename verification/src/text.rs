//! Text primitives: searching, splitting and rewriting strings, specified over
//! sequences of characters (and, for offsets, over sequences of bytes).

use vstd::prelude::*;
use vstd::string::*;

verus! {

/// `needle` sits in `hay` at offset `at`.
pub open spec fn occurs_at<T>(hay: Seq<T>, needle: Seq<T>, at: int) -> bool {
    &&& 0 <= at
    &&& at + needle.len() <= hay.len()
    &&& hay.subrange(at, at + needle.len()) == needle
}

/// `needle` sits somewhere in `hay`.
pub open spec fn occurs<T>(hay: Seq<T>, needle: Seq<T>) -> bool {
    exists|at: int| occurs_at(hay, needle, at)
}

/// The least offset at or after `from` at which `needle` sits in `hay`.
pub open spec fn find_from<T>(hay: Seq<T>, needle: Seq<T>, from: int) -> Option<int>
    decreases hay.len() - from + 1,
{
    if from < 0 || from + needle.len() > hay.len() {
        None
    } else if occurs_at(hay, needle, from) {
        Some(from)
    } else {
        find_from(hay, needle, from + 1)
    }
}

/// `find_from` returns an occurrence at or after `from` that no other
/// occurrence at or after `from` precedes, and `None` only when there is none.
pub proof fn lemma_find_from<T>(hay: Seq<T>, needle: Seq<T>, from: int)
    requires
        0 <= from,
    ensures
        match find_from(hay, needle, from) {
            Some(at) => {
                &&& from <= at
                &&& occurs_at(hay, needle, at)
                &&& forall|k: int| from <= k < at ==> !occurs_at(hay, needle, k)
            },
            None => forall|k: int| from <= k ==> !occurs_at(hay, needle, k),
        },
    decreases hay.len() - from + 1,
{
    if from + needle.len() > hay.len() {
    } else if occurs_at(hay, needle, from) {
    } else {
        lemma_find_from(hay, needle, from + 1);
    }
}

/// The characters of `s`, in order.
pub fn chars_of(s: &str) -> (v: Vec<char>)
    ensures
        v@ == s@,
{
    let mut v: Vec<char> = Vec::new();
    for c in it: s.chars()
        invariant
            v@ == it.seq().take(it.index() as int),
            it.seq() == s@,
    {
        v.push(c);
    }
    v
}

fn chars_match_at(hay: &Vec<char>, needle: &Vec<char>, at: usize) -> (r: bool)
    requires
        at + needle@.len() <= hay@.len(),
    ensures
        r == occurs_at(hay@, needle@, at as int),
{
    let n = needle.len();
    let h = hay.len();
    let mut i: usize = 0;
    while i < n
        invariant
            n == needle@.len(),
            h == hay@.len(),
            at + n <= hay@.len(),
            i <= n,
            forall|k: int| 0 <= k < i ==> hay@[at + k] == needle@[k],
        decreases n - i,
    {
        if hay[at + i] != needle[i] {
            assert(hay@.subrange(at as int, at + n)[i as int] != needle@[i as int]);
            return false;
        }
        i = i + 1;
    }
    assert(hay@.subrange(at as int, at + n) =~= needle@);
    true
}

fn bytes_match_at(hay: &[u8], needle: &[u8], at: usize) -> (r: bool)
    requires
        at + needle@.len() <= hay@.len(),
    ensures
        r == occurs_at(hay@, needle@, at as int),
{
    let n = needle.len();
    let h = hay.len();
    let mut i: usize = 0;
    while i < n
        invariant
            n == needle@.len(),
            h == hay@.len(),
            at + n <= hay@.len(),
            i <= n,
            forall|k: int| 0 <= k < i ==> hay@[at + k] == needle@[k],
        decreases n - i,
    {
        if hay[at + i] != needle[i] {
            assert(hay@.subrange(at as int, at + n)[i as int] != needle@[i as int]);
            return false;
        }
        i = i + 1;
    }
    assert(hay@.subrange(at as int, at + n) =~= needle@);
    true
}

/// The least offset at or after `from` at which `needle` sits in `hay`.
pub fn find_chars(hay: &Vec<char>, needle: &Vec<char>, from: usize) -> (r: Option<usize>)
    ensures
        r matches Some(at) ==> find_from(hay@, needle@, from as int) == Some(at as int),
        r is None ==> find_from(hay@, needle@, from as int) is None,
{
    let h = hay.len();
    let n = needle.len();
    if n > h {
        return None;
    }
    let last = h - n;
    let mut at = from;
    loop
        invariant
            h == hay@.len(),
            n == needle@.len(),
            last == h - n,
            from <= at,
            find_from(hay@, needle@, from as int) == find_from(hay@, needle@, at as int),
        decreases last + 1 - at,
    {
        if at > last {
            return None;
        }
        if chars_match_at(hay, needle, at) {
            return Some(at);
        }
        if at == last {
            assert(find_from(hay@, needle@, at + 1) is None);
            return None;
        }
        at = at + 1;
    }
}

/// The least offset at or after `from` at which the bytes `needle` sit in `hay`.
pub fn find_bytes(hay: &[u8], needle: &[u8], from: usize) -> (r: Option<usize>)
    ensures
        r matches Some(at) ==> find_from(hay@, needle@, from as int) == Some(at as int),
        r is None ==> find_from(hay@, needle@, from as int) is None,
{
    let h = hay.len();
    let n = needle.len();
    if n > h {
        return None;
    }
    let last = h - n;
    let mut at = from;
    loop
        invariant
            h == hay@.len(),
            n == needle@.len(),
            last == h - n,
            from <= at,
            find_from(hay@, needle@, from as int) == find_from(hay@, needle@, at as int),
        decreases last + 1 - at,
    {
        if at > last {
            return None;
        }
        if bytes_match_at(hay, needle, at) {
            return Some(at);
        }
        if at == last {
            assert(find_from(hay@, needle@, at + 1) is None);
            return None;
        }
        at = at + 1;
    }
}

/// Whether `s` begins with `prefix`.
pub fn starts_with(s: &str, prefix: &str) -> (r: bool)
    ensures
        r == prefix@.is_prefix_of(s@),
{
    let sv = chars_of(s);
    let pv = chars_of(prefix);
    if pv.len() > sv.len() {
        return false;
    }
    chars_match_at(&sv, &pv, 0)
}

/// Whether `needle` sits somewhere in `s`.
pub fn contains(s: &str, needle: &str) -> (r: bool)
    ensures
        r == occurs(s@, needle@),
{
    let sv = chars_of(s);
    let nv = chars_of(needle);
    proof {
        lemma_find_from(s@, needle@, 0);
    }
    match find_chars(&sv, &nv, 0) {
        Some(at) => {
            true
        },
        None => {
            assert forall|k: int| !occurs_at(s@, needle@, k) by {}
            false
        },
    }
}

/// Whether `a` and `b` hold the same characters.
pub fn same_text(a: &str, b: &str) -> (r: bool)
    ensures
        r == (a@ == b@),
{
    let av = chars_of(a);
    let bv = chars_of(b);
    if av.len() != bv.len() {
        return false;
    }
    let r = chars_match_at(&av, &bv, 0);
    proof {
        assert(a@.subrange(0, a@.len() as int) =~= a@);
    }
    r
}

/// `s` without its first `n` characters.
pub fn skip_chars(s: &str, n: usize) -> (r: &str)
    requires
        n <= s@.len(),
    ensures
        r@ == s@.skip(n as int),
{
    let len = s.unicode_len();
    s.substring_char(n, len)
}

/// What is left of `s` behind `prefix`, if `s` begins with it.
pub open spec fn strip_prefix_spec(s: Seq<char>, prefix: Seq<char>) -> Option<Seq<char>> {
    if prefix.is_prefix_of(s) {
        Some(s.skip(prefix.len() as int))
    } else {
        None
    }
}

/// What is left of `s` behind `prefix`, if `s` begins with it.
pub fn strip_prefix<'a>(s: &'a str, prefix: &str) -> (r: Option<&'a str>)
    ensures
        match r {
            Some(rest) => strip_prefix_spec(s@, prefix@) == Some(rest@),
            None => strip_prefix_spec(s@, prefix@) is None,
        },
{
    let sv = chars_of(s);
    let pv = chars_of(prefix);
    if pv.len() > sv.len() {
        return None;
    }
    if chars_match_at(&sv, &pv, 0) {
        Some(skip_chars(s, pv.len()))
    } else {
        None
    }
}

/// The characters of `s` from index `from` up to, not including, `to`.
pub fn slice_chars(s: &str, from: usize, to: usize) -> (r: &str)
    requires
        from <= to <= s@.len(),
    ensures
        r@ == s@.subrange(from as int, to as int),
{
    s.substring_char(from, to)
}

/// Searching in what is left of `hay` behind its first `k` elements finds
/// what searching in `hay` from `k` on finds, `k` places earlier.
pub proof fn lemma_find_from_skip<T>(hay: Seq<T>, needle: Seq<T>, from: int, k: int)
    requires
        0 <= from,
        0 <= k <= hay.len(),
    ensures
        find_from(hay.skip(k), needle, from) == match find_from(hay, needle, from + k) {
            Some(at) => Some(at - k),
            None => None::<int>,
        },
    decreases hay.len() - k - from + 1,
{
    let rest = hay.skip(k);
    if from + needle.len() > rest.len() {
    } else {
        assert(rest.subrange(from, from + needle.len()) =~= hay.subrange(
            from + k,
            from + k + needle.len(),
        ));
        if occurs_at(rest, needle, from) {
        } else {
            lemma_find_from_skip(hay, needle, from + 1, k);
        }
    }
}

/// The two parts of `s` around the first `c` in it, if there is one.
pub open spec fn split_once_spec(s: Seq<char>, c: char) -> Option<(Seq<char>, Seq<char>)> {
    match find_from(s, seq![c], 0) {
        Some(at) => Some((s.take(at), s.skip(at + 1))),
        None => None,
    }
}

/// The two parts of `s` around the first `c` in it, if there is one.
pub fn split_once<'a>(s: &'a str, c: char) -> (r: Option<(&'a str, &'a str)>)
    ensures
        match r {
            Some((head, tail)) => split_once_spec(s@, c) == Some((head@, tail@)),
            None => split_once_spec(s@, c) is None,
        },
{
    let sv = chars_of(s);
    let mut needle: Vec<char> = Vec::new();
    needle.push(c);
    assert(needle@ =~= seq![c]);
    proof {
        lemma_find_from(s@, seq![c], 0);
    }
    match find_chars(&sv, &needle, 0) {
        Some(at) => {
            let len = sv.len();
            assert(occurs_at(s@, seq![c], at as int));
            assert(seq![c].len() == 1);
            let head = slice_chars(s, 0, at);
            let tail = slice_chars(s, at + 1, len);
            assert(head@ =~= s@.take(at as int));
            assert(tail@ =~= s@.skip(at + 1));
            Some((head, tail))
        },
        None => None,
    }
}

/// The parts of `s` between the occurrences of `c`, in order: one more
/// part than there are occurrences.
pub open spec fn split_spec(s: Seq<char>, c: char) -> Seq<Seq<char>>
    decreases s.len(),
{
    match find_from(s, seq![c], 0) {
        Some(at) => if 0 <= at < s.len() {
            seq![s.take(at)] + split_spec(s.skip(at + 1), c)
        } else {
            seq![s]
        },
        None => seq![s],
    }
}

/// The texts of borrowed strings.
pub open spec fn str_views(parts: Seq<&str>) -> Seq<Seq<char>> {
    parts.map_values(|p: &str| p@)
}

/// The parts of `s` between the occurrences of `c`, in order.
pub fn split_on<'a>(s: &'a str, c: char) -> (r: Vec<&'a str>)
    ensures
        str_views(r@) == split_spec(s@, c),
{
    let sv = chars_of(s);
    let len = sv.len();
    let mut needle: Vec<char> = Vec::new();
    needle.push(c);
    assert(needle@ =~= seq![c]);
    let mut parts: Vec<&'a str> = Vec::new();
    let mut pos: usize = 0;
    assert(s@.skip(0) =~= s@);
    assert(str_views(parts@) + split_spec(s@, c) =~= split_spec(s@, c));
    loop
        invariant
            sv@ == s@,
            len == s@.len(),
            needle@ == seq![c],
            pos <= len,
            split_spec(s@, c) == str_views(parts@) + split_spec(s@.skip(pos as int), c),
        decreases len - pos,
    {
        let ghost before = str_views(parts@);
        let ghost rest = s@.skip(pos as int);
        proof {
            lemma_find_from(s@, seq![c], pos as int);
            lemma_find_from_skip(s@, seq![c], 0, pos as int);
        }
        match find_chars(&sv, &needle, pos) {
            Some(at) => {
                let part = slice_chars(s, pos, at);
                parts.push(part);
                proof {
                    assert(part@ =~= rest.take(at - pos));
                    assert(rest.skip(at - pos + 1) =~= s@.skip(at + 1));
                    assert(str_views(parts@) =~= before.push(part@));
                    lemma_concat_assoc(before, seq![part@], split_spec(s@.skip(at + 1), c));
                    assert(before + seq![part@] =~= before.push(part@));
                }
                pos = at + 1;
            },
            None => {
                let part = slice_chars(s, pos, len);
                parts.push(part);
                proof {
                    assert(part@ =~= rest);
                    assert(str_views(parts@) =~= before.push(part@));
                    assert(before + seq![rest] =~= before.push(rest));
                }
                return parts;
            },
        }
    }
}

/// Concatenation does not depend on how it is grouped.
pub proof fn lemma_concat_assoc<T>(a: Seq<T>, b: Seq<T>, c: Seq<T>)
    ensures
        (a + b) + c == a + (b + c),
{
    assert((a + b) + c =~= a + (b + c));
}

/// `to` behind every character of `s`.
pub open spec fn follow_each(s: Seq<char>, to: Seq<char>) -> Seq<char>
    decreases s.len(),
{
    if s.len() == 0 {
        Seq::empty()
    } else {
        seq![s[0]] + to + follow_each(s.skip(1), to)
    }
}

/// `s` with every occurrence of `from` replaced by `to`, the occurrences
/// taken from the left and not overlapping. An empty `from` occurs before
/// every character and at the end.
pub open spec fn replace_spec(s: Seq<char>, from: Seq<char>, to: Seq<char>) -> Seq<char>
    decreases s.len(),
{
    if from.len() == 0 {
        to + follow_each(s, to)
    } else {
        match find_from(s, from, 0) {
            Some(at) => if 0 <= at && at + from.len() <= s.len() {
                s.take(at) + to + replace_spec(s.skip(at + from.len()), from, to)
            } else {
                s
            },
            None => s,
        }
    }
}

/// `s` with every occurrence of `from` replaced by `to`.
pub fn replace(s: &str, from: &str, to: &str) -> (r: String)
    ensures
        r@ == replace_spec(s@, from@, to@),
{
    let sv = chars_of(s);
    let fv = chars_of(from);
    let len = sv.len();
    let n = fv.len();
    let mut out = String::from_str("");
    proof {
        reveal_strlit("");
        assert(out@ =~= Seq::<char>::empty());
    }
    let mut pos: usize = 0;
    assert(s@.skip(0) =~= s@);
    if n == 0 {
        out.append(to);
        assert(out@ =~= to@);
        while pos < len
            invariant
                len == s@.len(),
                pos <= len,
                to@ + follow_each(s@, to@) == out@ + follow_each(s@.skip(pos as int), to@),
            decreases len - pos,
        {
            let ghost before = out@;
            let ghost rest = s@.skip(pos as int);
            out.append(slice_chars(s, pos, pos + 1));
            out.append(to);
            proof {
                assert(s@.subrange(pos as int, pos + 1) =~= seq![rest[0]]);
                assert(rest.skip(1) =~= s@.skip(pos + 1));
                assert(out@ =~= before + (seq![rest[0]] + to@));
                lemma_concat_assoc(before, seq![rest[0]] + to@, follow_each(rest.skip(1), to@));
                lemma_concat_assoc(seq![rest[0]], to@, follow_each(rest.skip(1), to@));
            }
            pos = pos + 1;
        }
        assert(out@ + follow_each(s@.skip(pos as int), to@) =~= out@);
        return out;
    }
    assert(out@ + replace_spec(s@, from@, to@) =~= replace_spec(s@, from@, to@));
    loop
        invariant
            sv@ == s@,
            fv@ == from@,
            len == s@.len(),
            n == from@.len(),
            n > 0,
            pos <= len,
            replace_spec(s@, from@, to@) == out@ + replace_spec(s@.skip(pos as int), from@, to@),
        decreases len - pos,
    {
        let ghost before = out@;
        let ghost rest = s@.skip(pos as int);
        proof {
            lemma_find_from(s@, from@, pos as int);
            lemma_find_from_skip(s@, from@, 0, pos as int);
        }
        match find_chars(&sv, &fv, pos) {
            Some(at) => {
                out.append(slice_chars(s, pos, at));
                out.append(to);
                proof {
                    assert(s@.subrange(pos as int, at as int) =~= rest.take(at - pos));
                    assert(rest.skip(at - pos + n) =~= s@.skip(at + n));
                    let tail = replace_spec(s@.skip(at + n), from@, to@);
                    assert(out@ =~= before + (rest.take(at - pos) + to@));
                    lemma_concat_assoc(before, rest.take(at - pos) + to@, tail);
                }
                pos = at + n;
            },
            None => {
                out.append(slice_chars(s, pos, len));
                proof {
                    assert(s@.subrange(pos as int, len as int) =~= rest);
                }
                return out;
            },
        }
    }
}

/// The texts of a list of strings.
pub open spec fn texts(lines: Seq<String>) -> Seq<Seq<char>> {
    lines.map_values(|line: String| line@)
}

/// Whether `item` is among `items`.
pub open spec fn among(items: Seq<Seq<char>>, item: Seq<char>) -> bool {
    exists|k: int| 0 <= k < items.len() && #[trigger] items[k] == item
}

/// Whether a string with the text of `item` is among `items`.
pub fn contains_text(items: &Vec<String>, item: &str) -> (r: bool)
    ensures
        r == among(texts(items@), item@),
{
    let mut k: usize = 0;
    while k < items.len()
        invariant
            k <= items.len(),
            forall|j: int| 0 <= j < k ==> #[trigger] texts(items@)[j] != item@,
        decreases items.len() - k,
    {
        if same_text(items[k].as_str(), item) {
            assert(texts(items@)[k as int] == item@);
            return true;
        }
        k = k + 1;
    }
    false
}

/// The parts with `separator` between each two of them.
pub open spec fn join_spec(parts: Seq<Seq<char>>, separator: Seq<char>) -> Seq<char>
    decreases parts.len(),
{
    if parts.len() == 0 {
        Seq::empty()
    } else if parts.len() == 1 {
        parts[0]
    } else {
        join_spec(parts.drop_last(), separator) + separator + parts.last()
    }
}

/// The parts with `separator` between each two of them.
pub fn join(parts: &Vec<String>, separator: &str) -> (r: String)
    ensures
        r@ == join_spec(texts(parts@), separator@),
{
    let ghost all = texts(parts@);
    let mut out = String::from_str("");
    proof {
        reveal_strlit("");
        assert(out@ =~= Seq::<char>::empty());
        assert(all.take(0) =~= Seq::<Seq<char>>::empty());
    }
    let mut i: usize = 0;
    while i < parts.len()
        invariant
            i <= parts.len(),
            all == texts(parts@),
            out@ == join_spec(all.take(i as int), separator@),
        decreases parts.len() - i,
    {
        proof {
            assert(all.take(i + 1).drop_last() =~= all.take(i as int));
            assert(all.take(i + 1).last() == parts@[i as int]@);
            assert(all.take(i + 1)[0] == all[0]);
        }
        if i > 0 {
            out.append(separator);
        }
        out.append(parts[i].as_str());
        proof {
            if i == 0 {
                assert(out@ =~= parts@[0]@);
            }
        }
        i = i + 1;
    }
    assert(all.take(i as int) =~= all);
    out
}

} // verus!
