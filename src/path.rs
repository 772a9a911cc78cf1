use vstd::prelude::*;

verus! {

/// The segments of `s` between `'/'` characters, in order.
/// A string without `'/'` is one segment; `n` slashes give `n + 1` segments.
pub open spec fn split_slashes(s: Seq<char>) -> Seq<Seq<char>>
    decreases s.len(),
{
    if s.len() == 0 {
        seq![Seq::<char>::empty()]
    } else {
        let prev = split_slashes(s.drop_last());
        if s.last() == '/' {
            prev.push(Seq::<char>::empty())
        } else {
            prev.update(prev.len() - 1, prev.last().push(s.last()))
        }
    }
}

/// The segments of a request path or a route pattern: one leading `'/'` is
/// dropped, the rest is split at every `'/'`.
pub open spec fn path_segments(p: Seq<char>) -> Seq<Seq<char>> {
    if p.len() > 0 && p[0] == '/' {
        split_slashes(p.drop_first())
    } else {
        split_slashes(p)
    }
}

pub proof fn lemma_split_nonempty(s: Seq<char>)
    ensures
        split_slashes(s).len() >= 1,
    decreases s.len(),
{
    if s.len() > 0 {
        lemma_split_nonempty(s.drop_last());
    }
}

/// A string without `'/'` is a single segment.
pub proof fn lemma_split_no_slash(s: Seq<char>)
    requires
        forall|i: int| 0 <= i < s.len() ==> s[i] != '/',
    ensures
        split_slashes(s) == seq![s],
    decreases s.len(),
{
    if s.len() == 0 {
        assert(s =~= Seq::<char>::empty());
    } else {
        lemma_split_no_slash(s.drop_last());
        assert(s.drop_last().push(s.last()) =~= s);
        assert(split_slashes(s) =~= seq![s]);
    }
}

/// Splitting at a slash splits each side on its own.
pub proof fn lemma_split_concat(a: Seq<char>, b: Seq<char>)
    ensures
        split_slashes(a + seq!['/'] + b) == split_slashes(a) + split_slashes(b),
    decreases b.len(),
{
    let ab = a + seq!['/'] + b;
    if b.len() == 0 {
        assert(ab.drop_last() =~= a);
        assert(split_slashes(b) =~= seq![Seq::<char>::empty()]);
        assert(split_slashes(ab) =~= split_slashes(a) + split_slashes(b));
    } else {
        lemma_split_concat(a, b.drop_last());
        lemma_split_nonempty(a);
        lemma_split_nonempty(b.drop_last());
        assert(ab.drop_last() =~= a + seq!['/'] + b.drop_last());
        assert(ab.last() == b.last());
        assert(split_slashes(ab) =~= split_slashes(a) + split_slashes(b));
    }
}

/// What a sequence of strings holds, as sequences of characters.
pub open spec fn strings_view(v: Seq<String>) -> Seq<Seq<char>> {
    v.map_values(|x: String| x@)
}

/// Splits `path` as `path_segments` describes.
pub fn split_path(path: &str) -> (r: Vec<String>)
    ensures
        strings_view(r@) == path_segments(path@),
{
    let n = path.unicode_len();
    let mut start: usize = 0;
    if n > 0 && path.get_char(0) == '/' {
        start = 1;
    }
    let first = start;
    let ghost body = path@.subrange(first as int, n as int);
    let mut done: Vec<String> = Vec::new();
    let mut i: usize = start;
    assert(body.take(0) =~= Seq::<char>::empty());
    assert(path@.subrange(start as int, start as int) =~= Seq::<char>::empty());
    assert(done@.map_values(|x: String| x@).push(path@.subrange(start as int, start as int))
        =~= seq![Seq::<char>::empty()]);
    if first == 1 {
        assert(body =~= path@.drop_first());
    } else {
        assert(body =~= path@);
    }
    while i < n
        invariant
            first <= start <= i <= n,
            n == path@.len(),
            body == path@.subrange(first as int, n as int),
            split_slashes(body.take(i - first)) == done@.map_values(|x: String| x@).push(
                path@.subrange(start as int, i as int),
            ),
        decreases n - i,
    {
        let c = path.get_char(i);
        let ghost prev = body.take(i - first);
        assert(body.take(i + 1 - first).drop_last() == prev);
        assert(body.take(i + 1 - first).last() == c);
        if c == '/' {
            let ghost before = done@.map_values(|x: String| x@);
            let seg = path.substring_char(start, i).to_owned();
            done.push(seg);
            start = i + 1;
            assert(done@.map_values(|x: String| x@) =~= before.push(seg@));
            assert(path@.subrange(start as int, i + 1) =~= Seq::<char>::empty());
        } else {
            assert(path@.subrange(start as int, i as int).push(c) == path@.subrange(
                start as int,
                i + 1,
            ));
        }
        i = i + 1;
    }
    let ghost before = done@.map_values(|x: String| x@);
    let last = path.substring_char(start, n).to_owned();
    done.push(last);
    assert(body.take(n - first) =~= body);
    assert(done@.map_values(|x: String| x@) =~= before.push(last@));
    done
}

} // verus!
