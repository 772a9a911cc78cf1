use vstd::prelude::*;
use crate::path::{path_segments, split_path, strings_view};

verus! {

/// One segment of a route pattern, as the logic sees it.
pub enum SegmentModel {
    Literal(Seq<char>),
    Param(Seq<char>),
}

/// One segment of a route pattern: text that must appear as it is, or a
/// named placeholder (written `:name`) that captures any one path segment.
#[derive(Debug, PartialEq, Eq)]
pub enum Segment {
    Literal(String),
    Param(String),
}

impl View for Segment {
    type V = SegmentModel;

    open spec fn view(&self) -> SegmentModel {
        match self {
            Segment::Literal(s) => SegmentModel::Literal(s@),
            Segment::Param(s) => SegmentModel::Param(s@),
        }
    }
}

/// A segment that starts with `':'` is a placeholder named by the rest.
pub open spec fn segment_of(s: Seq<char>) -> SegmentModel {
    if s.len() > 0 && s[0] == ':' {
        SegmentModel::Param(s.drop_first())
    } else {
        SegmentModel::Literal(s)
    }
}

/// The segments of the pattern text `p`.
pub open spec fn pattern_of(p: Seq<char>) -> Seq<SegmentModel> {
    path_segments(p).map_values(|s: Seq<char>| segment_of(s))
}

/// A pattern matches a path of as many segments, each literal equal to the
/// segment at its position; a placeholder matches any segment.
pub open spec fn segments_match(pat: Seq<SegmentModel>, segs: Seq<Seq<char>>) -> bool {
    &&& pat.len() == segs.len()
    &&& forall|i: int|
        0 <= i < pat.len() ==> (#[trigger] pat[i] matches SegmentModel::Literal(l) ==> l
            == segs[i])
}

/// The (name, value) pairs that the placeholders of `pat` capture from
/// `segs`, in the order of the placeholders.
pub open spec fn captures(pat: Seq<SegmentModel>, segs: Seq<Seq<char>>) -> Seq<
    (Seq<char>, Seq<char>),
>
    decreases pat.len(),
{
    if pat.len() == 0 {
        Seq::empty()
    } else {
        let n = pat.len() - 1;
        let prev = captures(pat.take(n), segs);
        match pat[n] {
            SegmentModel::Param(name) => prev.push((name, segs[n])),
            SegmentModel::Literal(_) => prev,
        }
    }
}

/// The path parameters captured by a match, in the order of the placeholders.
#[derive(Debug)]
pub struct Params {
    entries: Vec<(String, String)>,
}

impl View for Params {
    type V = Seq<(Seq<char>, Seq<char>)>;

    closed spec fn view(&self) -> Seq<(Seq<char>, Seq<char>)> {
        self.entries@.map_values(|e: (String, String)| (e.0@, e.1@))
    }
}

/// The value of the first parameter called `name`.
pub open spec fn lookup(ps: Seq<(Seq<char>, Seq<char>)>, name: Seq<char>) -> Option<Seq<char>>
    decreases ps.len(),
{
    if ps.len() == 0 {
        None
    } else if ps[0].0 == name {
        Some(ps[0].1)
    } else {
        lookup(ps.drop_first(), name)
    }
}

impl Params {
    pub fn len(&self) -> (r: usize)
        ensures
            r == self@.len(),
    {
        self.entries.len()
    }

    /// The value of the first parameter called `name`, if any.
    pub fn get(&self, name: &str) -> (r: Option<String>)
        ensures
            r matches Some(v) ==> lookup(self@, name@) == Some(v@),
            r is None ==> lookup(self@, name@) is None,
    {
        let key = String::from_str(name);
        let mut i: usize = 0;
        assert(self@.subrange(0, self@.len() as int) =~= self@);
        while i < self.entries.len()
            invariant
                i <= self.entries@.len(),
                key@ == name@,
                lookup(self@, name@) == lookup(self@.subrange(i as int, self@.len() as int), name@),
            decreases self.entries@.len() - i,
        {
            let ghost rest = self@.subrange(i as int, self@.len() as int);
            assert(rest.drop_first() =~= self@.subrange(i + 1, self@.len() as int));
            assert(rest[0] == self@[i as int]);
            if self.entries[i].0 == key {
                return Some(self.entries[i].1.clone());
            }
            i = i + 1;
        }
        None
    }
}

/// A route pattern: its segments, in order.
#[derive(Debug)]
pub struct Pattern {
    segments: Vec<Segment>,
}

impl View for Pattern {
    type V = Seq<SegmentModel>;

    closed spec fn view(&self) -> Seq<SegmentModel> {
        self.segments@.map_values(|s: Segment| s@)
    }
}

fn parse_segment(s: String) -> (r: Segment)
    ensures
        r@ == segment_of(s@),
{
    let n = s.as_str().unicode_len();
    if n > 0 && s.as_str().get_char(0) == ':' {
        let name = s.as_str().substring_char(1, n).to_owned();
        assert(name@ =~= s@.drop_first());
        Segment::Param(name)
    } else {
        Segment::Literal(s)
    }
}

impl Pattern {
    /// Reads a pattern such as `/hello/:name`.
    pub fn parse(text: &str) -> (r: Pattern)
        ensures
            r@ == pattern_of(text@),
    {
        let parts = split_path(text);
        let ghost segs = strings_view(parts@);
        let mut segments: Vec<Segment> = Vec::new();
        let mut i: usize = 0;
        while i < parts.len()
            invariant
                i <= parts@.len(),
                segs == strings_view(parts@),
                segs == path_segments(text@),
                segments@.map_values(|s: Segment| s@) =~= segs.take(i as int).map_values(
                    |s: Seq<char>| segment_of(s),
                ),
            decreases parts@.len() - i,
        {
            let ghost before = segments@.map_values(|s: Segment| s@);
            let seg = parse_segment(parts[i].clone());
            segments.push(seg);
            assert(segments@.map_values(|s: Segment| s@) =~= before.push(seg@));
            assert(segs.take(i + 1).map_values(|s: Seq<char>| segment_of(s)) =~= segs.take(
                i as int,
            ).map_values(|s: Seq<char>| segment_of(s)).push(segment_of(segs[i as int])));
            i = i + 1;
        }
        assert(segs.take(parts@.len() as int) =~= segs);
        Pattern { segments }
    }

    pub fn len(&self) -> (r: usize)
        ensures
            r == self@.len(),
    {
        self.segments.len()
    }

    pub fn segments(&self) -> (r: &Vec<Segment>)
        ensures
            r@.map_values(|s: Segment| s@) == self@,
    {
        &self.segments
    }

    /// Whether two patterns have the same segments.
    pub fn same_as(&self, other: &Pattern) -> (r: bool)
        ensures
            r == (self@ == other@),
    {
        if self.segments.len() != other.segments.len() {
            assert(self@.len() != other@.len());
            return false;
        }
        let mut i: usize = 0;
        while i < self.segments.len()
            invariant
                i <= self@.len(),
                self@.len() == other@.len(),
                self.segments@.len() == other.segments@.len(),
                forall|j: int| 0 <= j < i ==> self@[j] == other@[j],
            decreases self@.len() - i,
        {
            assert(self@[i as int] == self.segments@[i as int]@);
            assert(other@[i as int] == other.segments@[i as int]@);
            let same = match (&self.segments[i], &other.segments[i]) {
                (Segment::Literal(a), Segment::Literal(b)) => *a == *b,
                (Segment::Param(a), Segment::Param(b)) => *a == *b,
                _ => false,
            };
            if !same {
                assert(self@[i as int] != other@[i as int]);
                return false;
            }
            i = i + 1;
        }
        assert(self@ =~= other@);
        true
    }

    /// Matches the pattern against the segments of a path: the captured
    /// parameters when it matches, `None` when it does not.
    pub fn capture(&self, segs: &Vec<String>) -> (r: Option<Params>)
        ensures
            r is Some <==> segments_match(self@, strings_view(segs@)),
            r matches Some(ps) ==> ps@ == captures(self@, strings_view(segs@)),
    {
        let ghost sv = strings_view(segs@);
        if self.segments.len() != segs.len() {
            return None;
        }
        let mut entries: Vec<(String, String)> = Vec::new();
        let mut i: usize = 0;
        while i < self.segments.len()
            invariant
                i <= self@.len(),
                self@.len() == sv.len(),
                self.segments@.len() == segs@.len(),
                sv == strings_view(segs@),
                forall|j: int|
                    0 <= j < i ==> (#[trigger] self@[j] matches SegmentModel::Literal(l) ==> l
                        == sv[j]),
                entries@.map_values(|e: (String, String)| (e.0@, e.1@)) == captures(
                    self@.take(i as int),
                    sv,
                ),
            decreases self@.len() - i,
        {
            let ghost before = entries@.map_values(|e: (String, String)| (e.0@, e.1@));
            assert(self@.take(i + 1).take(i as int) =~= self@.take(i as int));
            assert(self@.take(i + 1)[i as int] == self@[i as int]);
            match &self.segments[i] {
                Segment::Literal(l) => {
                    if *l != segs[i] {
                        return None;
                    }
                },
                Segment::Param(name) => {
                    let e = (name.clone(), segs[i].clone());
                    entries.push(e);
                    assert(entries@.map_values(|e: (String, String)| (e.0@, e.1@)) =~= before.push(
                        (e.0@, e.1@),
                    ));
                },
            }
            i = i + 1;
        }
        assert(self@.take(self@.len() as int) =~= self@);
        Some(Params { entries })
    }
}

} // verus!
