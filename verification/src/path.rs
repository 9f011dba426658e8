//! Paths: sequences of segments that lead down a schema and into a value.

use vstd::prelude::*;

verus! {

/// The segments of `segments`, written one after another with `sep` between
/// neighbours.
pub open spec fn joined(segments: Seq<Seq<char>>, sep: Seq<char>) -> Seq<char>
    decreases segments.len(),
{
    if segments.len() == 0 {
        Seq::empty()
    } else if segments.len() == 1 {
        segments[0]
    } else {
        joined(segments.drop_last(), sep) + sep + segments.last()
    }
}

/// The pieces of `text` between occurrences of `sep`. A text without `sep`
/// is one piece, the empty text included.
pub open spec fn split(text: Seq<char>, sep: char) -> Seq<Seq<char>>
    decreases text.len(),
{
    if text.len() == 0 {
        seq![Seq::empty()]
    } else {
        let before = split(text.drop_last(), sep);
        if text.last() == sep {
            before.push(Seq::empty())
        } else {
            before.drop_last().push(before.last().push(text.last()))
        }
    }
}

/// What [`parse_path`] makes of a text: no segment for the empty text, else
/// its pieces between slashes.
pub open spec fn parsed_path(text: Seq<char>) -> Seq<Seq<char>> {
    if text.len() == 0 {
        Seq::empty()
    } else {
        split(text, '/')
    }
}

/// The texts of a sequence of string slices.
pub open spec fn texts(parts: Seq<&str>) -> Seq<Seq<char>> {
    Seq::new(parts.len(), |i: int| parts[i]@)
}

/// Cuts the text of a path at its slashes. The empty text is the empty path.
pub fn parse_path(path: &String) -> (r: Vec<&str>)
    ensures
        texts(r@) == parsed_path(path@),
{
    let text = path.as_str();
    let n = text.unicode_len();
    let mut parts: Vec<&str> = Vec::new();
    if n == 0 {
        assert(texts(parts@) =~= parsed_path(path@));
        return parts;
    }
    let mut start: usize = 0;
    let mut i: usize = 0;
    proof {
        assert(text@.take(0) =~= Seq::<char>::empty());
        assert(texts(parts@).push(text@.subrange(0, 0)) =~= seq![Seq::<char>::empty()]);
    }
    while i < n
        invariant
            start <= i <= n,
            n == text@.len(),
            split(text@.take(i as int), '/') == texts(parts@).push(
                text@.subrange(start as int, i as int),
            ),
        decreases n - i,
    {
        let c = text.get_char(i);
        proof {
            let next = text@.take(i + 1);
            assert(next.drop_last() =~= text@.take(i as int));
            assert(next.last() == c);
        }
        if c == '/' {
            let ghost done = texts(parts@);
            let ghost piece = text@.subrange(start as int, i as int);
            parts.push(text.substring_char(start, i));
            start = i + 1;
            proof {
                assert(texts(parts@) =~= done.push(piece));
                assert(text@.subrange(start as int, i + 1) =~= Seq::<char>::empty());
            }
        } else {
            proof {
                let done = texts(parts@);
                let piece = text@.subrange(start as int, i as int);
                assert(done.push(piece).drop_last() =~= done);
                assert(piece.push(c) =~= text@.subrange(start as int, i + 1));
            }
        }
        i += 1;
    }
    parts.push(text.substring_char(start, n));
    proof {
        assert(text@.take(n as int) =~= text@);
    }
    assert(texts(parts@) =~= parsed_path(path@));
    parts
}

/// An ordered sequence of segments that addresses a node of a schema or a key
/// inside a value. No operation changes a path in place.
#[derive(Debug, PartialEq)]
pub struct Path(Vec<String>);

impl View for Path {
    type V = Seq<Seq<char>>;

    closed spec fn view(&self) -> Seq<Seq<char>> {
        Seq::new(self.0.len() as nat, |i: int| self.0[i]@)
    }
}

impl Clone for Path {
    /// A path of the same segments.
    fn clone(&self) -> (r: Self)
        ensures
            r@ == self@,
    {
        self.skip(0)
    }
}

impl Path {
    /// The number of segments.
    pub fn len(&self) -> (r: usize)
        ensures
            r == self@.len(),
    {
        self.0.len()
    }

    /// Whether the path has no segment.
    pub fn is_empty(&self) -> (r: bool)
        ensures
            r == (self@.len() == 0),
    {
        self.0.len() == 0
    }

    /// The first segment of a path that has one.
    pub fn first(&self) -> (r: &String)
        requires
            self@.len() > 0,
        ensures
            r@ == self@[0],
    {
        &self.0[0]
    }

    /// The path without its first segment.
    pub fn rest(&self) -> (r: Self)
        requires
            self@.len() > 0,
        ensures
            r@ == self@.drop_first(),
    {
        self.skip(1)
    }

    /// The path of the first `num` segments.
    pub fn take(&self, num: usize) -> (r: Self)
        requires
            num <= self@.len(),
        ensures
            r@ == self@.take(num as int),
    {
        let mut segments: Vec<String> = Vec::new();
        let mut i: usize = 0;
        while i < num
            invariant
                i <= num <= self.0.len(),
                segments.len() == i,
                forall|j: int| 0 <= j < i ==> segments[j]@ == self.0[j]@,
            decreases num - i,
        {
            segments.push(self.0[i].clone());
            i += 1;
        }
        let r = Path(segments);
        assert(r@ =~= self@.take(num as int));
        r
    }

    /// The path without its first `num` segments.
    pub fn skip(&self, num: usize) -> (r: Self)
        requires
            num <= self@.len(),
        ensures
            r@ == self@.skip(num as int),
    {
        let mut segments: Vec<String> = Vec::new();
        let mut i: usize = num;
        while i < self.0.len()
            invariant
                num <= i <= self.0.len(),
                segments.len() == i - num,
                forall|j: int| 0 <= j < i - num ==> segments[j]@ == self.0[j + num]@,
            decreases self.0.len() - i,
        {
            segments.push(self.0[i].clone());
            i += 1;
        }
        let r = Path(segments);
        assert(r@ =~= self@.skip(num as int));
        r
    }

    /// The path with `item` as one more segment at its end.
    pub fn append(&self, item: &str) -> (r: Self)
        ensures
            r@ == self@.push(item@),
    {
        let mut segments: Vec<String> = Vec::new();
        let mut i: usize = 0;
        while i < self.0.len()
            invariant
                i <= self.0.len(),
                segments.len() == i,
                forall|j: int| 0 <= j < i ==> segments[j]@ == self.0[j]@,
            decreases self.0.len() - i,
        {
            segments.push(self.0[i].clone());
            i += 1;
        }
        segments.push(item.to_owned());
        let r = Path(segments);
        assert(r@ =~= self@.push(item@));
        r
    }

    /// The path as the text of a relative file path: its segments with a
    /// slash between neighbours.
    pub fn to_path(&self) -> (r: String)
        ensures
            r@ == joined(self@, seq!['/']),
    {
        let mut out = String::new();
        let mut i: usize = 0;
        proof {
            reveal_strlit("/");
            assert(self@.take(0) =~= Seq::<Seq<char>>::empty());
        }
        while i < self.0.len()
            invariant
                i <= self.0.len(),
                "/"@ == seq!['/'],
                out@ == joined(self@.take(i as int), seq!['/']),
            decreases self.0.len() - i,
        {
            proof {
                let next = self@.take(i + 1);
                assert(next.drop_last() =~= self@.take(i as int));
                assert(next.last() == self.0[i as int]@);
            }
            if i > 0 {
                out.append("/");
            }
            out.append(self.0[i].as_str());
            i += 1;
        }
        assert(self@.take(self.0.len() as int) =~= self@);
        out
    }
}

impl From<Vec<String>> for Path {
    /// The path whose segments are those of `segments`, in order.
    fn from(segments: Vec<String>) -> (r: Path) {
        Path(segments)
    }
}

impl vstd::std_specs::convert::FromSpecImpl<Vec<String>> for Path {
    open spec fn obeys_from_spec() -> bool {
        true
    }

    open spec fn from_spec(segments: Vec<String>) -> Path {
        Path::of(segments)
    }
}

impl Path {
    /// The path whose segments are those of `segments`, in order.
    pub closed spec fn of(segments: Vec<String>) -> Path {
        Path(segments)
    }

    /// A path has no more segments than can be counted.
    pub proof fn countable(&self)
        ensures
            self@.len() <= usize::MAX,
    {
    }

    /// The path made from a vector has the vector's strings as its segments.
    pub proof fn of_segments(segments: Vec<String>)
        ensures
            Path::of(segments)@ == Seq::new(segments.len() as nat, |i: int| segments[i]@),
    {
    }
}

/// A text behind a separator is one more piece, where the text has no
/// separator in it.
pub proof fn split_after_separator(before: Seq<char>, sep: char, piece: Seq<char>)
    requires
        !piece.contains(sep),
    ensures
        split(before + seq![sep] + piece, sep) == split(before, sep).push(piece),
    decreases piece.len(),
{
    let whole = before + seq![sep] + piece;
    if piece.len() == 0 {
        assert(whole.drop_last() =~= before);
        assert(piece =~= Seq::<char>::empty());
    } else {
        let shorter = piece.drop_last();
        assert(piece[piece.len() - 1] == piece.last());
        assert forall|i: int| 0 <= i < shorter.len() implies shorter[i] != sep by {
            assert(piece[i] == shorter[i]);
        }
        split_after_separator(before, sep, shorter);
        assert(whole.drop_last() =~= before + seq![sep] + shorter);
        assert(whole.last() == piece.last());
        let pieces = split(before, sep).push(shorter);
        assert(pieces.drop_last() =~= split(before, sep));
        assert(shorter.push(piece.last()) =~= piece);
    }
}

/// A text without a separator in it is one piece.
pub proof fn split_without_separator(piece: Seq<char>, sep: char)
    requires
        !piece.contains(sep),
    ensures
        split(piece, sep) == seq![piece],
    decreases piece.len(),
{
    if piece.len() > 0 {
        let shorter = piece.drop_last();
        assert(piece[piece.len() - 1] == piece.last());
        assert forall|i: int| 0 <= i < shorter.len() implies shorter[i] != sep by {
            assert(piece[i] == shorter[i]);
        }
        split_without_separator(shorter, sep);
        assert(seq![shorter].drop_last().push(shorter.push(piece.last())) =~= seq![piece]) by {
            assert(shorter.push(piece.last()) =~= piece);
        }
    } else {
        assert(piece =~= Seq::<char>::empty());
    }
}

/// Cutting at the slashes the text of a path gives the path back, where the
/// path has a segment and none of its segments has a slash in it.
pub proof fn split_of_joined(path: Seq<Seq<char>>)
    requires
        path.len() > 0,
        forall|i: int| 0 <= i < path.len() ==> !(#[trigger] path[i]).contains('/'),
    ensures
        split(joined(path, seq!['/']), '/') == path,
    decreases path.len(),
{
    if path.len() == 1 {
        split_without_separator(path[0], '/');
        assert(seq![path[0]] =~= path);
    } else {
        let shorter = path.drop_last();
        assert forall|i: int| 0 <= i < shorter.len() implies !(#[trigger] shorter[i]).contains(
            '/',
        ) by {
            assert(shorter[i] == path[i]);
        }
        split_of_joined(shorter);
        assert(path[path.len() - 1] == path.last());
        split_after_separator(joined(shorter, seq!['/']), '/', path.last());
        assert(shorter.push(path.last()) =~= path);
    }
}

} // verus!
