use vstd::prelude::*;

verus! {

/// A range of byte offsets into a source file.
#[derive(Clone, Copy, Debug, PartialEq, Eq, Structural)]
pub struct Span {
    pub start: usize,
    pub end: usize,
}

/// A value together with the span of source text it came from.
pub type Spanned<T> = (T, Span);

impl Span {
    pub fn new(start: usize, end: usize) -> (s: Span)
        ensures
            s.start == start,
            s.end == end,
    {
        Span { start, end }
    }

    /// The empty span at `offset`.
    pub fn splat(offset: usize) -> (s: Span)
        ensures
            s.start == offset,
            s.end == offset,
    {
        Span { start: offset, end: offset }
    }

    pub open spec fn spec_contains_offset(self, offset: usize) -> bool {
        self.start <= offset && offset <= self.end
    }

    /// Whether `offset` lies within the span, both ends included.
    pub fn contains_offset(&self, offset: usize) -> (b: bool)
        ensures
            b == self.spec_contains_offset(offset),
    {
        self.start <= offset && offset <= self.end
    }
}

/// The characters of each string of a sequence.
pub open spec fn strings_view(s: Seq<String>) -> Seq<Seq<char>> {
    s.map_values(|x: String| x@)
}

/// Compares two lists of strings character by character.
pub fn strings_eq(a: &Vec<String>, b: &Vec<String>) -> (r: bool)
    ensures
        r == (strings_view(a@) == strings_view(b@)),
{
    if a.len() != b.len() {
        proof {
            assert(strings_view(a@).len() != strings_view(b@).len());
        }
        return false;
    }
    let mut i: usize = 0;
    while i < a.len()
        invariant
            a.len() == b.len(),
            i <= a.len(),
            forall|j: int| 0 <= j < i ==> a@[j]@ == b@[j]@,
        decreases a.len() - i,
    {
        if a[i] != b[i] {
            proof {
                assert(strings_view(a@)[i as int] != strings_view(b@)[i as int]);
            }
            return false;
        }
        i = i + 1;
    }
    proof {
        assert(strings_view(a@) =~= strings_view(b@));
    }
    true
}

/// Copies a list of strings.
pub fn clone_strings(a: &Vec<String>) -> (r: Vec<String>)
    ensures
        strings_view(r@) == strings_view(a@),
{
    let mut r: Vec<String> = Vec::new();
    let mut i: usize = 0;
    while i < a.len()
        invariant
            i <= a.len(),
            r@.len() == i,
            forall|j: int| 0 <= j < i ==> r@[j]@ == a@[j]@,
        decreases a.len() - i,
    {
        r.push(a[i].clone());
        i = i + 1;
    }
    proof {
        assert(strings_view(r@) =~= strings_view(a@));
    }
    r
}

/// Appends the characters of `text` to `s`.
pub fn push_str(s: &mut String, text: &str)
    ensures
        final(s)@ == old(s)@ + text@,
{
    let n = text.unicode_len();
    let mut i: usize = 0;
    while i < n
        invariant
            i <= n,
            n == text@.len(),
            s@ == old(s)@ + text@.take(i as int),
        decreases n - i,
    {
        proof {
            assert(text@.take(i + 1) =~= text@.take(i as int).push(text@[i as int]));
        }
        push_char(s, text.get_char(i));
        i = i + 1;
    }
    proof {
        assert(text@.take(n as int) =~= text@);
    }
}

/// Appends a character to a string: `String::push`.
#[verifier::external_body]
pub(crate) fn push_char(s: &mut String, c: char)
    ensures
        final(s)@ == old(s)@.push(c),
{
    s.push(c);
}

} // verus!

verus! {

/// The value an optional reference points to.
pub open spec fn opt_ref<T>(o: Option<&T>) -> Option<T> {
    match o {
        Some(x) => Some(*x),
        None => None,
    }
}

} // verus!
