//! Text as sequences of characters: white space, trimming and splitting into
//! lines, each with its definition over `Seq<char>` and a function that
//! computes it.

use vstd::prelude::*;
use vstd::std_specs::iter::IteratorSpec;

verus! {

/// The Unicode `White_Space` property: the characters that trimming removes.
pub open spec fn is_white_space(c: char) -> bool {
    let n = c as u32;
    ||| 0x09 <= n <= 0x0D
    ||| n == 0x20
    ||| n == 0x85
    ||| n == 0xA0
    ||| n == 0x1680
    ||| 0x2000 <= n <= 0x200A
    ||| n == 0x2028
    ||| n == 0x2029
    ||| n == 0x202F
    ||| n == 0x205F
    ||| n == 0x3000
}

/// Number of white-space characters at the front of `s`.
pub open spec fn leading_white(s: Seq<char>) -> nat
    decreases s.len(),
{
    if s.len() > 0 && is_white_space(s[0]) {
        1 + leading_white(s.drop_first())
    } else {
        0
    }
}

/// Number of white-space characters at the back of `s`.
pub open spec fn trailing_white(s: Seq<char>) -> nat
    decreases s.len(),
{
    if s.len() > 0 && is_white_space(s.last()) {
        1 + trailing_white(s.drop_last())
    } else {
        0
    }
}

/// `s` without its leading and trailing white space.
pub open spec fn trimmed(s: Seq<char>) -> Seq<char> {
    if leading_white(s) >= s.len() {
        Seq::empty()
    } else {
        s.subrange(leading_white(s) as int, s.len() - trailing_white(s))
    }
}

/// `s` consists of white space only (the empty text included).
pub open spec fn is_blank(s: Seq<char>) -> bool {
    forall|i: int| 0 <= i < s.len() ==> is_white_space(#[trigger] s[i])
}

/// The leading white space is a run of white-space characters that ends at
/// the first character that is none.
pub proof fn lemma_leading_white_bounds(s: Seq<char>)
    ensures
        leading_white(s) <= s.len(),
        forall|i: int| 0 <= i < leading_white(s) ==> is_white_space(#[trigger] s[i]),
        leading_white(s) < s.len() ==> !is_white_space(s[leading_white(s) as int]),
    decreases s.len(),
{
    if s.len() > 0 && is_white_space(s[0]) {
        let t = s.drop_first();
        lemma_leading_white_bounds(t);
        assert forall|i: int| 0 <= i < leading_white(s) implies is_white_space(#[trigger] s[i]) by {
            if i > 0 {
                assert(s[i] == t[i - 1]);
            }
        }
        if leading_white(s) < s.len() {
            assert(s[leading_white(s) as int] == t[leading_white(t) as int]);
        }
    }
}

/// The trailing white space is a run of white-space characters that begins
/// after the last character that is none.
pub proof fn lemma_trailing_white_bounds(s: Seq<char>)
    ensures
        trailing_white(s) <= s.len(),
        forall|i: int| s.len() - trailing_white(s) <= i < s.len() ==> is_white_space(#[trigger] s[i]),
        trailing_white(s) < s.len() ==> !is_white_space(s[s.len() - trailing_white(s) - 1]),
    decreases s.len(),
{
    if s.len() > 0 && is_white_space(s.last()) {
        let t = s.drop_last();
        lemma_trailing_white_bounds(t);
        assert forall|i: int| s.len() - trailing_white(s) <= i < s.len() implies is_white_space(
            #[trigger] s[i],
        ) by {
            if i < s.len() - 1 {
                assert(s[i] == t[i]);
            }
        }
        if trailing_white(s) < s.len() {
            assert(s[s.len() - trailing_white(s) - 1] == t[t.len() - trailing_white(t) - 1]);
        }
    }
}

/// Trimming leaves nothing exactly of blank text, and otherwise text that
/// begins and ends with a character that is not white space.
pub proof fn lemma_trimmed_shape(s: Seq<char>)
    ensures
        trimmed(s).len() == 0 <==> is_blank(s),
        trimmed(s).len() <= s.len(),
        !is_blank(s) ==> trimmed(s).len() + leading_white(s) + trailing_white(s) == s.len(),
        !is_blank(s) ==> !is_white_space(trimmed(s).first()) && !is_white_space(trimmed(s).last()),
{
    lemma_leading_white_bounds(s);
    lemma_trailing_white_bounds(s);
    let lead = leading_white(s) as int;
    let trail = trailing_white(s) as int;
    if lead < s.len() {
        assert(!is_white_space(s[lead]));
        if lead >= s.len() - trail {
            assert(is_white_space(s[lead]));
        }
        assert(trimmed(s).first() == s[lead]);
        assert(trimmed(s).last() == s[s.len() - trail - 1]);
    }
}

/// Trimming text that is trimmed already changes nothing.
pub proof fn lemma_trimmed_idempotent(s: Seq<char>)
    ensures
        trimmed(trimmed(s)) == trimmed(s),
{
    lemma_trimmed_shape(s);
    let t = trimmed(s);
    if t.len() > 0 {
        assert(leading_white(t) == 0);
        assert(trailing_white(t) == 0);
        assert(t.subrange(0, t.len() as int) =~= t);
    }
}

/// Text that ends in white space loses at least that character to trimming.
pub proof fn lemma_trimmed_drops_last(s: Seq<char>)
    requires
        s.len() > 0,
        is_white_space(s.last()),
    ensures
        trimmed(s).len() < s.len(),
{
    lemma_trimmed_shape(s);
}

/// Whether `c` is white space.
pub fn is_whitespace_char(c: char) -> (b: bool)
    ensures
        b == is_white_space(c),
{
    let n: u32 = c as u32;
    (0x09 <= n && n <= 0x0D) || n == 0x20 || n == 0x85 || n == 0xA0 || n == 0x1680 || (0x2000 <= n
        && n <= 0x200A) || n == 0x2028 || n == 0x2029 || n == 0x202F || n == 0x205F || n == 0x3000
}

/// Collects the characters of a string slice.
pub fn chars_of(s: &str) -> (out: Vec<char>)
    ensures
        out@ == s@,
{
    broadcast use vstd::string::group_string_axioms;

    let mut out: Vec<char> = Vec::new();
    let mut it = s.chars();
    loop
        invariant
            it.obeys_prophetic_iter_laws(),
            it.decrease() is Some,
            out@ + it.remaining() == s@,
        ensures
            out@ == s@,
        decreases it.decrease()->0,
    {
        match it.next() {
            Some(c) => {
                out.push(c);
            },
            None => {
                break ;
            },
        }
    }
    out
}

/// `String::push` appends the given character to the end of the string.
pub assume_specification[ String::push ](s: &mut String, c: char)
    ensures
        final(s)@ == old(s)@.push(c),
;

/// Builds a string from the characters `v[from..to]`.
pub fn string_from(v: &Vec<char>, from: usize, to: usize) -> (out: String)
    requires
        from <= to <= v.len(),
    ensures
        out@ == v@.subrange(from as int, to as int),
{
    let mut out = String::new();
    let mut i: usize = from;
    while i < to
        invariant
            from <= i <= to <= v.len(),
            out@ == v@.subrange(from as int, i as int),
        decreases to - i,
    {
        out.push(v[i]);
        i += 1;
        assert(out@ =~= v@.subrange(from as int, i as int));
    }
    out
}

/// The bounds `(a, b)` of the trimmed part of `v`: `v[a..b]` is `v` without its
/// leading and trailing white space.
pub fn trim_bounds(v: &Vec<char>) -> (r: (usize, usize))
    ensures
        r.0 <= r.1 <= v.len(),
        v@.subrange(r.0 as int, r.1 as int) == trimmed(v@),
        r.0 == r.1 <==> is_blank(v@),
{
    let n = v.len();
    let mut a: usize = 0;
    while a < n && is_whitespace_char(v[a])
        invariant
            a <= n == v.len(),
            forall|k: int| 0 <= k < a ==> is_white_space(#[trigger] v@[k]),
        decreases n - a,
    {
        a += 1;
    }
    proof {
        lemma_leading_white_bounds(v@);
        lemma_trailing_white_bounds(v@);
    }
    assert(leading_white(v@) == a);
    if a == n {
        assert(v@.subrange(a as int, a as int) =~= Seq::<char>::empty());
        return (a, a);
    }
    let mut b: usize = n;
    while b > a && is_whitespace_char(v[b - 1])
        invariant
            a <= b <= n == v.len(),
            a < n,
            !is_white_space(v@[a as int]),
            forall|k: int| b <= k < n ==> is_white_space(#[trigger] v@[k]),
        decreases b,
    {
        b -= 1;
    }
    assert(b > a);
    assert(n - trailing_white(v@) == b);
    (a, b)
}

/// Number of characters of `s` before its first line feed (all of them if it
/// has none).
pub open spec fn first_newline(s: Seq<char>) -> nat
    decreases s.len(),
{
    if s.len() > 0 && s[0] != '\n' {
        1 + first_newline(s.drop_first())
    } else {
        0
    }
}

/// A line without the carriage return that stood before its line feed.
pub open spec fn without_cr(line: Seq<char>) -> Seq<char> {
    if line.len() > 0 && line.last() == '\r' {
        line.drop_last()
    } else {
        line
    }
}

/// The lines of `s`. A line ends at a line feed, or at a carriage return
/// directly followed by one; the terminator is not part of the line. The last
/// line needs no terminator, and text that ends with one has no empty line after
/// it.
pub open spec fn lines_of(s: Seq<char>) -> Seq<Seq<char>>
    decreases s.len(),
{
    if s.len() == 0 {
        Seq::empty()
    } else {
        let k = first_newline(s) as int;
        if k >= s.len() {
            seq![s]
        } else {
            seq![without_cr(s.subrange(0, k))] + lines_of(s.subrange(k + 1, s.len() as int))
        }
    }
}

/// No line feed stands before the first one.
pub proof fn lemma_first_newline_bounds(s: Seq<char>)
    ensures
        first_newline(s) <= s.len(),
        forall|i: int| 0 <= i < first_newline(s) ==> #[trigger] s[i] != '\n',
        first_newline(s) < s.len() ==> s[first_newline(s) as int] == '\n',
    decreases s.len(),
{
    if s.len() > 0 && s[0] != '\n' {
        let t = s.drop_first();
        lemma_first_newline_bounds(t);
        assert forall|i: int| 0 <= i < first_newline(s) implies #[trigger] s[i] != '\n' by {
            if i > 0 {
                assert(s[i] == t[i - 1]);
            }
        }
        if first_newline(s) < s.len() {
            assert(s[first_newline(s) as int] == t[first_newline(t) as int]);
        }
    }
}

/// Copies the characters `v[from..to]`.
pub fn copy_range(v: &Vec<char>, from: usize, to: usize) -> (out: Vec<char>)
    requires
        from <= to <= v.len(),
    ensures
        out@ == v@.subrange(from as int, to as int),
{
    let mut out: Vec<char> = Vec::new();
    let mut i: usize = from;
    while i < to
        invariant
            from <= i <= to <= v.len(),
            out@ == v@.subrange(from as int, i as int),
        decreases to - i,
    {
        out.push(v[i]);
        i += 1;
        assert(out@ =~= v@.subrange(from as int, i as int));
    }
    out
}

/// Pushing a line onto a list of lines pushes its characters onto the list's
/// deep view.
pub proof fn lemma_lines_push(before: Seq<Vec<char>>, line: Vec<char>)
    ensures
        before.push(line).map_values(|l: Vec<char>| l@) == before.map_values(|l: Vec<char>| l@).push(
            line@,
        ),
{
    assert(before.push(line).map_values(|l: Vec<char>| l@) =~= before.map_values(
        |l: Vec<char>| l@,
    ).push(line@));
}

/// The deep view of a list of lines holds the characters of each.
pub proof fn lemma_lines_deep_view(lines: Vec<Vec<char>>)
    ensures
        lines.deep_view() == lines@.map_values(|l: Vec<char>| l@),
{
    assert forall|i: int| 0 <= i < lines@.len() implies #[trigger] lines.deep_view()[i]
        == lines@[i]@ by {
        assert(lines@[i].deep_view() =~= lines@[i]@);
    }
    assert(lines.deep_view() =~= lines@.map_values(|l: Vec<char>| l@));
}

/// Splits `v` into its lines.
pub fn split_lines(v: &Vec<char>) -> (out: Vec<Vec<char>>)
    ensures
        out.deep_view() == lines_of(v@),
{
    let n = v.len();
    let mut out: Vec<Vec<char>> = Vec::new();
    let mut start: usize = 0;
    assert(v@.subrange(0, n as int) =~= v@);
    while start < n
        invariant
            start <= n == v.len(),
            lines_of(v@) == out.deep_view() + lines_of(v@.subrange(start as int, n as int)),
        decreases n - start,
    {
        let ghost rest = v@.subrange(start as int, n as int);
        let mut end: usize = start;
        while end < n && v[end] != '\n'
            invariant
                start <= end <= n == v.len(),
                forall|k: int| start <= k < end ==> #[trigger] v@[k] != '\n',
            decreases n - end,
        {
            end += 1;
        }
        proof {
            lemma_first_newline_bounds(rest);
            let f = first_newline(rest) as int;
            if f < end - start {
                assert(rest[f] == v@[start + f]);
            }
            if f > end - start {
                assert(rest[end - start] == v@[end as int]);
            }
            assert(f == end - start);
        }
        let ghost before = out.deep_view();
        proof {
            lemma_lines_deep_view(out);
        }
        let ghost before_vecs = out@;
        if end == n {
            let line = copy_range(v, start, n);
            out.push(line);
            proof {
                assert(line@ == rest);
                assert(lines_of(rest) =~= seq![rest]);
                assert(lines_of(v@.subrange(n as int, n as int)) =~= Seq::<Seq<char>>::empty());
                lemma_lines_deep_view(out);
                lemma_lines_push(before_vecs, line);
                assert(out.deep_view() =~= before + seq![rest]);
            }
            start = n;
        } else {
            let stop = if end > start && v[end - 1] == '\r' {
                end - 1
            } else {
                end
            };
            let line = copy_range(v, start, stop);
            out.push(line);
            proof {
                let raw = rest.subrange(0, end - start);
                assert(raw =~= v@.subrange(start as int, end as int));
                assert(line@ =~= without_cr(raw));
                assert(rest.subrange(end - start + 1, rest.len() as int) =~= v@.subrange(
                    end + 1,
                    n as int,
                ));
                lemma_lines_deep_view(out);
                lemma_lines_push(before_vecs, line);
                assert(out.deep_view() =~= before + seq![without_cr(raw)]);
            }
            start = end + 1;
        }
    }
    assert(lines_of(v@.subrange(start as int, n as int)) =~= Seq::<Seq<char>>::empty());
    assert(out.deep_view() + Seq::<Seq<char>>::empty() =~= out.deep_view());
    out
}

} // verus!
