//! Character-level helpers on strings: comparison, copying, decimal rendering,
//! trimming, line framing and HTML escaping.

use vstd::prelude::*;
use vstd::string::*;

verus! {

/// `String::push` appends one character to the end of the string.
pub assume_specification[ String::push ](s: &mut String, ch: char)
    ensures
        final(s)@ == old(s)@.push(ch),
;

/// The characters of an optional string.
pub open spec fn opt_view(s: Option<String>) -> Option<Seq<char>> {
    match s {
        Some(s) => Some(s@),
        None => None,
    }
}

/// The characters of each string of a list.
pub open spec fn views(list: Seq<String>) -> Seq<Seq<char>> {
    Seq::new(list.len(), |i: int| list[i]@)
}

/// Whether two strings hold the same characters.
pub fn str_eq(a: &str, b: &str) -> (same: bool)
    ensures
        same == (a@ == b@),
{
    let left = a.to_owned();
    let right = b.to_owned();
    left == right
}

/// The characters of a string, in order.
pub fn to_chars(s: &str) -> (chars: Vec<char>)
    ensures
        chars@ == s@,
{
    let mut chars: Vec<char> = Vec::new();
    for c in it: s.chars()
        invariant
            it.seq() == s@,
            chars@ == s@.take(it.index()),
    {
        chars.push(c);
        assert(chars@ == s@.take(it.index() + 1));
    }
    assert(s@.take(s@.len() as int) == s@);
    chars
}

/// Appends the characters `chars[from..to]` to `out`.
pub fn push_range(out: &mut String, chars: &Vec<char>, from: usize, to: usize)
    requires
        from <= to <= chars.len(),
    ensures
        final(out)@ == old(out)@ + chars@.subrange(from as int, to as int),
{
    let mut i: usize = from;
    while i < to
        invariant
            from <= i <= to <= chars.len(),
            out@ == old(out)@ + chars@.subrange(from as int, i as int),
        decreases to - i,
    {
        out.push(chars[i]);
        assert(out@ == old(out)@ + chars@.subrange(from as int, i + 1));
        i = i + 1;
    }
}

/// The string made of the characters `chars[from..to]`.
pub fn from_chars(chars: &Vec<char>, from: usize, to: usize) -> (s: String)
    requires
        from <= to <= chars.len(),
    ensures
        s@ == chars@.subrange(from as int, to as int),
{
    let mut s = String::new();
    push_range(&mut s, chars, from, to);
    assert(s@ == chars@.subrange(from as int, to as int));
    s
}

/// The decimal digit for a number below ten.
pub open spec fn digit_char(d: nat) -> char {
    if d == 0 {
        '0'
    } else if d == 1 {
        '1'
    } else if d == 2 {
        '2'
    } else if d == 3 {
        '3'
    } else if d == 4 {
        '4'
    } else if d == 5 {
        '5'
    } else if d == 6 {
        '6'
    } else if d == 7 {
        '7'
    } else if d == 8 {
        '8'
    } else {
        '9'
    }
}

/// The decimal numeral of a natural number, without leading zeros.
pub open spec fn decimal(n: nat) -> Seq<char>
    decreases n,
{
    if n < 10 {
        seq![digit_char(n)]
    } else {
        decimal(n / 10).push(digit_char(n % 10))
    }
}

fn digit_of(d: u64) -> (c: char)
    requires
        d < 10,
    ensures
        c == digit_char(d as nat),
{
    if d == 0 {
        '0'
    } else if d == 1 {
        '1'
    } else if d == 2 {
        '2'
    } else if d == 3 {
        '3'
    } else if d == 4 {
        '4'
    } else if d == 5 {
        '5'
    } else if d == 6 {
        '6'
    } else if d == 7 {
        '7'
    } else if d == 8 {
        '8'
    } else {
        '9'
    }
}

/// Appends the decimal numeral of `n` to `out`.
pub fn push_decimal(out: &mut String, n: u64)
    ensures
        final(out)@ == old(out)@ + decimal(n as nat),
    decreases n,
{
    if n < 10 {
        out.push(digit_of(n));
        assert(out@ == old(out)@ + decimal(n as nat));
    } else {
        push_decimal(out, n / 10);
        out.push(digit_of(n % 10));
        assert(out@ == old(out)@ + decimal(n as nat));
    }
}

/// The decimal numeral of `n`.
pub fn u64_to_decimal(n: u64) -> (s: String)
    ensures
        s@ == decimal(n as nat),
{
    let mut s = String::new();
    push_decimal(&mut s, n);
    assert(s@ == decimal(n as nat));
    s
}

/// The characters with the Unicode property `White_Space`.
pub open spec fn is_space(c: char) -> bool {
    ||| '\u{9}' <= c <= '\u{d}'
    ||| c == ' '
    ||| c == '\u{85}'
    ||| c == '\u{a0}'
    ||| c == '\u{1680}'
    ||| '\u{2000}' <= c <= '\u{200a}'
    ||| c == '\u{2028}'
    ||| c == '\u{2029}'
    ||| c == '\u{202f}'
    ||| c == '\u{205f}'
    ||| c == '\u{3000}'
}

pub fn is_whitespace(c: char) -> (space: bool)
    ensures
        space == is_space(c),
{
    ('\u{9}' <= c && c <= '\u{d}') || c == ' ' || c == '\u{85}' || c == '\u{a0}' || c
        == '\u{1680}' || ('\u{2000}' <= c && c <= '\u{200a}') || c == '\u{2028}' || c
        == '\u{2029}' || c == '\u{202f}' || c == '\u{205f}' || c == '\u{3000}'
}

/// The first position at or after `from` that holds no white space, or the
/// length of `s` if there is none.
pub open spec fn skip_spaces(s: Seq<char>, from: int) -> int
    decreases s.len() - from,
{
    if 0 <= from < s.len() && is_space(s[from]) {
        skip_spaces(s, from + 1)
    } else {
        from
    }
}

/// The end of `s[low..to]` once the white space at its end is removed.
pub open spec fn skip_spaces_back(s: Seq<char>, low: int, to: int) -> int
    decreases to - low,
{
    if low < to <= s.len() && is_space(s[to - 1]) {
        skip_spaces_back(s, low, to - 1)
    } else {
        to
    }
}

/// `s` without the white space at its start and at its end.
pub open spec fn trimmed(s: Seq<char>) -> Seq<char> {
    let start = skip_spaces(s, 0);
    s.subrange(start, skip_spaces_back(s, start, s.len() as int))
}

/// Whether `s` holds nothing but white space.
pub open spec fn is_blank(s: Seq<char>) -> bool {
    forall|i: int| 0 <= i < s.len() ==> is_space(#[trigger] s[i])
}

pub proof fn lemma_skip_spaces(s: Seq<char>, from: int)
    requires
        0 <= from <= s.len(),
    ensures
        from <= skip_spaces(s, from) <= s.len(),
        forall|i: int| from <= i < skip_spaces(s, from) ==> is_space(#[trigger] s[i]),
        skip_spaces(s, from) < s.len() ==> !is_space(s[skip_spaces(s, from)]),
    decreases s.len() - from,
{
    if from < s.len() && is_space(s[from]) {
        lemma_skip_spaces(s, from + 1);
    }
}

pub proof fn lemma_skip_spaces_back(s: Seq<char>, low: int, to: int)
    requires
        0 <= low <= to <= s.len(),
    ensures
        low <= skip_spaces_back(s, low, to) <= to,
        forall|i: int| skip_spaces_back(s, low, to) <= i < to ==> is_space(#[trigger] s[i]),
        low < skip_spaces_back(s, low, to) ==> !is_space(s[skip_spaces_back(s, low, to) - 1]),
    decreases to - low,
{
    if low < to && is_space(s[to - 1]) {
        lemma_skip_spaces_back(s, low, to - 1);
    }
}

/// The trimmed text is empty exactly for blank input, and starts and ends
/// with a character that is no white space otherwise.
pub proof fn lemma_trimmed(s: Seq<char>)
    ensures
        trimmed(s).len() <= s.len(),
        trimmed(s).len() == 0 <==> is_blank(s),
        trimmed(s).len() > 0 ==> !is_space(trimmed(s).first()) && !is_space(trimmed(s).last()),
{
    let start = skip_spaces(s, 0);
    lemma_skip_spaces(s, 0);
    lemma_skip_spaces_back(s, start, s.len() as int);
}

/// The bounds of the trimmed text within `chars`.
pub fn trim_bounds(chars: &Vec<char>) -> (bounds: (usize, usize))
    ensures
        bounds.0 == skip_spaces(chars@, 0),
        bounds.1 == skip_spaces_back(chars@, bounds.0 as int, chars@.len() as int),
        bounds.0 <= bounds.1 <= chars.len(),
        chars@.subrange(bounds.0 as int, bounds.1 as int) == trimmed(chars@),
{
    let mut start: usize = 0;
    while start < chars.len() && is_whitespace(chars[start])
        invariant
            start <= chars.len(),
            skip_spaces(chars@, 0) == skip_spaces(chars@, start as int),
        decreases chars.len() - start,
    {
        start = start + 1;
    }
    let mut end: usize = chars.len();
    while start < end && is_whitespace(chars[end - 1])
        invariant
            start <= end <= chars.len(),
            skip_spaces_back(chars@, start as int, chars@.len() as int) == skip_spaces_back(
                chars@,
                start as int,
                end as int,
            ),
        decreases end - start,
    {
        end = end - 1;
    }
    (start, end)
}

/// What stands for one character in HTML text.
pub open spec fn escaped_char(c: char) -> Seq<char> {
    if c == '&' {
        "&amp;"@
    } else if c == '<' {
        "&lt;"@
    } else if c == '>' {
        "&gt;"@
    } else {
        seq![c]
    }
}

/// `s` with `&`, `<` and `>` replaced by their HTML entities.
pub open spec fn html_escaped(s: Seq<char>) -> Seq<char>
    decreases s.len(),
{
    if s.len() == 0 {
        Seq::empty()
    } else {
        html_escaped(s.drop_last()) + escaped_char(s.last())
    }
}

/// Appends the HTML-escaped form of `chars[from..to]` to `out`.
pub fn push_escaped(out: &mut String, chars: &Vec<char>, from: usize, to: usize)
    requires
        from <= to <= chars.len(),
    ensures
        final(out)@ == old(out)@ + html_escaped(chars@.subrange(from as int, to as int)),
{
    let mut i: usize = from;
    assert(chars@.subrange(from as int, from as int) =~= Seq::<char>::empty());
    while i < to
        invariant
            from <= i <= to <= chars.len(),
            out@ == old(out)@ + html_escaped(chars@.subrange(from as int, i as int)),
        decreases to - i,
    {
        let c = chars[i];
        let ghost before = out@;
        if c == '&' {
            out.append("&amp;");
        } else if c == '<' {
            out.append("&lt;");
        } else if c == '>' {
            out.append("&gt;");
        } else {
            out.push(c);
        }
        proof {
            let next = chars@.subrange(from as int, i + 1);
            assert(next.drop_last() =~= chars@.subrange(from as int, i as int));
            assert(next.last() == c);
            assert(out@ =~= before + escaped_char(c));
            assert(out@ =~= old(out)@ + html_escaped(next));
        }
        i = i + 1;
    }
}

/// The HTML-escaped form of `s`.
pub fn escape_html(s: &str) -> (escaped: String)
    ensures
        escaped@ == html_escaped(s@),
{
    let chars = to_chars(s);
    let mut escaped = String::new();
    push_escaped(&mut escaped, &chars, 0, chars.len());
    assert(chars@.subrange(0, chars@.len() as int) =~= s@);
    assert(escaped@ =~= html_escaped(s@));
    escaped
}

/// Escaped text holds no angle bracket, so it opens and closes no tag.
pub proof fn lemma_escaped_has_no_markup(s: Seq<char>)
    ensures
        forall|i: int|
            0 <= i < html_escaped(s).len() ==> (#[trigger] html_escaped(s)[i]) != '<'
                && html_escaped(s)[i] != '>',
        s.len() <= html_escaped(s).len() <= 5 * s.len(),
    decreases s.len(),
{
    reveal_strlit("&amp;");
    reveal_strlit("&lt;");
    reveal_strlit("&gt;");
    if s.len() > 0 {
        lemma_escaped_has_no_markup(s.drop_last());
    }
}

/// The pieces of `s` between the occurrences of `sep`. There is always at
/// least one piece, and none of them holds `sep`.
pub open spec fn split(s: Seq<char>, sep: char) -> Seq<Seq<char>>
    decreases s.len(),
{
    if s.len() == 0 {
        seq![Seq::empty()]
    } else {
        let before = split(s.drop_last(), sep);
        if s.last() == sep {
            before.push(Seq::empty())
        } else {
            before.drop_last().push(before.last().push(s.last()))
        }
    }
}

/// Every text splits into at least one piece, no piece holds the separator,
/// and a text without the separator is its own single piece.
pub proof fn lemma_split_pieces(s: Seq<char>, sep: char)
    ensures
        split(s, sep).len() >= 1,
        forall|k: int, i: int|
            0 <= k < split(s, sep).len() && 0 <= i < split(s, sep)[k].len() ==> split(
                s,
                sep,
            )[k][i] != sep,
        (forall|i: int| 0 <= i < s.len() ==> s[i] != sep) ==> split(s, sep) == seq![s],
    decreases s.len(),
{
    if s.len() > 0 {
        lemma_split_pieces(s.drop_last(), sep);
        let before = split(s.drop_last(), sep);
        if s.last() != sep {
            if forall|i: int| 0 <= i < s.len() ==> s[i] != sep {
                assert(before == seq![s.drop_last()]);
                assert(before.drop_last().push(before.last().push(s.last())) =~= seq![s]) by {
                    assert(s.drop_last().push(s.last()) =~= s);
                }
            }
        }
    } else {
        assert(s =~= Seq::<char>::empty());
    }
}

/// The pieces put together again, with `sep` between them.
pub open spec fn joined(pieces: Seq<Seq<char>>, sep: char) -> Seq<char>
    decreases pieces.len(),
{
    if pieces.len() == 0 {
        Seq::empty()
    } else if pieces.len() == 1 {
        pieces[0]
    } else {
        joined(pieces.drop_last(), sep).push(sep) + pieces.last()
    }
}

/// Splitting loses nothing: the pieces of a text, joined by the separator,
/// are the text.
pub proof fn lemma_split_joins(s: Seq<char>, sep: char)
    ensures
        joined(split(s, sep), sep) == s,
    decreases s.len(),
{
    if s.len() == 0 {
        assert(joined(split(s, sep), sep) =~= s);
    } else {
        lemma_split_joins(s.drop_last(), sep);
        lemma_split_pieces(s.drop_last(), sep);
        let before = split(s.drop_last(), sep);
        let pieces = split(s, sep);
        assert(s.drop_last().push(s.last()) =~= s);
        if s.last() == sep {
            assert(pieces.drop_last() =~= before);
            assert(joined(pieces, sep) =~= s);
        } else if before.len() == 1 {
            assert(pieces[0] == before[0].push(s.last()));
            assert(joined(pieces, sep) =~= s);
        } else {
            assert(pieces.drop_last() =~= before.drop_last());
            assert(joined(pieces, sep) =~= joined(before, sep).push(s.last()));
        }
    }
}

/// A line without the carriage return that may end it.
pub open spec fn strip_cr(line: Seq<char>) -> Seq<char> {
    if line.len() > 0 && line.last() == '\r' {
        line.drop_last()
    } else {
        line
    }
}

/// Those of the pieces that are not blank, each without its carriage return.
pub open spec fn nonblank(pieces: Seq<Seq<char>>) -> Seq<Seq<char>>
    decreases pieces.len(),
{
    if pieces.len() == 0 {
        Seq::empty()
    } else {
        let before = nonblank(pieces.drop_last());
        if is_blank(pieces.last()) {
            before
        } else {
            before.push(strip_cr(pieces.last()))
        }
    }
}

/// The lines of `output` that hold more than white space, in order.
pub open spec fn output_lines(output: Seq<char>) -> Seq<Seq<char>> {
    nonblank(split(output, '\n'))
}

fn push_line(lines: &mut Vec<String>, chars: &Vec<char>, start: usize, end: usize)
    requires
        start < end <= chars.len(),
    ensures
        views(final(lines)@) == views(old(lines)@).push(
            strip_cr(chars@.subrange(start as int, end as int)),
        ),
{
    let stop: usize = if chars[end - 1] == '\r' {
        end - 1
    } else {
        end
    };
    let line = from_chars(chars, start, stop);
    proof {
        assert(line@ =~= strip_cr(chars@.subrange(start as int, end as int)));
        assert(views(lines@.push(line)) =~= views(lines@).push(line@));
    }
    lines.push(line);
}

/// Frames the output of a command into its lines and drops the blank ones.
#[verifier::spinoff_prover]
#[verifier::rlimit(40)]
pub fn nonblank_lines(output: &str) -> (lines: Vec<String>)
    ensures
        views(lines@) == output_lines(output@),
{
    let chars = to_chars(output);
    let n: usize = chars.len();
    let mut lines: Vec<String> = Vec::new();
    let mut start: usize = 0;
    let mut blank: bool = true;
    let mut i: usize = 0;
    proof {
        assert(chars@.take(0) =~= Seq::<char>::empty());
        assert(seq![Seq::<char>::empty()].drop_last() =~= Seq::<Seq<char>>::empty());
        assert(chars@.subrange(0, 0) =~= Seq::<char>::empty());
        assert(views(lines@) =~= nonblank(Seq::<Seq<char>>::empty()));
    }
    while i < n
        invariant
            n == chars.len(),
            start <= i <= n,
            split(chars@.take(i as int), '\n').len() >= 1,
            split(chars@.take(i as int), '\n').last() == chars@.subrange(start as int, i as int),
            blank == is_blank(chars@.subrange(start as int, i as int)),
            views(lines@) == nonblank(split(chars@.take(i as int), '\n').drop_last()),
        decreases n - i,
    {
        let ghost pieces = split(chars@.take(i as int), '\n');
        let ghost piece = chars@.subrange(start as int, i as int);
        proof {
            assert(chars@.take(i + 1).drop_last() =~= chars@.take(i as int));
        }
        if chars[i] == '\n' {
            if !blank {
                push_line(&mut lines, &chars, start, i);
            }
            proof {
                assert(pieces.drop_last().push(pieces.last()) =~= pieces);
                assert(pieces.push(Seq::empty()).drop_last() =~= pieces);
                assert(chars@.subrange(i + 1, i + 1) =~= Seq::<char>::empty());
            }
            start = i + 1;
            blank = true;
        } else {
            proof {
                let after = pieces.drop_last().push(pieces.last().push(chars@[i as int]));
                assert(after.drop_last() =~= pieces.drop_last());
                let longer = chars@.subrange(start as int, i + 1);
                assert(piece.push(chars@[i as int]) =~= longer);
                if is_blank(piece) && is_space(chars@[i as int]) {
                    assert forall|k: int| 0 <= k < longer.len() implies is_space(
                        #[trigger] longer[k],
                    ) by {
                        if k < piece.len() {
                            assert(longer[k] == piece[k]);
                        }
                    }
                } else if !is_blank(piece) {
                    let k = choose|k: int| 0 <= k < piece.len() && !is_space(#[trigger] piece[k]);
                    assert(longer[k] == piece[k]);
                } else {
                    assert(longer[longer.len() - 1] == chars@[i as int]);
                }
            }
            blank = blank && is_whitespace(chars[i]);
        }
        i = i + 1;
    }
    proof {
        assert(chars@.take(n as int) =~= output@);
        let pieces = split(output@, '\n');
        assert(pieces.drop_last().push(pieces.last()) =~= pieces);
    }
    if !blank {
        push_line(&mut lines, &chars, start, n);
    }
    lines
}

/// Whether `s` ends with `suffix`.
pub open spec fn has_suffix(s: Seq<char>, suffix: Seq<char>) -> bool {
    suffix.len() <= s.len() && s.subrange(s.len() - suffix.len(), s.len() as int) == suffix
}

pub fn ends_with(s: &Vec<char>, suffix: &Vec<char>) -> (found: bool)
    ensures
        found == has_suffix(s@, suffix@),
{
    if suffix.len() > s.len() {
        return false;
    }
    let offset: usize = s.len() - suffix.len();
    let mut i: usize = 0;
    while i < suffix.len()
        invariant
            offset + suffix.len() == s.len(),
            i <= suffix.len(),
            forall|k: int| 0 <= k < i ==> s@[offset + k] == suffix@[k],
        decreases suffix.len() - i,
    {
        if s[offset + i] != suffix[i] {
            assert(s@.subrange(offset as int, s.len() as int)[i as int] != suffix@[i as int]);
            return false;
        }
        i = i + 1;
    }
    assert(s@.subrange(offset as int, s.len() as int) =~= suffix@);
    true
}

} // verus!
