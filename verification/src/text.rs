//! Character-level text handling over `Seq<char>` views: line splitting,
//! whitespace, literal comparison, and the number grammars that the patch
//! script accepts.

use vstd::prelude::*;
use vstd::string::*;

verus! {

broadcast use vstd::string::group_string_axioms;

// ---------------------------------------------------------------------------
// Character classes
// ---------------------------------------------------------------------------

/// Unicode `White_Space`, the class that `char::is_whitespace`, `str::trim`
/// and `str::split_whitespace` use.
pub open spec fn is_white_space(c: char) -> bool {
    let u = c as u32;
    ||| 0x9 <= u <= 0xD
    ||| u == 0x20
    ||| u == 0x85
    ||| u == 0xA0
    ||| u == 0x1680
    ||| 0x2000 <= u <= 0x200A
    ||| u == 0x2028
    ||| u == 0x2029
    ||| u == 0x202F
    ||| u == 0x205F
    ||| u == 0x3000
}

pub fn is_white_space_char(c: char) -> (b: bool)
    ensures
        b == is_white_space(c),
{
    let u = c as u32;
    (0x9 <= u && u <= 0xD) || u == 0x20 || u == 0x85 || u == 0xA0 || u == 0x1680 || (0x2000 <= u
        && u <= 0x200A) || u == 0x2028 || u == 0x2029 || u == 0x202F || u == 0x205F || u == 0x3000
}

pub open spec fn is_digit(c: char) -> bool {
    '0' <= c <= '9'
}

pub open spec fn all_digits(s: Seq<char>) -> bool {
    forall|i: int| 0 <= i < s.len() ==> is_digit(#[trigger] s[i])
}

pub open spec fn is_sign(c: char) -> bool {
    c == '+' || c == '-'
}

// ---------------------------------------------------------------------------
// Scanning prefixes
// ---------------------------------------------------------------------------

/// Index of the first `c` in `s`, or `s.len()` when there is none.
pub open spec fn first_index(s: Seq<char>, c: char) -> nat
    decreases s.len(),
{
    if s.len() == 0 {
        0
    } else if s[0] == c {
        0
    } else {
        1 + first_index(s.drop_first(), c)
    }
}

/// Number of white-space characters at the start of `s`.
pub open spec fn leading_ws(s: Seq<char>) -> nat
    decreases s.len(),
{
    if s.len() > 0 && is_white_space(s[0]) {
        1 + leading_ws(s.drop_first())
    } else {
        0
    }
}

/// Number of non-white-space characters at the start of `s`.
pub open spec fn word_len(s: Seq<char>) -> nat
    decreases s.len(),
{
    if s.len() > 0 && !is_white_space(s[0]) {
        1 + word_len(s.drop_first())
    } else {
        0
    }
}

pub proof fn lemma_first_index(s: Seq<char>, c: char, k: int)
    requires
        0 <= k <= s.len(),
        forall|j: int| 0 <= j < k ==> s[j] != c,
        k == s.len() || s[k] == c,
    ensures
        first_index(s, c) == k,
    decreases k,
{
    if k > 0 {
        lemma_first_index(s.drop_first(), c, k - 1);
    }
}

pub proof fn lemma_first_index_bound(s: Seq<char>, c: char)
    ensures
        first_index(s, c) <= s.len(),
        first_index(s, c) < s.len() ==> s[first_index(s, c) as int] == c,
        forall|j: int| 0 <= j < first_index(s, c) ==> s[j] != c,
    decreases s.len(),
{
    if s.len() > 0 && s[0] != c {
        lemma_first_index_bound(s.drop_first(), c);
        assert forall|j: int| 0 <= j < first_index(s, c) implies s[j] != c by {
            if j > 0 {
                assert(s.drop_first()[j - 1] == s[j]);
            }
        }
    }
}

pub proof fn lemma_leading_ws(s: Seq<char>, k: int)
    requires
        0 <= k <= s.len(),
        forall|j: int| 0 <= j < k ==> is_white_space(s[j]),
        k == s.len() || !is_white_space(s[k]),
    ensures
        leading_ws(s) == k,
    decreases k,
{
    if k > 0 {
        lemma_leading_ws(s.drop_first(), k - 1);
    }
}

pub proof fn lemma_leading_ws_bound(s: Seq<char>)
    ensures
        leading_ws(s) <= s.len(),
        leading_ws(s) < s.len() ==> !is_white_space(s[leading_ws(s) as int]),
    decreases s.len(),
{
    if s.len() > 0 && is_white_space(s[0]) {
        lemma_leading_ws_bound(s.drop_first());
    }
}

pub proof fn lemma_word_len(s: Seq<char>, k: int)
    requires
        0 <= k <= s.len(),
        forall|j: int| 0 <= j < k ==> !is_white_space(s[j]),
        k == s.len() || is_white_space(s[k]),
    ensures
        word_len(s) == k,
    decreases k,
{
    if k > 0 {
        lemma_word_len(s.drop_first(), k - 1);
    }
}

pub proof fn lemma_word_len_bound(s: Seq<char>)
    ensures
        word_len(s) <= s.len(),
        s.len() > 0 && !is_white_space(s[0]) ==> word_len(s) > 0,
    decreases s.len(),
{
    if s.len() > 0 && !is_white_space(s[0]) {
        lemma_word_len_bound(s.drop_first());
    }
}

// ---------------------------------------------------------------------------
// Lines and words
// ---------------------------------------------------------------------------

/// One line without its line ending: a `\r` before the `\n` goes too.
pub open spec fn strip_cr(l: Seq<char>) -> Seq<char> {
    if l.len() > 0 && l.last() == '\r' {
        l.drop_last()
    } else {
        l
    }
}

/// The lines of `s`, as `str::lines` yields them: split after each `\n`,
/// each line without its `\n` or `\r\n` ending; a final line ending adds no
/// empty line.
pub open spec fn spec_lines(s: Seq<char>) -> Seq<Seq<char>>
    decreases s.len(),
{
    if s.len() == 0 {
        seq![]
    } else {
        let i = first_index(s, '\n') as int;
        if i >= s.len() {
            seq![s]
        } else {
            seq![strip_cr(s.take(i))] + spec_lines(s.skip(i + 1))
        }
    }
}

/// `lines` one below the other, as `join("\n")` joins them.
pub open spec fn join_lines(lines: Seq<Seq<char>>) -> Seq<char>
    decreases lines.len(),
{
    if lines.len() == 0 {
        seq![]
    } else if lines.len() == 1 {
        lines[0]
    } else {
        join_lines(lines.drop_last()) + "\n"@ + lines.last()
    }
}

/// `join_lines` seen from the front: the first line, a line feed, and the
/// rest joined.
proof fn lemma_join_lines_front(xs: Seq<Seq<char>>)
    requires
        xs.len() >= 2,
    ensures
        join_lines(xs) == xs[0] + "\n"@ + join_lines(xs.drop_first()),
    decreases xs.len(),
{
    if xs.len() == 2 {
        assert(xs.drop_last() =~= seq![xs[0]]);
        assert(xs.drop_first() =~= seq![xs[1]]);
        assert(join_lines(xs.drop_last()) == xs[0]);
        assert(join_lines(xs.drop_first()) == xs[1]);
        assert(join_lines(xs) == join_lines(xs.drop_last()) + "\n"@ + xs.last());
    } else {
        let d = xs.drop_last();
        let f = xs.drop_first();
        lemma_join_lines_front(d);
        assert(f.drop_last() =~= d.drop_first());
        assert(f.last() == xs.last());
        assert(d[0] == xs[0]);
        assert(join_lines(xs) == join_lines(d) + "\n"@ + xs.last());
        assert(join_lines(f) == join_lines(f.drop_last()) + "\n"@ + f.last());
        assert(join_lines(d) == d[0] + "\n"@ + join_lines(d.drop_first()));
        assert(join_lines(xs) =~= xs[0] + "\n"@ + join_lines(f));
    }
}

/// No line of `s` holds a line feed.
pub proof fn lemma_lines_without_newline(s: Seq<char>)
    ensures
        forall|i: int, j: int|
            0 <= i < spec_lines(s).len() && 0 <= j < spec_lines(s)[i].len() ==> spec_lines(
                s,
            )[i][j] != '\n',
    decreases s.len(),
{
    if s.len() > 0 {
        let i = first_index(s, '\n') as int;
        lemma_first_index_bound(s, '\n');
        if i < s.len() {
            lemma_lines_without_newline(s.skip(i + 1));
            let ls = spec_lines(s);
            assert forall|a: int, b: int|
                0 <= a < ls.len() && 0 <= b < ls[a].len() implies ls[a][b] != '\n' by {
                if a == 0 {
                    assert(ls[0] == strip_cr(s.take(i)));
                    assert(ls[0][b] == s[b]);
                } else {
                    assert(ls[a] == spec_lines(s.skip(i + 1))[a - 1]);
                }
            }
        }
    }
}

/// Lines without line feeds, none ending in a carriage return and the last
/// one not empty, come back from their join as they were.
pub proof fn lemma_lines_of_joined(xs: Seq<Seq<char>>)
    requires
        forall|i: int, j: int| 0 <= i < xs.len() && 0 <= j < xs[i].len() ==> xs[i][j] != '\n',
        forall|i: int| 0 <= i < xs.len() ==> strip_cr(#[trigger] xs[i]) == xs[i],
        xs.len() > 0 ==> xs.last().len() > 0,
    ensures
        spec_lines(join_lines(xs)) == xs,
    decreases xs.len(),
{
    reveal_strlit("\n");
    if xs.len() == 1 {
        lemma_first_index(xs[0], '\n', xs[0].len() as int);
        assert(spec_lines(join_lines(xs)) =~= xs);
    } else if xs.len() >= 2 {
        lemma_join_lines_front(xs);
        let a = xs[0];
        let rest = join_lines(xs.drop_first());
        let s = join_lines(xs);
        assert(s =~= a + seq!['\n'] + rest);
        assert forall|j: int| 0 <= j < a.len() implies s[j] != '\n' by {
            assert(s[j] == a[j]);
        }
        lemma_first_index(s, '\n', a.len() as int);
        assert(s.take(a.len() as int) =~= a);
        assert(s.skip(a.len() + 1 as int) =~= rest);
        assert(strip_cr(xs[0]) == xs[0]);
        lemma_lines_of_joined(xs.drop_first());
        assert(xs =~= seq![a] + xs.drop_first());
    }
}

/// The white-space separated words of `s`, as `str::split_whitespace` yields
/// them.
pub open spec fn words(s: Seq<char>) -> Seq<Seq<char>>
    decreases s.len(),
{
    let t = s.skip(leading_ws(s) as int);
    if leading_ws(s) >= s.len() {
        seq![]
    } else {
        let w = word_len(t) as int;
        if w == 0 {
            seq![]
        } else {
            proof {
                lemma_leading_ws_bound(s);
                lemma_word_len_bound(t);
            }
            seq![t.take(w)] + words(t.skip(w))
        }
    }
}

/// What precedes the first `#` of `s` (all of `s` when it has none).
pub open spec fn before_hash(s: Seq<char>) -> Seq<char> {
    s.take(first_index(s, '#') as int)
}

/// The pieces of `s` between its `;` separators, in order (one piece when
/// it has none).
pub open spec fn split_at_semis(s: Seq<char>) -> Seq<Seq<char>>
    decreases s.len(),
{
    let i = first_index(s, ';') as int;
    if i >= s.len() {
        seq![s]
    } else {
        seq![s.take(i)] + split_at_semis(s.skip(i + 1))
    }
}

/// The pieces of `chars[lo..hi]` between its `;` separators, each as the
/// half-open range it occupies.
pub fn piece_ranges(chars: &Vec<char>, lo: usize, hi: usize) -> (out: Vec<(usize, usize)>)
    requires
        lo <= hi <= chars@.len(),
    ensures
        out@.len() == split_at_semis(chars@.subrange(lo as int, hi as int)).len(),
        forall|i: int|
            #![trigger out@[i]]
            0 <= i < out@.len() ==> {
                &&& lo <= out@[i].0 <= out@[i].1
                &&& out@[i].1 <= hi
                &&& split_at_semis(chars@.subrange(lo as int, hi as int))[i] == chars@.subrange(
                    out@[i].0 as int,
                    out@[i].1 as int,
                )
            },
{
    let mut out: Vec<(usize, usize)> = Vec::new();
    let mut pos = lo;
    let ghost mut done: Seq<Seq<char>> = seq![];
    proof {
        assert(done + split_at_semis(chars@.subrange(lo as int, hi as int)) =~= split_at_semis(
            chars@.subrange(lo as int, hi as int),
        ));
    }
    loop
        invariant_except_break
            split_at_semis(chars@.subrange(lo as int, hi as int)) == done + split_at_semis(
                chars@.subrange(pos as int, hi as int),
            ),
        invariant
            lo <= pos <= hi,
            hi <= chars@.len(),
            out@.len() == done.len(),
            forall|i: int|
                #![trigger out@[i]]
                0 <= i < out@.len() ==> {
                    &&& lo <= out@[i].0 <= out@[i].1
                    &&& out@[i].1 <= hi
                    &&& done[i] == chars@.subrange(out@[i].0 as int, out@[i].1 as int)
                },
        ensures
            split_at_semis(chars@.subrange(lo as int, hi as int)) == done,
            out@.len() == done.len(),
            forall|i: int|
                #![trigger out@[i]]
                0 <= i < out@.len() ==> {
                    &&& lo <= out@[i].0 <= out@[i].1
                    &&& out@[i].1 <= hi
                    &&& done[i] == chars@.subrange(out@[i].0 as int, out@[i].1 as int)
                },
        decreases hi - pos,
    {
        let ghost s = chars@.subrange(pos as int, hi as int);
        let mut j = pos;
        while j < hi && chars[j] != ';'
            invariant
                pos <= j <= hi,
                hi <= chars@.len(),
                forall|k: int| pos <= k < j ==> chars@[k] != ';',
            decreases hi - j,
        {
            j = j + 1;
        }
        proof {
            lemma_first_index(s, ';', j - pos);
            let piece = chars@.subrange(pos as int, j as int);
            assert(s.take(j - pos) =~= piece);
            if j < hi {
                assert(s.skip(j - pos + 1) =~= chars@.subrange(j + 1, hi as int));
                assert(done + (seq![piece] + split_at_semis(chars@.subrange(j + 1, hi as int)))
                    =~= done.push(piece) + split_at_semis(chars@.subrange(j + 1, hi as int)));
            } else {
                assert(s =~= piece);
                assert(done + seq![piece] =~= done.push(piece));
            }
            done = done.push(piece);
        }
        out.push((pos, j));
        proof {
            assert forall|i: int| #![trigger out@[i]] 0 <= i < out@.len() implies {
                &&& lo <= out@[i].0 <= out@[i].1
                &&& out@[i].1 <= hi
                &&& done[i] == chars@.subrange(out@[i].0 as int, out@[i].1 as int)
            } by {
                if i < out@.len() - 1 {
                    assert(done[i] == done.drop_last()[i]);
                }
            }
        }
        if j == hi {
            break;
        }
        pos = j + 1;
    }
    out
}

/// All of `g` is white space.
pub open spec fn all_white_space(g: Seq<char>) -> bool {
    forall|i: int| 0 <= i < g.len() ==> is_white_space(#[trigger] g[i])
}

/// White space after a text adds no word.
pub proof fn lemma_words_trailing_white_space(p: Seq<char>, g: Seq<char>)
    requires
        all_white_space(g),
    ensures
        words(p + g) == words(p),
    decreases p.len(),
{
    let pg = p + g;
    lemma_leading_ws_bound(p);
    let lw = leading_ws(p) as int;
    if lw >= p.len() {
        assert forall|j: int| 0 <= j < pg.len() implies is_white_space(pg[j]) by {
            if j < p.len() {
                lemma_leading_ws_prefix(p, j);
            } else {
                assert(pg[j] == g[j - p.len()]);
            }
        }
        lemma_leading_ws(pg, pg.len() as int);
    } else {
        assert forall|j: int| 0 <= j < lw implies is_white_space(pg[j]) by {
            lemma_leading_ws_prefix(p, j);
            assert(pg[j] == p[j]);
        }
        assert(pg[lw] == p[lw]);
        lemma_leading_ws(pg, lw);
        let t = p.skip(lw);
        let tg = pg.skip(lw);
        assert(tg =~= t + g);
        lemma_word_len_bound(t);
        let w = word_len(t) as int;
        assert(w > 0) by {
            assert(t[0] == p[lw]);
            if w == 0 {
                assert(!is_white_space(t[0]));
            }
        }
        assert forall|j: int| 0 <= j < w implies !is_white_space(tg[j]) by {
            lemma_word_len_prefix(t, j);
            assert(tg[j] == t[j]);
        }
        if w < t.len() {
            assert(tg[w] == t[w]);
            lemma_word_len_stop(t);
        } else if w < tg.len() {
            assert(tg[w] == g[w - t.len()]);
            assert(is_white_space(g[w - t.len()]));
        }
        lemma_word_len(tg, w);
        assert(tg.take(w) =~= t.take(w));
        assert(tg.skip(w) =~= t.skip(w) + g);
        lemma_words_trailing_white_space(t.skip(w), g);
    }
}

proof fn lemma_leading_ws_prefix(s: Seq<char>, j: int)
    requires
        0 <= j < leading_ws(s),
    ensures
        j < s.len(),
        is_white_space(s[j]),
    decreases s.len(),
{
    if j > 0 {
        lemma_leading_ws_prefix(s.drop_first(), j - 1);
    }
}

proof fn lemma_word_len_stop(s: Seq<char>)
    ensures
        word_len(s) < s.len() ==> is_white_space(s[word_len(s) as int]),
    decreases s.len(),
{
    if s.len() > 0 && !is_white_space(s[0]) {
        lemma_word_len_stop(s.drop_first());
    }
}

proof fn lemma_word_len_prefix(s: Seq<char>, j: int)
    requires
        0 <= j < word_len(s),
    ensures
        j < s.len(),
        !is_white_space(s[j]),
    decreases s.len(),
{
    if j > 0 {
        lemma_word_len_prefix(s.drop_first(), j - 1);
    }
}

/// Text without `;` after `s` joins its last piece.
pub proof fn lemma_split_append(s: Seq<char>, g: Seq<char>)
    requires
        forall|i: int| 0 <= i < g.len() ==> g[i] != ';',
    ensures
        split_at_semis(s).len() > 0,
        split_at_semis(s + g) == split_at_semis(s).drop_last().push(split_at_semis(s).last() + g),
    decreases s.len(),
{
    let sg = s + g;
    lemma_first_index_bound(s, ';');
    let i = first_index(s, ';') as int;
    if i < s.len() {
        assert forall|j: int| 0 <= j < i implies sg[j] != ';' by {
            assert(sg[j] == s[j]);
        }
        assert(sg[i] == s[i]);
        lemma_first_index(sg, ';', i);
        assert(sg.take(i) =~= s.take(i));
        assert(sg.skip(i + 1) =~= s.skip(i + 1) + g);
        lemma_split_append(s.skip(i + 1), g);
        let rest = split_at_semis(s.skip(i + 1));
        assert(split_at_semis(s) == seq![s.take(i)] + rest);
        assert((seq![s.take(i)] + rest).drop_last() =~= seq![s.take(i)] + rest.drop_last());
        assert(seq![s.take(i)] + rest.drop_last().push(rest.last() + g) =~= (seq![s.take(i)]
            + rest.drop_last()).push(rest.last() + g));
    } else {
        assert forall|j: int| 0 <= j < sg.len() implies sg[j] != ';' by {
            if j < s.len() {
                assert(sg[j] == s[j]);
            } else {
                assert(sg[j] == g[j - s.len()]);
            }
        }
        lemma_first_index(sg, ';', sg.len() as int);
        assert(seq![s].drop_last().push(s + g) =~= seq![s + g]);
    }
}

/// The lines of `chars[lo..hi]`: each entry is the half-open range of one
/// line, its ending excluded.
pub fn line_ranges(chars: &Vec<char>) -> (out: Vec<(usize, usize)>)
    ensures
        out@.len() == spec_lines(chars@).len(),
        forall|i: int|
            #![trigger out@[i]]
            0 <= i < out@.len() ==> {
                &&& out@[i].0 <= out@[i].1
                &&& out@[i].1 <= chars@.len()
                &&& spec_lines(chars@)[i] == chars@.subrange(
                    out@[i].0 as int,
                    out@[i].1 as int,
                )
            },
{
    let n = chars.len();
    let mut out: Vec<(usize, usize)> = Vec::new();
    let mut pos: usize = 0;
    let ghost mut done: Seq<Seq<char>> = seq![];
    proof {
        assert(chars@.skip(0) =~= chars@);
        assert(done + spec_lines(chars@.skip(0)) =~= spec_lines(chars@));
    }
    while pos < n
        invariant
            n == chars@.len(),
            pos <= n,
            spec_lines(chars@) == done + spec_lines(chars@.skip(pos as int)),
            out@.len() == done.len(),
            forall|i: int|
                #![trigger out@[i]]
                0 <= i < out@.len() ==> {
                    &&& out@[i].0 <= out@[i].1
                    &&& out@[i].1 <= chars@.len()
                    &&& done[i] == chars@.subrange(out@[i].0 as int, out@[i].1 as int)
                },
        decreases n - pos,
    {
        let ghost rest = chars@.skip(pos as int);
        let mut j = pos;
        while j < n && chars[j] != '\n'
            invariant
                pos <= j <= n,
                n == chars@.len(),
                forall|k: int| pos <= k < j ==> chars@[k] != '\n',
            decreases n - j,
        {
            j = j + 1;
        }
        proof {
            lemma_first_index(rest, '\n', j - pos);
        }
        let mut end = j;
        if j < n && end > pos && chars[end - 1] == '\r' {
            end = end - 1;
        }
        proof {
            if j < n {
                assert(rest.take(j - pos) =~= chars@.subrange(pos as int, j as int));
                assert(rest.skip(j - pos + 1) =~= chars@.skip(j + 1));
                assert(strip_cr(rest.take(j - pos)) =~= chars@.subrange(pos as int, end as int));
            } else {
                assert(rest =~= chars@.subrange(pos as int, end as int));
                assert(chars@.skip(n as int) =~= seq![]);
            }
            assert(spec_lines(rest) == seq![chars@.subrange(pos as int, end as int)]
                + spec_lines(chars@.skip(if j < n { j + 1 } else { n as int })));
            let line = chars@.subrange(pos as int, end as int);
            assert(done + (seq![line] + spec_lines(chars@.skip(if j < n { j + 1 } else { n as int }))) =~= done.push(line) + spec_lines(chars@.skip(if j < n { j + 1 } else { n as int })));
            done = done.push(line);
        }
        out.push((pos, end));
        proof {
            assert forall|i: int| #![trigger out@[i]] 0 <= i < out@.len() implies {
                &&& out@[i].0 <= out@[i].1
                &&& out@[i].1 <= chars@.len()
                &&& done[i] == chars@.subrange(out@[i].0 as int, out@[i].1 as int)
            } by {
                if i < out@.len() - 1 {
                    assert(done[i] == done.drop_last()[i]);
                }
            }
        }
        if j < n {
            pos = j + 1;
        } else {
            pos = n;
        }
        proof {
            assert(spec_lines(chars@) == done + spec_lines(chars@.skip(pos as int)));
        }
    }
    proof {
        assert(chars@.skip(n as int) =~= seq![]);
        assert(spec_lines(chars@.skip(n as int)) =~= seq![]);
        assert(done + seq![] =~= done);
        assert(spec_lines(chars@) == done);
    }
    out
}


/// The characters of `s`, in order.
pub fn chars_of(s: &str) -> (out: Vec<char>)
    ensures
        out@ == s@,
{
    let mut out: Vec<char> = Vec::new();
    for c in it: s.chars()
        invariant
            out@ == it.seq().take(it.index() as int),
            it.seq() == s@,
    {
        out.push(c);
    }
    out
}

/// The end of what precedes the first `#` in `chars[lo..hi]`.
pub fn hash_cut(chars: &Vec<char>, lo: usize, hi: usize) -> (cut: usize)
    requires
        lo <= hi <= chars@.len(),
    ensures
        lo <= cut <= hi,
        chars@.subrange(lo as int, cut as int) == before_hash(chars@.subrange(lo as int, hi as int)),
{
    let mut k = lo;
    while k < hi && chars[k] != '#'
        invariant
            lo <= k <= hi,
            hi <= chars@.len(),
            forall|j: int| lo <= j < k ==> chars@[j] != '#',
        decreases hi - k,
    {
        k = k + 1;
    }
    proof {
        let s = chars@.subrange(lo as int, hi as int);
        lemma_first_index(s, '#', k - lo);
        assert(s.take(k - lo) =~= chars@.subrange(lo as int, k as int));
    }
    k
}

/// The words of `chars[lo..hi]`, each as the half-open range it occupies.
pub fn word_ranges(chars: &Vec<char>, lo: usize, hi: usize) -> (out: Vec<(usize, usize)>)
    requires
        lo <= hi <= chars@.len(),
    ensures
        out@.len() == words(chars@.subrange(lo as int, hi as int)).len(),
        forall|i: int|
            #![trigger out@[i]]
            0 <= i < out@.len() ==> {
                &&& lo <= out@[i].0 < out@[i].1
                &&& out@[i].1 <= hi
                &&& words(chars@.subrange(lo as int, hi as int))[i] == chars@.subrange(
                    out@[i].0 as int,
                    out@[i].1 as int,
                )
            },
{
    let mut out: Vec<(usize, usize)> = Vec::new();
    let mut pos = lo;
    let ghost mut done: Seq<Seq<char>> = seq![];
    proof {
        assert(done + words(chars@.subrange(lo as int, hi as int)) =~= words(
            chars@.subrange(lo as int, hi as int),
        ));
    }
    loop
        invariant
            lo <= pos <= hi,
            hi <= chars@.len(),
            words(chars@.subrange(lo as int, hi as int)) == done + words(
                chars@.subrange(pos as int, hi as int),
            ),
            out@.len() == done.len(),
            forall|i: int|
                #![trigger out@[i]]
                0 <= i < out@.len() ==> {
                    &&& lo <= out@[i].0 < out@[i].1
                    &&& out@[i].1 <= hi
                    &&& done[i] == chars@.subrange(out@[i].0 as int, out@[i].1 as int)
                },
        ensures
            words(chars@.subrange(lo as int, hi as int)) == done,
            out@.len() == done.len(),
            forall|i: int|
                #![trigger out@[i]]
                0 <= i < out@.len() ==> {
                    &&& lo <= out@[i].0 < out@[i].1
                    &&& out@[i].1 <= hi
                    &&& done[i] == chars@.subrange(out@[i].0 as int, out@[i].1 as int)
                },
        decreases hi - pos,
    {
        let ghost s = chars@.subrange(pos as int, hi as int);
        let mut k = pos;
        while k < hi && is_white_space_char(chars[k])
            invariant
                pos <= k <= hi,
                hi <= chars@.len(),
                forall|j: int| pos <= j < k ==> is_white_space(chars@[j]),
            decreases hi - k,
        {
            k = k + 1;
        }
        proof {
            lemma_leading_ws(s, k - pos);
        }
        if k == hi {
            proof {
                assert(words(s) =~= seq![]);
                assert(done + seq![] =~= done);
            }
            break;
        }
        let mut e = k;
        while e < hi && !is_white_space_char(chars[e])
            invariant
                k <= e <= hi,
                hi <= chars@.len(),
                forall|j: int| k <= j < e ==> !is_white_space(chars@[j]),
            decreases hi - e,
        {
            e = e + 1;
        }
        proof {
            let t = s.skip(k - pos);
            assert(t =~= chars@.subrange(k as int, hi as int));
            lemma_word_len(t, e - k);
            assert(t.take(e - k) =~= chars@.subrange(k as int, e as int));
            assert(t.skip(e - k) =~= chars@.subrange(e as int, hi as int));
            let w = chars@.subrange(k as int, e as int);
            assert(words(s) == seq![w] + words(chars@.subrange(e as int, hi as int)));
            assert(done + (seq![w] + words(chars@.subrange(e as int, hi as int))) =~= done.push(w)
                + words(chars@.subrange(e as int, hi as int)));
            done = done.push(w);
        }
        out.push((k, e));
        proof {
            assert forall|i: int| #![trigger out@[i]] 0 <= i < out@.len() implies {
                &&& lo <= out@[i].0 < out@[i].1
                &&& out@[i].1 <= hi
                &&& done[i] == chars@.subrange(out@[i].0 as int, out@[i].1 as int)
            } by {
                if i < out@.len() - 1 {
                    assert(done[i] == done.drop_last()[i]);
                }
            }
        }
        pos = e;
    }
    out
}

/// Whether `chars[lo..hi]` and `lit` are the same characters.
pub fn range_eq(chars: &Vec<char>, lo: usize, hi: usize, lit: &str) -> (b: bool)
    requires
        lo <= hi <= chars@.len(),
    ensures
        b == (chars@.subrange(lo as int, hi as int) == lit@),
{
    let n = lit.unicode_len();
    if n != hi - lo {
        return false;
    }
    let mut i: usize = 0;
    while i < n
        invariant
            n == lit@.len(),
            n == hi - lo,
            lo <= hi <= chars@.len(),
            i <= n,
            forall|j: int| 0 <= j < i ==> chars@[lo + j] == lit@[j],
        decreases n - i,
    {
        if chars[lo + i] != lit.get_char(i) {
            proof {
                assert(chars@.subrange(lo as int, hi as int)[i as int] != lit@[i as int]);
            }
            return false;
        }
        i = i + 1;
    }
    proof {
        assert(chars@.subrange(lo as int, hi as int) =~= lit@);
    }
    true
}

// ---------------------------------------------------------------------------
// Number grammars
// ---------------------------------------------------------------------------

pub open spec fn without_sign(s: Seq<char>) -> Seq<char> {
    if s.len() > 0 && is_sign(s[0]) {
        s.drop_first()
    } else {
        s
    }
}

/// `s` equals the lower-case ASCII word `lit` when ASCII case is ignored.
pub open spec fn eq_ignore_ascii_case(s: Seq<char>, lit: Seq<char>) -> bool {
    &&& s.len() == lit.len()
    &&& forall|i: int|
        0 <= i < s.len() ==> (#[trigger] s[i] == lit[i] || ('a' <= lit[i] <= 'z' && s[i] as u32
            + 32 == lit[i] as u32))
}

/// Index of the first exponent marker (`e` or `E`) in `s`, or `s.len()`.
pub open spec fn exp_index(s: Seq<char>) -> nat
    decreases s.len(),
{
    if s.len() == 0 {
        0
    } else if s[0] == 'e' || s[0] == 'E' {
        0
    } else {
        1 + exp_index(s.drop_first())
    }
}

pub proof fn lemma_exp_index(s: Seq<char>, k: int)
    requires
        0 <= k <= s.len(),
        forall|j: int| 0 <= j < k ==> s[j] != 'e' && s[j] != 'E',
        k == s.len() || s[k] == 'e' || s[k] == 'E',
    ensures
        exp_index(s) == k,
    decreases k,
{
    if k > 0 {
        lemma_exp_index(s.drop_first(), k - 1);
    }
}

/// `Digit+ | Digit+ '.' Digit* | Digit* '.' Digit+`
pub open spec fn is_mantissa(m: Seq<char>) -> bool {
    let p = first_index(m, '.') as int;
    if p >= m.len() {
        m.len() > 0 && all_digits(m)
    } else {
        all_digits(m.take(p)) && all_digits(m.skip(p + 1)) && (p > 0 || p + 1 < m.len())
    }
}

/// `'e' Sign? Digit+` after its marker.
pub open spec fn is_exponent_digits(x: Seq<char>) -> bool {
    without_sign(x).len() > 0 && all_digits(without_sign(x))
}

pub open spec fn is_decimal(b: Seq<char>) -> bool {
    let e = exp_index(b) as int;
    is_mantissa(b.take(e)) && (e >= b.len() || is_exponent_digits(b.skip(e + 1)))
}

/// The grammar that `f32::from_str` documents:
/// `Sign? ( 'inf' | 'infinity' | 'nan' | Number )`, ASCII case ignored.
pub open spec fn is_float_literal(s: Seq<char>) -> bool {
    let b = without_sign(s);
    ||| eq_ignore_ascii_case(b, seq!['i', 'n', 'f'])
    ||| eq_ignore_ascii_case(b, seq!['i', 'n', 'f', 'i', 'n', 'i', 't', 'y'])
    ||| eq_ignore_ascii_case(b, seq!['n', 'a', 'n'])
    ||| is_decimal(b)
}

/// The value of a string of decimal digits.
pub open spec fn decimal_value(d: Seq<char>) -> nat
    decreases d.len(),
{
    if d.len() == 0 {
        0
    } else {
        decimal_value(d.drop_last()) * 10 + (d.last() as u32 - '0' as u32) as nat
    }
}

/// The grammar that `u64::from_str` documents: an optional `+` followed by
/// decimal digits only, whose value fits in a `u64`.
pub open spec fn is_u64_literal(s: Seq<char>) -> bool {
    let d = if s.len() > 0 && s[0] == '+' {
        s.drop_first()
    } else {
        s
    };
    d.len() > 0 && all_digits(d) && decimal_value(d) <= u64::MAX
}

pub open spec fn u64_literal_value(s: Seq<char>) -> nat {
    if s.len() > 0 && s[0] == '+' {
        decimal_value(s.drop_first())
    } else {
        decimal_value(s)
    }
}

fn all_digits_range(chars: &Vec<char>, lo: usize, hi: usize) -> (b: bool)
    requires
        lo <= hi <= chars@.len(),
    ensures
        b == all_digits(chars@.subrange(lo as int, hi as int)),
{
    let mut i = lo;
    while i < hi
        invariant
            lo <= i <= hi,
            hi <= chars@.len(),
            forall|j: int| lo <= j < i ==> is_digit(chars@[j]),
        decreases hi - i,
    {
        if !('0' <= chars[i] && chars[i] <= '9') {
            proof {
                assert(!is_digit(chars@.subrange(lo as int, hi as int)[i - lo]));
            }
            return false;
        }
        i = i + 1;
    }
    proof {
        assert forall|j: int| 0 <= j < hi - lo implies is_digit(
            #[trigger] chars@.subrange(lo as int, hi as int)[j],
        ) by {
            assert(chars@.subrange(lo as int, hi as int)[j] == chars@[lo + j]);
        }
    }
    true
}

fn eq_ignore_ascii_case_range(chars: &Vec<char>, lo: usize, hi: usize, lit: &[char]) -> (b: bool)
    requires
        lo <= hi <= chars@.len(),
    ensures
        b == eq_ignore_ascii_case(chars@.subrange(lo as int, hi as int), lit@),
{
    let n = lit.len();
    if n != hi - lo {
        return false;
    }
    let mut i: usize = 0;
    while i < n
        invariant
            n == lit@.len(),
            n == hi - lo,
            lo <= hi <= chars@.len(),
            i <= n,
            forall|j: int|
                0 <= j < i ==> (chars@[lo + j] == lit@[j] || ('a' <= lit@[j] <= 'z' && chars@[lo
                    + j] as u32 + 32 == lit@[j] as u32)),
        decreases n - i,
    {
        let c = chars[lo + i];
        let l = lit[i];
        if !(c == l || ('a' <= l && l <= 'z' && (c as u32) == (l as u32) - 32)) {
            proof {
                let s = chars@.subrange(lo as int, hi as int);
                assert(s[i as int] == c);
            }
            return false;
        }
        i = i + 1;
    }
    proof {
        let s = chars@.subrange(lo as int, hi as int);
        assert forall|j: int| 0 <= j < s.len() implies (#[trigger] s[j] == lit@[j] || ('a'
            <= lit@[j] <= 'z' && s[j] as u32 + 32 == lit@[j] as u32)) by {
            assert(s[j] == chars@[lo + j]);
        }
    }
    true
}

fn is_mantissa_range(chars: &Vec<char>, lo: usize, hi: usize) -> (b: bool)
    requires
        lo <= hi <= chars@.len(),
    ensures
        b == is_mantissa(chars@.subrange(lo as int, hi as int)),
{
    let ghost m = chars@.subrange(lo as int, hi as int);
    let mut p = lo;
    while p < hi && chars[p] != '.'
        invariant
            lo <= p <= hi,
            hi <= chars@.len(),
            forall|j: int| lo <= j < p ==> chars@[j] != '.',
        decreases hi - p,
    {
        p = p + 1;
    }
    proof {
        lemma_first_index(m, '.', p - lo);
    }
    if p == hi {
        hi > lo && all_digits_range(chars, lo, hi)
    } else {
        proof {
            assert(m.take(p - lo) =~= chars@.subrange(lo as int, p as int));
            assert(m.skip(p - lo + 1) =~= chars@.subrange(p + 1, hi as int));
        }
        let a = all_digits_range(chars, lo, p);
        let c = all_digits_range(chars, p + 1, hi);
        a && c && (p > lo || p + 1 < hi)
    }
}

fn is_exponent_digits_range(chars: &Vec<char>, lo: usize, hi: usize) -> (b: bool)
    requires
        lo <= hi <= chars@.len(),
    ensures
        b == is_exponent_digits(chars@.subrange(lo as int, hi as int)),
{
    let ghost x = chars@.subrange(lo as int, hi as int);
    let start = if lo < hi && (chars[lo] == '+' || chars[lo] == '-') {
        lo + 1
    } else {
        lo
    };
    proof {
        assert(without_sign(x) =~= chars@.subrange(start as int, hi as int));
    }
    start < hi && all_digits_range(chars, start, hi)
}

/// Whether `chars[lo..hi]` is a number that `f32::from_str` accepts.
pub fn is_float_literal_range(chars: &Vec<char>, lo: usize, hi: usize) -> (b: bool)
    requires
        lo <= hi <= chars@.len(),
    ensures
        b == is_float_literal(chars@.subrange(lo as int, hi as int)),
{
    let ghost s = chars@.subrange(lo as int, hi as int);
    let start = if lo < hi && (chars[lo] == '+' || chars[lo] == '-') {
        lo + 1
    } else {
        lo
    };
    let ghost b = chars@.subrange(start as int, hi as int);
    proof {
        assert(without_sign(s) =~= b);
    }
    let inf: [char; 3] = ['i', 'n', 'f'];
    let infinity: [char; 8] = ['i', 'n', 'f', 'i', 'n', 'i', 't', 'y'];
    let nan: [char; 3] = ['n', 'a', 'n'];
    proof {
        assert(inf@ =~= seq!['i', 'n', 'f']);
        assert(infinity@ =~= seq!['i', 'n', 'f', 'i', 'n', 'i', 't', 'y']);
        assert(nan@ =~= seq!['n', 'a', 'n']);
    }
    if eq_ignore_ascii_case_range(chars, start, hi, &inf) || eq_ignore_ascii_case_range(
        chars,
        start,
        hi,
        &infinity,
    ) || eq_ignore_ascii_case_range(chars, start, hi, &nan) {
        return true;
    }
    let mut e = start;
    while e < hi && chars[e] != 'e' && chars[e] != 'E'
        invariant
            start <= e <= hi,
            hi <= chars@.len(),
            forall|j: int| start <= j < e ==> chars@[j] != 'e' && chars@[j] != 'E',
        decreases hi - e,
    {
        e = e + 1;
    }
    proof {
        lemma_exp_index(b, e - start);
        assert(b.take(e - start) =~= chars@.subrange(start as int, e as int));
        if e < hi {
            assert(b.skip(e - start + 1) =~= chars@.subrange(e + 1, hi as int));
        }
    }
    let mant = is_mantissa_range(chars, start, e);
    if !mant {
        return false;
    }
    if e == hi {
        true
    } else {
        is_exponent_digits_range(chars, e + 1, hi)
    }
}

pub proof fn lemma_decimal_value_prefix(d: Seq<char>, k: int)
    requires
        0 <= k <= d.len(),
        all_digits(d),
    ensures
        decimal_value(d.take(k)) <= decimal_value(d),
    decreases d.len() - k,
{
    if k < d.len() {
        let e = d.take(k + 1);
        assert(e.drop_last() =~= d.take(k));
        assert(is_digit(d[k]));
        lemma_decimal_value_prefix(d, k + 1);
        if k + 1 == d.len() {
            assert(e =~= d);
        }
    } else {
        assert(d.take(k) =~= d);
    }
}

/// `s[lo..hi]` read as `u64::from_str` reads it.
pub fn parse_u64_range(chars: &Vec<char>, lo: usize, hi: usize) -> (r: Option<u64>)
    requires
        lo <= hi <= chars@.len(),
    ensures
        r == (if is_u64_literal(chars@.subrange(lo as int, hi as int)) {
            Some(u64_literal_value(chars@.subrange(lo as int, hi as int)) as u64)
        } else {
            None::<u64>
        }),
{
    let ghost s = chars@.subrange(lo as int, hi as int);
    let start = if lo < hi && chars[lo] == '+' {
        lo + 1
    } else {
        lo
    };
    let ghost d = chars@.subrange(start as int, hi as int);
    proof {
        if lo < hi && chars@[lo as int] == '+' {
            assert(s.drop_first() =~= d);
        } else {
            assert(s =~= d);
        }
    }
    if start == hi || !all_digits_range(chars, start, hi) {
        return None;
    }
    let mut value: u64 = 0;
    let mut i = start;
    proof {
        assert(d.take(0) =~= seq![]);
    }
    proof {
        assert(s.len() > 0 ==> s[0] == chars@[lo as int]);
    }
    while i < hi
        invariant
            start <= i <= hi,
            hi <= chars@.len(),
            d == chars@.subrange(start as int, hi as int),
            s == chars@.subrange(lo as int, hi as int),
            u64_literal_value(s) == decimal_value(d),
            is_u64_literal(s) == (d.len() > 0 && all_digits(d) && decimal_value(d) <= u64::MAX),
            all_digits(d),
            value as nat == decimal_value(d.take(i - start)),
        decreases hi - i,
    {
        proof {
            assert(is_digit(d[i - start]));
            assert(d[i - start] == chars@[i as int]);
            assert(d.take(i - start + 1).drop_last() =~= d.take(i - start));
            assert(d.take(i - start + 1).last() == chars@[i as int]);
        }
        let digit = (chars[i] as u32 - '0' as u32) as u64;
        proof {
            assert(decimal_value(d.take(i - start + 1)) == value * 10 + digit);
        }
        match value.checked_mul(10) {
            None => {
                proof {
                    lemma_decimal_value_prefix(d, i - start + 1);
                }
                return None;
            },
            Some(v10) => match v10.checked_add(digit) {
                None => {
                    proof {
                        lemma_decimal_value_prefix(d, i - start + 1);
                    }
                    return None;
                },
                Some(v) => {
                    value = v;
                },
            },
        }
        i = i + 1;
    }
    proof {
        assert(d.take(hi - start) =~= d);
    }
    Some(value)
}


// ---------------------------------------------------------------------------
// Trimming
// ---------------------------------------------------------------------------

/// Number of white-space characters at the end of `s`.
pub open spec fn trailing_ws(s: Seq<char>) -> nat
    decreases s.len(),
{
    if s.len() > 0 && is_white_space(s.last()) {
        1 + trailing_ws(s.drop_last())
    } else {
        0
    }
}

pub proof fn lemma_trailing_ws(s: Seq<char>, k: int)
    requires
        0 <= k <= s.len(),
        forall|j: int| s.len() - k <= j < s.len() ==> is_white_space(s[j]),
        k == s.len() || !is_white_space(s[s.len() - k - 1]),
    ensures
        trailing_ws(s) == k,
    decreases k,
{
    if k > 0 {
        let t = s.drop_last();
        assert forall|j: int| t.len() - (k - 1) <= j < t.len() implies is_white_space(t[j]) by {
            assert(t[j] == s[j]);
        }
        if k - 1 < t.len() {
            assert(t[t.len() - (k - 1) - 1] == s[s.len() - k - 1]);
        }
        lemma_trailing_ws(t, k - 1);
    }
}

/// `s` without white space at either end, as `str::trim` gives it.
pub open spec fn trim(s: Seq<char>) -> Seq<char> {
    let a = s.skip(leading_ws(s) as int);
    a.take(a.len() - trailing_ws(a))
}

/// `s` without white space at either end.
pub fn trim_str(s: &str) -> (r: String)
    ensures
        r@ == trim(s@),
{
    let chars = chars_of(s);
    let n = chars.len();
    let mut a: usize = 0;
    while a < n && is_white_space_char(chars[a])
        invariant
            a <= n,
            n == chars@.len(),
            forall|j: int| 0 <= j < a ==> is_white_space(chars@[j]),
        decreases n - a,
    {
        a = a + 1;
    }
    proof {
        lemma_leading_ws(chars@, a as int);
    }
    let mut b: usize = n;
    while b > a && is_white_space_char(chars[b - 1])
        invariant
            a <= b <= n,
            n == chars@.len(),
            forall|j: int| b <= j < n ==> is_white_space(chars@[j]),
        decreases b - a,
    {
        b = b - 1;
    }
    proof {
        let t = chars@.skip(a as int);
        assert forall|j: int| t.len() - (n - b) <= j < t.len() implies is_white_space(t[j]) by {
            assert(t[j] == chars@[a + j]);
        }
        if n - b < t.len() {
            assert(t[t.len() - (n - b) - 1] == chars@[b - 1]);
        }
        lemma_trailing_ws(t, n - b);
        assert(t.take(t.len() - (n - b)) =~= chars@.subrange(a as int, b as int));
    }
    String::from_str(s.substring_char(a, b))
}

/// Unicode control characters (category Cc), as `char::is_control` tests.
pub open spec fn is_control(c: char) -> bool {
    let u = c as u32;
    u <= 0x1F || (0x7F <= u <= 0x9F)
}

/// The characters of `s` that are not control characters, in order.
pub open spec fn without_controls(s: Seq<char>) -> Seq<char> {
    s.filter(|c: char| !is_control(c))
}

/// A run of `n` spaces.
pub open spec fn spaces(n: nat) -> Seq<char> {
    Seq::new(n, |i: int| ' ')
}

/// `s` padded with spaces to at least `width` characters, as `{:<width}`
/// formats it.
pub open spec fn pad_right(s: Seq<char>, width: nat) -> Seq<char> {
    if s.len() >= width {
        s
    } else {
        s + spaces((width - s.len()) as nat)
    }
}

pub fn pad_right_str(s: &str, width: usize) -> (r: String)
    ensures
        r@ == pad_right(s@, width as nat),
{
    let n = s.unicode_len();
    let mut r = String::from_str(s);
    if n >= width {
        return r;
    }
    let mut k: usize = n;
    while k < width
        invariant
            n <= k <= width,
            n == s@.len(),
            r@ == s@ + spaces((k - n) as nat),
        decreases width - k,
    {
        let ghost before = r@;
        r.append(" ");
        proof {
            reveal_strlit(" ");
            assert(r@ =~= s@ + spaces((k + 1 - n) as nat));
        }
        k = k + 1;
    }
    r
}

// ---------------------------------------------------------------------------
// Decimal text
// ---------------------------------------------------------------------------

pub open spec fn digit_char(d: nat) -> char {
    seq!['0', '1', '2', '3', '4', '5', '6', '7', '8', '9'][d as int]
}

/// The decimal digits of `n`, most significant first, without leading zeros.
pub open spec fn decimal_digits(n: nat) -> Seq<char>
    decreases n,
{
    if n < 10 {
        seq![digit_char(n)]
    } else {
        decimal_digits(n / 10).push(digit_char(n % 10))
    }
}

/// `n` written in decimal.
pub fn decimal_string(n: u128) -> (s: String)
    ensures
        s@ == decimal_digits(n as nat),
{
    let digits: &str = "0123456789";
    proof {
        reveal_strlit("0123456789");
    }
    let mut rest: Vec<u128> = Vec::new();
    let mut m = n;
    while m >= 10
        invariant
            m as nat <= n as nat,
            decimal_digits(n as nat) == decimal_digits(m as nat) + digit_seq(rest@),
            forall|i: int| 0 <= i < rest@.len() ==> #[trigger] rest@[i] < 10,
        decreases m,
    {
        let ghost before = rest@;
        let d = m % 10;
        proof {
            assert(decimal_digits(m as nat) == decimal_digits((m / 10) as nat).push(digit_char(d as nat)));
            assert(digit_seq(seq![d].add(before)) =~= seq![digit_char(d as nat)] + digit_seq(before));
        }
        rest.insert(0, d);
        m = m / 10;
        proof {
            assert(rest@ =~= seq![d].add(before));
            assert(decimal_digits(n as nat) =~= decimal_digits(m as nat) + digit_seq(rest@));
        }
    }
    let mut s = String::from_str(digits.substring_char(m as usize, m as usize + 1));
    proof {
        assert(s@ =~= seq![digit_char(m as nat)]);
    }
    let mut i: usize = 0;
    while i < rest.len()
        invariant
            i <= rest@.len(),
            forall|k: int| 0 <= k < rest@.len() ==> #[trigger] rest@[k] < 10,
            digits@ == "0123456789"@,
            s@ == decimal_digits(m as nat) + digit_seq(rest@.take(i as int)),
            decimal_digits(n as nat) == decimal_digits(m as nat) + digit_seq(rest@),
        decreases rest@.len() - i,
    {
        let d = rest[i] as usize;
        proof {
            reveal_strlit("0123456789");
        }
        let piece = digits.substring_char(d, d + 1);
        proof {
            assert(piece@ =~= seq![digit_char(d as nat)]);
            assert(digit_seq(rest@.take(i + 1)) =~= digit_seq(rest@.take(i as int)).push(
                digit_char(d as nat),
            ));
        }
        s.append(piece);
        i = i + 1;
    }
    proof {
        assert(rest@.take(rest@.len() as int) =~= rest@);
    }
    s
}

pub open spec fn digit_seq(ds: Seq<u128>) -> Seq<char> {
    ds.map_values(|d: u128| digit_char(d as nat))
}



// ---------------------------------------------------------------------------
// Text order
// ---------------------------------------------------------------------------

/// Whether `a` comes strictly before `b`, character by character by code
/// point, a proper prefix first: the order of `str`'s `<`, as UTF-8 keeps
/// the order of code points.
pub open spec fn text_lt(a: Seq<char>, b: Seq<char>) -> bool
    decreases a.len(),
{
    if a.len() == 0 {
        b.len() > 0
    } else if b.len() == 0 {
        false
    } else if a[0] != b[0] {
        (a[0] as int) < (b[0] as int)
    } else {
        text_lt(a.drop_first(), b.drop_first())
    }
}

/// Texts in order: none comes before one that stands ahead of it.
pub open spec fn text_sorted(s: Seq<Seq<char>>) -> bool {
    forall|i: int, j: int| 0 <= i < j < s.len() ==> !text_lt(#[trigger] s[j], #[trigger] s[i])
}

pub proof fn lemma_text_lt_asymmetric(a: Seq<char>, b: Seq<char>)
    ensures
        text_lt(a, b) ==> !text_lt(b, a),
    decreases a.len(),
{
    if a.len() > 0 && b.len() > 0 && a[0] == b[0] {
        lemma_text_lt_asymmetric(a.drop_first(), b.drop_first());
    }
}

pub proof fn lemma_text_lt_transitive(a: Seq<char>, b: Seq<char>, c: Seq<char>)
    requires
        text_lt(a, b),
        text_lt(b, c),
    ensures
        text_lt(a, c),
    decreases a.len(),
{
    if a.len() > 0 && a[0] == b[0] && b[0] == c[0] {
        lemma_text_lt_transitive(a.drop_first(), b.drop_first(), c.drop_first());
    }
}

/// Whether `a` comes strictly before `b` in text order.
pub fn str_lt(a: &str, b: &str) -> (r: bool)
    ensures
        r == text_lt(a@, b@),
{
    let na = a.unicode_len();
    let nb = b.unicode_len();
    let mut i: usize = 0;
    proof {
        assert(a@.skip(0) =~= a@);
        assert(b@.skip(0) =~= b@);
    }
    while i < na && i < nb && a.get_char(i) == b.get_char(i)
        invariant
            i <= na,
            i <= nb,
            na == a@.len(),
            nb == b@.len(),
            text_lt(a@, b@) == text_lt(a@.skip(i as int), b@.skip(i as int)),
        decreases na - i,
    {
        proof {
            let sa = a@.skip(i as int);
            let sb = b@.skip(i as int);
            assert(sa[0] == sb[0]);
            assert(sa.drop_first() =~= a@.skip(i + 1));
            assert(sb.drop_first() =~= b@.skip(i + 1));
        }
        i = i + 1;
    }
    if i == na {
        return i < nb;
    }
    if i == nb {
        return false;
    }
    let ca = a.get_char(i);
    let cb = b.get_char(i);
    proof {
        assert(a@.skip(i as int)[0] == ca);
        assert(b@.skip(i as int)[0] == cb);
    }
    (ca as u32) < (cb as u32)
}

/// `names` in text order; equal names keep their places among themselves.
pub fn sort_names(names: Vec<String>) -> (r: Vec<String>)
    ensures
        text_sorted(crate::script::strings_view(r@)),
        crate::script::strings_view(r@).to_multiset() == crate::script::strings_view(
            names@,
        ).to_multiset(),
{
    let ghost orig = crate::script::strings_view(names@);
    let n = names.len();
    let mut input = names;
    let mut out: Vec<String> = Vec::new();
    let mut k: usize = 0;
    proof {
        assert(crate::script::strings_view(out@) =~= seq![]);
        assert(orig.take(0) =~= seq![]);
        assert(crate::script::strings_view(input@) =~= orig.skip(0));
    }
    while k < n
        invariant
            n == orig.len(),
            k <= n,
            crate::script::strings_view(input@) == orig.skip(k as int),
            text_sorted(crate::script::strings_view(out@)),
            crate::script::strings_view(out@).to_multiset() == orig.take(k as int).to_multiset(),
        decreases n - k,
    {
        let ghost before_input = input@;
        assert(crate::script::strings_view(input@).len() == input@.len());
        let x = input.remove(0);
        proof {
            assert(x == before_input[0]);
            assert(x@ == crate::script::strings_view(before_input)[0]);
            assert(x@ == orig[k as int]);
            assert(input@ =~= before_input.remove(0));
            assert forall|i: int| 0 <= i < input@.len() implies #[trigger] input@[i]@ == orig.skip(
                k + 1,
            )[i] by {
                assert(input@[i] == before_input[i + 1]);
                assert(crate::script::strings_view(before_input)[i + 1] == orig.skip(k as int)[i + 1]);
            }
            assert(crate::script::strings_view(input@) =~= orig.skip(k + 1));
        }
        let ghost sv = crate::script::strings_view(out@);
        let mut pos: usize = 0;
        while pos < out.len() && !str_lt(x.as_str(), out[pos].as_str())
            invariant
                pos <= out@.len(),
                sv == crate::script::strings_view(out@),
                forall|i: int| 0 <= i < pos ==> !text_lt(x@, #[trigger] sv[i]),
            decreases out@.len() - pos,
        {
            pos = pos + 1;
        }
        let ghost xv = x@;
        out.insert(pos, x);
        proof {
            let nv = crate::script::strings_view(out@);
            assert(nv =~= sv.insert(pos as int, xv));
            assert forall|i: int, j: int| 0 <= i < j < nv.len() implies !text_lt(
                #[trigger] nv[j],
                #[trigger] nv[i],
            ) by {
                if j < pos {
                    assert(nv[i] == sv[i] && nv[j] == sv[j]);
                } else if j == pos {
                    assert(nv[i] == sv[i]);
                } else if i < pos {
                    assert(nv[i] == sv[i] && nv[j] == sv[j - 1]);
                } else if i == pos {
                    assert(nv[j] == sv[j - 1]);
                    assert(text_lt(xv, sv[pos as int]));
                    lemma_text_lt_asymmetric(xv, sv[pos as int]);
                    if j - 1 > pos {
                        assert(!text_lt(sv[j - 1], sv[pos as int]));
                    }
                    if text_lt(sv[j - 1], xv) {
                        lemma_text_lt_transitive(sv[j - 1], xv, sv[pos as int]);
                    }
                } else {
                    assert(nv[i] == sv[i - 1] && nv[j] == sv[j - 1]);
                }
            }
            assert(orig.take(k + 1) =~= orig.take(k as int).push(xv));
            vstd::seq_lib::to_multiset_insert(sv, pos as int, xv);
            vstd::seq_lib::to_multiset_build(orig.take(k as int), xv);
            assert(orig.take(k as int).push(xv).to_multiset() == orig.take(
                k as int,
            ).to_multiset().insert(xv));
        }
        k = k + 1;
    }
    proof {
        assert(orig.take(n as int) =~= orig);
    }
    out
}

} // verus!
