//! The rule by which a multi-line list of path prefixes is tidied: every line
//! loses the whitespace around it, blank lines go, and what is left is joined
//! again with single newlines.
//!
//! Lines end at a newline. A carriage return is whitespace like any other, so
//! a line that ends in a carriage return and a newline loses both.

use vstd::prelude::*;

verus! {

/// Whether `c` has Unicode's `White_Space` property.
pub open spec fn whitespace(c: char) -> bool {
    let u = c as u32;
    ||| 0x09 <= u <= 0x0D
    ||| u == 0x20
    ||| u == 0x85
    ||| u == 0xA0
    ||| u == 0x1680
    ||| 0x2000 <= u <= 0x200A
    ||| u == 0x2028
    ||| u == 0x2029
    ||| u == 0x202F
    ||| u == 0x205F
    ||| u == 0x3000
}

/// `s` without the whitespace at its two ends.
pub open spec fn trimmed(s: Seq<char>) -> Seq<char>
    decreases s.len(),
{
    if s.len() > 0 && whitespace(s.first()) {
        trimmed(s.drop_first())
    } else if s.len() > 0 && whitespace(s.last()) {
        trimmed(s.drop_last())
    } else {
        s
    }
}

/// The lines of `s`: the pieces between its newlines, in order. A text with
/// `n` newlines has `n + 1` lines, some of which may be empty.
pub open spec fn lines(s: Seq<char>) -> Seq<Seq<char>>
    decreases s.len(),
{
    if s.len() == 0 {
        seq![Seq::empty()]
    } else if s.last() == '\n' {
        lines(s.drop_last()).push(Seq::empty())
    } else {
        let before = lines(s.drop_last());
        before.drop_last().push(before.last().push(s.last()))
    }
}

/// The parts in order, with `sep` between each two neighbours.
pub open spec fn joined(parts: Seq<Seq<char>>, sep: Seq<char>) -> Seq<char>
    decreases parts.len(),
{
    if parts.len() == 0 {
        Seq::empty()
    } else if parts.len() == 1 {
        parts[0]
    } else {
        joined(parts.drop_last(), sep) + sep + parts.last()
    }
}

/// The trimmed forms of those of `rows` that hold more than whitespace.
pub open spec fn kept(rows: Seq<Seq<char>>) -> Seq<Seq<char>> {
    rows.map_values(|row: Seq<char>| trimmed(row)).filter(|row: Seq<char>| row.len() > 0)
}

/// The tidy form of `s`: its non-blank lines, each trimmed, joined by single
/// newlines.
pub open spec fn normalized(s: Seq<char>) -> Seq<char> {
    joined(kept(lines(s)), seq!['\n'])
}

/// Whether `p` can stand as one line: it holds no newline.
pub open spec fn single_line(p: Seq<char>) -> bool {
    forall|j: int| 0 <= j < p.len() ==> p[j] != '\n'
}

/// Whether trimming would leave `p` as it is and keep it: `p` is a non-empty
/// single line that neither starts nor ends with whitespace.
pub open spec fn tidy(p: Seq<char>) -> bool {
    &&& p.len() > 0
    &&& !whitespace(p.first())
    &&& !whitespace(p.last())
    &&& single_line(p)
}

/// Trimming `r` leaves the window from `a` to `b`, when whitespace is all
/// there is outside the window and the window, unless empty, starts and ends
/// with something else.
proof fn lemma_trimmed_window(r: Seq<char>, a: int, b: int)
    requires
        0 <= a <= b <= r.len(),
        forall|j: int| 0 <= j < a ==> whitespace(r[j]),
        forall|j: int| b <= j < r.len() ==> whitespace(r[j]),
        a < b ==> !whitespace(r[a]) && !whitespace(r[b - 1]),
    ensures
        trimmed(r) == r.subrange(a, b),
    decreases r.len(),
{
    if r.len() > 0 && whitespace(r.first()) {
        if a == 0 {
            lemma_trimmed_window(r.drop_first(), 0, 0);
        } else {
            lemma_trimmed_window(r.drop_first(), a - 1, b - 1);
        }
    } else if r.len() > 0 && whitespace(r.last()) {
        lemma_trimmed_window(r.drop_last(), a, b);
    }
}

/// What trimming leaves of a single line is empty or tidy.
proof fn lemma_trimmed_tidy(r: Seq<char>)
    requires
        single_line(r),
    ensures
        trimmed(r).len() == 0 || tidy(trimmed(r)),
    decreases r.len(),
{
    if r.len() > 0 && whitespace(r.first()) {
        lemma_trimmed_tidy(r.drop_first());
    } else if r.len() > 0 && whitespace(r.last()) {
        lemma_trimmed_tidy(r.drop_last());
    }
}

/// A text has at least one line, and no line holds a newline.
pub proof fn lemma_lines_single(s: Seq<char>)
    ensures
        lines(s).len() >= 1,
        forall|k: int| 0 <= k < lines(s).len() ==> single_line(#[trigger] lines(s)[k]),
    decreases s.len(),
{
    if s.len() > 0 {
        lemma_lines_single(s.drop_last());
    }
}

/// The lines of a text, joined with newlines, are the text again: nothing
/// but the newlines is lost in splitting.
pub proof fn lemma_joined_lines(s: Seq<char>)
    ensures
        joined(lines(s), seq!['\n']) == s,
    decreases s.len(),
{
    if s.len() > 0 {
        let before = lines(s.drop_last());
        lemma_joined_lines(s.drop_last());
        lemma_lines_single(s.drop_last());
        assert(s.drop_last().push(s.last()) =~= s);
        if s.last() == '\n' {
            assert(lines(s).drop_last() =~= before);
        } else if before.len() > 1 {
            assert(lines(s).drop_last() =~= before.drop_last());
        }
    }
}

/// One more row adds its trimmed form to what is kept, unless nothing is left
/// of it.
proof fn lemma_kept_push(rows: Seq<Seq<char>>, row: Seq<char>)
    ensures
        kept(rows.push(row)) == if trimmed(row).len() > 0 {
            kept(rows).push(trimmed(row))
        } else {
            kept(rows)
        },
{
    let trim = |row: Seq<char>| trimmed(row);
    let solid = |row: Seq<char>| row.len() > 0;
    rows.lemma_push_map_commute(trim, row);
    rows.map_values(trim).lemma_filter_push(trimmed(row), solid);
}

/// Nothing is kept of no rows.
proof fn lemma_kept_none()
    ensures
        kept(Seq::empty()) == Seq::<Seq<char>>::empty(),
{
    reveal(Seq::filter);
}

/// Every row that is kept is tidy.
proof fn lemma_kept_tidy(rows: Seq<Seq<char>>)
    requires
        forall|k: int| 0 <= k < rows.len() ==> single_line(#[trigger] rows[k]),
    ensures
        forall|k: int| 0 <= k < kept(rows).len() ==> tidy(#[trigger] kept(rows)[k]),
    decreases rows.len(),
{
    if rows.len() == 0 {
        lemma_kept_none();
    } else {
        let before = rows.drop_last();
        assert(rows =~= before.push(rows.last()));
        lemma_kept_tidy(before);
        lemma_kept_push(before, rows.last());
        lemma_trimmed_tidy(rows.last());
    }
}

/// Tidy rows are kept as they are.
proof fn lemma_kept_fixed(rows: Seq<Seq<char>>)
    requires
        forall|k: int| 0 <= k < rows.len() ==> tidy(#[trigger] rows[k]),
    ensures
        kept(rows) == rows,
    decreases rows.len(),
{
    if rows.len() == 0 {
        lemma_kept_none();
    } else {
        let before = rows.drop_last();
        assert(rows =~= before.push(rows.last()));
        lemma_kept_fixed(before);
        lemma_kept_push(before, rows.last());
    }
}

/// A text without a newline is its own only line.
proof fn lemma_lines_of_single(p: Seq<char>)
    requires
        single_line(p),
    ensures
        lines(p) == seq![p],
    decreases p.len(),
{
    if p.len() == 0 {
        assert(p =~= Seq::empty());
    } else {
        lemma_lines_of_single(p.drop_last());
        assert(p.drop_last().push(p.last()) =~= p);
    }
}

/// A newline and a single line after a text add that line to its lines.
proof fn lemma_lines_append(a: Seq<char>, p: Seq<char>)
    requires
        single_line(p),
    ensures
        lines(a + seq!['\n'] + p) == lines(a).push(p),
    decreases p.len(),
{
    let whole = a + seq!['\n'] + p;
    if p.len() == 0 {
        assert(whole.drop_last() =~= a);
        assert(p =~= Seq::empty());
    } else {
        let q = p.drop_last();
        lemma_lines_append(a, q);
        assert(whole.drop_last() =~= a + seq!['\n'] + q);
        assert(q.push(p.last()) =~= p);
    }
}

/// Joining single lines with newlines and splitting the result again gives
/// the same lines back.
proof fn lemma_lines_joined(rows: Seq<Seq<char>>)
    requires
        rows.len() >= 1,
        forall|k: int| 0 <= k < rows.len() ==> single_line(#[trigger] rows[k]),
    ensures
        lines(joined(rows, seq!['\n'])) == rows,
    decreases rows.len(),
{
    if rows.len() == 1 {
        lemma_lines_of_single(rows[0]);
    } else {
        let before = rows.drop_last();
        lemma_lines_joined(before);
        lemma_lines_append(joined(before, seq!['\n']), rows.last());
    }
}

/// Tidying is idempotent: a text that was tidied once is left as it is by
/// tidying it again.
pub proof fn lemma_normalized_idempotent(s: Seq<char>)
    ensures
        normalized(normalized(s)) == normalized(s),
{
    let rows = kept(lines(s));
    lemma_lines_single(s);
    lemma_kept_tidy(lines(s));
    if rows.len() == 0 {
        lemma_kept_push(Seq::empty(), Seq::empty());
        lemma_kept_none();
    } else {
        lemma_lines_joined(rows);
        lemma_kept_fixed(rows);
    }
}

/// Whether `c` has Unicode's `White_Space` property.
pub fn is_whitespace(c: char) -> (b: bool)
    ensures
        b == whitespace(c),
{
    let u: u32 = c as u32;
    (0x09 <= u && u <= 0x0D) || u == 0x20 || u == 0x85 || u == 0xA0 || u == 0x1680 || (0x2000 <= u
        && u <= 0x200A) || u == 0x2028 || u == 0x2029 || u == 0x202F || u == 0x205F || u == 0x3000
}

/// Hands the parts to `itertools::join`, which writes them one after another
/// into a new string with `sep` between each two neighbours; no parts give the
/// empty string.
#[verifier::external_body]
fn join(parts: &Vec<String>, sep: &str) -> (out: String)
    ensures
        out@ == joined(parts.deep_view(), sep@),
{
    itertools::join(parts, sep)
}

/// Tidies a multi-line list: see [`normalized`]. An absent list stays absent.
pub fn trim_whitespace(with_whitespace: Option<String>) -> (tidied: Option<String>)
    ensures
        match with_whitespace {
            Some(text) => tidied matches Some(t) && t@ == normalized(text@),
            None => tidied is None,
        },
{
    let text = match &with_whitespace {
        Some(text) => text.as_str(),
        None => {
            return None;
        },
    };
    let n = text.unicode_len();
    let ghost s = text@;
    let mut rows: Vec<String> = Vec::new();
    // The line being read holds something besides whitespace exactly when
    // `first < end`; the two then bound what trimming leaves of it.
    let mut first: usize = 0;
    let mut end: usize = 0;
    let ghost mut start: int = 0;
    let mut i: usize = 0;
    proof {
        lemma_kept_none();
    }
    for c in it: text.chars()
        invariant
            text@ == s,
            it.seq() == s,
            s.len() == n,
            i == it.index(),
            0 <= start <= first <= end <= i <= n,
            lines(s.take(i as int)).len() >= 1,
            lines(s.take(i as int)).last() == s.subrange(start, i as int),
            rows.deep_view() == kept(lines(s.take(i as int)).drop_last()),
            forall|j: int| start <= j < first ==> whitespace(s[j]),
            forall|j: int| end <= j < i ==> whitespace(s[j]),
            first < end ==> !whitespace(s[first as int]) && !whitespace(s[end - 1]),
    {
        let ghost seen = lines(s.take(i as int));
        proof {
            assert(s.take(i + 1).drop_last() =~= s.take(i as int));
        }
        if c == '\n' {
            proof {
                lemma_trimmed_window(seen.last(), first - start, end - start);
                assert(seen.last().subrange(first - start, end - start) =~= s.subrange(
                    first as int,
                    end as int,
                ));
                assert(seen.drop_last().push(seen.last()) =~= seen);
                lemma_kept_push(seen.drop_last(), seen.last());
                assert(lines(s.take(i + 1)).drop_last() =~= seen);
            }
            if first < end {
                rows.push(text.substring_char(first, end).to_owned());
            }
            first = i + 1;
            end = i + 1;
            proof {
                start = i + 1;
            }
        } else {
            proof {
                assert(lines(s.take(i + 1)).drop_last() =~= seen.drop_last());
            }
            if !is_whitespace(c) {
                if first == end {
                    first = i;
                }
                end = i + 1;
            }
        }
        i += 1;
    }
    proof {
        let seen = lines(s);
        assert(s.take(n as int) =~= s);
        lemma_trimmed_window(seen.last(), first - start, end - start);
        assert(seen.last().subrange(first - start, end - start) =~= s.subrange(
            first as int,
            end as int,
        ));
        assert(seen.drop_last().push(seen.last()) =~= seen);
        lemma_kept_push(seen.drop_last(), seen.last());
        reveal_strlit("\n");
        assert("\n"@ =~= seq!['\n']);
    }
    if first < end {
        let ghost before = rows.deep_view();
        rows.push(text.substring_char(first, end).to_owned());
        assert(rows.deep_view() =~= before.push(s.subrange(first as int, end as int)));
    }
    Some(join(&rows, "\n"))
}

} // verus!
