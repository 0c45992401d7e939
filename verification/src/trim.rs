//! Trailing-whitespace trimming.
//!
//! The transform behind the command-line handler: every line of the text
//! loses its trailing whitespace, a carriage-return line ending becomes a
//! bare newline, and the caller learns whether any of that changed the text.

use vstd::prelude::*;

verus! {

/// Whether a character counts as whitespace: the Unicode `White_Space` set,
/// as `char::is_whitespace` documents it.
pub open spec fn is_space(c: char) -> bool {
    c == ' ' || c == '\t' || c == '\n' || c == '\u{b}' || c == '\u{c}' || c == '\r' || c
        == '\u{85}' || c == '\u{a0}' || c == '\u{1680}' || c == '\u{2000}' || c == '\u{2001}' || c
        == '\u{2002}' || c == '\u{2003}' || c == '\u{2004}' || c == '\u{2005}' || c == '\u{2006}'
        || c == '\u{2007}' || c == '\u{2008}' || c == '\u{2009}' || c == '\u{200a}' || c
        == '\u{2028}' || c == '\u{2029}' || c == '\u{202f}' || c == '\u{205f}' || c == '\u{3000}'
}

/// The length a line keeps once its trailing whitespace is dropped.
pub open spec fn kept_len(l: Seq<char>) -> nat
    decreases l.len(),
{
    if l.len() == 0 {
        0
    } else if is_space(l.last()) {
        kept_len(l.drop_last())
    } else {
        l.len()
    }
}

/// A line with its trailing whitespace dropped.
pub open spec fn trim_line(l: Seq<char>) -> Seq<char> {
    l.take(kept_len(l) as int)
}

/// The position of the first newline in `s`, or `s.len()` if there is none.
pub open spec fn first_nl(s: Seq<char>) -> nat
    decreases s.len(),
{
    if s.len() == 0 {
        0
    } else if s[0] == '\n' {
        0
    } else {
        1 + first_nl(s.skip(1))
    }
}

/// The whole text with every line trimmed of its trailing whitespace.
///
/// Lines are the pieces separated by newlines; each piece before a newline
/// keeps the newline, and a final piece without one stays without one.
pub open spec fn trimmed(s: Seq<char>) -> Seq<char>
    decreases s.len(),
{
    if s.len() == 0 {
        Seq::empty()
    } else {
        let i = first_nl(s) as int;
        if i < s.len() {
            trim_line(s.take(i)) + seq!['\n'] + trimmed(s.skip(i + 1))
        } else {
            trim_line(s)
        }
    }
}

proof fn lemma_first_nl_is(s: Seq<char>, m: int)
    requires
        0 <= m <= s.len(),
        forall|k: int| 0 <= k < m ==> s[k] != '\n',
        m < s.len() ==> s[m] == '\n',
    ensures
        first_nl(s) == m,
    decreases s.len(),
{
    if s.len() > 0 && m > 0 {
        assert(forall|k: int| 0 <= k < s.skip(1).len() ==> #[trigger] s.skip(1)[k] == s[k + 1]);
        lemma_first_nl_is(s.skip(1), m - 1);
    }
}

proof fn lemma_kept_len_is(l: Seq<char>, m: int)
    requires
        0 <= m <= l.len(),
        forall|k: int| m <= k < l.len() ==> is_space(#[trigger] l[k]),
        m > 0 ==> !is_space(l[m - 1]),
    ensures
        kept_len(l) == m,
    decreases l.len(),
{
    if l.len() > 0 {
        if m < l.len() {
            assert(is_space(l.last()));
            assert(forall|k: int|
                0 <= k < l.drop_last().len() ==> #[trigger] l.drop_last()[k] == l[k]);
            lemma_kept_len_is(l.drop_last(), m);
        }
    }
}

/// Finds the position of the first newline at or after `start`, or the end.
fn find_nl(s: &str, start: usize) -> (j: usize)
    requires
        start <= s@.len(),
    ensures
        start <= j <= s@.len(),
        j - start == first_nl(s@.skip(start as int)),
{
    let n = s.unicode_len();
    let mut j = start;
    let mut found = false;
    while !found && j < n
        invariant
            start <= j <= n,
            n == s@.len(),
            forall|k: int| start <= k < j ==> s@[k] != '\n',
            found ==> j < n && s@[j as int] == '\n',
        decreases n - j, (if found { 0int } else { 1int }),
    {
        if s.get_char(j) == '\n' {
            found = true;
        } else {
            j = j + 1;
        }
    }
    proof {
        let u = s@.skip(start as int);
        assert(forall|k: int| 0 <= k < u.len() ==> #[trigger] u[k] == s@[k + start]);
        lemma_first_nl_is(u, j - start);
    }
    j
}

/// Finds how much of `s[start..j]` a trimmed line keeps.
fn trim_to(s: &str, start: usize, j: usize) -> (t: usize)
    requires
        start <= j <= s@.len(),
    ensures
        start <= t <= j,
        t - start == kept_len(s@.subrange(start as int, j as int)),
{
    let mut t = j;
    while t > start && is_space_char(s.get_char(t - 1))
        invariant
            start <= t <= j <= s@.len(),
            forall|k: int| t <= k < j ==> is_space(#[trigger] s@[k]),
        decreases t,
    {
        t = t - 1;
    }
    proof {
        let l = s@.subrange(start as int, j as int);
        assert(forall|k: int| 0 <= k < l.len() ==> #[trigger] l[k] == s@[k + start]);
        lemma_kept_len_is(l, t - start);
    }
    t
}

/// Decides whether a character is whitespace.
pub fn is_space_char(c: char) -> (r: bool)
    ensures
        r == is_space(c),
{
    match c {
        ' ' | '\t' | '\n' | '\u{b}' | '\u{c}' | '\r' | '\u{85}' | '\u{a0}' | '\u{1680}'
            | '\u{2000}' | '\u{2001}' | '\u{2002}' | '\u{2003}' | '\u{2004}' | '\u{2005}'
            | '\u{2006}' | '\u{2007}' | '\u{2008}' | '\u{2009}' | '\u{200a}' | '\u{2028}'
            | '\u{2029}' | '\u{202f}' | '\u{205f}' | '\u{3000}' => true,
        _ => false,
    }
}

/// Trims the trailing whitespace of every line.
///
/// Returns the trimmed text when trimming changed something, and `None` when
/// the text already was in trimmed form.
pub fn lines(text: &String) -> (r: Option<String>)
    ensures
        match r {
            Some(t) => t@ == trimmed(text@) && t@ != text@,
            None => trimmed(text@) == text@,
        },
{
    let s = text.as_str();
    let n = s.unicode_len();
    let mut out = String::new();
    let mut start: usize = 0;
    proof {
        assert(s@.skip(0) =~= s@);
        assert(out@ + trimmed(s@) =~= trimmed(s@));
    }
    while start < n
        invariant
            0 <= start <= n,
            n == s@.len(),
            s@ == text@,
            out@ + trimmed(s@.skip(start as int)) == trimmed(s@),
        decreases n - start,
    {
        let ghost u = s@.skip(start as int);
        let j = find_nl(s, start);
        let t = trim_to(s, start, j);
        let piece = s.substring_char(start, t);
        proof {
            assert(u.len() == n - start);
            assert(forall|k: int| 0 <= k < u.len() ==> #[trigger] u[k] == s@[k + start]);
            assert(u.take(j - start) =~= s@.subrange(start as int, j as int));
            assert(u.take(j - start).take(kept_len(u.take(j - start)) as int) =~= s@.subrange(
                start as int,
                t as int,
            ));
        }
        out.append(piece);
        if j < n {
            out.append("\n");
            proof {
                reveal_strlit("\n");
                assert("\n"@ =~= seq!['\n']);
                assert(u.skip(j - start + 1) =~= s@.skip(j as int + 1));
                assert(trimmed(u) == trim_line(u.take(j - start)) + seq!['\n'] + trimmed(
                    s@.skip(j as int + 1),
                ));
                assert(out@ + trimmed(s@.skip(j as int + 1)) =~= trimmed(s@));
            }
            start = j + 1;
        } else {
            proof {
                assert(first_nl(u) == u.len());
                assert(u.take(j - start) =~= u);
                assert(trimmed(u) == trim_line(u));
                assert(s@.skip(n as int) =~= Seq::<char>::empty());
                assert(trimmed(Seq::<char>::empty()) =~= Seq::<char>::empty());
                assert(out@ + trimmed(s@.skip(n as int)) =~= trimmed(s@));
            }
            start = n;
        }
    }
    proof {
        assert(s@.skip(n as int) =~= Seq::<char>::empty());
        assert(out@ =~= trimmed(text@));
    }
    if out.eq(text) {
        None
    } else {
        Some(out)
    }
}

} // verus!
