//! Reading the node's IPv4 address and prefix length out of the text that
//! `ip -4 addr show` prints, and the hostname suffix derived from them.
use vstd::prelude::*;
use crate::text::{chars_eq, copy_range, find_char, find_from, lemma_find_char};

verus! {

/// Unicode `White_Space`, the set that `char::is_whitespace` (and so `trim` and
/// `split_whitespace`) uses.
pub open spec fn is_ws(c: char) -> bool {
    ||| ('\u{9}' <= c && c <= '\u{d}')
    ||| c == ' '
    ||| c == '\u{85}'
    ||| c == '\u{a0}'
    ||| c == '\u{1680}'
    ||| ('\u{2000}' <= c && c <= '\u{200a}')
    ||| c == '\u{2028}'
    ||| c == '\u{2029}'
    ||| c == '\u{202f}'
    ||| c == '\u{205f}'
    ||| c == '\u{3000}'
}

/// First index at or after `i` that is not whitespace (or the end).
pub open spec fn ws_end(s: Seq<char>, i: int) -> int
    decreases s.len() - i,
{
    if i < 0 || i >= s.len() {
        s.len() as int
    } else if is_ws(s[i]) {
        ws_end(s, i + 1)
    } else {
        i
    }
}

/// First index at or after `i` that is whitespace (or the end).
pub open spec fn tok_end(s: Seq<char>, i: int) -> int
    decreases s.len() - i,
{
    if i < 0 || i >= s.len() {
        s.len() as int
    } else if is_ws(s[i]) {
        i
    } else {
        tok_end(s, i + 1)
    }
}

pub proof fn lemma_ws_end(s: Seq<char>, i: int)
    requires
        0 <= i <= s.len(),
    ensures
        i <= ws_end(s, i) <= s.len(),
        ws_end(s, i) < s.len() ==> !is_ws(s[ws_end(s, i)]),
        forall|j: int| i <= j < ws_end(s, i) ==> is_ws(s[j]),
    decreases s.len() - i,
{
    if i < s.len() && is_ws(s[i]) {
        lemma_ws_end(s, i + 1);
    }
}

pub proof fn lemma_tok_end(s: Seq<char>, i: int)
    requires
        0 <= i <= s.len(),
    ensures
        i <= tok_end(s, i) <= s.len(),
        forall|j: int| i <= j < tok_end(s, i) ==> !is_ws(s[j]),
    decreases s.len() - i,
{
    if i < s.len() && !is_ws(s[i]) {
        lemma_tok_end(s, i + 1);
    }
}

/// The characters `inet ` that open an address line.
pub open spec fn inet_prefix() -> Seq<char> {
    seq!['i', 'n', 'e', 't', ' ']
}

/// The loopback address, which is never taken as the node's address.
pub open spec fn loopback() -> Seq<char> {
    seq!['1', '2', '7', '.', '0', '.', '0', '.', '1']
}

/// The second whitespace-separated field of a line whose trimmed text starts
/// with `inet `, if the line has one.
pub open spec fn inet_field(l: Seq<char>) -> Option<Seq<char>> {
    let a = ws_end(l, 0);
    if a + 5 <= l.len() && l.subrange(a, a + 5) == inet_prefix() {
        let b = ws_end(l, a + 5);
        if b < l.len() {
            Some(l.subrange(b, tok_end(l, b)))
        } else {
            None
        }
    } else {
        None
    }
}

/// The address a line offers: the part of its `inet` field before the first
/// `/`, unless that part is empty or the loopback address.
pub open spec fn line_address(l: Seq<char>) -> Option<Seq<char>> {
    match inet_field(l) {
        Some(f) => {
            let a = f.subrange(0, find_char(f, 0, '/'));
            if a.len() > 0 && a != loopback() {
                Some(a)
            } else {
                None
            }
        },
        None => None,
    }
}

/// The prefix length a line offers: the part of its `inet` field between the
/// first and the second `/`, if the field holds a `/`.
pub open spec fn line_prefix_len(l: Seq<char>) -> Option<Seq<char>> {
    match inet_field(l) {
        Some(f) => {
            let k = find_char(f, 0, '/');
            if k < f.len() {
                let r = f.subrange(k + 1, f.len() as int);
                Some(r.subrange(0, find_char(r, 0, '/')))
            } else {
                None
            }
        },
        None => None,
    }
}

/// Which field of an address line is wanted.
pub enum LineField {
    Address,
    PrefixLen,
}

pub open spec fn line_field(l: Seq<char>, which: LineField) -> Option<Seq<char>> {
    match which {
        LineField::Address => line_address(l),
        LineField::PrefixLen => line_prefix_len(l),
    }
}

/// The field offered by the first line, starting with the line that begins at
/// `p`, that offers one. Lines are separated by `\n`; no line follows a final `\n`.
pub open spec fn first_field_from(s: Seq<char>, p: int, which: LineField) -> Option<Seq<char>>
    decreases s.len() - p,
{
    if p < 0 || p >= s.len() {
        None
    } else {
        let e = find_char(s, p, '\n');
        proof {
            lemma_find_char(s, p, '\n');
        }
        match line_field(s.subrange(p, e), which) {
            Some(f) => Some(f),
            None => if e >= s.len() {
                None
            } else {
                first_field_from(s, e + 1, which)
            },
        }
    }
}

/// The node's address as the original reads it: the first address line's address.
pub open spec fn first_address(s: Seq<char>) -> Option<Seq<char>> {
    first_field_from(s, 0, LineField::Address)
}

/// The prefix length: that of the first line that offers one, else `24`.
pub open spec fn prefix_len_of(s: Seq<char>) -> Seq<char> {
    match first_field_from(s, 0, LineField::PrefixLen) {
        Some(m) => m,
        None => seq!['2', '4'],
    }
}

fn skip_ws(l: &[char], i: usize) -> (r: usize)
    requires
        i <= l.len(),
    ensures
        r == ws_end(l@, i as int),
{
    let mut j = i;
    while j < l.len() && is_whitespace(l[j])
        invariant
            i <= j <= l.len(),
            ws_end(l@, i as int) == ws_end(l@, j as int),
        decreases l.len() - j,
    {
        j = j + 1;
    }
    j
}

fn skip_token(l: &[char], i: usize) -> (r: usize)
    requires
        i <= l.len(),
    ensures
        r == tok_end(l@, i as int),
{
    let mut j = i;
    while j < l.len() && !is_whitespace(l[j])
        invariant
            i <= j <= l.len(),
            tok_end(l@, i as int) == tok_end(l@, j as int),
        decreases l.len() - j,
    {
        j = j + 1;
    }
    j
}

/// Whether `c` is whitespace in the sense of `char::is_whitespace`.
pub fn is_whitespace(c: char) -> (r: bool)
    ensures
        r == is_ws(c),
{
    ('\u{9}' <= c && c <= '\u{d}') || c == ' ' || c == '\u{85}' || c == '\u{a0}' || c == '\u{1680}'
        || ('\u{2000}' <= c && c <= '\u{200a}') || c == '\u{2028}' || c == '\u{2029}' || c
        == '\u{202f}' || c == '\u{205f}' || c == '\u{3000}'
}

fn inet_field_of(l: &[char]) -> (r: Option<Vec<char>>)
    ensures
        match r {
            Some(f) => inet_field(l@) == Some(f@),
            None => inet_field(l@) is None,
        },
{
    let a = skip_ws(l, 0);
    proof {
        lemma_ws_end(l@, 0);
    }
    if l.len() >= 5 && a <= l.len() - 5 && l[a] == 'i' && l[a + 1] == 'n' && l[a + 2] == 'e' && l[a + 3] == 't'
        && l[a + 4] == ' ' {
        assert(l@.subrange(a as int, a + 5) =~= inet_prefix());
        let b = skip_ws(l, a + 5);
        proof {
            lemma_ws_end(l@, a + 5);
        }
        if b < l.len() {
            let e = skip_token(l, b);
            proof {
                lemma_tok_end(l@, b as int);
            }
            Some(copy_range(l, b, e))
        } else {
            None
        }
    } else {
        proof {
            if a + 5 <= l.len() {
                let w = l@.subrange(a as int, a + 5);
                if w == inet_prefix() {
                    assert(w[0] == 'i' && w[1] == 'n' && w[2] == 'e' && w[3] == 't' && w[4] == ' ');
                }
            }
        }
        None
    }
}

fn is_loopback(a: &[char]) -> (r: bool)
    ensures
        r == (a@ == loopback()),
{
    let lo = vec!['1', '2', '7', '.', '0', '.', '0', '.', '1'];
    assert(lo@ =~= loopback());
    chars_eq(a, lo.as_slice())
}

fn field_of_line(l: &[char], which: &LineField) -> (r: Option<Vec<char>>)
    ensures
        match r {
            Some(f) => line_field(l@, *which) == Some(f@),
            None => line_field(l@, *which) is None,
        },
{
    match inet_field_of(l) {
        None => None,
        Some(f) => {
            let k = find_from(f.as_slice(), 0, '/');
            proof {
                lemma_find_char(f@, 0, '/');
            }
            match which {
                LineField::Address => {
                    let a = copy_range(f.as_slice(), 0, k);
                    if a.len() > 0 && !is_loopback(a.as_slice()) {
                        Some(a)
                    } else {
                        None
                    }
                },
                LineField::PrefixLen => {
                    if k < f.len() {
                        let r = copy_range(f.as_slice(), k + 1, f.len());
                        let k2 = find_from(r.as_slice(), 0, '/');
                        proof {
                            lemma_find_char(r@, 0, '/');
                        }
                        Some(copy_range(r.as_slice(), 0, k2))
                    } else {
                        None
                    }
                },
            }
        },
    }
}

/// The wanted field of the first line of `s` that offers one.
pub fn first_field(s: &[char], which: LineField) -> (r: Option<Vec<char>>)
    ensures
        match r {
            Some(f) => first_field_from(s@, 0, which) == Some(f@),
            None => first_field_from(s@, 0, which) is None,
        },
{
    let mut p: usize = 0;
    while p < s.len()
        invariant
            p <= s.len(),
            first_field_from(s@, 0, which) == first_field_from(s@, p as int, which),
        decreases s.len() - p,
    {
        let e = find_from(s, p, '\n');
        proof {
            lemma_find_char(s@, p as int, '\n');
        }
        let line = copy_range(s, p, e);
        let f = field_of_line(line.as_slice(), &which);
        if f.is_some() {
            return f;
        }
        if e >= s.len() {
            return None;
        }
        p = e + 1;
    }
    None
}

/// The address found is never empty and never the loopback address, and it
/// holds no `/`.
pub proof fn law_address_not_loopback(s: Seq<char>, p: int)
    ensures
        first_field_from(s, p, LineField::Address) matches Some(a) ==> (a.len() > 0 && a != loopback()
            && !a.contains('/')),
    decreases s.len() - p,
{
    if 0 <= p < s.len() {
        let e = find_char(s, p, '\n');
        lemma_find_char(s, p, '\n');
        let l = s.subrange(p, e);
        match inet_field(l) {
            Some(f) => {
                lemma_find_char(f, 0, '/');
                let a = f.subrange(0, find_char(f, 0, '/'));
                if a.contains('/') {
                    let j = choose|j: int| 0 <= j < a.len() && a[j] == '/';
                    assert(f[j] == '/');
                }
            },
            None => {},
        }
        if e < s.len() {
            law_address_not_loopback(s, e + 1);
        }
    }
}

/// `s[p..e)` is one line of `s`: it starts at the beginning of `s` or just
/// after a `\n`, holds no `\n`, and ends at a `\n` or at the end of `s`. (No
/// line starts at the very end, after a final `\n`.)
pub open spec fn is_line(s: Seq<char>, p: int, e: int) -> bool {
    &&& 0 <= p < s.len()
    &&& p <= e <= s.len()
    &&& (p == 0 || s[p - 1] == '\n')
    &&& (e == s.len() || s[e] == '\n')
    &&& forall|j: int| p <= j < e ==> s[j] != '\n'
}

/// A line starting at `p` ends at the first `\n` from `p` on.
pub proof fn lemma_line_end(s: Seq<char>, p: int, e: int)
    requires
        is_line(s, p, e),
    ensures
        e == find_char(s, p, '\n'),
{
    lemma_find_char(s, p, '\n');
    let f = find_char(s, p, '\n');
    if e < f {
        assert(s[e] != '\n');
    }
    if f < e {
        assert(s[f] == '\n');
    }
}

/// From a line start `p` on, the field found is the one of the first line
/// that offers one; when none is found, no line from `p` on offers one.
pub proof fn lemma_first_line_offering(s: Seq<char>, p: int, which: LineField)
    requires
        0 <= p,
        p == 0 || (p <= s.len() && s[p - 1] == '\n'),
    ensures
        first_field_from(s, p, which) matches Some(f) ==> exists|q: int, d: int|
            #[trigger] is_line(s, q, d) && p <= q && line_field(s.subrange(q, d), which) == Some(f)
                && forall|q2: int, d2: int|
                #[trigger] is_line(s, q2, d2) && p <= q2 < q ==> line_field(s.subrange(q2, d2), which) is None,
        first_field_from(s, p, which) is None ==> forall|q2: int, d2: int|
            #[trigger] is_line(s, q2, d2) && p <= q2 ==> line_field(s.subrange(q2, d2), which) is None,
    decreases s.len() - p,
{
    if p < s.len() {
        lemma_find_char(s, p, '\n');
        let e = find_char(s, p, '\n');
        assert(is_line(s, p, e));
        // No line starts strictly inside the line at `p`.
        assert forall|q2: int, d2: int| #[trigger] is_line(s, q2, d2) && p < q2 implies q2 >= e + 1 by {
            if q2 <= e {
                assert(s[q2 - 1] == '\n');
                assert(p <= q2 - 1 < e);
            }
        }
        assert forall|d2: int| #[trigger] is_line(s, p, d2) implies d2 == e by {
            lemma_line_end(s, p, d2);
        }
        match line_field(s.subrange(p, e), which) {
            Some(f) => {},
            None => {
                if e < s.len() {
                    lemma_first_line_offering(s, e + 1, which);
                }
            },
        }
    }
}

/// The address (and likewise the prefix length) read from `ip -4 addr show`
/// is that of the first line offering one: it comes from a line of the text,
/// and no earlier line offers one. When none is found, no line offers one.
pub proof fn law_first_line_offering(s: Seq<char>, which: LineField)
    ensures
        first_field_from(s, 0, which) matches Some(f) ==> exists|q: int, d: int|
            #[trigger] is_line(s, q, d) && line_field(s.subrange(q, d), which) == Some(f)
                && forall|q2: int, d2: int|
                #[trigger] is_line(s, q2, d2) && q2 < q ==> line_field(s.subrange(q2, d2), which) is None,
        first_field_from(s, 0, which) is None ==> forall|q2: int, d2: int|
            #[trigger] is_line(s, q2, d2) ==> line_field(s.subrange(q2, d2), which) is None,
{
    lemma_first_line_offering(s, 0, which);
}

} // verus!
