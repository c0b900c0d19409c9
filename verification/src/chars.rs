//! Text as sequences of characters: searching, trimming, splitting into
//! lines and pieces, and the UTF-8 byte positions that `str` slicing uses.
use vstd::prelude::*;
use crate::text::{contains_text, occurs_at};

verus! {

/// `char::is_whitespace`: the characters with the Unicode `White_Space` property.
pub open spec fn is_ws(c: char) -> bool {
    ||| c == '\t'
    ||| c == '\n'
    ||| c == '\u{0B}'
    ||| c == '\u{0C}'
    ||| c == '\r'
    ||| c == ' '
    ||| c == '\u{85}'
    ||| c == '\u{A0}'
    ||| c == '\u{1680}'
    ||| ('\u{2000}' <= c && c <= '\u{200A}')
    ||| c == '\u{2028}'
    ||| c == '\u{2029}'
    ||| c == '\u{202F}'
    ||| c == '\u{205F}'
    ||| c == '\u{3000}'
}

/// Whether `c` is whitespace.
pub fn char_is_ws(c: char) -> (r: bool)
    ensures
        r == is_ws(c),
{
    c == '\t' || c == '\n' || c == '\u{0B}' || c == '\u{0C}' || c == '\r' || c == ' ' || c == '\u{85}'
        || c == '\u{A0}' || c == '\u{1680}' || ('\u{2000}' <= c && c <= '\u{200A}') || c == '\u{2028}'
        || c == '\u{2029}' || c == '\u{202F}' || c == '\u{205F}' || c == '\u{3000}'
}

/// The number of whitespace characters that `s` starts with.
pub open spec fn leading_ws(s: Seq<char>) -> nat
    decreases s.len(),
{
    if s.len() > 0 && is_ws(s[0]) {
        1 + leading_ws(s.drop_first())
    } else {
        0
    }
}

/// The number of whitespace characters that `s` ends with.
pub open spec fn trailing_ws(s: Seq<char>) -> nat
    decreases s.len(),
{
    if s.len() > 0 && is_ws(s.last()) {
        1 + trailing_ws(s.drop_last())
    } else {
        0
    }
}

/// `str::trim_start`.
pub open spec fn trim_start(s: Seq<char>) -> Seq<char> {
    s.skip(leading_ws(s) as int)
}

/// `str::trim_end`.
pub open spec fn trim_end(s: Seq<char>) -> Seq<char> {
    s.take(s.len() - trailing_ws(s))
}

/// `str::trim`.
pub open spec fn trim(s: Seq<char>) -> Seq<char> {
    trim_end(trim_start(s))
}

proof fn lemma_leading_ws(s: Seq<char>, i: int)
    requires
        0 <= i <= s.len(),
        forall|k: int| 0 <= k < i ==> is_ws(#[trigger] s[k]),
    ensures
        leading_ws(s) == i + leading_ws(s.skip(i)),
    decreases i,
{
    if i > 0 {
        assert(is_ws(s[0]));
        assert(s.drop_first().skip(i - 1) =~= s.skip(i));
        assert forall|k: int| 0 <= k < i - 1 implies is_ws(#[trigger] s.drop_first()[k]) by {
            assert(s.drop_first()[k] == s[k + 1]);
        }
        lemma_leading_ws(s.drop_first(), i - 1);
    } else {
        assert(s.skip(0) =~= s);
    }
}

proof fn lemma_trailing_ws(s: Seq<char>, i: int)
    requires
        0 <= i <= s.len(),
        forall|k: int| s.len() - i <= k < s.len() ==> is_ws(#[trigger] s[k]),
    ensures
        trailing_ws(s) == i + trailing_ws(s.take(s.len() - i)),
    decreases i,
{
    if i > 0 {
        assert(is_ws(s[s.len() - 1]));
        assert(s.drop_last().take(s.len() - 1 - (i - 1)) =~= s.take(s.len() - i));
        assert forall|k: int| s.drop_last().len() - (i - 1) <= k < s.drop_last().len() implies is_ws(
            #[trigger] s.drop_last()[k],
        ) by {
            assert(s.drop_last()[k] == s[k]);
        }
        lemma_trailing_ws(s.drop_last(), i - 1);
    } else {
        assert(s.take(s.len() as int) =~= s);
    }
}

/// `str::trim_start` on characters.
pub fn chars_trim_start(s: &Vec<char>) -> (r: Vec<char>)
    ensures
        r@ == trim_start(s@),
{
    let mut i: usize = 0;
    while i < s.len() && char_is_ws(s[i])
        invariant
            i <= s.len(),
            forall|k: int| 0 <= k < i ==> is_ws(#[trigger] s@[k]),
        decreases s.len() - i,
    {
        i += 1;
    }
    proof {
        lemma_leading_ws(s@, i as int);
        if i < s.len() {
            assert(s@.skip(i as int)[0] == s@[i as int]);
        }
    }
    slice_chars(s, i, s.len())
}

/// `str::trim_end` on characters.
pub fn chars_trim_end(s: &Vec<char>) -> (r: Vec<char>)
    ensures
        r@ == trim_end(s@),
{
    let mut j: usize = s.len();
    while j > 0 && char_is_ws(s[j - 1])
        invariant
            j <= s.len(),
            forall|k: int| j <= k < s.len() ==> is_ws(#[trigger] s@[k]),
        decreases j,
    {
        j -= 1;
    }
    proof {
        lemma_trailing_ws(s@, s.len() - j);
        if j > 0 {
            assert(s@.take(j as int).last() == s@[j - 1]);
        }
    }
    slice_chars(s, 0, j)
}

/// `str::trim` on characters.
pub fn chars_trim(s: &Vec<char>) -> (r: Vec<char>)
    ensures
        r@ == trim(s@),
{
    let t = chars_trim_start(s);
    chars_trim_end(&t)
}

/// The characters from `from` up to `to`.
pub fn slice_chars(s: &Vec<char>, from: usize, to: usize) -> (r: Vec<char>)
    requires
        from <= to <= s.len(),
    ensures
        r@ == s@.subrange(from as int, to as int),
{
    let mut out: Vec<char> = Vec::new();
    let mut i: usize = from;
    while i < to
        invariant
            from <= i <= to <= s.len(),
            out@ == s@.subrange(from as int, i as int),
        decreases to - i,
    {
        out.push(s[i]);
        proof {
            assert(s@.subrange(from as int, i + 1) =~= s@.subrange(from as int, i as int).push(s@[i as int]));
        }
        i += 1;
    }
    out
}

/// The first position at or after `i` where `needle` occurs in `hay`.
pub open spec fn find_from(hay: Seq<char>, needle: Seq<char>, i: int) -> Option<nat>
    decreases hay.len() + 1 - i,
{
    if i < 0 || i + needle.len() > hay.len() {
        None
    } else if occurs_at(hay, needle, i) {
        Some(i as nat)
    } else {
        find_from(hay, needle, i + 1)
    }
}

/// `str::find` with a text pattern: the first position where `needle` occurs.
pub open spec fn find_text(hay: Seq<char>, needle: Seq<char>) -> Option<nat> {
    find_from(hay, needle, 0)
}

/// The first position where `needle` occurs in `hay`.
pub fn chars_find(hay: &Vec<char>, needle: &Vec<char>) -> (r: Option<usize>)
    ensures
        match r {
            Some(i) => find_text(hay@, needle@) == Some(i as nat),
            None => find_text(hay@, needle@) is None,
        },
{
    if needle.len() > hay.len() {
        return None;
    }
    let last = hay.len() - needle.len();
    let mut i: usize = 0;
    loop
        invariant
            last == hay.len() - needle.len(),
            i <= last,
            find_text(hay@, needle@) == find_from(hay@, needle@, i as int),
        decreases last - i,
    {
        if crate::text::chars_occur_at(hay, needle, i) {
            return Some(i);
        }
        if i == last {
            proof {
                assert(find_from(hay@, needle@, i + 1) is None);
            }
            return None;
        }
        i += 1;
    }
}

/// The first position of `c` in `s`.
pub open spec fn find_char(s: Seq<char>, c: char) -> Option<nat> {
    find_text(s, seq![c])
}

/// The first position in `s` of a `;` or a whitespace character.
pub open spec fn find_param_end(s: Seq<char>, i: int) -> Option<nat>
    decreases s.len() - i,
{
    if i < 0 || i >= s.len() {
        None
    } else if s[i] == ';' || is_ws(s[i]) {
        Some(i as nat)
    } else {
        find_param_end(s, i + 1)
    }
}

/// The first position in `s` of a `;` or a whitespace character.
pub fn chars_find_param_end(s: &Vec<char>) -> (r: Option<usize>)
    ensures
        match r {
            Some(i) => find_param_end(s@, 0) == Some(i as nat),
            None => find_param_end(s@, 0) is None,
        },
{
    let mut i: usize = 0;
    while i < s.len()
        invariant
            i <= s.len(),
            find_param_end(s@, 0) == find_param_end(s@, i as int),
        decreases s.len() - i,
    {
        if s[i] == ';' || char_is_ws(s[i]) {
            return Some(i);
        }
        i += 1;
    }
    None
}

/// `str::starts_with` with a text pattern.
pub open spec fn starts_with(s: Seq<char>, p: Seq<char>) -> bool {
    p.len() <= s.len() && s.take(p.len() as int) == p
}

/// Whether `s` starts with `p`.
pub fn chars_start_with(s: &Vec<char>, p: &Vec<char>) -> (r: bool)
    ensures
        r == starts_with(s@, p@),
{
    let r = crate::text::chars_occur_at(s, p, 0);
    proof {
        assert(s@.subrange(0, p@.len() as int) =~= s@.take(p@.len() as int));
    }
    r
}

/// The position in `hay` of the first "\r\n\r\n", or else of the first "\n\n".
pub open spec fn blank_line(hay: Seq<char>) -> Option<nat> {
    match find_text(hay, seq!['\r', '\n', '\r', '\n']) {
        Some(i) => Some(i),
        None => find_text(hay, seq!['\n', '\n']),
    }
}

/// The position of the first blank line, as `blank_line` finds it.
pub fn chars_blank_line(hay: &Vec<char>) -> (r: Option<usize>)
    ensures
        match r {
            Some(i) => blank_line(hay@) == Some(i as nat),
            None => blank_line(hay@) is None,
        },
{
    let crlf: Vec<char> = vec!['\r', '\n', '\r', '\n'];
    let lf: Vec<char> = vec!['\n', '\n'];
    proof {
        assert(crlf@ =~= seq!['\r', '\n', '\r', '\n']);
        assert(lf@ =~= seq!['\n', '\n']);
    }
    match chars_find(hay, &crlf) {
        Some(i) => Some(i),
        None => chars_find(hay, &lf),
    }
}

/// A line without its line ending: a `\r` before the `\n` goes too.
pub open spec fn strip_cr(l: Seq<char>) -> Seq<char> {
    if l.len() > 0 && l.last() == '\r' {
        l.drop_last()
    } else {
        l
    }
}

/// `str::lines`: the pieces between `\n`s, each without a `\r` before its
/// `\n`; a last `\n` ends the last line and opens no new one.
pub open spec fn lines(s: Seq<char>) -> Seq<Seq<char>>
    decreases s.len(),
{
    if s.len() == 0 {
        Seq::empty()
    } else {
        match find_char(s, '\n') {
            None => seq![s],
            Some(i) => {
                proof {
                    lemma_find_from_bound(s, seq!['\n'], 0);
                }
                seq![strip_cr(s.take(i as int))] + lines(s.skip((i + 1) as int))
            },
        }
    }
}

/// A position that `find_from` gives is a real occurrence at or after `i`.
pub proof fn lemma_find_from_bound(hay: Seq<char>, needle: Seq<char>, i: int)
    ensures
        find_from(hay, needle, i) matches Some(k) ==> i <= k && k + needle.len() <= hay.len() && occurs_at(
            hay,
            needle,
            k as int,
        ),
    decreases hay.len() + 1 - i,
{
    if !(i < 0 || i + needle.len() > hay.len()) && !occurs_at(hay, needle, i) {
        lemma_find_from_bound(hay, needle, i + 1);
    }
}

/// `str::split` with a non-empty text pattern: the pieces between the
/// occurrences of `d`, found from the left without overlap.
pub open spec fn split_text(s: Seq<char>, d: Seq<char>) -> Seq<Seq<char>>
    decreases s.len(),
{
    if d.len() == 0 {
        seq![s]
    } else {
        match find_text(s, d) {
            None => seq![s],
            Some(i) => {
                proof {
                    lemma_find_from_bound(s, d, 0);
                }
                seq![s.take(i as int)] + split_text(s.skip((i + d.len()) as int), d)
            },
        }
    }
}

/// The views of a list of character vectors.
pub open spec fn views(v: Seq<Vec<char>>) -> Seq<Seq<char>> {
    v.map_values(|x: Vec<char>| x@)
}

/// The lines of `s`.
pub fn chars_lines(s: &Vec<char>) -> (r: Vec<Vec<char>>)
    ensures
        views(r@) == lines(s@),
{
    let nl: Vec<char> = vec!['\n'];
    proof {
        assert(nl@ =~= seq!['\n']);
    }
    let mut out: Vec<Vec<char>> = Vec::new();
    let mut rest = slice_chars(s, 0, s.len());
    proof {
        assert(rest@ =~= s@);
    }
    while rest.len() > 0
        invariant
            nl@ == seq!['\n'],
            lines(s@) == views(out@) + lines(rest@),
        decreases rest.len(),
    {
        match chars_find(&rest, &nl) {
            None => {
                let ghost before = out@;
                out.push(rest);
                proof {
                    assert(views(out@) =~= views(before).push(rest@));
                    assert(lines(rest@) == seq![rest@]);
                }
                rest = Vec::new();
                proof {
                    assert(lines(rest@) =~= Seq::<Seq<char>>::empty());
                    assert(views(out@) + lines(rest@) =~= views(out@));
                    assert(views(before) + seq![views(out@).last()] =~= views(out@));
                }
            },
            Some(i) => {
                proof {
                    lemma_find_from_bound(rest@, seq!['\n'], 0);
                }
                let mut line = slice_chars(&rest, 0, i);
                if line.len() > 0 && line[line.len() - 1] == '\r' {
                    line = slice_chars(&line, 0, line.len() - 1);
                }
                let next = slice_chars(&rest, i + 1, rest.len());
                let ghost before = out@;
                let ghost old_rest = rest@;
                proof {
                    assert(line@ == strip_cr(old_rest.take(i as int)));
                    assert(next@ =~= old_rest.skip(i + 1));
                    assert(lines(old_rest) == seq![line@] + lines(next@));
                }
                out.push(line);
                rest = next;
                proof {
                    assert(views(out@) =~= views(before).push(line@));
                    assert(views(before) + (seq![line@] + lines(rest@)) =~= views(out@) + lines(rest@));
                }
            },
        }
    }
    proof {
        assert(lines(rest@) =~= Seq::<Seq<char>>::empty());
        assert(views(out@) + lines(rest@) =~= views(out@));
    }
    out
}

/// The pieces of `s` between the occurrences of the non-empty `d`.
pub fn chars_split(s: &Vec<char>, d: &Vec<char>) -> (r: Vec<Vec<char>>)
    requires
        d.len() > 0,
    ensures
        views(r@) == split_text(s@, d@),
{
    let mut out: Vec<Vec<char>> = Vec::new();
    let mut rest = slice_chars(s, 0, s.len());
    proof {
        assert(rest@ =~= s@);
        assert(split_text(s@, d@) =~= views(out@) + split_text(rest@, d@));
    }
    loop
        invariant
            d.len() > 0,
            split_text(s@, d@) == views(out@) + split_text(rest@, d@),
        decreases rest.len(),
    {
        match chars_find(&rest, d) {
            None => {
                let ghost before = out@;
                let ghost last = rest@;
                out.push(rest);
                proof {
                    assert(split_text(last, d@) == seq![last]);
                    assert(views(out@) =~= views(before).push(last));
                    assert(views(before) + seq![last] =~= views(out@));
                }
                return out;
            },
            Some(i) => {
                proof {
                    lemma_find_from_bound(rest@, d@, 0);
                }
                let piece = slice_chars(&rest, 0, i);
                let next = slice_chars(&rest, i + d.len(), rest.len());
                let ghost before = out@;
                let ghost old_rest = rest@;
                proof {
                    assert(next@ =~= old_rest.skip(i + d@.len()));
                    assert(piece@ =~= old_rest.take(i as int));
                }
                out.push(piece);
                rest = next;
                proof {
                    assert(views(out@) =~= views(before).push(piece@));
                    assert(views(before) + (seq![piece@] + split_text(rest@, d@)) =~= views(out@)
                        + split_text(rest@, d@));
                }
            },
        }
    }
}

/// The bytes that UTF-8 takes for `c`.
pub open spec fn utf8_width(c: char) -> nat {
    if (c as u32) < 0x80 {
        1
    } else if (c as u32) < 0x800 {
        2
    } else if (c as u32) < 0x10000 {
        3
    } else {
        4
    }
}

/// The bytes that UTF-8 takes for the first `k` characters of `s`.
pub open spec fn utf8_len(s: Seq<char>, k: nat) -> nat
    decreases k,
{
    if k == 0 || k > s.len() {
        0
    } else {
        utf8_len(s, (k - 1) as nat) + utf8_width(s[k - 1])
    }
}

/// The character position of byte position `b` of `s`, where a character
/// starts there (or `b` is the end); `None` in the middle of a character or
/// past the end, where `str` slicing panics.
pub open spec fn char_pos_of_byte(s: Seq<char>, b: nat) -> Option<nat> {
    if exists|k: nat| k <= s.len() && #[trigger] utf8_len(s, k) == b {
        Some(choose|k: nat| k <= s.len() && #[trigger] utf8_len(s, k) == b)
    } else {
        None
    }
}

/// The text after byte position `b` of `s`, as `&s[b..]` gives it; `None`
/// where that slicing panics.
pub open spec fn skip_bytes(s: Seq<char>, b: nat) -> Option<Seq<char>> {
    match char_pos_of_byte(s, b) {
        Some(k) => Some(s.skip(k as int)),
        None => None,
    }
}

fn char_width(c: char) -> (r: u128)
    ensures
        r == utf8_width(c),
{
    let u = c as u32;
    if u < 0x80 {
        1
    } else if u < 0x800 {
        2
    } else if u < 0x10000 {
        3
    } else {
        4
    }
}

proof fn lemma_utf8_len_monotone(s: Seq<char>, j: nat, k: nat)
    requires
        j < k <= s.len(),
    ensures
        utf8_len(s, j) < utf8_len(s, k),
    decreases k - j,
{
    if j + 1 < k {
        lemma_utf8_len_monotone(s, j, (k - 1) as nat);
    }
}

/// The bytes that UTF-8 takes for the first `k` characters of `s`.
pub fn chars_utf8_len(s: &Vec<char>, k: usize) -> (r: u128)
    requires
        k <= s.len(),
    ensures
        r == utf8_len(s@, k as nat),
        r <= 4 * k,
{
    let mut total: u128 = 0;
    let mut i: usize = 0;
    while i < k
        invariant
            i <= k <= s.len(),
            total == utf8_len(s@, i as nat),
            total <= 4 * i,
        decreases k - i,
    {
        total = total + char_width(s[i]);
        i += 1;
    }
    total
}

/// The text after byte position `b` of `s`; `None` where `&s[b..]` panics.
pub fn chars_skip_bytes(s: &Vec<char>, b: u128) -> (r: Option<Vec<char>>)
    ensures
        match r {
            Some(v) => skip_bytes(s@, b as nat) == Some(v@),
            None => skip_bytes(s@, b as nat) is None,
        },
{
    let mut total: u128 = 0;
    let mut k: usize = 0;
    while k < s.len() && total < b
        invariant
            k <= s.len(),
            total == utf8_len(s@, k as nat),
            total <= 4 * k,
            forall|j: nat| j < k ==> #[trigger] utf8_len(s@, j) < b,
        decreases s.len() - k,
    {
        proof {
            lemma_utf8_len_monotone(s@, k as nat, (k + 1) as nat);
        }
        total = total + char_width(s[k]);
        k += 1;
    }
    if total == b {
        proof {
            assert(utf8_len(s@, k as nat) == b);
            let c = choose|j: nat| j <= s@.len() && #[trigger] utf8_len(s@, j) == b;
            if c < k {
                lemma_utf8_len_monotone(s@, c, k as nat);
            } else if c > k {
                lemma_utf8_len_monotone(s@, k as nat, c);
            }
        }
        Some(slice_chars(s, k, s.len()))
    } else {
        proof {
            assert forall|j: nat| j <= s@.len() implies #[trigger] utf8_len(s@, j) != b by {
                if j < k {
                } else if j > k {
                    lemma_utf8_len_monotone(s@, k as nat, j);
                }
            }
        }
        None
    }
}

/// `str::contains` with a text pattern, on character vectors.
pub fn chars_contain_text(hay: &Vec<char>, needle: &Vec<char>) -> (r: bool)
    ensures
        r == contains_text(hay@, needle@),
{
    crate::text::chars_contain(hay, needle)
}

} // verus!
