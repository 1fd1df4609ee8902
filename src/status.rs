use vstd::prelude::*;

use crate::error::CommandError;
use crate::number::all_digits;
use crate::text::{blank, chars_of, digit, is_blank, is_digit, is_space, space, substring};

verus! {

/// Decoration the editor draws in its status line (spinner, ruler).
pub open spec fn is_glyph(c: char) -> bool {
    '\u{2800}' <= c && c <= '\u{28ff}'
}

/// The separator drawn between the sections of the status line.
pub open spec fn is_separator(c: char) -> bool {
    c == '\u{2502}'
}

/// `w` occurs in `t` at position `p`.
pub open spec fn word_at(t: Seq<char>, p: nat, w: Seq<char>) -> bool {
    p + w.len() <= t.len() && t.subrange(p as int, (p + w.len()) as int) == w
}

/// Where the mode word that occurs at `p` ends: one of the long and short
/// names of the normal, insert and select modes.
pub open spec fn mode_end(t: Seq<char>, p: nat) -> Option<nat> {
    if word_at(t, p, seq!['N', 'O', 'R', 'M', 'A', 'L']) {
        Some(p + 6)
    } else if word_at(t, p, seq!['N', 'O', 'R']) {
        Some(p + 3)
    } else if word_at(t, p, seq!['I', 'N', 'S', 'E', 'R', 'T']) {
        Some(p + 6)
    } else if word_at(t, p, seq!['I', 'N', 'S']) {
        Some(p + 3)
    } else if word_at(t, p, seq!['S', 'E', 'L', 'E', 'C', 'T']) {
        Some(p + 6)
    } else if word_at(t, p, seq!['S', 'E', 'L']) {
        Some(p + 3)
    } else {
        None
    }
}

/// End of the run of blanks and glyphs that starts at `i`.
pub open spec fn skip_chrome(t: Seq<char>, i: nat) -> nat
    decreases t.len() - i,
{
    if i < t.len() && (is_blank(t[i as int]) || is_glyph(t[i as int])) {
        skip_chrome(t, i + 1)
    } else {
        i
    }
}

/// End of the run of non-whitespace characters that starts at `i`.
pub open spec fn skip_token(t: Seq<char>, i: nat) -> nat
    decreases t.len() - i,
{
    if i < t.len() && !is_space(t[i as int]) {
        skip_token(t, i + 1)
    } else {
        i
    }
}

/// End of the run of digits that starts at `i`.
pub open spec fn skip_digits(t: Seq<char>, i: nat) -> nat
    decreases t.len() - i,
{
    if i < t.len() && is_digit(t[i as int]) {
        skip_digits(t, i + 1)
    } else {
        i
    }
}

/// End of the run of blanks that starts at `i`.
pub open spec fn skip_blanks(t: Seq<char>, i: nat) -> nat
    decreases t.len() - i,
{
    if i < t.len() && is_blank(t[i as int]) {
        skip_blanks(t, i + 1)
    } else {
        i
    }
}

/// Start of the first run of digits, at or after `i` on the same line, that
/// follows a separator with nothing but blanks between them.
pub open spec fn find_number(t: Seq<char>, i: nat) -> Option<nat>
    decreases t.len() - i,
{
    if i >= t.len() || t[i as int] == '\n' {
        None
    } else if is_separator(t[i as int]) && skip_blanks(t, i + 1) < t.len() && is_digit(
        t[skip_blanks(t, i + 1) as int],
    ) {
        Some(skip_blanks(t, i + 1))
    } else {
        find_number(t, i + 1)
    }
}

/// The status line read from position `p`: a mode word, blanks, optional
/// glyphs, the file name, anything up to a separator that blanks and digits
/// follow, those digits being the line number. Gives the bounds of the name
/// and of the number.
pub open spec fn status_at(t: Seq<char>, p: nat) -> Option<(nat, nat, nat, nat)> {
    match mode_end(t, p) {
        None => None,
        Some(m) => {
            if m < t.len() && is_blank(t[m as int]) {
                let s = skip_chrome(t, m);
                let e = skip_token(t, s);
                if e > s {
                    match find_number(t, e) {
                        None => None,
                        Some(d) => Some((s, e, d, skip_digits(t, d))),
                    }
                } else {
                    None
                }
            } else {
                None
            }
        },
    }
}

/// The first status line that starts at `p` or later.
pub open spec fn find_status(t: Seq<char>, p: nat) -> Option<(nat, nat, nat, nat)>
    decreases t.len() - p,
{
    if p >= t.len() {
        None
    } else {
        match status_at(t, p) {
            Some(r) => Some(r),
            None => find_status(t, p + 1),
        }
    }
}

/// File name and line number of the first status line of a screen.
pub open spec fn status_of(t: Seq<char>) -> Option<(Seq<char>, Seq<char>)> {
    match find_status(t, 0) {
        None => None,
        Some((s, e, d, f)) => Some((t.subrange(s as int, e as int), t.subrange(d as int, f as int))),
    }
}

} // verus!

verus! {

fn glyph(c: char) -> (r: bool)
    ensures
        r == is_glyph(c),
{
    '\u{2800}' <= c && c <= '\u{28ff}'
}

fn has_word(t: &Vec<char>, p: usize, w: &Vec<char>) -> (r: bool)
    ensures
        r == word_at(t@, p as nat, w@),
        r ==> p + w.len() <= t.len(),
{
    if p > t.len() || w.len() > t.len() - p {
        return false;
    }
    let mut j: usize = 0;
    while j < w.len()
        invariant
            p + w.len() <= t.len(),
            j <= w.len(),
            forall|k: int| 0 <= k < j ==> t@[p + k] == w@[k],
        decreases w.len() - j,
    {
        if t[p + j] != w[j] {
            assert(t@.subrange(p as int, p + w.len())[j as int] != w@[j as int]);
            return false;
        }
        j += 1;
    }
    assert(t@.subrange(p as int, p + w.len()) =~= w@);
    true
}

fn mode_end_at(t: &Vec<char>, p: usize) -> (r: Option<usize>)
    ensures
        match mode_end(t@, p as nat) {
            None => r is None,
            Some(m) => r == Some(m as usize) && m <= t@.len(),
        },
{
    let normal = vec!['N', 'O', 'R', 'M', 'A', 'L'];
    let nor = vec!['N', 'O', 'R'];
    let insert = vec!['I', 'N', 'S', 'E', 'R', 'T'];
    let ins = vec!['I', 'N', 'S'];
    let select = vec!['S', 'E', 'L', 'E', 'C', 'T'];
    let sel = vec!['S', 'E', 'L'];
    assert(normal@ =~= seq!['N', 'O', 'R', 'M', 'A', 'L']);
    assert(nor@ =~= seq!['N', 'O', 'R']);
    assert(insert@ =~= seq!['I', 'N', 'S', 'E', 'R', 'T']);
    assert(ins@ =~= seq!['I', 'N', 'S']);
    assert(select@ =~= seq!['S', 'E', 'L', 'E', 'C', 'T']);
    assert(sel@ =~= seq!['S', 'E', 'L']);
    if has_word(t, p, &normal) {
        Some(p + 6)
    } else if has_word(t, p, &nor) {
        Some(p + 3)
    } else if has_word(t, p, &insert) {
        Some(p + 6)
    } else if has_word(t, p, &ins) {
        Some(p + 3)
    } else if has_word(t, p, &select) {
        Some(p + 6)
    } else if has_word(t, p, &sel) {
        Some(p + 3)
    } else {
        None
    }
}

fn chrome_end(t: &Vec<char>, i: usize) -> (r: usize)
    requires
        i <= t.len(),
    ensures
        r == skip_chrome(t@, i as nat),
        i <= r <= t.len(),
{
    let mut j = i;
    while j < t.len() && (blank(t[j]) || glyph(t[j]))
        invariant
            i <= j <= t.len(),
            skip_chrome(t@, i as nat) == skip_chrome(t@, j as nat),
        decreases t.len() - j,
    {
        j += 1;
    }
    j
}

fn token_end(t: &Vec<char>, i: usize) -> (r: usize)
    requires
        i <= t.len(),
    ensures
        r == skip_token(t@, i as nat),
        i <= r <= t.len(),
{
    let mut j = i;
    while j < t.len() && !space(t[j])
        invariant
            i <= j <= t.len(),
            skip_token(t@, i as nat) == skip_token(t@, j as nat),
        decreases t.len() - j,
    {
        j += 1;
    }
    j
}

fn digits_end(t: &Vec<char>, i: usize) -> (r: usize)
    requires
        i <= t.len(),
    ensures
        r == skip_digits(t@, i as nat),
        i <= r <= t.len(),
{
    let mut j = i;
    while j < t.len() && digit(t[j])
        invariant
            i <= j <= t.len(),
            skip_digits(t@, i as nat) == skip_digits(t@, j as nat),
        decreases t.len() - j,
    {
        j += 1;
    }
    j
}

fn blanks_end(t: &Vec<char>, i: usize) -> (r: usize)
    requires
        i <= t.len(),
    ensures
        r == skip_blanks(t@, i as nat),
        i <= r <= t.len(),
{
    let mut j = i;
    while j < t.len() && blank(t[j])
        invariant
            i <= j <= t.len(),
            skip_blanks(t@, i as nat) == skip_blanks(t@, j as nat),
        decreases t.len() - j,
    {
        j += 1;
    }
    j
}

fn number_from(t: &Vec<char>, i: usize) -> (r: Option<usize>)
    requires
        i <= t.len(),
    ensures
        match find_number(t@, i as nat) {
            None => r is None,
            Some(d) => r == Some(d as usize) && d < t@.len(),
        },
{
    let mut j = i;
    while j < t.len() && t[j] != '\n'
        invariant
            i <= j <= t.len(),
            find_number(t@, i as nat) == find_number(t@, j as nat),
        decreases t.len() - j,
    {
        if t[j] == '\u{2502}' {
            let d = blanks_end(t, j + 1);
            if d < t.len() && digit(t[d]) {
                return Some(d);
            }
        }
        j += 1;
    }
    None
}

/// The name bounds and the number bounds of a match are in order and lie
/// within a text of `n` characters.
pub open spec fn ordered_within(r: (nat, nat, nat, nat), n: nat) -> bool {
    r.0 <= r.1 <= n && r.2 <= r.3 <= n
}

fn status_from(t: &Vec<char>, p: usize) -> (r: Option<(usize, usize, usize, usize)>)
    requires
        p < t.len(),
    ensures
        match status_at(t@, p as nat) {
            None => r is None,
            Some(q) => r == Some((q.0 as usize, q.1 as usize, q.2 as usize, q.3 as usize))
                && ordered_within(q, t@.len()),
        },
{
    let m = match mode_end_at(t, p) {
        None => return None,
        Some(m) => m,
    };
    if m >= t.len() || !blank(t[m]) {
        return None;
    }
    let s = chrome_end(t, m);
    let e = token_end(t, s);
    if e <= s {
        return None;
    }
    let d = match number_from(t, e) {
        None => return None,
        Some(d) => d,
    };
    Some((s, e, d, digits_end(t, d)))
}

fn first_status(t: &Vec<char>) -> (r: Option<(usize, usize, usize, usize)>)
    ensures
        match find_status(t@, 0) {
            None => r is None,
            Some(q) => r == Some((q.0 as usize, q.1 as usize, q.2 as usize, q.3 as usize))
                && ordered_within(q, t@.len()),
        },
{
    let mut p: usize = 0;
    while p < t.len()
        invariant
            p <= t.len(),
            find_status(t@, 0) == find_status(t@, p as nat),
        decreases t.len() - p,
    {
        let r = status_from(t, p);
        if r.is_some() {
            return r;
        }
        p += 1;
    }
    None
}

/// Reads the file name and the line number from the editor's screen text:
/// the first status line wins, and a screen without one is an error.
pub fn get_status_line(screen: &str) -> (r: Result<(String, String), CommandError>)
    ensures
        match status_of(screen@) {
            None => r == Err::<(String, String), CommandError>(CommandError::StatusParse),
            Some((name, line)) => r is Ok && r->Ok_0.0@ == name && r->Ok_0.1@ == line,
        },
{
    let t = chars_of(screen);
    match first_status(&t) {
        None => Err(CommandError::StatusParse),
        Some((s, e, d, f)) => Ok((substring(screen, s, e), substring(screen, d, f))),
    }
}

} // verus!

verus! {

proof fn lemma_skip_chrome(t: Seq<char>, i: nat)
    requires
        i <= t.len(),
    ensures
        i <= skip_chrome(t, i) <= t.len(),
    decreases t.len() - i,
{
    if i < t.len() && (is_blank(t[i as int]) || is_glyph(t[i as int])) {
        lemma_skip_chrome(t, i + 1);
    }
}

proof fn lemma_skip_token(t: Seq<char>, i: nat)
    requires
        i <= t.len(),
    ensures
        i <= skip_token(t, i) <= t.len(),
        forall|k: int| i <= k < skip_token(t, i) ==> !is_space(#[trigger] t[k]),
    decreases t.len() - i,
{
    if i < t.len() && !is_space(t[i as int]) {
        lemma_skip_token(t, i + 1);
    }
}

proof fn lemma_skip_digits(t: Seq<char>, i: nat)
    requires
        i <= t.len(),
    ensures
        i <= skip_digits(t, i) <= t.len(),
        forall|k: int| i <= k < skip_digits(t, i) ==> is_digit(#[trigger] t[k]),
    decreases t.len() - i,
{
    if i < t.len() && is_digit(t[i as int]) {
        lemma_skip_digits(t, i + 1);
    }
}

proof fn lemma_find_number(t: Seq<char>, i: nat)
    ensures
        find_number(t, i) matches Some(d) ==> d < t.len() && is_digit(t[d as int]),
    decreases t.len() - i,
{
    if i < t.len() && t[i as int] != '\n' {
        lemma_find_number(t, i + 1);
    }
}

proof fn lemma_status_at(t: Seq<char>, p: nat)
    ensures
        status_at(t, p) matches Some(r) ==> r.0 < r.1 <= t.len() && r.2 < r.3 <= t.len()
            && (forall|k: int| r.0 <= k < r.1 ==> !is_space(#[trigger] t[k])) && (forall|k: int|
            r.2 <= k < r.3 ==> is_digit(#[trigger] t[k])),
{
    if let Some(m) = mode_end(t, p) {
        if m < t.len() && is_blank(t[m as int]) {
            lemma_skip_chrome(t, m);
            let s = skip_chrome(t, m);
            lemma_skip_token(t, s);
            let e = skip_token(t, s);
            lemma_find_number(t, e);
            if let Some(d) = find_number(t, e) {
                lemma_skip_digits(t, d);
                lemma_skip_digits(t, d + 1);
            }
        }
    }
}

proof fn lemma_find_status(t: Seq<char>, p: nat)
    ensures
        find_status(t, p) matches Some(r) ==> exists|q: nat| status_at(t, q) == Some(r),
    decreases t.len() - p,
{
    if p < t.len() {
        if status_at(t, p) is None {
            lemma_find_status(t, p + 1);
        }
    }
}

/// What the status line gives is a non-empty file name without whitespace
/// and a non-empty run of digits as line number.
pub proof fn lemma_status_shape(t: Seq<char>)
    requires
        status_of(t) is Some,
    ensures
        status_of(t)->Some_0.0.len() > 0,
        forall|k: int|
            0 <= k < status_of(t)->Some_0.0.len() ==> !is_space(#[trigger] status_of(t)->Some_0.0[k]),
        status_of(t)->Some_0.1.len() > 0,
        all_digits(status_of(t)->Some_0.1),
{
    lemma_find_status(t, 0);
    let r = find_status(t, 0)->Some_0;
    let q = choose|q: nat| status_at(t, q) == Some(r);
    lemma_status_at(t, q);
    let name = status_of(t)->Some_0.0;
    let line = status_of(t)->Some_0.1;
    assert forall|k: int| 0 <= k < name.len() implies !is_space(#[trigger] name[k]) by {
        assert(name[k] == t[r.0 + k]);
    }
    assert forall|k: int| 0 <= k < line.len() implies is_digit(#[trigger] line[k]) by {
        assert(line[k] == t[r.2 + k]);
    }
}

} // verus!
