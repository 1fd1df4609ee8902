use vstd::prelude::*;

use crate::number::{parse_decimal, parse_digits};
use crate::text::{chars_of, is_space, space};

verus! {

/// Splits `t` at each line break, from position `i` on, given the line read so
/// far and the lines before it.
pub open spec fn lines_from(t: Seq<char>, i: nat, cur: Seq<char>, acc: Seq<Seq<char>>) -> Seq<
    Seq<char>,
>
    decreases t.len() - i,
{
    if i >= t.len() {
        acc.push(cur)
    } else if t[i as int] == '\n' {
        lines_from(t, i + 1, Seq::empty(), acc.push(cur))
    } else {
        lines_from(t, i + 1, cur.push(t[i as int]), acc)
    }
}

/// The lines of `t`, without their line breaks.
pub open spec fn lines_of(t: Seq<char>) -> Seq<Seq<char>> {
    lines_from(t, 0, Seq::empty(), Seq::empty())
}

/// The fields read so far, with the one being read if it is not empty.
pub open spec fn close_field(cur: Seq<char>, acc: Seq<Seq<char>>) -> Seq<Seq<char>> {
    if cur.len() > 0 {
        acc.push(cur)
    } else {
        acc
    }
}

/// Splits `t` into runs of non-whitespace characters, from position `i` on.
pub open spec fn fields_from(t: Seq<char>, i: nat, cur: Seq<char>, acc: Seq<Seq<char>>) -> Seq<
    Seq<char>,
>
    decreases t.len() - i,
{
    if i >= t.len() {
        close_field(cur, acc)
    } else if is_space(t[i as int]) {
        fields_from(t, i + 1, Seq::empty(), close_field(cur, acc))
    } else {
        fields_from(t, i + 1, cur.push(t[i as int]), acc)
    }
}

/// The whitespace-separated fields of a line.
pub open spec fn fields_of(t: Seq<char>) -> Seq<Seq<char>> {
    fields_from(t, 0, Seq::empty(), Seq::empty())
}

/// Index of the first `x` in a size field such as `80x24`, or its length.
pub open spec fn cross_index(s: Seq<char>, i: nat) -> nat
    decreases s.len() - i,
{
    if i >= s.len() {
        s.len()
    } else if s[i as int] == 'x' {
        i
    } else {
        cross_index(s, i + 1)
    }
}

/// A row of the pane listing: its third field is the pane id, its fifth the
/// size as columns `x` rows. Rows that are short or do not read are `None`.
pub open spec fn pane_row(line: Seq<char>) -> Option<(u64, u64)> {
    let f = fields_of(line);
    if f.len() < 5 {
        None
    } else {
        let size = f[4];
        let k = cross_index(size, 0);
        match parse_decimal(f[2]) {
            None => None,
            Some(id) => if k >= size.len() {
                None
            } else {
                match parse_decimal(size.subrange(0, k as int)) {
                    None => None,
                    Some(w) => Some((id, w)),
                }
            },
        }
    }
}

/// Pane id and width of each readable row among `lines[1..k]`.
pub open spec fn pane_rows(lines: Seq<Seq<char>>, k: nat) -> Seq<(u64, u64)>
    decreases k,
{
    if k <= 1 || k > lines.len() {
        Seq::empty()
    } else {
        match pane_row(lines[k - 1]) {
            None => pane_rows(lines, (k - 1) as nat),
            Some(r) => pane_rows(lines, (k - 1) as nat).push(r),
        }
    }
}

/// Pane id and width of each row of a pane listing; the first line is the
/// header.
pub open spec fn pane_table(t: Seq<char>) -> Seq<(u64, u64)> {
    pane_rows(lines_of(t), lines_of(t).len())
}

/// The character sequences that a list of character vectors holds.
pub open spec fn views(v: Seq<Vec<char>>) -> Seq<Seq<char>> {
    v.map_values(|c: Vec<char>| c@)
}

fn split_lines(t: &Vec<char>) -> (r: Vec<Vec<char>>)
    ensures
        views(r@) == lines_of(t@),
{
    let mut acc: Vec<Vec<char>> = Vec::new();
    let mut cur: Vec<char> = Vec::new();
    let mut i: usize = 0;
    assert(views(acc@) =~= Seq::<Seq<char>>::empty());
    assert(cur@ =~= Seq::<char>::empty());
    while i < t.len()
        invariant
            i <= t.len(),
            lines_of(t@) == lines_from(t@, i as nat, cur@, views(acc@)),
        decreases t.len() - i,
    {
        if t[i] == '\n' {
            let line = cur;
            proof {
                assert(views(acc@.push(line)) =~= views(acc@).push(line@));
            }
            acc.push(line);
            cur = Vec::new();
        } else {
            cur.push(t[i]);
        }
        i += 1;
    }
    proof {
        assert(views(acc@.push(cur)) =~= views(acc@).push(cur@));
    }
    acc.push(cur);
    acc
}

fn split_fields(t: &Vec<char>) -> (r: Vec<Vec<char>>)
    ensures
        views(r@) == fields_of(t@),
{
    let mut acc: Vec<Vec<char>> = Vec::new();
    let mut cur: Vec<char> = Vec::new();
    let mut i: usize = 0;
    assert(views(acc@) =~= Seq::<Seq<char>>::empty());
    assert(cur@ =~= Seq::<char>::empty());
    while i < t.len()
        invariant
            i <= t.len(),
            fields_of(t@) == fields_from(t@, i as nat, cur@, views(acc@)),
        decreases t.len() - i,
    {
        if space(t[i]) {
            if cur.len() > 0 {
                let field = cur;
                proof {
                    assert(views(acc@.push(field)) =~= views(acc@).push(field@));
                }
                acc.push(field);
                cur = Vec::new();
            } else {
                assert(cur@ =~= Seq::<char>::empty());
            }
        } else {
            cur.push(t[i]);
        }
        i += 1;
    }
    if cur.len() > 0 {
        proof {
            assert(views(acc@.push(cur)) =~= views(acc@).push(cur@));
        }
        acc.push(cur);
    }
    acc
}

fn read_row(line: &Vec<char>) -> (r: Option<(u64, u64)>)
    ensures
        r == pane_row(line@),
{
    let f = split_fields(line);
    assert(views(f@).len() == f@.len());
    if f.len() < 5 {
        return None;
    }
    assert(views(f@)[2] == f@[2]@ && views(f@)[4] == f@[4]@);
    let id = match parse_digits(&f[2]) {
        None => return None,
        Some(id) => id,
    };
    let size = &f[4];
    let mut k: usize = 0;
    while k < size.len() && size[k] != 'x'
        invariant
            k <= size.len(),
            cross_index(size@, 0) == cross_index(size@, k as nat),
        decreases size.len() - k,
    {
        k += 1;
    }
    if k >= size.len() {
        return None;
    }
    let mut columns: Vec<char> = Vec::new();
    let mut j: usize = 0;
    while j < k
        invariant
            j <= k < size.len(),
            columns@ == size@.subrange(0, j as int),
        decreases k - j,
    {
        columns.push(size[j]);
        j += 1;
        assert(columns@ =~= size@.subrange(0, j as int));
    }
    match parse_digits(&columns) {
        None => None,
        Some(w) => Some((id, w)),
    }
}

/// Pane id and width in columns of each row of the multiplexer's pane
/// listing. The first line is a header; rows with fewer than five fields, or
/// whose id or size does not read, are skipped.
pub fn extract_pane_id_and_size(input: &str) -> (r: Vec<(u64, u64)>)
    ensures
        r@ == pane_table(input@),
{
    let t = chars_of(input);
    let lines = split_lines(&t);
    let ghost ls = views(lines@);
    assert(ls.len() == lines@.len());
    let mut out: Vec<(u64, u64)> = Vec::new();
    let mut k: usize = 1;
    while k < lines.len()
        invariant
            ls == views(lines@),
            ls == lines_of(t@),
            ls.len() == lines@.len(),
            1 <= k,
            k <= lines.len() || lines.len() == 0,
            out@ == pane_rows(ls, k as nat),
        decreases lines.len() - k,
    {
        assert(ls[k as int] == lines@[k as int]@);
        match read_row(&lines[k]) {
            None => {},
            Some(row) => out.push(row),
        }
        k += 1;
    }
    out
}

} // verus!

verus! {

/// Sum of the widths of the rows among the first `k` whose pane is in `panes`.
pub open spec fn total_width(rows: Seq<(u64, u64)>, panes: Seq<u64>, k: nat) -> int
    decreases k,
{
    if k == 0 || k > rows.len() {
        0
    } else if panes.contains(rows[k - 1].0) {
        total_width(rows, panes, (k - 1) as nat) + rows[k - 1].1
    } else {
        total_width(rows, panes, (k - 1) as nat)
    }
}

/// Width of pane `id` in the last of the first `k` rows that lists it; 0
/// when none does.
pub open spec fn width_of(rows: Seq<(u64, u64)>, id: u64, k: nat) -> u64
    decreases k,
{
    if k == 0 || k > rows.len() {
        0
    } else if rows[k - 1].0 == id {
        rows[k - 1].1
    } else {
        width_of(rows, id, (k - 1) as nat)
    }
}

proof fn lemma_total_width_grows(rows: Seq<(u64, u64)>, panes: Seq<u64>, i: nat, j: nat)
    requires
        i <= j <= rows.len(),
    ensures
        0 <= total_width(rows, panes, i) <= total_width(rows, panes, j),
    decreases j,
{
    if i < j {
        lemma_total_width_grows(rows, panes, i, (j - 1) as nat);
    } else if i > 0 {
        lemma_total_width_grows(rows, panes, (i - 1) as nat, (i - 1) as nat);
    }
}

fn last_width(rows: &Vec<(u64, u64)>, id: u64) -> (r: u64)
    ensures
        r == width_of(rows@, id, rows@.len()),
{
    let mut k = rows.len();
    while k > 0
        invariant
            k <= rows.len(),
            width_of(rows@, id, rows@.len()) == width_of(rows@, id, k as nat),
        decreases k,
    {
        if rows[k - 1].0 == id {
            return rows[k - 1].1;
        }
        k -= 1;
    }
    0
}

/// Current width of each of `panes` according to the listing `rows`, and the
/// total width of the rows that belong to them; `None` when that total does
/// not fit in 64 bits.
pub fn get_pane_sizes(rows: &Vec<(u64, u64)>, panes: &Vec<u64>) -> (r: Option<(Vec<u64>, u64)>)
    ensures
        total_width(rows@, panes@, rows@.len()) > u64::MAX ==> r is None,
        total_width(rows@, panes@, rows@.len()) <= u64::MAX ==> r is Some && r->Some_0.1
            == total_width(rows@, panes@, rows@.len()) && r->Some_0.0@.len() == panes@.len() && (
        forall|i: int|
            0 <= i < panes@.len() ==> #[trigger] r->Some_0.0@[i] == width_of(
                rows@,
                panes@[i],
                rows@.len(),
            )),
{
    let mut total: u64 = 0;
    let mut k: usize = 0;
    while k < rows.len()
        invariant
            k <= rows.len(),
            total == total_width(rows@, panes@, k as nat),
        decreases rows.len() - k,
    {
        let (id, w) = rows[k];
        let mut member = false;
        let mut j: usize = 0;
        while j < panes.len()
            invariant
                j <= panes.len(),
                member == exists|m: int| 0 <= m < j && panes@[m] == id,
            decreases panes.len() - j,
        {
            if panes[j] == id {
                member = true;
            }
            j += 1;
        }
        if member {
            if w > u64::MAX - total {
                proof {
                    lemma_total_width_grows(rows@, panes@, (k + 1) as nat, rows@.len());
                }
                return None;
            }
            total = total + w;
        }
        k += 1;
    }
    let mut sizes: Vec<u64> = Vec::new();
    let mut i: usize = 0;
    while i < panes.len()
        invariant
            i <= panes.len(),
            sizes@.len() == i,
            forall|m: int| 0 <= m < i ==> #[trigger] sizes@[m] == width_of(rows@, panes@[m], rows@.len()),
        decreases panes.len() - i,
    {
        sizes.push(last_width(rows, panes[i]));
        i += 1;
    }
    Some((sizes, total))
}

} // verus!
