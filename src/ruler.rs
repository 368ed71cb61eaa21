//! The column ruler: each character of a line under its index, so that the
//! operator can read off span offsets.

use vstd::prelude::*;
use crate::text::{dec, decimal, lemma_dec_len_mono, lemma_dec_len_usize, repeat, repeat_str, spaces};

verus! {

/// `s` centered in a field `width` wide; an odd leftover space goes right.
pub open spec fn center(s: Seq<char>, width: nat) -> Seq<char> {
    let pad = (width - s.len()) as nat;
    spaces(pad / 2) + s + spaces((pad - pad / 2) as nat)
}

/// The items one after another, each centered in a field `width` wide.
pub open spec fn blocks(items: Seq<Seq<char>>, width: nat) -> Seq<char>
    decreases items.len(),
{
    if items.len() == 0 {
        Seq::empty()
    } else {
        blocks(items.drop_last(), width) + center(items.last(), width)
    }
}

/// The width of one column of the ruler of a line of `n` characters: room
/// for the largest index and one space.
pub open spec fn ruler_width(n: nat) -> nat {
    dec(n).len() + 1
}

/// The indices `0 .. n`, one per column.
pub open spec fn index_row(n: nat, width: nat) -> Seq<char> {
    blocks(Seq::new(n, |i: int| dec(i as nat)), width)
}

/// The characters of `line`, one per column.
pub open spec fn char_row(line: Seq<char>, width: nat) -> Seq<char> {
    blocks(Seq::new(line.len(), |i: int| seq![line[i]]), width)
}

/// A horizontal rule across `n` columns `width` wide.
pub open spec fn rule(n: nat, width: nat) -> Seq<char> {
    repeat(repeat(seq!['\u{2500}'], width), n)
}

/// The ruler of `line`: a rule, the index row, the character row, a rule,
/// each ended by a newline.
pub open spec fn ruler_spec(line: Seq<char>) -> Seq<char> {
    let n = line.len();
    let w = ruler_width(n);
    rule(n, w) + seq!['\n'] + index_row(n, w) + seq!['\n'] + char_row(line, w) + seq!['\n']
        + rule(n, w) + seq!['\n']
}

proof fn lemma_center_len(s: Seq<char>, width: nat)
    requires
        s.len() <= width,
    ensures
        center(s, width).len() == width,
{
    let pad = (width - s.len()) as nat;
    crate::text::lemma_repeat_char(' ', pad / 2);
    crate::text::lemma_repeat_char(' ', (pad - pad / 2) as nat);
}

/// Items that fit their field make a row of `width`-wide blocks: block `i`
/// spans indices `i * width .. (i + 1) * width` and holds item `i` centered.
pub proof fn lemma_blocks(items: Seq<Seq<char>>, width: nat)
    requires
        forall|j: int| 0 <= j < items.len() ==> (#[trigger] items[j]).len() <= width,
    ensures
        blocks(items, width).len() == items.len() * width,
        forall|i: int|
            0 <= i < items.len() ==> #[trigger] blocks(items, width).subrange(
                i * width,
                (i + 1) * width,
            ) == center(items[i], width),
    decreases items.len(),
{
    if items.len() > 0 {
        let m = (items.len() - 1) as nat;
        let front = items.drop_last();
        lemma_blocks(front, width);
        lemma_center_len(items.last(), width);
        let b = blocks(items, width);
        assert(b == blocks(front, width) + center(items.last(), width));
        assert(m * width + width == items.len() * width) by (nonlinear_arith)
            requires
                m + 1 == items.len(),
        ;
        assert forall|i: int| 0 <= i < items.len() implies #[trigger] b.subrange(
            i * width,
            (i + 1) * width,
        ) == center(items[i], width) by {
            if i < m {
                assert(i * width + width <= m * width) by (nonlinear_arith)
                    requires
                        i < m,
                ;
                assert((i + 1) * width == i * width + width) by (nonlinear_arith);
                assert(0 <= i * width) by (nonlinear_arith)
                    requires
                        0 <= i,
                ;
                assert(b.subrange(i * width, (i + 1) * width) =~= blocks(front, width).subrange(
                    i * width,
                    (i + 1) * width,
                ));
            } else {
                assert((i + 1) * width == m * width + width) by (nonlinear_arith)
                    requires
                        i == m,
                ;
                assert(i * width == m * width);
                assert(b.subrange(i * width, (i + 1) * width) =~= center(items.last(), width));
            }
        }
    }
}

/// Index `i` and character `i` of a line stand in the same column: both rows
/// are made of blocks of one width, and block `i` of each holds index `i`
/// and character `i`, centered alike.
pub proof fn lemma_ruler_columns(line: Seq<char>)
    ensures
        ({
            let n = line.len();
            let w = ruler_width(n);
            &&& index_row(n, w).len() == n * w
            &&& char_row(line, w).len() == n * w
            &&& forall|i: int|
                0 <= i < n ==> #[trigger] index_row(n, w).subrange(i * w, (i + 1) * w) == center(
                    dec(i as nat),
                    w,
                ) && char_row(line, w).subrange(i * w, (i + 1) * w) == center(seq![line[i]], w)
        }),
{
    let n = line.len();
    let w = ruler_width(n);
    let idx = Seq::new(n, |i: int| dec(i as nat));
    let chs = Seq::new(n, |i: int| seq![line[i]]);
    assert forall|j: int| 0 <= j < idx.len() implies (#[trigger] idx[j]).len() <= w by {
        lemma_dec_len_mono(j as nat, n);
    }
    assert forall|j: int| 0 <= j < chs.len() implies (#[trigger] chs[j]).len() <= w by {
        crate::text::lemma_dec_len_pos(n);
    }
    lemma_blocks(idx, w);
    lemma_blocks(chs, w);
}

/// `s` centered in a field `width` wide.
fn centered(s: &str, width: usize) -> (r: String)
    requires
        s@.len() <= width,
    ensures
        r@ == center(s@, width as nat),
{
    proof {
        reveal_strlit(" ");
        assert(" "@ =~= seq![' ']);
    }
    let pad = width - s.unicode_len();
    let mut r = repeat_str(" ", pad / 2);
    r.append(s);
    r.append(repeat_str(" ", pad - pad / 2).as_str());
    r
}

/// The ruler of `line`, as text ready to be shown.
pub fn print_line_helper(line: String) -> (r: String)
    ensures
        r@ == ruler_spec(line@),
{
    proof {
        reveal_strlit("\u{2500}");
        reveal_strlit("\n");
        assert("\u{2500}"@ =~= seq!['\u{2500}']);
    }
    let line = line.as_str();
    let n = line.unicode_len();
    let digits = decimal(n);
    proof {
        lemma_dec_len_usize(n);
    }
    let width = digits.as_str().unicode_len() + 1;
    let ghost w = ruler_width(n as nat);
    let ghost idx = Seq::new(n as nat, |i: int| dec(i as nat));
    let ghost chs = Seq::new(n as nat, |i: int| seq![line@[i]]);

    let mut indices = String::new();
    let mut chars = String::new();
    let mut i: usize = 0;
    while i < n
        invariant
            i <= n,
            n == line@.len(),
            width == w,
            w == dec(n as nat).len() + 1,
            idx.len() == n,
            chs.len() == n,
            forall|j: int| 0 <= j < n ==> #[trigger] idx[j] == dec(j as nat),
            forall|j: int| 0 <= j < n ==> #[trigger] chs[j] == seq![line@[j]],
            indices@ == blocks(idx.take(i as int), w),
            chars@ == blocks(chs.take(i as int), w),
        decreases n - i,
    {
        let number = decimal(i);
        proof {
            lemma_dec_len_mono(i as nat, n as nat);
        }
        indices.append(centered(number.as_str(), width).as_str());
        chars.append(centered(line.substring_char(i, i + 1), width).as_str());
        proof {
            let t = idx.take(i + 1);
            assert(t.len() == i + 1);
            assert(t.drop_last() =~= idx.take(i as int));
            assert(t.last() == dec(i as nat));
            let u = chs.take(i + 1);
            assert(u.drop_last() =~= chs.take(i as int));
            assert(line@.subrange(i as int, i + 1) =~= u.last());
        }
        i = i + 1;
    }
    assert(idx.take(n as int) =~= idx);
    assert(chs.take(n as int) =~= chs);

    let rule_row = repeat_str(repeat_str("\u{2500}", width).as_str(), n);
    let mut r = rule_row.clone();
    r.append("\n");
    r.append(indices.as_str());
    r.append("\n");
    r.append(chars.as_str());
    r.append("\n");
    r.append(rule_row.as_str());
    r.append("\n");
    r
}

} // verus!
