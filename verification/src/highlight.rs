use vstd::prelude::*;

use crate::matcher::{interleave, regex_find_all, regex_split, Matcher};
use crate::text::{chars_of, string_of, strs};

verus! {

/// Where the `k`-th match begins, in a text made of the parts `p` with the
/// matches `m` between them.
pub open spec fn match_start(p: Seq<Seq<char>>, m: Seq<Seq<char>>, k: int) -> int {
    interleave(p.take(k + 1), m.take(k)).len() as int
}

/// Whether character `i` of the text lies inside the `k`-th match.
pub open spec fn in_match(i: int, p: Seq<Seq<char>>, m: Seq<Seq<char>>, k: int) -> bool {
    match_start(p, m, k) <= i < match_start(p, m, k) + m[k].len()
}

/// Whether character `i` of `line` lies inside a match of regex `r`.
pub open spec fn struck_by(i: int, line: Seq<char>, regexes: Seq<Matcher>, r: int) -> bool {
    let p = regex_split(regexes[r].source(), line);
    let m = regex_find_all(regexes[r].source(), line);
    exists|k: int| 0 <= k < m.len() && #[trigger] in_match(i, p, m, k)
}

/// Whether character `i` of `line` lies inside a match of one of the first
/// `rr` regexes.
pub open spec fn struck_upto(i: int, line: Seq<char>, regexes: Seq<Matcher>, rr: int) -> bool {
    exists|r: int| 0 <= r < rr && #[trigger] struck_by(i, line, regexes, r)
}

/// Which characters of `line` lie inside a match of some regex.
pub open spec fn match_mask(line: Seq<char>, regexes: Seq<Matcher>) -> Seq<bool> {
    Seq::new(line.len(), |i: int| struck_upto(i, line, regexes, regexes.len() as int))
}

/// The escape that starts a highlighted run (bold red).
pub open spec fn highlight_on() -> Seq<char> {
    seq!['\x1b', '[', '1', ';', '3', '1', 'm']
}

/// The escape that ends a highlighted run.
pub open spec fn highlight_off() -> Seq<char> {
    seq!['\x1b', '[', '0', 'm']
}

/// Character `i` of `line` with the escapes around it: a highlighted run
/// opens before its first character and closes after its last.
pub open spec fn marked_char(line: Seq<char>, mask: Seq<bool>, i: int) -> Seq<char> {
    (if mask[i] && (i == 0 || !mask[i - 1]) {
        highlight_on()
    } else {
        seq![]
    }) + seq![line[i]] + (if mask[i] && (i + 1 == line.len() || !mask[i + 1]) {
        highlight_off()
    } else {
        seq![]
    })
}

/// The first `k` characters of `line`, with the masked runs highlighted.
pub open spec fn marked_upto(line: Seq<char>, mask: Seq<bool>, k: int) -> Seq<char>
    decreases k,
{
    if k <= 0 {
        seq![]
    } else {
        marked_upto(line, mask, k - 1) + marked_char(line, mask, k - 1)
    }
}

/// `line` with every run of matched characters highlighted.
pub open spec fn highlighted(line: Seq<char>, regexes: Seq<Matcher>) -> Seq<char> {
    marked_upto(line, match_mask(line, regexes), line.len() as int)
}

/// How a line is shown: with its matches highlighted when output is colored.
pub open spec fn shown_line(line: Seq<char>, regexes: Seq<Matcher>, colored: bool) -> Seq<char> {
    if colored {
        highlighted(line, regexes)
    } else {
        line
    }
}

proof fn lemma_interleave_prefix(p: Seq<Seq<char>>, m: Seq<Seq<char>>, j: int)
    requires
        p.len() == m.len() + 1,
        0 <= j <= m.len(),
    ensures
        match_start(p, m, j) <= interleave(p, m).len(),
        j < m.len() ==> match_start(p, m, j + 1) == match_start(p, m, j) + m[j].len() + p[j + 1].len(),
    decreases m.len() - j,
{
    if j < m.len() {
        lemma_interleave_prefix(p, m, j + 1);
        assert(p.take(j + 2).drop_last() =~= p.take(j + 1));
        assert(m.take(j + 1).drop_last() =~= m.take(j));
    } else {
        assert(p.take(j + 1) =~= p);
        assert(m.take(j) =~= m);
    }
}

fn push_on(out: &mut Vec<char>)
    ensures
        final(out)@ == old(out)@ + highlight_on(),
{
    out.push('\x1b');
    out.push('[');
    out.push('1');
    out.push(';');
    out.push('3');
    out.push('1');
    out.push('m');
    assert(out@ =~= old(out)@ + highlight_on());
}

fn push_off(out: &mut Vec<char>)
    ensures
        final(out)@ == old(out)@ + highlight_off(),
{
    out.push('\x1b');
    out.push('[');
    out.push('0');
    out.push('m');
    assert(out@ =~= old(out)@ + highlight_off());
}

/// Marks the characters inside the matches of one regex.
fn mark_matches(mask: &mut Vec<bool>, line: &str, m: &Matcher, Ghost(regexes): Ghost<Seq<Matcher>>, Ghost(r): Ghost<int>)
    requires
        old(mask)@.len() == line@.len(),
        0 <= r < regexes.len(),
        regexes[r] == *m,
    ensures
        final(mask)@.len() == line@.len(),
        forall|i: int| 0 <= i < line@.len() ==> #[trigger] final(mask)@[i] == (old(mask)@[i] || struck_by(i, line@, regexes, r)),
{
    let ghost before = mask@;
    let (parts, found) = m.match_parts(line);
    let ghost p = strs(parts@);
    let ghost f = strs(found@);
    let n = mask.len();
    proof {
        assert(p.take(1) =~= seq![p[0]]);
        assert(f.take(0) =~= Seq::<Seq<char>>::empty());
        assert(match_start(p, f, 0) == p[0].len());
        assert(p[0] == parts@[0]@);
    }
    let mut pos: usize = parts[0].as_str().unicode_len();
    let mut k: usize = 0;
    while k < found.len()
        invariant
            p == strs(parts@),
            f == strs(found@),
            p.len() == f.len() + 1,
            interleave(p, f) == line@,
            n == line@.len(),
            mask@.len() == n,
            k <= f.len(),
            pos == match_start(p, f, k as int),
            p == regex_split(m.source(), line@),
            f == regex_find_all(m.source(), line@),
            forall|i: int| 0 <= i < n ==> #[trigger] mask@[i] == (before[i] || exists|kk: int| 0 <= kk < k && #[trigger] in_match(i, p, f, kk)),
        decreases f.len() - k,
    {
        proof {
            lemma_interleave_prefix(p, f, k as int);
            lemma_interleave_prefix(p, f, k + 1);
            assert(f[k as int] == found@[k as int]@);
            assert(p[k + 1] == parts@[k + 1]@);
        }
        let len_k = found[k].as_str().unicode_len();
        let end = pos + len_k;
        let ghost start_mask = mask@;
        let mut t: usize = pos;
        while t < end
            invariant
                pos <= t <= end,
                end <= n,
                mask@.len() == n,
                forall|i: int| 0 <= i < n ==> #[trigger] mask@[i] == (start_mask[i] || (pos <= i < t)),
            decreases end - t,
        {
            mask.set(t, true);
            t = t + 1;
        }
        proof {
            assert forall|i: int| 0 <= i < n implies #[trigger] mask@[i] == (before[i] || exists|kk: int| 0 <= kk < k + 1 && #[trigger] in_match(i, p, f, kk)) by {
                assert(in_match(i, p, f, k as int) == (pos <= i < end));
                if exists|kk: int| 0 <= kk < k + 1 && #[trigger] in_match(i, p, f, kk) {
                    let kk = choose|kk: int| 0 <= kk < k + 1 && #[trigger] in_match(i, p, f, kk);
                    if kk < k {
                        assert(exists|k2: int| 0 <= k2 < k && #[trigger] in_match(i, p, f, k2));
                    }
                }
            }
        }
        pos = end + parts[k + 1].as_str().unicode_len();
        k = k + 1;
    }
    proof {
        assert forall|i: int| 0 <= i < line@.len() implies #[trigger] mask@[i] == (before[i] || struck_by(i, line@, regexes, r)) by {
            assert(regexes[r].source() == m.source());
        }
    }
}

/// `line` with every run of characters that some regex matches
/// highlighted in bold red (see `highlighted`).
pub fn highlight_matches(line: &str, regexes: &[Matcher]) -> (r: String)
    ensures
        r@ == highlighted(line@, regexes@),
{
    let chars = chars_of(line);
    let n = chars.len();
    let mut mask: Vec<bool> = Vec::new();
    let mut z: usize = 0;
    while z < n
        invariant
            z <= n,
            mask@.len() == z,
            forall|i: int| 0 <= i < z ==> !#[trigger] mask@[i],
        decreases n - z,
    {
        mask.push(false);
        z = z + 1;
    }
    let mut r: usize = 0;
    while r < regexes.len()
        invariant
            n == line@.len(),
            r <= regexes@.len(),
            mask@.len() == n,
            forall|i: int| 0 <= i < n ==> #[trigger] mask@[i] == struck_upto(i, line@, regexes@, r as int),
        decreases regexes@.len() - r,
    {
        let ghost before = mask@;
        mark_matches(&mut mask, line, &regexes[r], Ghost(regexes@), Ghost(r as int));
        proof {
            assert forall|i: int| 0 <= i < n implies #[trigger] mask@[i] == struck_upto(i, line@, regexes@, r + 1) by {
                if struck_upto(i, line@, regexes@, r + 1) {
                    let w = choose|w: int| 0 <= w < r + 1 && #[trigger] struck_by(i, line@, regexes@, w);
                    if w < r {
                        assert(struck_upto(i, line@, regexes@, r as int));
                    }
                }
                if struck_upto(i, line@, regexes@, r as int) {
                    let w = choose|w: int| 0 <= w < r && #[trigger] struck_by(i, line@, regexes@, w);
                    assert(struck_upto(i, line@, regexes@, r + 1));
                }
                if struck_by(i, line@, regexes@, r as int) {
                    assert(struck_upto(i, line@, regexes@, r + 1));
                }
            }
        }
        r = r + 1;
    }
    let ghost mk = match_mask(line@, regexes@);
    assert(mask@ =~= mk);
    let mut out: Vec<char> = Vec::new();
    let mut i: usize = 0;
    while i < n
        invariant
            n == line@.len(),
            chars@ == line@,
            mask@ == mk,
            mk == match_mask(line@, regexes@),
            i <= n,
            out@ == marked_upto(line@, mk, i as int),
        decreases n - i,
    {
        let ghost prev = out@;
        if mask[i] && (i == 0 || !mask[i - 1]) {
            push_on(&mut out);
        }
        out.push(chars[i]);
        if mask[i] && (i + 1 == n || !mask[i + 1]) {
            push_off(&mut out);
        }
        assert(out@ =~= prev + marked_char(line@, mk, i as int));
        i = i + 1;
    }
    string_of(out.as_slice())
}

} // verus!
