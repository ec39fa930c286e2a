use vstd::prelude::*;

verus! {

/// What `str::to_lowercase` gives for a string: its lowercase form under the
/// Unicode case mappings (one character may become several, and a capital
/// sigma depends on the characters around it).
pub uninterp spec fn str_lowercase(s: Seq<char>) -> Seq<char>;

/// Whether every character is ASCII.
pub open spec fn all_ascii(s: Seq<char>) -> bool {
    forall|i: int| 0 <= i < s.len() ==> #[trigger] s[i] <= '\x7f'
}

/// The ASCII lowercase of a character: `A`..`Z` become `a`..`z`, every other
/// character stays.
pub open spec fn ascii_lower(c: char) -> char {
    if 'A' <= c <= 'Z' {
        ((c as u32) + 32) as char
    } else {
        c
    }
}

/// The lowercase form of a string: letter by letter for ASCII text,
/// `str_lowercase` otherwise.
pub open spec fn lowered(s: Seq<char>) -> Seq<char> {
    if all_ascii(s) {
        s.map_values(|c: char| ascii_lower(c))
    } else {
        str_lowercase(s)
    }
}

/// Lowercases the characters of `chars` with `str::to_lowercase`.
/// Claimed: the result is `str_lowercase` of the characters, and for ASCII
/// text it is the text with `A`..`Z` turned into `a`..`z`.
#[verifier::external_body]
fn lowercase(chars: &Vec<char>) -> (r: String)
    ensures
        r@ == str_lowercase(chars@),
        all_ascii(chars@) ==> r@ == chars@.map_values(|c: char| ascii_lower(c)),
{
    chars.iter().collect::<String>().to_lowercase()
}

pub open spec fn is_sign(c: char) -> bool {
    c == '+' || c == '-'
}

pub open spec fn is_digit(c: char) -> bool {
    '0' <= c <= '9'
}

/// `s` without its leading run of `+` and `-` characters.
pub open spec fn strip_signs(s: Seq<char>) -> Seq<char>
    decreases s.len(),
{
    if s.len() > 0 && is_sign(s[0]) {
        strip_signs(s.drop_first())
    } else {
        s
    }
}

/// The ASCII digits of `s`, in order.
pub open spec fn digits_of(s: Seq<char>) -> Seq<char>
    decreases s.len(),
{
    if s.len() == 0 {
        seq![]
    } else if is_digit(s.last()) {
        digits_of(s.drop_last()).push(s.last())
    } else {
        digits_of(s.drop_last())
    }
}

/// The characters of `s` that are not ASCII digits, in order.
pub open spec fn suffix_of(s: Seq<char>) -> Seq<char>
    decreases s.len(),
{
    if s.len() == 0 {
        seq![]
    } else if is_digit(s.last()) {
        suffix_of(s.drop_last())
    } else {
        suffix_of(s.drop_last()).push(s.last())
    }
}

/// The number that a sequence of decimal digits spells.
pub open spec fn decimal(d: Seq<char>) -> nat
    decreases d.len(),
{
    if d.len() == 0 {
        0
    } else {
        decimal(d.drop_last()) * 10 + ((d.last() as int - '0' as int) as nat)
    }
}

/// The factor a (lowercased) size suffix stands for, if it is one.
pub open spec fn suffix_multiplier(l: Seq<char>) -> Option<nat> {
    if l.len() == 0 || l == seq!['b'] || l == seq!['c'] {
        Some(1)
    } else if l == seq!['k'] {
        Some(1024)
    } else if l == seq!['m'] {
        Some(1024 * 1024)
    } else if l == seq!['g'] {
        Some(1024 * 1024 * 1024)
    } else if l == seq!['t'] {
        Some(1024 * 1024 * 1024 * 1024)
    } else {
        None
    }
}

/// The digits of a size string, once leading signs are dropped.
pub open spec fn size_digits(s: Seq<char>) -> Seq<char> {
    digits_of(strip_signs(s))
}

/// The non-digit characters of a size string, once leading signs are dropped.
pub open spec fn size_suffix(s: Seq<char>) -> Seq<char> {
    suffix_of(strip_signs(s))
}

/// Whether the digits of a size string make a number that fits in a `u64`.
pub open spec fn size_number_ok(s: Seq<char>) -> bool {
    size_digits(s).len() > 0 && decimal(size_digits(s)) <= u64::MAX
}

/// The outcome of a size string, given the number it holds and its
/// lowercased suffix.
pub open spec fn sized(num: nat, lowered: Seq<char>) -> Result<u64, Seq<char>> {
    match suffix_multiplier(lowered) {
        Some(m) => Ok((num * m) as u64),
        None => Err("Invalid size suffix"@),
    }
}

/// What `parse_size` gives for `s`.
pub open spec fn size_spec(s: Seq<char>) -> Result<u64, Seq<char>> {
    if !size_number_ok(s) {
        Err("Invalid size number"@)
    } else {
        sized(decimal(size_digits(s)), lowered(size_suffix(s)))
    }
}

/// Whether the size that `s` spells fits in a `u64` (the multiplication of
/// the number by its suffix does not overflow).
pub open spec fn size_fits(s: Seq<char>) -> bool {
    size_number_ok(s) ==> match suffix_multiplier(lowered(size_suffix(s))) {
        Some(m) => decimal(size_digits(s)) * m <= u64::MAX,
        None => true,
    }
}

pub open spec fn result_view(r: Result<u64, String>) -> Result<u64, Seq<char>> {
    match r {
        Ok(n) => Ok(n),
        Err(e) => Err(e@),
    }
}

proof fn lemma_decimal_push(d: Seq<char>, c: char)
    ensures
        decimal(d.push(c)) == decimal(d) * 10 + ((c as int - '0' as int) as nat),
{
    assert(d.push(c).drop_last() =~= d);
}

proof fn lemma_decimal_prefix_monotone(d: Seq<char>, j: int)
    requires
        0 <= j <= d.len(),
    ensures
        decimal(d.take(j)) <= decimal(d),
    decreases d.len() - j,
{
    if j < d.len() {
        lemma_decimal_prefix_monotone(d, j + 1);
        assert(d.take(j + 1).drop_last() =~= d.take(j));
    } else {
        assert(d.take(j) =~= d);
    }
}

proof fn lemma_strip_step(s: Seq<char>, i: int)
    requires
        0 <= i < s.len(),
        is_sign(s[i]),
    ensures
        strip_signs(s.skip(i)) == strip_signs(s.skip(i + 1)),
{
    assert(s.skip(i).drop_first() =~= s.skip(i + 1));
}

proof fn lemma_partition_step(s: Seq<char>, i: int)
    requires
        0 <= i < s.len(),
    ensures
        digits_of(s.take(i + 1)) == if is_digit(s[i]) {
            digits_of(s.take(i)).push(s[i])
        } else {
            digits_of(s.take(i))
        },
        suffix_of(s.take(i + 1)) == if is_digit(s[i]) {
            suffix_of(s.take(i))
        } else {
            suffix_of(s.take(i)).push(s[i])
        },
{
    assert(s.take(i + 1).drop_last() =~= s.take(i));
}

/// Splits a size string, once its leading signs are dropped, into its
/// digits and the rest.
fn split_size(size_str: &str) -> (parts: (Vec<char>, Vec<char>))
    ensures
        parts.0@ == size_digits(size_str@),
        parts.1@ == size_suffix(size_str@),
{
    let n = size_str.unicode_len();
    let mut i: usize = 0;
    assert(size_str@.skip(0) =~= size_str@);
    while i < n && (size_str.get_char(i) == '+' || size_str.get_char(i) == '-')
        invariant
            n == size_str@.len(),
            i <= n,
            strip_signs(size_str@) == strip_signs(size_str@.skip(i as int)),
        decreases n - i,
    {
        proof {
            lemma_strip_step(size_str@, i as int);
        }
        i = i + 1;
    }
    let ghost rest = size_str@.skip(i as int);
    proof {
        if rest.len() > 0 {
            assert(rest[0] == size_str@[i as int]);
        }
        assert(strip_signs(size_str@) == rest);
    }
    let mut digits: Vec<char> = Vec::new();
    let mut suffix: Vec<char> = Vec::new();
    let mut j: usize = i;
    while j < n
        invariant
            n == size_str@.len(),
            i <= j <= n,
            rest == size_str@.skip(i as int),
            digits@ == digits_of(rest.take(j - i)),
            suffix@ == suffix_of(rest.take(j - i)),
        decreases n - j,
    {
        let c = size_str.get_char(j);
        proof {
            assert(rest[j - i] == c);
            lemma_partition_step(rest, j - i);
        }
        if '0' <= c && c <= '9' {
            digits.push(c);
        } else {
            suffix.push(c);
        }
        j = j + 1;
    }
    proof {
        assert(rest.take(n - i) =~= rest);
    }
    (digits, suffix)
}

/// The number that `digits` spells, or `None` when there are none or the
/// number does not fit in a `u64`.
fn parse_decimal(digits: &Vec<char>) -> (r: Option<u64>)
    requires
        forall|k: int| 0 <= k < digits@.len() ==> is_digit(#[trigger] digits@[k]),
    ensures
        r is Some <==> (digits@.len() > 0 && decimal(digits@) <= u64::MAX),
        r matches Some(v) ==> v == decimal(digits@),
{
    if digits.len() == 0 {
        return None;
    }
    let mut acc: u64 = 0;
    let mut i: usize = 0;
    while i < digits.len()
        invariant
            i <= digits.len(),
            forall|k: int| 0 <= k < digits@.len() ==> is_digit(#[trigger] digits@[k]),
            acc == decimal(digits@.take(i as int)),
        decreases digits.len() - i,
    {
        let c = digits[i];
        proof {
            assert(is_digit(digits@[i as int]));
            assert(digits@.take(i + 1) =~= digits@.take(i as int).push(c));
            lemma_decimal_push(digits@.take(i as int), c);
        }
        let d: u64 = (c as u32 - '0' as u32) as u64;
        match acc.checked_mul(10) {
            Some(t) => match t.checked_add(d) {
                Some(v) => {
                    acc = v;
                },
                None => {
                    proof {
                        lemma_decimal_prefix_monotone(digits@, i + 1);
                    }
                    return None;
                },
            },
            None => {
                proof {
                    lemma_decimal_prefix_monotone(digits@, i + 1);
                }
                return None;
            },
        }
        i = i + 1;
    }
    proof {
        assert(digits@.take(digits.len() as int) =~= digits@);
    }
    Some(acc)
}

proof fn lemma_digits_are_digits(s: Seq<char>)
    ensures
        forall|k: int| 0 <= k < digits_of(s).len() ==> is_digit(#[trigger] digits_of(s)[k]),
    decreases s.len(),
{
    if s.len() > 0 {
        lemma_digits_are_digits(s.drop_last());
        let d = digits_of(s.drop_last());
        assert forall|k: int| 0 <= k < digits_of(s).len() implies is_digit(
            #[trigger] digits_of(s)[k],
        ) by {
            if k < d.len() {
                assert(digits_of(s)[k] == d[k]);
            }
        }
    }
}

fn is_single(l: &String, c: char) -> (r: bool)
    ensures
        r == (l@ == seq![c]),
{
    let s = l.as_str();
    if s.unicode_len() == 1 {
        let first = s.get_char(0);
        if first == c {
            assert(l@ =~= seq![c]);
            true
        } else {
            false
        }
    } else {
        false
    }
}

/// Scales `num` by the factor of a lowercased size suffix: `""`, `b` and
/// `c` stand for 1, `k`, `m`, `g` and `t` for powers of 1024; anything else
/// is the error "Invalid size suffix".
pub fn apply_size_suffix(num: u64, lowered: &String) -> (r: Result<u64, String>)
    requires
        suffix_multiplier(lowered@) matches Some(m) ==> num * m <= u64::MAX,
    ensures
        result_view(r) == sized(num as nat, lowered@),
{
    let multiplier: u64 = if lowered.as_str().unicode_len() == 0 || is_single(lowered, 'b')
        || is_single(lowered, 'c') {
        1
    } else if is_single(lowered, 'k') {
        1024
    } else if is_single(lowered, 'm') {
        1024 * 1024
    } else if is_single(lowered, 'g') {
        1024 * 1024 * 1024
    } else if is_single(lowered, 't') {
        1024 * 1024 * 1024 * 1024
    } else {
        return Err(String::from_str("Invalid size suffix"));
    };
    Ok(num * multiplier)
}

/// Parses a size such as `10`, `+4k` or `2M`: leading `+` and `-` are
/// ignored, the ASCII digits form the number, and the other characters,
/// lowercased, form the suffix (`""`, `b`, `c` = bytes; `k`, `m`, `g`, `t` =
/// KiB, MiB, GiB, TiB).  A missing or too large number is the error
/// "Invalid size number"; an unknown suffix is "Invalid size suffix".
pub fn parse_size(size_str: &str) -> (r: Result<u64, String>)
    requires
        size_fits(size_str@),
    ensures
        result_view(r) == size_spec(size_str@),
        size_number_ok(size_str@) && size_suffix(size_str@).len() == 0 ==> r == Ok::<u64, String>(
            decimal(size_digits(size_str@)) as u64,
        ),
{
    let (digits, suffix) = split_size(size_str);
    proof {
        lemma_digits_are_digits(strip_signs(size_str@));
    }
    let num = match parse_decimal(&digits) {
        Some(n) => n,
        None => {
            return Err(String::from_str("Invalid size number"));
        },
    };
    let lowered = lowercase(&suffix);
    let r = apply_size_suffix(num, &lowered);
    proof {
        if suffix@.len() == 0 {
            assert(suffix_multiplier(lowered@) == Some(1nat));
            assert((num as nat * 1nat) as u64 == num);
            assert(result_view(r) == Ok::<u64, Seq<char>>(num));
        }
    }
    r
}

/// `parse_size` where its result fits in a `u64`; `None` where the number
/// times its suffix's factor would overflow.
pub fn try_parse_size(size_str: &str) -> (r: Option<Result<u64, String>>)
    ensures
        r is Some <==> size_fits(size_str@),
        r matches Some(res) ==> result_view(res) == size_spec(size_str@),
{
    let (digits, suffix) = split_size(size_str);
    proof {
        lemma_digits_are_digits(strip_signs(size_str@));
    }
    match parse_decimal(&digits) {
        Some(n) => {
            let lowered = lowercase(&suffix);
            let factor: u64 = if lowered.as_str().unicode_len() == 0 || is_single(&lowered, 'b')
                || is_single(&lowered, 'c') {
                1
            } else if is_single(&lowered, 'k') {
                1024
            } else if is_single(&lowered, 'm') {
                1024 * 1024
            } else if is_single(&lowered, 'g') {
                1024 * 1024 * 1024
            } else if is_single(&lowered, 't') {
                1024 * 1024 * 1024 * 1024
            } else {
                1
            };
            if n.checked_mul(factor).is_none() {
                return None;
            }
        },
        None => {},
    }
    Some(parse_size(size_str))
}


/// Leading `+` and `-` signs do not change what a size string means.
pub proof fn law_size_ignores_leading_sign(c: char, s: Seq<char>)
    requires
        is_sign(c),
    ensures
        size_spec(seq![c] + s) == size_spec(s),
        size_fits(seq![c] + s) == size_fits(s),
{
    assert((seq![c] + s).drop_first() =~= s);
    assert(strip_signs(seq![c] + s) == strip_signs(s));
}

} // verus!
