//! Text helpers shared by the command builders: decimal and hexadecimal
//! numbers, searching and trimming, joining. Every helper states the
//! characters it produces over the sequence view of the strings.
use vstd::prelude::*;

verus! {

/// The character of a decimal or hexadecimal digit (lower case).
pub open spec fn digit_char(d: nat) -> char {
    if d < 10 {
        (('0' as nat) + d) as char
    } else {
        (('a' as nat) + (d - 10)) as char
    }
}

/// The decimal text of a natural number, without leading zeros.
pub open spec fn decimal(n: nat) -> Seq<char>
    decreases n,
{
    if n < 10 {
        seq![digit_char(n)]
    } else {
        decimal(n / 10).push(digit_char(n % 10))
    }
}

/// Every character of a decimal text is a digit.
pub proof fn lemma_decimal_digits(n: nat)
    ensures
        forall|i: int| 0 <= i < decimal(n).len() ==> '0' <= #[trigger] decimal(n)[i] <= '9',
    decreases n,
{
    if n < 10 {
        assert(decimal(n) == seq![digit_char(n)]);
    } else {
        lemma_decimal_digits(n / 10);
        let s = decimal(n);
        assert(s == decimal(n / 10).push(digit_char(n % 10)));
        assert forall|i: int| 0 <= i < s.len() implies '0' <= #[trigger] s[i] <= '9' by {
            if i < s.len() - 1 {
                assert(s[i] == decimal(n / 10)[i]);
            }
        }
    }
}

/// The decimal text of an integer: a minus sign before the magnitude
/// when it is negative.
pub open spec fn signed_decimal(i: int) -> Seq<char> {
    if i < 0 {
        seq!['-'] + decimal((-i) as nat)
    } else {
        decimal(i as nat)
    }
}

/// The lower-case hexadecimal text of a natural number, without leading zeros.
pub open spec fn hex(n: nat) -> Seq<char>
    decreases n,
{
    if n < 16 {
        seq![digit_char(n)]
    } else {
        hex(n / 16).push(digit_char(n % 16))
    }
}

/// `s` preceded by as many `'0'` as it takes to reach `width` characters.
pub open spec fn zero_pad(s: Seq<char>, width: nat) -> Seq<char> {
    if s.len() >= width {
        s
    } else {
        Seq::new((width - s.len()) as nat, |i: int| '0') + s
    }
}

/// `n` in decimal, zero-padded to `width` characters.
pub open spec fn padded_decimal(n: nat, width: nat) -> Seq<char> {
    zero_pad(decimal(n), width)
}

/// `n` in lower-case hexadecimal, zero-padded to `width` characters.
pub open spec fn padded_hex(n: nat, width: nat) -> Seq<char> {
    zero_pad(hex(n), width)
}

/// Whether `p` is a prefix of `s`.
pub open spec fn is_prefix(p: Seq<char>, s: Seq<char>) -> bool {
    p.len() <= s.len() && s.subrange(0, p.len() as int) == p
}

/// Whether `p` is a suffix of `s`.
pub open spec fn is_suffix(p: Seq<char>, s: Seq<char>) -> bool {
    p.len() <= s.len() && s.subrange(s.len() - p.len(), s.len() as int) == p
}

/// Whether `needle` occurs in `hay` at position `i`.
pub open spec fn occurs_at(hay: Seq<char>, needle: Seq<char>, i: int) -> bool {
    0 <= i && i + needle.len() <= hay.len() && hay.subrange(i, i + needle.len()) == needle
}

/// Whether `needle` occurs anywhere in `hay` (the empty needle always does).
pub open spec fn contains_text(hay: Seq<char>, needle: Seq<char>) -> bool {
    exists|i: int| occurs_at(hay, needle, i)
}

/// `s` with every trailing copy of the non-empty `pat` removed, as
/// `str::trim_end_matches` does with a string pattern.
pub open spec fn trim_end_all(s: Seq<char>, pat: Seq<char>) -> Seq<char>
    decreases s.len(),
{
    if pat.len() > 0 && is_suffix(pat, s) {
        trim_end_all(s.subrange(0, s.len() - pat.len()), pat)
    } else {
        s
    }
}

/// `k` copies of `pat` one after the other.
pub open spec fn repeat(pat: Seq<char>, k: nat) -> Seq<char>
    decreases k,
{
    if k == 0 {
        Seq::empty()
    } else {
        repeat(pat, (k - 1) as nat) + pat
    }
}

/// The part of `s` after its last `c`; all of `s` when it holds no `c`.
pub open spec fn after_last(s: Seq<char>, c: char) -> Seq<char>
    decreases s.len(),
{
    if s.len() == 0 {
        s
    } else if s.last() == c {
        Seq::empty()
    } else {
        after_last(s.drop_last(), c).push(s.last())
    }
}

/// The texts of `parts` with `sep` between each two of them.
pub open spec fn join(parts: Seq<Seq<char>>, sep: Seq<char>) -> Seq<char>
    decreases parts.len(),
{
    if parts.len() == 0 {
        Seq::empty()
    } else if parts.len() == 1 {
        parts[0]
    } else {
        join(parts.drop_last(), sep) + sep + parts.last()
    }
}

/// The texts of `parts` one after the other.
pub open spec fn concat(parts: Seq<Seq<char>>) -> Seq<char>
    decreases parts.len(),
{
    if parts.len() == 0 {
        Seq::empty()
    } else {
        concat(parts.drop_last()) + parts.last()
    }
}

/// Appends `c` to `s` (`String::push`).
#[verifier::external_body]
fn push_char(s: &mut String, c: char)
    ensures
        final(s)@ == old(s)@.push(c),
{
    s.push(c);
}

/// The name of what `str::to_lowercase` returns: the text with every
/// character mapped to its Unicode lower-case form.
pub uninterp spec fn lowercase(s: Seq<char>) -> Seq<char>;

/// Whether every character of `s` is ASCII.
pub open spec fn is_ascii_text(s: Seq<char>) -> bool {
    forall|i: int| 0 <= i < s.len() ==> (#[trigger] s[i] as int) < 128
}

/// The ASCII lower-case form of `c`: `A`..`Z` become `a`..`z`, every
/// other character stays.
pub open spec fn ascii_lower_char(c: char) -> char {
    if 'A' <= c && c <= 'Z' {
        ((c as int) + 32) as char
    } else {
        c
    }
}

/// `s` with each character in its ASCII lower-case form.
pub open spec fn ascii_lower(s: Seq<char>) -> Seq<char> {
    s.map_values(|c: char| ascii_lower_char(c))
}

/// `str::to_lowercase`. The claim is that the result is a function of the
/// text alone, named `lowercase`, and that on ASCII text it is the ASCII
/// lower-case form (what Unicode lower-casing gives there); the Unicode
/// case mapping of other characters is not stated.
#[verifier::external_body]
pub(crate) fn to_lowercase(s: &str) -> (res: String)
    ensures
        res@ == lowercase(s@),
        is_ascii_text(s@) ==> res@ == ascii_lower(s@),
{
    s.to_lowercase()
}

fn digit(d: u64) -> (c: char)
    requires
        d < 16,
    ensures
        c == digit_char(d as nat),
{
    if d < 10 {
        ((('0' as u8) + (d as u8)) as char)
    } else {
        ((('a' as u8) + ((d - 10) as u8)) as char)
    }
}

proof fn lemma_push_assoc(a: Seq<char>, b: Seq<char>, c: char)
    ensures
        (a + b).push(c) == a + b.push(c),
{
    assert((a + b).push(c) =~= a + b.push(c));
}

/// Appends the decimal text of `n` to `s`.
pub fn push_decimal(s: &mut String, n: u64)
    ensures
        final(s)@ == old(s)@ + decimal(n as nat),
    decreases n,
{
    let ghost start = s@;
    if n >= 10 {
        push_decimal(s, n / 10);
    } else {
        assert(s@ + Seq::<char>::empty() =~= s@);
    }
    let ghost mid = s@;
    push_char(s, digit(n % 10));
    proof {
        if n >= 10 {
            lemma_push_assoc(start, decimal((n / 10) as nat), digit_char((n % 10) as nat));
        } else {
            assert(start.push(digit_char(n as nat)) =~= start + seq![digit_char(n as nat)]);
        }
    }
}

/// Appends the lower-case hexadecimal text of `n` to `s`.
pub fn push_hex(s: &mut String, n: u64)
    ensures
        final(s)@ == old(s)@ + hex(n as nat),
    decreases n,
{
    let ghost start = s@;
    if n >= 16 {
        push_hex(s, n / 16);
    }
    push_char(s, digit(n % 16));
    proof {
        if n >= 16 {
            lemma_push_assoc(start, hex((n / 16) as nat), digit_char((n % 16) as nat));
        } else {
            assert(start.push(digit_char(n as nat)) =~= start + seq![digit_char(n as nat)]);
        }
    }
}

/// Appends the decimal text of a signed number to `s`.
pub fn push_signed_decimal(s: &mut String, i: i64)
    ensures
        final(s)@ == old(s)@ + signed_decimal(i as int),
{
    if i < 0 {
        let ghost start = s@;
        push_char(s, '-');
        let m: u64 = ((-(i + 1)) as u64) + 1;
        push_decimal(s, m);
        assert(s@ =~= start + (seq!['-'] + decimal((-i) as nat)));
    } else {
        push_decimal(s, i as u64);
    }
}

/// The decimal text of `n`.
pub fn decimal_string(n: u64) -> (res: String)
    ensures
        res@ == decimal(n as nat),
{
    let mut s = String::new();
    push_decimal(&mut s, n);
    assert(s@ =~= decimal(n as nat));
    s
}

/// The decimal text of the signed `i`.
pub fn signed_decimal_string(i: i64) -> (res: String)
    ensures
        res@ == signed_decimal(i as int),
{
    let mut s = String::new();
    push_signed_decimal(&mut s, i);
    assert(s@ =~= signed_decimal(i as int));
    s
}

/// Appends `text` zero-padded on the left to `width` characters.
fn push_zero_padded(s: &mut String, text: &String, width: usize)
    ensures
        final(s)@ == old(s)@ + zero_pad(text@, width as nat),
{
    let len = text.as_str().unicode_len();
    let ghost start = s@;
    if len < width {
        let mut k: usize = 0;
        while k < width - len
            invariant
                len == text@.len(),
                len < width,
                k <= width - len,
                s@ == start + Seq::new(k as nat, |i: int| '0'),
            decreases width - len - k,
        {
            push_char(s, '0');
            k = k + 1;
            assert(s@ =~= start + Seq::new(k as nat, |i: int| '0'));
        }
    }
    s.append(text.as_str());
    assert(s@ =~= start + zero_pad(text@, width as nat));
}

/// Appends `n` in decimal, zero-padded to `width` characters (`{:0>w$}`).
pub fn push_padded_decimal(s: &mut String, n: u64, width: usize)
    ensures
        final(s)@ == old(s)@ + padded_decimal(n as nat, width as nat),
{
    let t = decimal_string(n);
    push_zero_padded(s, &t, width);
}

/// Appends `n` in lower-case hexadecimal, zero-padded to `width`
/// characters (`{:>0w$x}`).
pub fn push_padded_hex(s: &mut String, n: u64, width: usize)
    ensures
        final(s)@ == old(s)@ + padded_hex(n as nat, width as nat),
{
    let mut t = String::new();
    push_hex(&mut t, n);
    assert(t@ =~= hex(n as nat));
    push_zero_padded(s, &t, width);
}

/// Whether `c` occurs in `s`.
pub fn contains_char(s: &str, c: char) -> (res: bool)
    ensures
        res == s@.contains(c),
{
    let len = s.unicode_len();
    let mut i: usize = 0;
    while i < len
        invariant
            len == s@.len(),
            i <= len,
            forall|j: int| 0 <= j < i ==> s@[j] != c,
        decreases len - i,
    {
        if s.get_char(i) == c {
            assert(s@[i as int] == c);
            return true;
        }
        i = i + 1;
    }
    false
}

/// Whether `needle` occurs in `hay` at character position `at`.
fn matches_at(hay: &str, needle: &str, at: usize) -> (res: bool)
    ensures
        res == occurs_at(hay@, needle@, at as int),
{
    let hl = hay.unicode_len();
    let nl = needle.unicode_len();
    if at > hl || nl > hl - at {
        return false;
    }
    let mut j: usize = 0;
    while j < nl
        invariant
            hl == hay@.len(),
            nl == needle@.len(),
            at + nl <= hl,
            j <= nl,
            forall|k: int| 0 <= k < j ==> hay@[at + k] == needle@[k],
        decreases nl - j,
    {
        if hay.get_char(at + j) != needle.get_char(j) {
            assert(hay@.subrange(at as int, at + nl)[j as int] != needle@[j as int]);
            return false;
        }
        j = j + 1;
    }
    assert(hay@.subrange(at as int, at + nl) =~= needle@);
    true
}

/// Whether `s` starts with `p`.
pub fn starts_with(s: &str, p: &str) -> (res: bool)
    ensures
        res == is_prefix(p@, s@),
{
    matches_at(s, p, 0)
}

/// Whether `s` ends with `p`.
pub fn ends_with(s: &str, p: &str) -> (res: bool)
    ensures
        res == is_suffix(p@, s@),
{
    let sl = s.unicode_len();
    let pl = p.unicode_len();
    if pl > sl {
        return false;
    }
    matches_at(s, p, sl - pl)
}

/// Whether `needle` occurs in `hay`.
pub fn contains_str(hay: &str, needle: &str) -> (res: bool)
    ensures
        res == contains_text(hay@, needle@),
{
    let hl = hay.unicode_len();
    let mut i: usize = 0;
    loop
        invariant
            hl == hay@.len(),
            i <= hl,
            forall|j: int| 0 <= j < i ==> !occurs_at(hay@, needle@, j),
        decreases hl - i,
    {
        if matches_at(hay, needle, i) {
            return true;
        }
        if i == hl {
            assert forall|j: int| !occurs_at(hay@, needle@, j) by {
                if 0 <= j && j + needle@.len() <= hay@.len() {
                    assert(j <= hl);
                }
            }
            return false;
        }
        i = i + 1;
    }
}

proof fn lemma_trim_end_all_shape(s: Seq<char>, pat: Seq<char>)
    requires
        pat.len() > 0,
    ensures
        !is_suffix(pat, trim_end_all(s, pat)),
        exists|k: nat| s == trim_end_all(s, pat) + repeat(pat, k),
    decreases s.len(),
{
    if is_suffix(pat, s) {
        let t = s.subrange(0, s.len() - pat.len());
        lemma_trim_end_all_shape(t, pat);
        let k = choose|k: nat| t == trim_end_all(t, pat) + repeat(pat, k);
        assert(repeat(pat, k + 1) == repeat(pat, k) + pat);
        assert(s =~= t + pat);
        assert(s =~= trim_end_all(s, pat) + repeat(pat, k + 1));
    } else {
        assert(s =~= s + repeat(pat, 0));
    }
}

/// `s` with every trailing copy of `pat` removed (`str::trim_end_matches`).
/// Where `pat` is not empty, what is left does not end with `pat`, and `s`
/// is what is left followed by some number of copies of `pat`; an empty
/// `pat` leaves `s` as it is.
pub fn trim_end_matches(s: &str, pat: &str) -> (res: String)
    ensures
        res@ == trim_end_all(s@, pat@),
        pat@.len() > 0 ==> !is_suffix(pat@, res@),
        pat@.len() > 0 ==> exists|k: nat| s@ == res@ + repeat(pat@, k),
{
    if pat.unicode_len() == 0 {
        return s.to_owned();
    }
    let pl = pat.unicode_len();
    let mut end = s.unicode_len();
    proof {
        assert(s@.subrange(0, end as int) =~= s@);
    }
    loop
        invariant
            pl == pat@.len(),
            pl > 0,
            end <= s@.len(),
            trim_end_all(s@.subrange(0, end as int), pat@) == trim_end_all(s@, pat@),
        decreases end,
    {
        let cur = s.substring_char(0, end);
        if ends_with(cur, pat) {
            proof {
                assert(s@.subrange(0, end as int).subrange(0, end - pl) =~= s@.subrange(
                    0,
                    end - pl,
                ));
            }
            end = end - pl;
        } else {
            let res = cur.to_owned();
            proof {
                lemma_trim_end_all_shape(s@, pat@);
            }
            return res;
        }
    }
}

proof fn lemma_after_last_no_c(s: Seq<char>, c: char)
    ensures
        !after_last(s, c).contains(c),
        is_suffix(after_last(s, c), s),
    decreases s.len(),
{
    if s.len() > 0 && s.last() != c {
        lemma_after_last_no_c(s.drop_last(), c);
        let a = after_last(s.drop_last(), c);
        assert forall|i: int| 0 <= i < a.push(s.last()).len() implies a.push(s.last())[i] != c by {
            if i < a.len() {
                assert(a[i] == a.push(s.last())[i]);
            }
        }
        assert(s.subrange(s.len() - a.len() - 1, s.len() as int) =~= a.push(s.last())) by {
            assert(s.drop_last().subrange(s.drop_last().len() - a.len(), s.drop_last().len() as int)
                == a);
        }
    } else if s.len() > 0 {
        assert(s.subrange(s.len() as int, s.len() as int) =~= Seq::<char>::empty());
    } else {
        assert(s.subrange(0, 0) =~= s);
    }
}

/// The part of `s` after its last `c`, all of `s` when it holds no `c`
/// (the first piece of `s.rsplitn(2, c)`).
pub fn after_last_char(s: &str, c: char) -> (res: String)
    ensures
        res@ == after_last(s@, c),
        !res@.contains(c),
        is_suffix(res@, s@),
{
    let len = s.unicode_len();
    let mut start = len;
    proof {
        assert(s@.subrange(0, len as int) =~= s@);
        assert(s@ + s@.subrange(len as int, len as int) =~= s@);
        lemma_after_last_no_c(s@, c);
    }
    loop
        invariant
            len == s@.len(),
            start <= len,
            after_last(s@, c) == after_last(s@.subrange(0, start as int), c) + s@.subrange(
                start as int,
                len as int,
            ),
            !after_last(s@, c).contains(c),
            is_suffix(after_last(s@, c), s@),
        decreases start,
    {
        if start == 0 || s.get_char(start - 1) == c {
            let res = s.substring_char(start, len).to_owned();
            proof {
                let p = s@.subrange(0, start as int);
                if start > 0 {
                    assert(p.last() == c);
                }
                assert(after_last(p, c) =~= Seq::<char>::empty());
                assert(res@ =~= after_last(s@, c));
            }
            return res;
        }
        proof {
            let p = s@.subrange(0, start as int);
            assert(p.drop_last() =~= s@.subrange(0, start - 1));
            assert(after_last(p, c) == after_last(p.drop_last(), c).push(p.last()));
            assert(s@.subrange(start - 1, len as int) =~= seq![p.last()] + s@.subrange(
                start as int,
                len as int,
            ));
            assert(after_last(s@.subrange(0, start - 1), c).push(p.last()) + s@.subrange(
                start as int,
                len as int,
            ) =~= after_last(s@.subrange(0, start - 1), c) + s@.subrange(start - 1, len as int));
        }
        start = start - 1;
    }
}

/// The pieces of `parts` one after the other.
pub fn concat_strs(parts: &Vec<&str>) -> (res: String)
    ensures
        res@ == concat(parts@.map_values(|p: &str| p@)),
{
    let mut res = String::new();
    let ghost views = parts@.map_values(|p: &str| p@);
    let mut i: usize = 0;
    while i < parts.len()
        invariant
            i <= parts.len(),
            views == parts@.map_values(|p: &str| p@),
            res@ == concat(views.subrange(0, i as int)),
        decreases parts.len() - i,
    {
        proof {
            assert(views.subrange(0, i + 1).drop_last() =~= views.subrange(0, i as int));
        }
        res.append(parts[i]);
        i = i + 1;
    }
    assert(views.subrange(0, parts.len() as int) =~= views);
    res
}

proof fn lemma_join_push(parts: Seq<Seq<char>>, sep: Seq<char>, p: Seq<char>)
    ensures
        join(parts.push(p), sep) == if parts.len() == 0 {
            p
        } else {
            join(parts, sep) + sep + p
        },
{
    assert(parts.push(p).drop_last() =~= parts);
}

/// The strings of `parts` with `sep` between each two of them (`join`).
pub fn join_strings(parts: &Vec<String>, sep: &str) -> (res: String)
    ensures
        res@ == join(parts@.map_values(|p: String| p@), sep@),
{
    let mut res = String::new();
    let ghost views = parts@.map_values(|p: String| p@);
    let mut i: usize = 0;
    while i < parts.len()
        invariant
            i <= parts.len(),
            views == parts@.map_values(|p: String| p@),
            res@ == join(views.subrange(0, i as int), sep@),
        decreases parts.len() - i,
    {
        proof {
            assert(views.subrange(0, i + 1) =~= views.subrange(0, i as int).push(parts@[i as int]@));
            lemma_join_push(views.subrange(0, i as int), sep@, parts@[i as int]@);
        }
        if i > 0 {
            res.append(sep);
        } else {
            assert(res@ =~= Seq::<char>::empty());
        }
        res.append(parts[i].as_str());
        i = i + 1;
    }
    assert(views.subrange(0, parts.len() as int) =~= views);
    res
}

/// Division that rounds toward zero, as Rust's `/` on signed integers.
pub open spec fn trunc_div(a: int, b: int) -> int {
    if a >= 0 {
        a / b
    } else {
        -((-a) / b)
    }
}

/// The remainder that goes with `trunc_div`, as Rust's `%` on signed integers.
pub open spec fn trunc_rem(a: int, b: int) -> int {
    a - b * trunc_div(a, b)
}

/// The texts of a list of strings.
pub open spec fn views(v: Seq<String>) -> Seq<Seq<char>> {
    v.map_values(|s: String| s@)
}

/// Appends a copy of `s` to the list `v`.
pub fn push_item(v: &mut Vec<String>, s: &str)
    ensures
        views(final(v)@) == views(old(v)@).push(s@),
{
    let ghost before = v@;
    v.push(s.to_owned());
    assert(views(v@) =~= views(before).push(s@));
}

/// Appends `s` itself to the list `v`.
pub fn push_owned(v: &mut Vec<String>, s: String)
    ensures
        views(final(v)@) == views(old(v)@).push(s@),
{
    let ghost before = v@;
    let ghost sv = s@;
    v.push(s);
    assert(views(v@) =~= views(before).push(sv));
}

} // verus!
