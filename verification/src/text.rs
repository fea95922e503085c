//! String helpers shared by the modules of the crate.

use vstd::prelude::*;

verus! {

broadcast use vstd::string::group_string_axioms;

/// The characters of `s`, in order.
pub fn chars_of(s: &str) -> (v: Vec<char>)
    ensures
        v@ == s@,
{
    let mut v: Vec<char> = Vec::new();
    for c in it: s.chars()
        invariant
            it.seq() == s@,
            v@ == s@.take(it.index() as int),
    {
        v.push(c);
    }
    v
}

/// Whether two strings hold the same characters.
pub fn str_eq(a: &str, b: &str) -> (r: bool)
    ensures
        r == (a@ == b@),
{
    let x: String = a.to_owned();
    let y: String = b.to_owned();
    x.eq(&y)
}

} // verus!

verus! {

/// The lowercase hexadecimal digit of `d` (for `d < 16`).
pub open spec fn hex_char(d: nat) -> char {
    "0123456789abcdef"@[d as int]
}

/// The decimal digit of `d` (for `d < 10`).
pub open spec fn dec_char(d: nat) -> char {
    "0123456789"@[d as int]
}

/// Hexadecimal digits of `n`, least significant first, without padding.
pub open spec fn hex_digits_rev(n: nat) -> Seq<char>
    decreases n,
{
    if n < 16 {
        seq![hex_char(n)]
    } else {
        seq![hex_char(n % 16)] + hex_digits_rev(n / 16)
    }
}

/// Lowercase hexadecimal representation of `n` without leading zeros.
pub open spec fn hex_repr(n: nat) -> Seq<char> {
    hex_digits_rev(n).reverse()
}

/// `{:016x}`: the hexadecimal representation of `n`, left-padded with zeros
/// to at least sixteen digits.
pub open spec fn hex_padded16(n: nat) -> Seq<char> {
    if hex_repr(n).len() < 16 {
        Seq::new((16 - hex_repr(n).len()) as nat, |i: int| '0') + hex_repr(n)
    } else {
        hex_repr(n)
    }
}

/// Decimal digits of `n`, least significant first.
pub open spec fn dec_digits_rev(n: nat) -> Seq<char>
    decreases n,
{
    if n < 10 {
        seq![dec_char(n)]
    } else {
        seq![dec_char(n % 10)] + dec_digits_rev(n / 10)
    }
}

/// Decimal representation of `n` without leading zeros.
pub open spec fn dec_repr(n: nat) -> Seq<char> {
    dec_digits_rev(n).reverse()
}

/// Append the hexadecimal digit `d` to `s`.
pub fn push_hex_digit(s: &mut String, d: u8)
    requires
        d < 16,
    ensures
        final(s)@ == old(s)@.push(hex_char(d as nat)),
{
    let digits = "0123456789abcdef";
    proof {
        reveal_strlit("0123456789abcdef");
    }
    let piece = digits.substring_char(d as usize, d as usize + 1);
    assert(piece@ =~= seq![hex_char(d as nat)]);
    s.append(piece);
}

/// Append the decimal digit `d` to `s`.
pub fn push_dec_digit(s: &mut String, d: u8)
    requires
        d < 10,
    ensures
        final(s)@ == old(s)@.push(dec_char(d as nat)),
{
    let digits = "0123456789";
    proof {
        reveal_strlit("0123456789");
    }
    let piece = digits.substring_char(d as usize, d as usize + 1);
    assert(piece@ =~= seq![dec_char(d as nat)]);
    s.append(piece);
}

/// Append `{:016x}` of `n` to `s`.
pub fn push_hex_padded16(s: &mut String, n: u128)
    ensures
        final(s)@ == old(s)@ + hex_padded16(n as nat),
{
    let ghost start = s@;
    let mut rev: Vec<u8> = Vec::new();
    let mut rem: u128 = n;
    loop
        invariant_except_break
            rev@.map_values(|d: u8| hex_char(d as nat)) + hex_digits_rev(rem as nat)
                == hex_digits_rev(n as nat),
        invariant
            forall|i: int| 0 <= i < rev@.len() ==> rev@[i] < 16,
        ensures
            rev@.map_values(|d: u8| hex_char(d as nat)) == hex_digits_rev(n as nat),
        decreases rem,
    {
        if rem < 16 {
            let ghost before = rev@;
            rev.push(rem as u8);
            assert(rev@.map_values(|d: u8| hex_char(d as nat)) =~= before.map_values(
                |d: u8| hex_char(d as nat),
            ).push(hex_char(rem as nat)));
            break;
        }
        let ghost before = rev@;
        let d = (rem % 16) as u8;
        rev.push(d);
        assert(rev@.map_values(|d: u8| hex_char(d as nat)) =~= before.map_values(
            |d: u8| hex_char(d as nat),
        ).push(hex_char(d as nat)));
        rem = rem / 16;
    }
    proof {
        assert(rev@.map_values(|d: u8| hex_char(d as nat)) =~= hex_digits_rev(n as nat));
    }
    let len = rev.len();
    if len < 16 {
        let pad = 16 - len;
        for i in 0..pad
            invariant
                s@ == start + Seq::new(i as nat, |j: int| '0'),
        {
            push_hex_digit(s, 0);
            proof {
                reveal_strlit("0123456789abcdef");
                assert(hex_char(0) == '0');
            }
            assert(s@ =~= start + Seq::new((i + 1) as nat, |j: int| '0'));
        }
    }
    let ghost mid = s@;
    for i in 0..len
        invariant
            len == rev@.len(),
            forall|k: int| 0 <= k < rev@.len() ==> rev@[k] < 16,
            s@ == mid + rev@.map_values(|d: u8| hex_char(d as nat)).reverse().take(i as int),
    {
        let d = rev[len - 1 - i];
        push_hex_digit(s, d);
        assert(s@ =~= mid + rev@.map_values(|d: u8| hex_char(d as nat)).reverse().take(
            (i + 1) as int,
        ));
    }
    assert(rev@.map_values(|d: u8| hex_char(d as nat)).reverse().take(len as int)
        =~= hex_repr(n as nat));
    assert(s@ =~= start + hex_padded16(n as nat));
}

} // verus!

verus! {

/// The views of a sequence of strings.
pub open spec fn views(v: Seq<String>) -> Seq<Seq<char>> {
    v.map_values(|x: String| x@)
}

/// Left-to-right scan of `split`: the pieces completed so far and the piece
/// being read.
pub open spec fn split_acc(s: Seq<char>, sep: char) -> (Seq<Seq<char>>, Seq<char>)
    decreases s.len(),
{
    if s.len() == 0 {
        (Seq::empty(), Seq::empty())
    } else {
        let prev = split_acc(s.drop_last(), sep);
        if s.last() == sep {
            (prev.0.push(prev.1), Seq::empty())
        } else {
            (prev.0, prev.1.push(s.last()))
        }
    }
}

/// `str::split(sep)`: the pieces between occurrences of `sep`; `k`
/// separators give `k + 1` pieces, empty ones included.
pub open spec fn split_on(s: Seq<char>, sep: char) -> Seq<Seq<char>> {
    split_acc(s, sep).0.push(split_acc(s, sep).1)
}

proof fn lemma_split_acc_current(s: Seq<char>, sep: char, start: int)
    requires
        0 <= start <= s.len(),
        forall|k: int| start <= k < s.len() ==> s[k] != sep,
        start == 0 || s[start - 1] == sep,
    ensures
        split_acc(s, sep).1 == s.subrange(start, s.len() as int),
    decreases s.len(),
{
    if s.len() == 0 {
    } else if start == s.len() {
        assert(s.last() == sep);
        assert(s.subrange(start, s.len() as int) =~= Seq::<char>::empty());
    } else {
        lemma_split_acc_current(s.drop_last(), sep, start);
        assert(s.subrange(start, s.len() as int) =~= s.drop_last().subrange(
            start,
            s.len() - 1,
        ).push(s.last()));
    }
}

/// Split `s` at every `sep`, as `str::split(char)` does.
pub fn split_char(s: &str, sep: char) -> (r: Vec<String>)
    ensures
        views(r@) == split_on(s@, sep),
{
    let cs = crate::text::chars_of(s);
    let n = cs.len();
    let mut pieces: Vec<String> = Vec::new();
    let mut start: usize = 0;
    for i in 0..n
        invariant
            n == cs@.len(),
            cs@ == s@,
            start <= i,
            views(pieces@) == split_acc(s@.take(i as int), sep).0,
            start == 0 || s@[start - 1] == sep,
            forall|k: int| start <= k < i ==> s@[k] != sep,
    {
        proof {
            lemma_split_acc_current(s@.take(i as int), sep, start as int);
            assert(s@.take(i + 1).drop_last() =~= s@.take(i as int));
        }
        if cs[i] == sep {
            let piece = s.substring_char(start, i);
            let ghost before = pieces@;
            pieces.push(piece.to_owned());
            assert(s@.take(i as int).subrange(start as int, i as int) =~= s@.subrange(start as int, i as int));
            assert(views(pieces@) =~= views(before).push(piece@));
            start = i + 1;
        }
    }
    proof {
        lemma_split_acc_current(s@.take(n as int), sep, start as int);
        assert(s@.take(n as int) =~= s@);
    }
    let last = s.substring_char(start, n);
    let ghost before = pieces@;
    pieces.push(last.to_owned());
    assert(views(pieces@) =~= views(before).push(last@));
    pieces
}

} // verus!

verus! {

/// Whether `s` begins with `p`.
pub open spec fn has_prefix(s: Seq<char>, p: Seq<char>) -> bool {
    p.len() <= s.len() && s.take(p.len() as int) == p
}

/// Whether `p` occurs in `s` starting at index `i`.
pub open spec fn occurs_at(s: Seq<char>, p: Seq<char>, i: int) -> bool {
    0 <= i && i + p.len() <= s.len() && s.subrange(i, i + p.len()) == p
}

/// Whether `p` occurs anywhere in `s`.
pub open spec fn has_substring(s: Seq<char>, p: Seq<char>) -> bool {
    exists|i: int| occurs_at(s, p, i)
}

/// `s` without its trailing run of `c`.
pub open spec fn trim_end_char(s: Seq<char>, c: char) -> Seq<char>
    decreases s.len(),
{
    if s.len() > 0 && s.last() == c {
        trim_end_char(s.drop_last(), c)
    } else {
        s
    }
}

/// `s` without the prefix `p`, when it has it.
pub open spec fn strip_prefix_or_keep(s: Seq<char>, p: Seq<char>) -> Seq<char> {
    if has_prefix(s, p) {
        s.skip(p.len() as int)
    } else {
        s
    }
}

/// The elements of `v` that are not empty.
pub open spec fn non_empty_pieces(v: Seq<Seq<char>>) -> Seq<Seq<char>> {
    v.filter(|x: Seq<char>| x.len() > 0)
}

/// The pieces joined with `sep` between consecutive ones.
pub open spec fn join_with(v: Seq<Seq<char>>, sep: Seq<char>) -> Seq<char>
    decreases v.len(),
{
    if v.len() == 0 {
        Seq::empty()
    } else if v.len() == 1 {
        v[0]
    } else {
        join_with(v.drop_last(), sep) + sep + v.last()
    }
}

/// Whether `s` begins with `p`.
pub fn starts_with(s: &str, p: &str) -> (r: bool)
    ensures
        r == has_prefix(s@, p@),
{
    let sv = chars_of(s);
    let pv = chars_of(p);
    if pv.len() > sv.len() {
        return false;
    }
    let n = pv.len();
    for i in 0..n
        invariant
            n == pv@.len(),
            n <= sv@.len(),
            sv@ == s@,
            pv@ == p@,
            forall|j: int| 0 <= j < i ==> sv@[j] == pv@[j],
    {
        if sv[i] != pv[i] {
            return false;
        }
    }
    assert(s@.take(n as int) =~= p@);
    true
}

/// Whether `p` occurs in `s` at char index `i` (chars given as vectors).
fn matches_at(sv: &Vec<char>, pv: &Vec<char>, i: usize) -> (r: bool)
    requires
        i + pv@.len() <= sv@.len(),
    ensures
        r == occurs_at(sv@, pv@, i as int),
{
    let m = pv.len();
    let total = sv.len();
    for k in 0..m
        invariant
            m == pv@.len(),
            total == sv@.len(),
            i + m <= total,
            forall|j: int| 0 <= j < k ==> sv@[i + j] == pv@[j],
    {
        if sv[i + k] != pv[k] {
            assert(sv@.subrange(i as int, i + m)[k as int] != pv@[k as int]);
            return false;
        }
    }
    assert(sv@.subrange(i as int, i + m) =~= pv@);
    true
}

/// The first char index where `p` occurs in `s`, if any.
pub fn find_substring(s: &str, p: &str) -> (r: Option<usize>)
    ensures
        r is None ==> !has_substring(s@, p@),
        r matches Some(i) ==> occurs_at(s@, p@, i as int) && forall|j: int| 0 <= j < i ==> !occurs_at(s@, p@, j),
{
    let sv = chars_of(s);
    let pv = chars_of(p);
    if pv.len() > sv.len() {
        return None;
    }
    let last = sv.len() - pv.len();
    let mut i: usize = 0;
    loop
        invariant
            sv@ == s@,
            pv@ == p@,
            i <= last,
            last + pv@.len() == sv@.len(),
            forall|j: int| 0 <= j < i ==> !occurs_at(s@, p@, j),
        ensures
            forall|j: int| 0 <= j <= last ==> !occurs_at(s@, p@, j),
        decreases last - i,
    {
        if matches_at(&sv, &pv, i) {
            return Some(i);
        }
        if i == last {
            break;
        }
        i = i + 1;
    }
    assert forall|j: int| !occurs_at(s@, p@, j) by {
        if 0 <= j <= last {
        }
    }
    None
}

/// Whether `p` occurs in `s`.
pub fn contains_str(s: &str, p: &str) -> (r: bool)
    ensures
        r == has_substring(s@, p@),
{
    match find_substring(s, p) {
        Some(i) => {
            assert(occurs_at(s@, p@, i as int));
            true
        },
        None => false,
    }
}

/// `s` with its trailing run of `c` removed.
pub fn trim_end_matches_char<'a>(s: &'a str, c: char) -> (r: &'a str)
    ensures
        r@ == trim_end_char(s@, c),
{
    let sv = chars_of(s);
    let mut end = sv.len();
    assert(s@.take(end as int) =~= s@);
    while end > 0 && sv[end - 1] == c
        invariant
            sv@ == s@,
            end <= sv@.len(),
            trim_end_char(s@.take(end as int), c) == trim_end_char(s@, c),
        decreases end,
    {
        assert(s@.take(end as int).drop_last() =~= s@.take(end - 1));
        end = end - 1;
    }
    assert(s@.take(s@.len() as int) =~= s@);
    let r = s.substring_char(0, end);
    assert(r@ =~= s@.take(end as int));
    r
}

/// `s` with the prefix `p` removed, when `s` begins with it.
pub fn strip_prefix<'a>(s: &'a str, p: &str) -> (r: Option<&'a str>)
    ensures
        r is Some == has_prefix(s@, p@),
        r matches Some(x) ==> x@ == s@.skip(p@.len() as int),
{
    if starts_with(s, p) {
        let n = s.unicode_len();
        let k = p.unicode_len();
        let x = s.substring_char(k, n);
        assert(x@ =~= s@.skip(k as int));
        Some(x)
    } else {
        None
    }
}

/// The non-empty strings of `v`, in order.
pub fn keep_non_empty(v: Vec<String>) -> (r: Vec<String>)
    ensures
        views(r@) == non_empty_pieces(views(v@)),
{
    let mut r: Vec<String> = Vec::new();
    let n = v.len();
    for i in 0..n
        invariant
            n == v@.len(),
            views(r@) == non_empty_pieces(views(v@).take(i as int)),
    {
        let x = &v[i];
        proof {
            assert(views(v@).take(i + 1) =~= views(v@).take(i as int).push(x@));
            views(v@).take(i as int).lemma_filter_push(x@, |x: Seq<char>| x.len() > 0);
        }
        if x.as_str().unicode_len() > 0 {
            let ghost before = r@;
            r.push(x.clone());
            assert(views(r@) =~= views(before).push(x@));
        }
    }
    assert(views(v@).take(n as int) =~= views(v@));
    r
}

/// The strings `v[from..]` joined with `sep`.
pub fn join_from(v: &Vec<String>, from: usize, sep: &str) -> (r: String)
    requires
        from <= v@.len(),
    ensures
        r@ == join_with(views(v@).skip(from as int), sep@),
{
    let mut r = String::new();
    let n = v.len();
    let ghost all = views(v@).skip(from as int);
    assert(all.take(0) =~= Seq::<Seq<char>>::empty());
    for i in from..n
        invariant
            n == v@.len(),
            from <= i <= n,
            all == views(v@).skip(from as int),
            r@ == join_with(all.take(i - from), sep@),
    {
        let ghost prev = all.take(i - from);
        assert(all.take(i - from + 1).drop_last() =~= prev);
        assert(all.take(i - from + 1).last() == v@[i as int]@);
        if i > from {
            r.append(sep);
        } else {
            assert(all.take(1) =~= seq![v@[i as int]@]);
        }
        r.append(v[i].as_str());
    }
    assert(all.take(n - from) =~= all);
    r
}

} // verus!

verus! {

/// `str::split_once(sep)`: the text before the first `sep` and the text
/// after it (`sep_text` is `sep` as a one-char string).
pub open spec fn split_once_spec(s: Seq<char>, sep: char, sep_text: Seq<char>) -> Option<(Seq<char>, Seq<char>)> {
    let p = split_on(s, sep);
    if p.len() >= 2 {
        Some((p[0], join_with(p.skip(1), sep_text)))
    } else {
        None
    }
}

/// `str::rsplit_once(sep)`: the text before the last `sep` and the text
/// after it.
pub open spec fn rsplit_once_spec(s: Seq<char>, sep: char, sep_text: Seq<char>) -> Option<(Seq<char>, Seq<char>)> {
    let p = split_on(s, sep);
    if p.len() >= 2 {
        Some((join_with(p.drop_last(), sep_text), p.last()))
    } else {
        None
    }
}

/// Split `s` around its first `sep`.
pub fn split_once_char(s: &str, sep: char, sep_text: &str) -> (r: Option<(String, String)>)
    ensures
        match split_once_spec(s@, sep, sep_text@) {
            Some((a, b)) => r matches Some((x, y)) && x@ == a && y@ == b,
            None => r is None,
        },
{
    let parts = split_char(s, sep);
    if parts.len() < 2 {
        return None;
    }
    let first = parts[0].clone();
    let rest = join_from(&parts, 1, sep_text);
    Some((first, rest))
}

/// Split `s` around its last `sep`.
pub fn rsplit_once_char(s: &str, sep: char, sep_text: &str) -> (r: Option<(String, String)>)
    ensures
        match rsplit_once_spec(s@, sep, sep_text@) {
            Some((a, b)) => r matches Some((x, y)) && x@ == a && y@ == b,
            None => r is None,
        },
{
    let mut parts = split_char(s, sep);
    if parts.len() < 2 {
        return None;
    }
    let ghost all = views(parts@);
    let last = parts.pop().unwrap();
    assert(views(parts@) =~= all.drop_last());
    let head = join_from(&parts, 0, sep_text);
    assert(views(parts@).skip(0) =~= views(parts@));
    Some((head, last))
}

/// Append the decimal representation of `n` to `s`.
pub fn push_dec_u64(s: &mut String, n: u64)
    ensures
        final(s)@ == old(s)@ + dec_repr(n as nat),
{
    let ghost start = s@;
    let mut rev: Vec<u8> = Vec::new();
    let mut rem: u64 = n;
    loop
        invariant_except_break
            rev@.map_values(|d: u8| dec_char(d as nat)) + dec_digits_rev(rem as nat)
                == dec_digits_rev(n as nat),
        invariant
            forall|i: int| 0 <= i < rev@.len() ==> rev@[i] < 10,
        ensures
            rev@.map_values(|d: u8| dec_char(d as nat)) == dec_digits_rev(n as nat),
        decreases rem,
    {
        if rem < 10 {
            let ghost before = rev@;
            rev.push(rem as u8);
            assert(rev@.map_values(|d: u8| dec_char(d as nat)) =~= before.map_values(
                |d: u8| dec_char(d as nat),
            ).push(dec_char(rem as nat)));
            break;
        }
        let ghost before = rev@;
        let d = (rem % 10) as u8;
        rev.push(d);
        assert(rev@.map_values(|d: u8| dec_char(d as nat)) =~= before.map_values(
            |d: u8| dec_char(d as nat),
        ).push(dec_char(d as nat)));
        rem = rem / 10;
    }
    let len = rev.len();
    let ghost mid = s@;
    for i in 0..len
        invariant
            len == rev@.len(),
            forall|k: int| 0 <= k < rev@.len() ==> rev@[k] < 10,
            s@ == mid + rev@.map_values(|d: u8| dec_char(d as nat)).reverse().take(i as int),
    {
        let d = rev[len - 1 - i];
        push_dec_digit(s, d);
        assert(s@ =~= mid + rev@.map_values(|d: u8| dec_char(d as nat)).reverse().take(
            (i + 1) as int,
        ));
    }
    assert(rev@.map_values(|d: u8| dec_char(d as nat)).reverse().take(len as int)
        =~= dec_repr(n as nat));
}

/// Decimal representation of a signed integer.
pub open spec fn signed_dec_repr(n: int) -> Seq<char> {
    if n < 0 {
        "-"@ + dec_repr((-n) as nat)
    } else {
        dec_repr(n as nat)
    }
}

/// Append the decimal representation of `n` to `s`.
pub fn push_dec_i64(s: &mut String, n: i64)
    ensures
        final(s)@ == old(s)@ + signed_dec_repr(n as int),
{
    if n < 0 {
        s.append("-");
        let m: u64 = if n == i64::MIN {
            9223372036854775808u64
        } else {
            (-n) as u64
        };
        push_dec_u64(s, m);
        assert(s@ =~= old(s)@ + signed_dec_repr(n as int));
    } else {
        push_dec_u64(s, n as u64);
    }
}

} // verus!

verus! {

/// The view of an optional borrowed string.
pub open spec fn opt_str_view(s: Option<&str>) -> Option<Seq<char>> {
    match s {
        Some(x) => Some(x@),
        None => None,
    }
}

/// The view of an optional owned string.
pub open spec fn opt_string_view(s: Option<String>) -> Option<Seq<char>> {
    match s {
        Some(x) => Some(x@),
        None => None,
    }
}

/// Whether two optional strings are equal.
pub fn opt_string_eq(a: &Option<String>, b: &Option<String>) -> (r: bool)
    ensures
        r == (opt_string_view(*a) == opt_string_view(*b)),
{
    match (a, b) {
        (Some(x), Some(y)) => x.eq(y),
        (None, None) => true,
        _ => false,
    }
}

/// Whether an optional owned string equals an optional borrowed one.
pub fn opt_string_eq_str(a: &Option<String>, b: Option<&str>) -> (r: bool)
    ensures
        r == (opt_string_view(*a) == opt_str_view(b)),
{
    match (a, b) {
        (Some(x), Some(y)) => str_eq(x.as_str(), y),
        (None, None) => true,
        _ => false,
    }
}

} // verus!

verus! {

/// `s` without one trailing `\r`, when it has one.
pub open spec fn strip_cr(s: Seq<char>) -> Seq<char> {
    if s.len() > 0 && s.last() == '\r' {
        s.drop_last()
    } else {
        s
    }
}

/// Every piece without a trailing `\r`.
pub open spec fn strip_cr_all(v: Seq<Seq<char>>) -> Seq<Seq<char>> {
    v.map_values(|x: Seq<char>| strip_cr(x))
}

/// `str::lines`: the pieces between `\n`s, each without a `\r` that ended
/// its line; a final empty piece (text ending in `\n`, or empty text) is not
/// a line, and a last line not ended by `\n` keeps a trailing `\r`.
pub open spec fn lines_of(s: Seq<char>) -> Seq<Seq<char>> {
    let p = split_on(s, '\n');
    let ended = strip_cr_all(p.drop_last());
    if p.last().len() == 0 {
        ended
    } else {
        ended.push(p.last())
    }
}

/// The lines of `s`, as `str::lines` gives them.
pub fn lines(s: &str) -> (r: Vec<String>)
    ensures
        views(r@) == lines_of(s@),
{
    let mut parts = split_char(s, '\n');
    let ghost p = views(parts@);
    let last = parts.pop().unwrap();
    assert(views(parts@) =~= p.drop_last());
    let mut r: Vec<String> = Vec::new();
    let n = parts.len();
    for i in 0..n
        invariant
            n == parts@.len(),
            views(parts@) == p.drop_last(),
            views(r@) == strip_cr_all(p.drop_last()).take(i as int),
    {
        let piece = parts[i].as_str();
        let len = piece.unicode_len();
        let ghost before = r@;
        assert(views(parts@)[i as int] == piece@);
        assert(strip_cr_all(p.drop_last())[i as int] == strip_cr(piece@));
        if len > 0 && piece.get_char(len - 1) == '\r' {
            let t = piece.substring_char(0, len - 1);
            assert(t@ =~= strip_cr(piece@));
            r.push(t.to_owned());
            assert(views(r@) =~= views(before).push(strip_cr(piece@)));
        } else {
            assert(piece@ == strip_cr(piece@));
            r.push(piece.to_owned());
            assert(views(r@) =~= views(before).push(strip_cr(piece@)));
        }
        assert(views(r@) =~= strip_cr_all(p.drop_last()).take(i + 1));
    }
    assert(strip_cr_all(p.drop_last()).take(n as int)
        =~= strip_cr_all(p.drop_last()));
    if last.as_str().unicode_len() > 0 {
        let ghost before = r@;
        r.push(last);
        assert(views(r@) =~= views(before).push(p.last()));
    }
    r
}

} // verus!

verus! {

/// Whether `c` is whitespace in the Unicode sense of `char::is_whitespace`.
pub uninterp spec fn unicode_whitespace(c: char) -> bool;

/// Calls `char::is_whitespace` (the Unicode `White_Space` property); the
/// result is named `unicode_whitespace`.
#[verifier::external_body]
pub(crate) fn is_whitespace(c: char) -> (r: bool)
    ensures
        r == unicode_whitespace(c),
{
    c.is_whitespace()
}

/// `s` without its leading whitespace.
pub open spec fn trim_start_ws(s: Seq<char>) -> Seq<char>
    decreases s.len(),
{
    if s.len() > 0 && unicode_whitespace(s[0]) {
        trim_start_ws(s.drop_first())
    } else {
        s
    }
}

/// `s` without its trailing whitespace.
pub open spec fn trim_end_ws(s: Seq<char>) -> Seq<char>
    decreases s.len(),
{
    if s.len() > 0 && unicode_whitespace(s.last()) {
        trim_end_ws(s.drop_last())
    } else {
        s
    }
}

/// `str::trim`: `s` without leading and trailing whitespace.
pub open spec fn trimmed(s: Seq<char>) -> Seq<char> {
    trim_end_ws(trim_start_ws(s))
}

/// `s` with leading and trailing whitespace removed.
pub fn trim_str(s: &str) -> (r: String)
    ensures
        r@ == trimmed(s@),
{
    let cs = chars_of(s);
    let n = cs.len();
    let mut start: usize = 0;
    assert(s@.skip(0) =~= s@);
    while start < n && is_whitespace(cs[start])
        invariant
            n == s@.len(),
            cs@ == s@,
            start <= n,
            trim_start_ws(s@.skip(start as int)) == trim_start_ws(s@),
        decreases n - start,
    {
        assert(s@.skip(start as int).drop_first() =~= s@.skip(start + 1));
        start = start + 1;
    }
    let ghost front = s@.skip(start as int);
    assert(trim_start_ws(front) == front);
    let mut end: usize = n;
    assert(front =~= s@.subrange(start as int, n as int));
    while end > start && is_whitespace(cs[end - 1])
        invariant
            n == s@.len(),
            cs@ == s@,
            start <= end <= n,
            front == s@.subrange(start as int, n as int),
            trim_end_ws(s@.subrange(start as int, end as int)) == trim_end_ws(front),
        decreases end,
    {
        assert(s@.subrange(start as int, end as int).drop_last() =~= s@.subrange(start as int, end - 1));
        end = end - 1;
    }
    let r = s.substring_char(start, end);
    assert(trim_end_ws(r@) == r@);
    r.to_owned()
}

} // verus!

verus! {

/// `i` is the first position where `p` occurs in `s`.
pub open spec fn is_first_occurrence(s: Seq<char>, p: Seq<char>, i: int) -> bool {
    occurs_at(s, p, i) && forall|j: int| 0 <= j < i ==> !occurs_at(s, p, j)
}

/// `str::split_once(p)`: the text before the first occurrence of `p` and
/// the text after it.
pub open spec fn split_once_at(s: Seq<char>, p: Seq<char>) -> Option<(Seq<char>, Seq<char>)> {
    if exists|i: int| is_first_occurrence(s, p, i) {
        let i = choose|i: int| is_first_occurrence(s, p, i);
        Some((s.take(i), s.skip(i + p.len())))
    } else {
        None
    }
}

/// The first occurrence is unique.
proof fn lemma_first_occurrence_unique(s: Seq<char>, p: Seq<char>, i: int, k: int)
    requires
        is_first_occurrence(s, p, i),
        is_first_occurrence(s, p, k),
    ensures
        i == k,
{
    if i < k {
        assert(!occurs_at(s, p, i));
    } else if k < i {
        assert(!occurs_at(s, p, k));
    }
}

/// Split `s` at the first occurrence of `p`.
pub fn split_once_str(s: &str, p: &str) -> (r: Option<(String, String)>)
    ensures
        match split_once_at(s@, p@) {
            Some((a, b)) => r matches Some((x, y)) && x@ == a && y@ == b,
            None => r is None,
        },
{
    match find_substring(s, p) {
        Some(i) => {
            proof {
                let k = choose|k: int| is_first_occurrence(s@, p@, k);
                lemma_first_occurrence_unique(s@, p@, i as int, k);
            }
            let n = s.unicode_len();
            let m = p.unicode_len();
            let a = s.substring_char(0, i);
            let b = s.substring_char(i + m, n);
            assert(a@ =~= s@.take(i as int));
            assert(b@ =~= s@.skip(i + m));
            Some((a.to_owned(), b.to_owned()))
        },
        None => {
            assert forall|i: int| !is_first_occurrence(s@, p@, i) by {
                if is_first_occurrence(s@, p@, i) {
                    assert(has_substring(s@, p@));
                }
            }
            None
        },
    }
}

/// `str::split(p)` for a non-empty `p`: the pieces between the
/// occurrences of `p`, found from left to right.
pub open spec fn split_str_spec(s: Seq<char>, p: Seq<char>) -> Seq<Seq<char>>
    decreases s.len(),
    when p.len() > 0
{
    match split_once_at(s, p) {
        Some((a, b)) => seq![a] + split_str_spec(b, p),
        None => seq![s],
    }
}

/// Split `s` at every occurrence of the non-empty `p`.
pub fn split_str(s: &str, p: &str) -> (r: Vec<String>)
    requires
        p@.len() > 0,
    ensures
        views(r@) == split_str_spec(s@, p@),
{
    let mut r: Vec<String> = Vec::new();
    let mut rest: String = s.to_owned();
    loop
        invariant
            p@.len() > 0,
            views(r@) + split_str_spec(rest@, p@) == split_str_spec(s@, p@),
        decreases rest@.len(),
    {
        let ghost before = rest@;
        match split_once_str(rest.as_str(), p) {
            Some((a, b)) => {
                proof {
                    let i = choose|i: int| is_first_occurrence(before, p@, i);
                    assert(b@.len() < before.len());
                    assert(split_str_spec(before, p@) == seq![a@] + split_str_spec(b@, p@));
                    assert(views(r@.push(a)) =~= views(r@).push(a@));
                    assert(views(r@).push(a@) + split_str_spec(b@, p@) =~= views(r@) + (seq![a@] + split_str_spec(b@, p@)));
                }
                r.push(a);
                rest = b;
            },
            None => {
                proof {
                    assert(split_str_spec(before, p@) == seq![before]);
                    assert(views(r@.push(rest)) =~= views(r@).push(rest@));
                    assert(views(r@) + seq![before] =~= views(r@).push(rest@));
                }
                r.push(rest);
                return r;
            },
        }
    }
}

/// Whether every character of `s` is an ASCII digit.
pub open spec fn all_ascii_digits(s: Seq<char>) -> bool {
    forall|i: int| 0 <= i < s.len() ==> '0' <= #[trigger] s[i] <= '9'
}

/// The value of a string of ASCII digits.
pub open spec fn digits_value(s: Seq<char>) -> nat
    decreases s.len(),
{
    if s.len() == 0 {
        0
    } else {
        digits_value(s.drop_last()) * 10 + (s.last() as nat - '0' as nat) as nat
    }
}

/// The digits of an unsigned number: the text without one leading `+`.
pub open spec fn unsigned_digits(s: Seq<char>) -> Seq<char> {
    if s.len() > 0 && s[0] == '+' {
        s.drop_first()
    } else {
        s
    }
}

/// `from_str` of an unsigned integer type whose largest value is `max`: an
/// optional `+` and one or more ASCII digits whose value is at most `max`.
pub open spec fn parse_decimal_spec(s: Seq<char>, max: nat) -> Option<nat> {
    let d = unsigned_digits(s);
    if d.len() > 0 && all_ascii_digits(d) && digits_value(d) <= max {
        Some(digits_value(d))
    } else {
        None
    }
}

/// `u32::from_str`.
pub open spec fn parse_u32_spec(s: Seq<char>) -> Option<u32> {
    match parse_decimal_spec(s, u32::MAX as nat) {
        Some(v) => Some(v as u32),
        None => None,
    }
}

/// `usize::from_str`.
pub open spec fn parse_usize_spec(s: Seq<char>) -> Option<usize> {
    match parse_decimal_spec(s, usize::MAX as nat) {
        Some(v) => Some(v as usize),
        None => None,
    }
}

/// Parse an unsigned decimal number of at most `max`, as `str::parse` does
/// for an unsigned type whose largest value is `max`.
fn parse_decimal(s: &str, max: u64) -> (r: Option<u64>)
    ensures
        match parse_decimal_spec(s@, max as nat) {
            Some(v) => r == Some(v as u64),
            None => r is None,
        },
{
    let cs = chars_of(s);
    let n = cs.len();
    let start: usize = if n > 0 && cs[0] == '+' {
        1
    } else {
        0
    };
    let ghost d = unsigned_digits(s@);
    assert(d =~= s@.skip(start as int));
    if start == n {
        return None;
    }
    let mut value: u128 = 0;
    let mut overflow = false;
    let mut i = start;
    assert(s@.subrange(start as int, i as int) =~= Seq::<char>::empty());
    while i < n
        invariant
            cs@ == s@,
            n == s@.len(),
            start <= i <= n,
            d =~= s@.skip(start as int),
            d == unsigned_digits(s@),
            all_ascii_digits(s@.subrange(start as int, i as int)),
            !overflow ==> value == digits_value(s@.subrange(start as int, i as int)) && value <= max,
            overflow ==> digits_value(s@.subrange(start as int, i as int)) > max,
        decreases n - i,
    {
        let c = cs[i];
        if !('0' <= c && c <= '9') {
            assert(d[i - start] == c);
            assert(!('0' <= d[i - start] <= '9'));
            return None;
        }
        let ghost prefix = s@.subrange(start as int, i as int);
        assert(s@.subrange(start as int, i + 1).drop_last() =~= prefix);
        assert(s@.subrange(start as int, i + 1).last() == c);
        if !overflow {
            let digit = (c as u128) - ('0' as u128);
            let next = value * 10 + digit;
            if next > max as u128 {
                overflow = true;
            } else {
                value = next;
            }
        }
        i = i + 1;
    }
    assert(s@.subrange(start as int, n as int) =~= d);
    if overflow {
        None
    } else {
        Some(value as u64)
    }
}

/// Parse a decimal `u32` as `str::parse::<u32>` does.
pub fn parse_u32(s: &str) -> (r: Option<u32>)
    ensures
        r == parse_u32_spec(s@),
{
    match parse_decimal(s, 0xffff_ffff) {
        Some(v) => Some(v as u32),
        None => None,
    }
}

/// `u64::from_str`.
pub open spec fn parse_u64_spec(s: Seq<char>) -> Option<u64> {
    match parse_decimal_spec(s, u64::MAX as nat) {
        Some(v) => Some(v as u64),
        None => None,
    }
}

/// Parse a decimal `u64` as `str::parse::<u64>` does.
pub fn parse_u64(s: &str) -> (r: Option<u64>)
    ensures
        r == parse_u64_spec(s@),
{
    parse_decimal(s, u64::MAX)
}

/// Parse a decimal `usize` as `str::parse::<usize>` does.
pub fn parse_usize(s: &str) -> (r: Option<usize>)
    ensures
        r == parse_usize_spec(s@),
{
    match parse_decimal(s, usize::MAX as u64) {
        Some(v) => Some(v as usize),
        None => None,
    }
}

} // verus!

verus! {

/// The words of `s` (`str::split_whitespace`), gathered from the left: the
/// finished words and the word being read.
pub open spec fn words_acc(s: Seq<char>) -> (Seq<Seq<char>>, Seq<char>)
    decreases s.len(),
{
    if s.len() == 0 {
        (Seq::empty(), Seq::empty())
    } else {
        let (done, cur) = words_acc(s.drop_last());
        if unicode_whitespace(s.last()) {
            (done.push(cur), Seq::empty())
        } else {
            (done, cur.push(s.last()))
        }
    }
}

/// `str::split_whitespace`: the maximal runs of non-whitespace characters.
pub open spec fn words_of(s: Seq<char>) -> Seq<Seq<char>> {
    non_empty_pieces(words_acc(s).0.push(words_acc(s).1))
}

/// Split `s` into its whitespace-separated words.
pub fn split_whitespace(s: &str) -> (r: Vec<String>)
    ensures
        views(r@) == words_of(s@),
{
    let cs = chars_of(s);
    let n = cs.len();
    let mut pieces: Vec<String> = Vec::new();
    let mut start: usize = 0;
    for i in 0..n
        invariant
            n == s@.len(),
            cs@ == s@,
            start <= i,
            views(pieces@) == words_acc(s@.take(i as int)).0,
            s@.subrange(start as int, i as int) == words_acc(s@.take(i as int)).1,
    {
        proof {
            assert(s@.take(i + 1).drop_last() =~= s@.take(i as int));
            assert(s@.take(i + 1).last() == cs@[i as int]);
        }
        if is_whitespace(cs[i]) {
            let w = s.substring_char(start, i);
            let ghost before = pieces@;
            pieces.push(w.to_owned());
            assert(views(pieces@) =~= views(before).push(w@));
            start = i + 1;
            assert(s@.subrange(start as int, i + 1) =~= Seq::<char>::empty());
        } else {
            assert(s@.subrange(start as int, i + 1) =~= s@.subrange(start as int, i as int).push(cs@[i as int]));
        }
    }
    assert(s@.take(n as int) =~= s@);
    let last = s.substring_char(start, n);
    let ghost before = pieces@;
    pieces.push(last.to_owned());
    assert(views(pieces@) =~= views(before).push(last@));
    keep_non_empty(pieces)
}

} // verus!
