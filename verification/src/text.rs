//! Text building and parsing over `String`, specified on `Seq<char>`.
use vstd::prelude::*;
use vstd::string::StrSliceExecFns;

verus! {

/// The character of a decimal digit.
pub open spec fn digit_char(d: nat) -> char {
    if d == 0 { '0' }
    else if d == 1 { '1' }
    else if d == 2 { '2' }
    else if d == 3 { '3' }
    else if d == 4 { '4' }
    else if d == 5 { '5' }
    else if d == 6 { '6' }
    else if d == 7 { '7' }
    else if d == 8 { '8' }
    else { '9' }
}

/// Decimal representation of a natural number, without leading zeros.
pub open spec fn decimal(n: nat) -> Seq<char>
    decreases n,
{
    if n < 10 {
        seq![digit_char(n)]
    } else {
        decimal(n / 10) + seq![digit_char(n % 10)]
    }
}

/// Decimal representation of an integer, with a leading `-` when negative.
pub open spec fn signed_decimal(i: int) -> Seq<char> {
    if i < 0 {
        seq!['-'] + decimal((-i) as nat)
    } else {
        decimal(i as nat)
    }
}

fn digit_str(d: u64) -> (s: &'static str)
    requires
        d < 10,
    ensures
        s@ == seq![digit_char(d as nat)],
{
    proof {
        reveal_strlit("0");
        reveal_strlit("1");
        reveal_strlit("2");
        reveal_strlit("3");
        reveal_strlit("4");
        reveal_strlit("5");
        reveal_strlit("6");
        reveal_strlit("7");
        reveal_strlit("8");
        reveal_strlit("9");
    }
    if d == 0 { "0" }
    else if d == 1 { "1" }
    else if d == 2 { "2" }
    else if d == 3 { "3" }
    else if d == 4 { "4" }
    else if d == 5 { "5" }
    else if d == 6 { "6" }
    else if d == 7 { "7" }
    else if d == 8 { "8" }
    else { "9" }
}

/// Formats `n` in decimal, as `n.to_string()` does.
pub fn u64_to_string(n: u64) -> (s: String)
    ensures
        s@ == decimal(n as nat),
    decreases n,
{
    if n < 10 {
        String::from_str(digit_str(n))
    } else {
        let head = u64_to_string(n / 10);
        head.concat(digit_str(n % 10))
    }
}

/// Formats `n` in decimal, as `n.to_string()` does.
pub fn usize_to_string(n: usize) -> (s: String)
    ensures
        s@ == decimal(n as nat),
{
    u64_to_string(n as u64)
}

/// Formats `i` in decimal, as `i.to_string()` does.
pub fn i32_to_string(i: i32) -> (s: String)
    ensures
        s@ == signed_decimal(i as int),
{
    proof {
        reveal_strlit("-");
    }
    if i < 0 {
        let magnitude: u64 = (0 - (i as i64)) as u64;
        let digits = u64_to_string(magnitude);
        let minus = String::from_str("-");
        minus.concat(digits.as_str())
    } else {
        u64_to_string(i as u64)
    }
}


/// The sequences of `list` joined by `sep`, as `join` does on a slice of strings.
pub open spec fn seq_join(list: Seq<Seq<char>>, sep: Seq<char>) -> Seq<char>
    decreases list.len(),
{
    if list.len() == 0 {
        Seq::empty()
    } else if list.len() == 1 {
        list[0]
    } else {
        seq_join(list.drop_last(), sep) + sep + list.last()
    }
}

/// Joins the strings of `list` with `sep` between them.
pub fn join_strings(list: &Vec<String>, sep: &str) -> (res: String)
    ensures
        res@ == seq_join(list.deep_view(), sep@),
{
    let mut res = String::new();
    let ghost dv = list.deep_view();
    let mut i: usize = 0;
    while i < list.len()
        invariant
            0 <= i <= list.len(),
            dv == list.deep_view(),
            res@ == seq_join(dv.take(i as int), sep@),
        decreases list.len() - i,
    {
        assert(dv.take(i + 1).drop_last() =~= dv.take(i as int));
        if i != 0 {
            res.append(sep);
        }
        res.append(list[i].as_str());
        i = i + 1;
    }
    assert(dv.take(list.len() as int) =~= dv);
    res
}

/// The sequence with each element kept only at its first occurrence,
/// as `Itertools::unique` yields it.
pub open spec fn dedup<A>(s: Seq<A>) -> Seq<A>
    decreases s.len(),
{
    if s.len() == 0 {
        s
    } else {
        let prefix = dedup(s.drop_last());
        if prefix.contains(s.last()) {
            prefix
        } else {
            prefix.push(s.last())
        }
    }
}

/// Every element of `dedup(s)` occurs in `s`, every element of `s` occurs in
/// `dedup(s)`, and `dedup(s)` holds no element twice.
pub proof fn lemma_dedup<A>(s: Seq<A>)
    ensures
        dedup(s).no_duplicates(),
        forall|x: A| dedup(s).contains(x) <==> s.contains(x),
        dedup(s).len() <= s.len(),
    decreases s.len(),
{
    if s.len() > 0 {
        lemma_dedup(s.drop_last());
        let prefix = dedup(s.drop_last());
        assert forall|x: A| s.contains(x) <==> (s.drop_last().contains(x) || x == s.last()) by {
            if s.contains(x) {
                let i = choose|i: int| 0 <= i < s.len() && s[i] == x;
                if i < s.len() - 1 {
                    assert(s.drop_last()[i] == x);
                }
            }
            if s.drop_last().contains(x) {
                let i = choose|i: int| 0 <= i < s.drop_last().len() && s.drop_last()[i] == x;
                assert(s[i] == x);
            }
            if x == s.last() {
                assert(s[s.len() - 1] == x);
            }
        }
        if !prefix.contains(s.last()) {
            let p2 = prefix.push(s.last());
            assert forall|x: A| p2.contains(x) <==> (prefix.contains(x) || x == s.last()) by {
                if p2.contains(x) {
                    let i = choose|i: int| 0 <= i < p2.len() && p2[i] == x;
                    if i < prefix.len() {
                        assert(prefix[i] == x);
                    }
                }
                if prefix.contains(x) {
                    let i = choose|i: int| 0 <= i < prefix.len() && prefix[i] == x;
                    assert(p2[i] == x);
                }
                if x == s.last() {
                    assert(p2[p2.len() - 1] == x);
                }
            }
            assert forall|i: int, j: int| 0 <= i < p2.len() && 0 <= j < p2.len() && i != j
                implies p2[i] != p2[j] by {
                if i < prefix.len() && j < prefix.len() {
                } else if i == prefix.len() {
                    assert(prefix[j] == p2[j]);
                } else {
                    assert(prefix[i] == p2[i]);
                }
            }
        }
    }
}

/// Whether a string occurs in a sequence of strings, compared by contents.
pub fn contains_string(list: &Vec<String>, needle: &String) -> (found: bool)
    ensures
        found == list.deep_view().contains(needle@),
{
    let ghost dv = list.deep_view();
    let mut i: usize = 0;
    while i < list.len()
        invariant
            0 <= i <= list.len(),
            dv == list.deep_view(),
            forall|j: int| 0 <= j < i ==> dv[j] != needle@,
        decreases list.len() - i,
    {
        if list[i] == *needle {
            assert(dv[i as int] == needle@);
            return true;
        }
        i = i + 1;
    }
    false
}

/// Copies a string, keeping its contents.
pub fn copy_string(s: &String) -> (r: String)
    ensures
        r@ == s@,
{
    String::from_str(s.as_str())
}

/// Copies a list of strings, keeping their contents.
pub fn copy_strings(list: &Vec<String>) -> (r: Vec<String>)
    ensures
        r.deep_view() == list.deep_view(),
{
    let mut r: Vec<String> = Vec::new();
    let mut i: usize = 0;
    while i < list.len()
        invariant
            0 <= i <= list.len(),
            r.deep_view() =~= list.deep_view().take(i as int),
        decreases list.len() - i,
    {
        let ghost before = r.deep_view();
        r.push(copy_string(&list[i]));
        assert(r.deep_view() =~= before.push(list[i as int]@));
        assert(list.deep_view().take(i + 1) =~= list.deep_view().take(i as int).push(list[i as int]@));
        i = i + 1;
    }
    assert(list.deep_view().take(list.len() as int) =~= list.deep_view());
    r
}

/// An optional string by its contents.
pub open spec fn opt_view(o: Option<String>) -> Option<Seq<char>> {
    match o {
        Some(s) => Some(s@),
        None => None,
    }
}

/// Copies an optional string, keeping its contents.
pub fn copy_opt_string(o: &Option<String>) -> (r: Option<String>)
    ensures
        opt_view(r) == opt_view(*o),
{
    match o {
        Some(s) => Some(copy_string(s)),
        None => None,
    }
}

/// The strings of `list`, each kept only at its first occurrence.
pub fn unique_strings(list: &Vec<String>) -> (res: Vec<String>)
    ensures
        res.deep_view() == dedup(list.deep_view()),
{
    let mut res: Vec<String> = Vec::new();
    let ghost dv = list.deep_view();
    let mut i: usize = 0;
    while i < list.len()
        invariant
            0 <= i <= list.len(),
            dv == list.deep_view(),
            res.deep_view() == dedup(dv.take(i as int)),
        decreases list.len() - i,
    {
        assert(dv.take(i + 1).drop_last() =~= dv.take(i as int));
        assert(dv.take(i + 1).last() == list[i as int]@);
        if !contains_string(&res, &list[i]) {
            let ghost before = res.deep_view();
            res.push(copy_string(&list[i]));
            assert(res.deep_view() =~= before.push(list[i as int]@));
        }
        i = i + 1;
    }
    assert(dv.take(list.len() as int) =~= dv);
    res
}

/// Lexicographic order on character sequences, the order of `String`'s `Ord`
/// (UTF-8 byte order agrees with the order of code points).
pub open spec fn seq_lt(a: Seq<char>, b: Seq<char>) -> bool
    decreases a.len(),
{
    if a.len() == 0 {
        b.len() > 0
    } else if b.len() == 0 {
        false
    } else if a[0] != b[0] {
        (a[0] as int) < (b[0] as int)
    } else {
        seq_lt(a.drop_first(), b.drop_first())
    }
}

/// `seq_lt` is irreflexive.
pub proof fn lemma_seq_lt_irreflexive(a: Seq<char>)
    ensures
        !seq_lt(a, a),
    decreases a.len(),
{
    if a.len() > 0 {
        lemma_seq_lt_irreflexive(a.drop_first());
    }
}

/// `seq_lt` is transitive.
pub proof fn lemma_seq_lt_transitive(a: Seq<char>, b: Seq<char>, c: Seq<char>)
    requires
        seq_lt(a, b),
        seq_lt(b, c),
    ensures
        seq_lt(a, c),
    decreases a.len(),
{
    if a.len() > 0 && b.len() > 0 && c.len() > 0 {
        if a[0] == b[0] && b[0] == c[0] {
            lemma_seq_lt_transitive(a.drop_first(), b.drop_first(), c.drop_first());
        }
    }
}

/// `seq_lt` is total on distinct sequences.
pub proof fn lemma_seq_lt_total(a: Seq<char>, b: Seq<char>)
    ensures
        a == b || seq_lt(a, b) || seq_lt(b, a),
    decreases a.len(),
{
    if a.len() > 0 && b.len() > 0 {
        if a[0] == b[0] {
            lemma_seq_lt_total(a.drop_first(), b.drop_first());
            if a.drop_first() == b.drop_first() {
                assert(a =~= seq![a[0]] + a.drop_first());
                assert(b =~= seq![b[0]] + b.drop_first());
            }
        } else {
            assert((a[0] as int) != (b[0] as int));
        }
    } else if a.len() == 0 && b.len() == 0 {
        assert(a =~= b);
    }
}

/// `seq_lt` is asymmetric.
pub proof fn lemma_seq_lt_asymmetric(a: Seq<char>, b: Seq<char>)
    requires
        seq_lt(a, b),
    ensures
        !seq_lt(b, a),
{
    if seq_lt(b, a) {
        lemma_seq_lt_transitive(a, b, a);
        lemma_seq_lt_irreflexive(a);
    }
}

/// Whether `a` sorts before `b`, as `a < b` on strings.
pub fn str_lt(a: &str, b: &str) -> (lt: bool)
    ensures
        lt == seq_lt(a@, b@),
{
    let alen = a.unicode_len();
    let blen = b.unicode_len();
    let mut i: usize = 0;
    assert(a@.skip(0) =~= a@);
    assert(b@.skip(0) =~= b@);
    while i < alen && i < blen
        invariant
            alen == a@.len(),
            blen == b@.len(),
            0 <= i <= alen,
            i <= blen,
            seq_lt(a@, b@) == seq_lt(a@.skip(i as int), b@.skip(i as int)),
        decreases alen - i,
    {
        let ca = a.get_char(i);
        let cb = b.get_char(i);
        let ghost sa = a@.skip(i as int);
        let ghost sb = b@.skip(i as int);
        assert(sa[0] == ca);
        assert(sb[0] == cb);
        if ca != cb {
            return (ca as u32) < (cb as u32);
        }
        assert(sa.drop_first() =~= a@.skip(i + 1));
        assert(sb.drop_first() =~= b@.skip(i + 1));
        i = i + 1;
    }
    i < blen
}

/// Whether two strings have the same contents, as `a == b` on strings.
pub fn str_eq(a: &str, b: &str) -> (eq: bool)
    ensures
        eq == (a@ == b@),
{
    proof {
        lemma_seq_lt_total(a@, b@);
        lemma_seq_lt_irreflexive(a@);
    }
    !str_lt(a, b) && !str_lt(b, a)
}

/// The smallest string of a non-empty list, as the first element after sorting.
pub fn min_string(list: &Vec<String>) -> (m: String)
    requires
        list.len() > 0,
    ensures
        list.deep_view().contains(m@),
        forall|j: int| 0 <= j < list.len() ==> !seq_lt(#[trigger] list.deep_view()[j], m@),
{
    let ghost dv = list.deep_view();
    let mut best: usize = 0;
    let mut i: usize = 1;
    proof {
        lemma_seq_lt_irreflexive(dv[0]);
    }
    while i < list.len()
        invariant
            dv == list.deep_view(),
            0 <= best < list.len(),
            1 <= i <= list.len(),
            forall|j: int| 0 <= j < i ==> !seq_lt(#[trigger] dv[j], dv[best as int]),
        decreases list.len() - i,
    {
        if str_lt(list[i].as_str(), list[best].as_str()) {
            proof {
                lemma_seq_lt_irreflexive(dv[i as int]);
                assert forall|j: int| 0 <= j < i + 1 implies !seq_lt(#[trigger] dv[j], dv[i as int]) by {
                    if j < i && seq_lt(dv[j], dv[i as int]) {
                        lemma_seq_lt_transitive(dv[j], dv[i as int], dv[best as int]);
                    }
                }
            }
            best = i;
        }
        i = i + 1;
    }
    assert(dv[best as int] == list@[best as int]@);
    copy_string(&list[best])
}

/// The pieces of `s` between the occurrences of `c`, as `str::split` with a
/// character yields them: one more piece than there are occurrences.
pub open spec fn split_char(s: Seq<char>, c: char) -> Seq<Seq<char>>
    decreases s.len(),
{
    if s.len() == 0 {
        seq![Seq::empty()]
    } else {
        let prev = split_char(s.drop_last(), c);
        if s.last() == c {
            prev.push(Seq::empty())
        } else {
            prev.update(prev.len() - 1, prev.last().push(s.last()))
        }
    }
}

/// `split_char` yields at least one piece.
pub proof fn lemma_split_char_nonempty(s: Seq<char>, c: char)
    ensures
        split_char(s, c).len() >= 1,
    decreases s.len(),
{
    if s.len() > 0 {
        lemma_split_char_nonempty(s.drop_last(), c);
    }
}

/// Splits `s` at every occurrence of `c`, as `s.split(c)` does.
pub fn split_by_char(s: &str, c: char) -> (parts: Vec<String>)
    ensures
        parts.deep_view() == split_char(s@, c),
{
    let n = s.unicode_len();
    let mut parts: Vec<String> = Vec::new();
    let mut start: usize = 0;
    let mut i: usize = 0;
    assert(s@.take(0) =~= Seq::<char>::empty());
    while i < n
        invariant
            0 <= start <= i <= n,
            n == s@.len(),
            parts.deep_view().push(s@.subrange(start as int, i as int)) == split_char(s@.take(i as int), c),
        decreases n - i,
    {
        let ch = s.get_char(i);
        let ghost prev = split_char(s@.take(i as int), c);
        proof {
            lemma_split_char_nonempty(s@.take(i as int), c);
            assert(s@.take(i + 1).drop_last() =~= s@.take(i as int));
            assert(s@.take(i + 1).last() == ch);
            assert(split_char(s@.take(i + 1), c) == if ch == c {
                prev.push(Seq::empty())
            } else {
                prev.update(prev.len() - 1, prev.last().push(ch))
            });
        }
        if ch == c {
            let ghost before = parts.deep_view();
            parts.push(String::from_str(s.substring_char(start, i)));
            assert(parts.deep_view() =~= before.push(s@.subrange(start as int, i as int)));
            assert(parts.deep_view() == prev);
            start = i + 1;
            assert(s@.subrange(start as int, i + 1) =~= Seq::<char>::empty());
            assert(parts.deep_view().push(s@.subrange(start as int, i + 1)) =~= split_char(s@.take(i + 1), c));
        } else {
            assert(prev.last() == s@.subrange(start as int, i as int));
            assert(s@.subrange(start as int, i as int).push(ch) =~= s@.subrange(start as int, i + 1));
            assert(parts.deep_view().push(s@.subrange(start as int, i + 1)) =~= split_char(s@.take(i + 1), c));
        }
        i = i + 1;
    }
    let ghost before = parts.deep_view();
    parts.push(String::from_str(s.substring_char(start, n)));
    assert(parts.deep_view() =~= before.push(s@.subrange(start as int, n as int)));
    assert(s@.take(n as int) =~= s@);
    parts
}

/// A line without the carriage return that ends it, if one does.
pub open spec fn strip_cr(l: Seq<char>) -> Seq<char> {
    if l.len() > 0 && l.last() == '\r' { l.drop_last() } else { l }
}

/// The lines of `s`, as `str::lines` yields them: the pieces between line
/// feeds, each without a carriage return before its line feed, and no empty
/// piece after a final line feed.
pub open spec fn lines_of(s: Seq<char>) -> Seq<Seq<char>> {
    let parts = split_char(s, '\n');
    let body = parts.drop_last().map_values(|l: Seq<char>| strip_cr(l));
    if parts.last().len() > 0 { body.push(parts.last()) } else { body }
}

fn strip_cr_exec(l: &String) -> (r: String)
    ensures
        r@ == strip_cr(l@),
{
    let n = l.as_str().unicode_len();
    if n > 0 && l.as_str().get_char(n - 1) == '\r' {
        String::from_str(l.as_str().substring_char(0, n - 1))
    } else {
        copy_string(l)
    }
}

/// The lines of `s`, as `s.lines()` yields them.
pub fn lines(s: &str) -> (ls: Vec<String>)
    ensures
        ls.deep_view() == lines_of(s@),
{
    let parts = split_by_char(s, '\n');
    proof {
        lemma_split_char_nonempty(s@, '\n');
    }
    let ghost pv = parts.deep_view();
    let last = parts.len() - 1;
    let mut ls: Vec<String> = Vec::new();
    let mut i: usize = 0;
    while i < last
        invariant
            0 <= i <= last,
            last == parts.len() - 1,
            pv == parts.deep_view(),
            ls.deep_view() =~= pv.take(i as int).map_values(|l: Seq<char>| strip_cr(l)),
        decreases last - i,
    {
        let ghost before = ls.deep_view();
        ls.push(strip_cr_exec(&parts[i]));
        assert(pv.take(i + 1) =~= pv.take(i as int).push(pv[i as int]));
        assert(ls.deep_view() =~= before.push(strip_cr(pv[i as int])));
        i = i + 1;
    }
    assert(pv.take(last as int) =~= pv.drop_last());
    if parts[last].as_str().unicode_len() > 0 {
        let ghost before = ls.deep_view();
        ls.push(copy_string(&parts[last]));
        assert(ls.deep_view() =~= before.push(pv.last()));
    }
    ls
}

/// Whether every character is an ASCII digit.
pub open spec fn all_digits(d: Seq<char>) -> bool {
    forall|i: int| 0 <= i < d.len() ==> '0' <= #[trigger] d[i] <= '9'
}

/// The value of a string of decimal digits.
pub open spec fn digits_value(d: Seq<char>) -> int
    decreases d.len(),
{
    if d.len() == 0 {
        0
    } else {
        digits_value(d.drop_last()) * 10 + (d.last() as int - '0' as int)
    }
}

/// The `i32` a string spells, as `str::parse::<i32>` reads it: an optional
/// `+` or `-`, then one or more decimal digits, of a value in range.
pub open spec fn parse_i32_spec(s: Seq<char>) -> Option<i32> {
    let signed = s.len() > 0 && (s[0] == '-' || s[0] == '+');
    let negative = s.len() > 0 && s[0] == '-';
    let digits = if signed { s.drop_first() } else { s };
    if digits.len() == 0 || !all_digits(digits) {
        None
    } else {
        let v = if negative { -digits_value(digits) } else { digits_value(digits) };
        if i32::MIN <= v <= i32::MAX { Some(v as i32) } else { None }
    }
}

/// A string of digits is worth no less than any of its prefixes.
proof fn lemma_digits_value_prefix(d: Seq<char>, k: int)
    requires
        all_digits(d),
        0 <= k <= d.len(),
    ensures
        digits_value(d.take(k)) <= digits_value(d),
        digits_value(d) >= 0,
    decreases d.len() - k,
{
    if k < d.len() {
        lemma_digits_value_prefix(d, k + 1);
        assert(d.take(k + 1).drop_last() =~= d.take(k));
        assert(all_digits(d.take(k + 1)));
        lemma_digits_value_nonneg(d.take(k));
    } else {
        assert(d.take(k) =~= d);
        lemma_digits_value_nonneg(d);
    }
}

proof fn lemma_digits_value_nonneg(d: Seq<char>)
    requires
        all_digits(d),
    ensures
        digits_value(d) >= 0,
    decreases d.len(),
{
    if d.len() > 0 {
        assert(all_digits(d.drop_last()));
        lemma_digits_value_nonneg(d.drop_last());
    }
}

/// Reads an `i32` as `s.parse::<i32>().ok()` does.
pub fn parse_i32(s: &str) -> (r: Option<i32>)
    ensures
        r == parse_i32_spec(s@),
{
    let n = s.unicode_len();
    let mut negative = false;
    let mut start: usize = 0;
    if n > 0 {
        let first = s.get_char(0);
        if first == '-' {
            negative = true;
            start = 1;
        } else if first == '+' {
            start = 1;
        }
    }
    let ghost digits = s@.skip(start as int);
    assert(start == 1 ==> digits =~= s@.drop_first());
    assert(start == 0 ==> digits =~= s@);
    if start == n {
        return None;
    }
    let mut value: i64 = 0;
    let mut i: usize = start;
    while i < n
        invariant
            start <= i <= n,
            n == s@.len(),
            start < n,
            start <= 1,
            negative == (s@.len() > 0 && s@[0] == '-'),
            (start == 1) == (s@.len() > 0 && (s@[0] == '-' || s@[0] == '+')),
            start == 1 ==> digits == s@.drop_first(),
            start == 0 ==> digits == s@,
            digits == s@.skip(start as int),
            all_digits(digits.take(i - start)),
            value == digits_value(digits.take(i - start)),
            0 <= value <= 2147483648,
        decreases n - i,
    {
        let ch = s.get_char(i);
        assert(digits[i - start] == ch);
        if ch < '0' || ch > '9' {
            assert(!all_digits(digits));
            return None;
        }
        let d: i64 = (ch as u32 - '0' as u32) as i64;
        assert(digits.take(i - start + 1).drop_last() =~= digits.take(i - start));
        value = value * 10 + d;
        assert(all_digits(digits.take(i - start + 1)));
        if value > 2147483648 {
            let ghost k = i - start + 1;
            proof {
                if all_digits(digits) {
                    lemma_digits_value_prefix(digits, k);
                }
            }
            return None;
        }
        i = i + 1;
    }
    assert(digits.take(n - start) =~= digits);
    if negative {
        Some((0 - value) as i32)
    } else if value <= 2147483647 {
        Some(value as i32)
    } else {
        None
    }
}

/// The characters `char::is_whitespace` accepts: those with the Unicode
/// `White_Space` property.
pub open spec fn is_whitespace(c: char) -> bool {
    ||| '\u{9}' <= c <= '\u{d}'
    ||| c == ' '
    ||| c == '\u{85}'
    ||| c == '\u{a0}'
    ||| c == '\u{1680}'
    ||| '\u{2000}' <= c <= '\u{200a}'
    ||| c == '\u{2028}'
    ||| c == '\u{2029}'
    ||| c == '\u{202f}'
    ||| c == '\u{205f}'
    ||| c == '\u{3000}'
}

/// Whether `c` is white space, as `c.is_whitespace()` says.
pub fn char_is_whitespace(c: char) -> (w: bool)
    ensures
        w == is_whitespace(c),
{
    ('\u{9}' <= c && c <= '\u{d}') || c == ' ' || c == '\u{85}' || c == '\u{a0}' || c == '\u{1680}'
        || ('\u{2000}' <= c && c <= '\u{200a}') || c == '\u{2028}' || c == '\u{2029}' || c == '\u{202f}'
        || c == '\u{205f}' || c == '\u{3000}'
}

/// Whether some character of `s` is white space.
pub open spec fn has_whitespace(s: Seq<char>) -> bool {
    exists|i: int| 0 <= i < s.len() && is_whitespace(#[trigger] s[i])
}

/// Whether every character of `s` is white space, so that `s.trim()` is empty.
pub open spec fn all_whitespace(s: Seq<char>) -> bool {
    forall|i: int| 0 <= i < s.len() ==> is_whitespace(#[trigger] s[i])
}

/// Whether `s` holds a white-space character, as `s.contains(char::is_whitespace)` says.
pub fn contains_whitespace(s: &str) -> (w: bool)
    ensures
        w == has_whitespace(s@),
{
    let n = s.unicode_len();
    let mut i: usize = 0;
    while i < n
        invariant
            0 <= i <= n,
            n == s@.len(),
            forall|j: int| 0 <= j < i ==> !is_whitespace(#[trigger] s@[j]),
        decreases n - i,
    {
        if char_is_whitespace(s.get_char(i)) {
            return true;
        }
        i = i + 1;
    }
    false
}

/// Whether `s` is made of white space alone, as `s.trim().is_empty()` says.
pub fn is_blank(s: &str) -> (b: bool)
    ensures
        b == all_whitespace(s@),
{
    let n = s.unicode_len();
    let mut i: usize = 0;
    while i < n
        invariant
            0 <= i <= n,
            n == s@.len(),
            forall|j: int| 0 <= j < i ==> is_whitespace(#[trigger] s@[j]),
        decreases n - i,
    {
        if !char_is_whitespace(s.get_char(i)) {
            return false;
        }
        i = i + 1;
    }
    true
}

/// Whether `s` begins with `prefix`, as `s.starts_with(prefix)` says.
pub fn starts_with(s: &str, prefix: &str) -> (b: bool)
    ensures
        b == (prefix@.len() <= s@.len() && s@.take(prefix@.len() as int) == prefix@),
{
    let n = s.unicode_len();
    let m = prefix.unicode_len();
    if m > n {
        return false;
    }
    let mut i: usize = 0;
    while i < m
        invariant
            0 <= i <= m,
            m <= n,
            n == s@.len(),
            m == prefix@.len(),
            forall|j: int| 0 <= j < i ==> s@[j] == prefix@[j],
        decreases m - i,
    {
        if s.get_char(i) != prefix.get_char(i) {
            assert(s@.take(m as int)[i as int] != prefix@[i as int]);
            return false;
        }
        i = i + 1;
    }
    assert(s@.take(m as int) =~= prefix@);
    true
}

/// The lower-case form of a string under the Unicode case mapping of the std
/// in use. It is a function of the string alone; its tables are not restated here.
pub uninterp spec fn lowercase_of(s: Seq<char>) -> Seq<char>;

/// The ASCII lower-case form of a character: `A`..`Z` become `a`..`z`,
/// any other character is kept.
pub open spec fn ascii_lower(c: char) -> char {
    if 'A' <= c <= 'Z' { ((c as u32) + 32) as char } else { c }
}

/// `str::to_lowercase`: the lower-case form of `s`, named by `lowercase_of`;
/// for a string of ASCII characters (its documentation: ASCII letters map
/// to their ASCII lower case, other ASCII characters to themselves), each
/// character lower-cased by `ascii_lower`.
#[verifier::external_body]
pub(crate) fn to_lowercase(s: &str) -> (r: String)
    ensures
        r@ == lowercase_of(s@),
        (forall|i: int| 0 <= i < s@.len() ==> (#[trigger] s@[i] as u32) < 128) ==> r@ == s@.map_values(|c: char| ascii_lower(c)),
{
    s.to_lowercase()
}

/// `s` with every occurrence of the non-empty `pat` replaced by `with`,
/// matches taken from the left without overlap, as `str::replace` does.
pub open spec fn replace_all(s: Seq<char>, pat: Seq<char>, with: Seq<char>) -> Seq<char>
    recommends
        pat.len() > 0,
    decreases s.len(),
{
    if pat.len() == 0 || s.len() < pat.len() {
        s
    } else if s.take(pat.len() as int) == pat {
        with + replace_all(s.skip(pat.len() as int), pat, with)
    } else {
        seq![s[0]] + replace_all(s.drop_first(), pat, with)
    }
}

/// Replaces every occurrence of the non-empty `pat` in `s` by `with`, as `s.replace(pat, with)` does.
pub fn replace_str(s: &str, pat: &str, with: &str) -> (r: String)
    requires
        pat@.len() > 0,
    ensures
        r@ == replace_all(s@, pat@, with@),
{
    let n = s.unicode_len();
    let m = pat.unicode_len();
    let mut out = String::new();
    let mut i: usize = 0;
    assert(s@.skip(0) =~= s@);
    while i < n
        invariant
            0 <= i <= n,
            n == s@.len(),
            m == pat@.len(),
            m > 0,
            out@ + replace_all(s@.skip(i as int), pat@, with@) == replace_all(s@, pat@, with@),
        decreases n - i,
    {
        let ghost rest = s@.skip(i as int);
        let mut matched = m <= n - i;
        let mut k: usize = 0;
        while matched && k < m
            invariant
                0 <= k <= m,
                n == s@.len(),
                m == pat@.len(),
                i < n,
                rest == s@.skip(i as int),
                matched ==> i + m <= n,
                matched ==> forall|j: int| 0 <= j < k ==> rest[j] == pat@[j],
                !matched ==> !(rest.len() >= m && rest.take(m as int) == pat@),
            decreases (m - k) + (if matched { 1int } else { 0int }),
        {
            if s.get_char(i + k) != pat.get_char(k) {
                assert(rest[k as int] != pat@[k as int]);
                assert(rest.take(m as int)[k as int] != pat@[k as int]);
                matched = false;
            } else {
                k = k + 1;
            }
        }
        if matched {
            assert(rest.take(m as int) =~= pat@);
            assert(rest.skip(m as int) =~= s@.skip(i + m));
            out.append(with);
            i = i + m;
        } else {
            assert(rest.len() >= m ==> rest.take(m as int) != pat@);
            assert(rest[0] == s@[i as int]);
            assert(rest.drop_first() =~= s@.skip(i + 1));
            let piece = s.substring_char(i, i + 1);
            assert(piece@ =~= seq![rest[0]]);
            out.append(piece);
            i = i + 1;
        }
    }
    assert(s@.skip(n as int) =~= Seq::<char>::empty());
    out
}

/// Whether `pat` occurs in `s`.
pub open spec fn contains_seq(s: Seq<char>, pat: Seq<char>) -> bool {
    exists|i: int| 0 <= i && i + pat.len() <= s.len() && #[trigger] s.subrange(i, i + pat.len()) == pat
}

/// Whether `pat` occurs in `s`, as `s.contains(pat)` says.
pub fn str_contains(s: &str, pat: &str) -> (found: bool)
    ensures
        found == contains_seq(s@, pat@),
{
    let n = s.unicode_len();
    let m = pat.unicode_len();
    if m > n {
        assert(!contains_seq(s@, pat@));
        return false;
    }
    if m == 0 {
        assert(s@.subrange(0, 0 + pat@.len() as int) =~= pat@);
        assert(0 + pat@.len() <= s@.len());
        return true;
    }
    let mut i: usize = 0;
    while i <= n - m
        invariant
            0 <= i <= n - m + 1,
            1 <= m <= n,
            n == s@.len(),
            m == pat@.len(),
            forall|j: int| 0 <= j < i ==> #[trigger] s@.subrange(j, j + m) != pat@,
        decreases n - m + 1 - i,
    {
        let mut k: usize = 0;
        let mut same = true;
        while k < m && same
            invariant
                0 <= k <= m,
                i + m <= n,
                n == s@.len(),
                m == pat@.len(),
                same ==> forall|j: int| 0 <= j < k ==> s@[i + j] == pat@[j],
                !same ==> s@.subrange(i as int, i + m) != pat@,
            decreases m - k + (if same { 1int } else { 0int }),
        {
            if s.get_char(i + k) != pat.get_char(k) {
                assert(s@.subrange(i as int, i + m)[k as int] != pat@[k as int]);
                same = false;
            } else {
                k = k + 1;
            }
        }
        if same {
            assert(s@.subrange(i as int, i + m) =~= pat@);
            return true;
        }
        i = i + 1;
    }
    proof {
        if contains_seq(s@, pat@) {
            let w = choose|j: int| 0 <= j && j + pat@.len() <= s@.len() && #[trigger] s@.subrange(j, j + pat@.len()) == pat@;
            assert(s@.subrange(w, w + m) != pat@);
        }
    }
    false
}

/// Joining the last piece of a split extended by a character extends the join.
proof fn lemma_join_extend_last(p: Seq<Seq<char>>, sep: Seq<char>, x: char)
    requires
        p.len() >= 1,
    ensures
        seq_join(p.update(p.len() - 1, p.last().push(x)), sep) == seq_join(p, sep).push(x),
{
    let q = p.update(p.len() - 1, p.last().push(x));
    if p.len() == 1 {
        assert(q[0] == p[0].push(x));
    } else {
        assert(q.drop_last() =~= p.drop_last());
        assert(seq_join(q, sep) == seq_join(q.drop_last(), sep) + sep + q.last());
        assert(seq_join(p, sep) == seq_join(p.drop_last(), sep) + sep + p.last());
        assert(seq_join(q, sep) =~= seq_join(p, sep).push(x));
    }
}

/// Splitting at a character and joining the pieces with that character
/// gives back the string: `split` and `join` undo each other.
pub proof fn lemma_split_join(s: Seq<char>, c: char)
    ensures
        seq_join(split_char(s, c), seq![c]) == s,
    decreases s.len(),
{
    if s.len() == 0 {
        assert(seq_join(split_char(s, c), seq![c]) =~= s);
    } else {
        let prev = split_char(s.drop_last(), c);
        lemma_split_join(s.drop_last(), c);
        lemma_split_char_nonempty(s.drop_last(), c);
        if s.last() == c {
            let q = prev.push(Seq::<char>::empty());
            assert(q.drop_last() =~= prev);
            assert(seq_join(q, seq![c]) == seq_join(prev, seq![c]) + seq![c] + Seq::<char>::empty());
            assert(seq_join(q, seq![c]) =~= s);
        } else {
            lemma_join_extend_last(prev, seq![c], s.last());
            assert(s.drop_last().push(s.last()) =~= s);
        }
    }
}

/// The decimal form of a number is a non-empty string of digits worth that number.
pub proof fn lemma_decimal_digits(n: nat)
    ensures
        decimal(n).len() >= 1,
        all_digits(decimal(n)),
        digits_value(decimal(n)) == n,
        '0' <= decimal(n)[0] <= '9',
    decreases n,
{
    if n < 10 {
        assert(decimal(n) == seq![digit_char(n)]);
        assert(seq![digit_char(n)].drop_last() =~= Seq::<char>::empty());
        assert(digit_char(n) as int - '0' as int == n);
        assert(digits_value(seq![digit_char(n)]) == digits_value(Seq::<char>::empty()) * 10 + (digit_char(n) as int - '0' as int));
    } else {
        lemma_decimal_digits(n / 10);
        let d = decimal(n / 10);
        let k = (n % 10) as nat;
        assert(decimal(n) == d + seq![digit_char(k)]);
        assert((d + seq![digit_char(k)]).drop_last() =~= d);
        assert(digit_char(k) as int - '0' as int == k);
        assert(n == (n / 10) * 10 + k) by (nonlinear_arith)
            requires k == n % 10;
        assert(digits_value(d + seq![digit_char(k)]) == digits_value(d) * 10 + (digit_char(k) as int - '0' as int));
        assert(all_digits(d + seq![digit_char(k)])) by {
            assert forall|i: int| 0 <= i < d.len() + 1 implies '0' <= #[trigger] (d + seq![digit_char(k)])[i] <= '9' by {
                if i < d.len() {
                    assert((d + seq![digit_char(k)])[i] == d[i]);
                }
            }
        }
        assert((d + seq![digit_char(k)])[0] == d[0]);
    }
}

/// Reading back the decimal form of an `i32` gives the number: formatting
/// and `parse` undo each other.
pub proof fn lemma_parse_i32_roundtrip(i: i32)
    ensures
        parse_i32_spec(signed_decimal(i as int)) == Some(i),
{
    if i < 0 {
        let d = decimal((-i) as nat);
        lemma_decimal_digits((-i) as nat);
        let s = seq!['-'] + d;
        assert(s[0] == '-');
        assert(s.drop_first() =~= d);
    } else {
        lemma_decimal_digits(i as nat);
    }
}

/// Replacing a pattern that does not occur leaves the string as it is.
pub proof fn lemma_replace_absent(s: Seq<char>, pat: Seq<char>, with: Seq<char>)
    requires
        pat.len() > 0,
        !contains_seq(s, pat),
    ensures
        replace_all(s, pat, with) == s,
    decreases s.len(),
{
    if s.len() >= pat.len() {
        assert(s.subrange(0, 0 + pat.len() as int) == s.take(pat.len() as int));
        assert(s.take(pat.len() as int) != pat);
        let t = s.drop_first();
        assert(!contains_seq(t, pat)) by {
            if contains_seq(t, pat) {
                let i = choose|i: int| 0 <= i && i + pat.len() <= t.len() && #[trigger] t.subrange(i, i + pat.len()) == pat;
                assert(s.subrange(i + 1, i + 1 + pat.len()) =~= t.subrange(i, i + pat.len()));
            }
        }
        lemma_replace_absent(t, pat, with);
        assert(seq![s[0]] + t =~= s);
    }
}

} // verus!
