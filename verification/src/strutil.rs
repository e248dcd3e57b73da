//! Character-sequence helpers shared by the parser, the router and the
//! response writer: locating separators, splitting, trimming, case folding
//! and decimal rendering, each with a specification over `Seq<char>`.

use vstd::prelude::*;

verus! {

// ---------------------------------------------------------------------------
// Locating the first occurrence of a character
// ---------------------------------------------------------------------------

/// Index of the first occurrence of `c` in `s`, or `s.len()` if `c` is absent.
pub open spec fn first_index_of(s: Seq<char>, c: char) -> int
    decreases s.len(),
{
    if s.len() == 0 {
        0
    } else if s[0] == c {
        0
    } else {
        1 + first_index_of(s.drop_first(), c)
    }
}

pub proof fn lemma_first_index_of(s: Seq<char>, c: char)
    ensures
        0 <= first_index_of(s, c) <= s.len(),
        first_index_of(s, c) < s.len() ==> s[first_index_of(s, c)] == c,
        forall|j: int| 0 <= j < first_index_of(s, c) ==> s[j] != c,
    decreases s.len(),
{
    if s.len() == 0 {
    } else if s[0] == c {
    } else {
        lemma_first_index_of(s.drop_first(), c);
        assert forall|j: int| 0 <= j < first_index_of(s, c) implies s[j] != c by {
            if j > 0 {
                assert(s.drop_first()[j - 1] == s[j]);
            }
        }
    }
}

/// Finds the first occurrence of `c` in `s`, reported as `s@.len()` when absent.
pub fn find_char(s: &str, c: char) -> (i: usize)
    ensures
        i == first_index_of(s@, c),
{
    let n = s.unicode_len();
    let mut i: usize = 0;
    while i < n
        invariant
            0 <= i <= n,
            n == s@.len(),
            forall|j: int| 0 <= j < i ==> s@[j] != c,
        decreases n - i,
    {
        if s.get_char(i) == c {
            proof {
                lemma_first_index_of(s@, c);
            }
            return i;
        }
        i = i + 1;
    }
    proof {
        lemma_first_index_of(s@, c);
    }
    i
}

// ---------------------------------------------------------------------------
// Character-for-character string equality
// ---------------------------------------------------------------------------

/// Equality of two string slices, specified over their character sequences.
pub fn str_eq(a: &str, b: &str) -> (r: bool)
    ensures
        r == (a@ == b@),
{
    let an = a.unicode_len();
    let bn = b.unicode_len();
    if an != bn {
        return false;
    }
    let mut i: usize = 0;
    while i < an
        invariant
            0 <= i <= an,
            an == a@.len(),
            bn == b@.len(),
            an == bn,
            forall|j: int| 0 <= j < i ==> a@[j] == b@[j],
        decreases an - i,
    {
        if a.get_char(i) != b.get_char(i) {
            return false;
        }
        i = i + 1;
    }
    proof {
        assert(a@ =~= b@);
    }
    true
}

// ---------------------------------------------------------------------------
// Splitting on a separator character
// ---------------------------------------------------------------------------

/// The parts of `s` between occurrences of the separator `c`, in order.
/// There is always at least one part; consecutive separators yield empty
/// parts, and a trailing separator yields a trailing empty part.
pub open spec fn split_on(s: Seq<char>, c: char) -> Seq<Seq<char>>
    decreases s.len(),
{
    if s.len() == 0 {
        seq![Seq::<char>::empty()]
    } else if s[0] == c {
        seq![Seq::<char>::empty()] + split_on(s.drop_first(), c)
    } else {
        let r = split_on(s.drop_first(), c);
        r.update(0, seq![s[0]] + r[0])
    }
}

pub proof fn lemma_split_on_len(s: Seq<char>, c: char)
    ensures
        split_on(s, c).len() >= 1,
    decreases s.len(),
{
    if s.len() > 0 {
        lemma_split_on_len(s.drop_first(), c);
    }
}

/// When `c` does not occur in `s`, the split is the single part `s`.
pub proof fn lemma_split_on_absent(s: Seq<char>, c: char)
    requires
        forall|j: int| 0 <= j < s.len() ==> s[j] != c,
    ensures
        split_on(s, c) =~= seq![s],
    decreases s.len(),
{
    if s.len() == 0 {
        assert(s =~= Seq::<char>::empty());
    } else {
        assert forall|j: int| 0 <= j < s.drop_first().len() implies s.drop_first()[j] != c by {
            assert(s.drop_first()[j] == s[j + 1]);
        }
        lemma_split_on_absent(s.drop_first(), c);
        let r = split_on(s.drop_first(), c);
        assert(seq![s[0]] + r[0] =~= s);
    }
}

/// Splitting decomposes at the first separator: the first part is everything
/// before it, and the remaining parts are the split of everything after it.
pub proof fn lemma_split_on_first(s: Seq<char>, c: char)
    ensures
        first_index_of(s, c) < s.len() ==> split_on(s, c) =~= seq![
            s.take(first_index_of(s, c)),
        ] + split_on(s.skip(first_index_of(s, c) + 1), c),
        first_index_of(s, c) == s.len() ==> split_on(s, c) =~= seq![s],
    decreases s.len(),
{
    lemma_first_index_of(s, c);
    let i = first_index_of(s, c);
    if i == s.len() {
        lemma_split_on_absent(s, c);
    } else if s.len() == 0 {
    } else if s[0] == c {
        assert(i == 0);
        assert(s.take(0) =~= Seq::<char>::empty());
        assert(s.skip(1) =~= s.drop_first());
    } else {
        let rest = s.drop_first();
        lemma_first_index_of(rest, c);
        lemma_split_on_first(rest, c);
        lemma_split_on_len(rest.skip(i), c);
        assert(first_index_of(s, c) == 1 + first_index_of(rest, c));
        assert(first_index_of(rest, c) == i - 1);
        let r = split_on(rest, c);
        assert(r =~= seq![rest.take(i - 1)] + split_on(rest.skip(i), c));
        assert(seq![s[0]] + rest.take(i - 1) =~= s.take(i));
        assert(rest.skip(i) =~= s.skip(i + 1));
        assert(split_on(s, c) =~= r.update(0, seq![s[0]] + r[0]));
        assert(split_on(s, c) =~= seq![s.take(i)] + split_on(s.skip(i + 1), c));
    }
}

/// The last part of a split is everything after the final separator.
pub proof fn lemma_split_on_last(s: Seq<char>, c: char, li: int)
    requires
        0 <= li < s.len(),
        s[li] == c,
        forall|j: int| li < j < s.len() ==> s[j] != c,
    ensures
        split_on(s, c).last() == s.skip(li + 1),
    decreases s.len(),
{
    lemma_split_on_len(s.drop_first(), c);
    if li == 0 {
        let rest = s.drop_first();
        assert forall|j: int| 0 <= j < rest.len() implies rest[j] != c by {
            assert(rest[j] == s[j + 1]);
        }
        lemma_split_on_absent(rest, c);
        assert(split_on(s, c).last() == rest);
        assert(rest =~= s.skip(1));
    } else {
        let rest = s.drop_first();
        assert forall|j: int| li - 1 < j < rest.len() implies rest[j] != c by {
            assert(rest[j] == s[j + 1]);
        }
        assert(rest[li - 1] == c);
        lemma_split_on_last(rest, c, li - 1);
        assert(rest.skip(li) =~= s.skip(li + 1));
        if s[0] == c {
            assert(split_on(s, c).last() == split_on(rest, c).last());
        } else {
            let r = split_on(rest, c);
            lemma_split_on_has_sep(rest, c, li - 1);
            assert(split_on(s, c) == r.update(0, seq![s[0]] + r[0]));
            assert(r.len() >= 2);
            assert(split_on(s, c).last() == r.last());
        }
    }
}

/// Splits `s` into its parts between occurrences of `c`.
pub fn split_str(s: &str, c: char) -> (r: Vec<String>)
    ensures
        r@.len() == split_on(s@, c).len(),
        forall|k: int| 0 <= k < r@.len() ==> #[trigger] r@[k]@ == split_on(s@, c)[k],
    decreases s@.len(),
{
    let n = s.unicode_len();
    let i = find_char(s, c);
    proof {
        lemma_first_index_of(s@, c);
        lemma_split_on_first(s@, c);
    }
    if i == n {
        proof {
            assert(s@.take(n as int) =~= s@);
        }
        let mut v: Vec<String> = Vec::new();
        v.push(String::from_str(s));
        v
    } else {
        let head = s.substring_char(0, i);
        let tail = s.substring_char(i + 1, n);
        proof {
            assert(tail@ =~= s@.skip(i + 1));
            assert(head@ =~= s@.take(i as int));
        }
        let mut v = split_str(tail, c);
        v.insert(0, String::from_str(head));
        v
    }
}

/// When the separator occurs, the split has at least two parts.
pub proof fn lemma_split_on_has_sep(s: Seq<char>, c: char, k: int)
    requires
        0 <= k < s.len(),
        s[k] == c,
    ensures
        split_on(s, c).len() >= 2,
    decreases s.len(),
{
    lemma_split_on_len(s.drop_first(), c);
    if s[0] == c {
    } else {
        assert(s.drop_first()[k - 1] == s[k]);
        lemma_split_on_has_sep(s.drop_first(), c, k - 1);
    }
}

// ---------------------------------------------------------------------------
// Trimming surrounding whitespace
// ---------------------------------------------------------------------------

/// The whitespace characters stripped from header values.
pub open spec fn is_wspace(c: char) -> bool {
    c == ' ' || c == '\t' || c == '\r' || c == '\n'
}

pub open spec fn trim_start(s: Seq<char>) -> Seq<char>
    decreases s.len(),
{
    if s.len() > 0 && is_wspace(s[0]) {
        trim_start(s.drop_first())
    } else {
        s
    }
}

pub open spec fn trim_end(s: Seq<char>) -> Seq<char>
    decreases s.len(),
{
    if s.len() > 0 && is_wspace(s.last()) {
        trim_end(s.drop_last())
    } else {
        s
    }
}

/// `s` without leading or trailing whitespace.
pub open spec fn trimmed(s: Seq<char>) -> Seq<char> {
    trim_end(trim_start(s))
}

proof fn lemma_trim_start_skip(s: Seq<char>, k: int)
    requires
        0 <= k <= s.len(),
        forall|j: int| 0 <= j < k ==> is_wspace(s[j]),
        k == s.len() || !is_wspace(s[k]),
    ensures
        trim_start(s) == s.skip(k),
    decreases s.len(),
{
    if k == 0 {
        assert(s.skip(0) =~= s);
    } else {
        let rest = s.drop_first();
        assert forall|j: int| 0 <= j < k - 1 implies is_wspace(rest[j]) by {
            assert(rest[j] == s[j + 1]);
        }
        lemma_trim_start_skip(rest, k - 1);
        assert(rest.skip(k - 1) =~= s.skip(k));
    }
}

proof fn lemma_trim_end_take(s: Seq<char>, k: int)
    requires
        0 <= k <= s.len(),
        forall|j: int| k <= j < s.len() ==> is_wspace(s[j]),
        k == 0 || !is_wspace(s[k - 1]),
    ensures
        trim_end(s) == s.take(k),
    decreases s.len(),
{
    if k == s.len() {
        assert(s.take(k) =~= s);
    } else {
        let rest = s.drop_last();
        assert forall|j: int| k <= j < rest.len() implies is_wspace(rest[j]) by {
            assert(rest[j] == s[j]);
        }
        lemma_trim_end_take(rest, k);
        assert(rest.take(k) =~= s.take(k));
    }
}

/// Whether `c` is one of the whitespace characters that trimming strips.
pub fn wspace(c: char) -> (r: bool)
    ensures
        r == is_wspace(c),
{
    c == ' ' || c == '\t' || c == '\r' || c == '\n'
}

/// `s` without leading or trailing whitespace.
pub fn trim_str<'a>(s: &'a str) -> (r: &'a str)
    ensures
        r@ == trimmed(s@),
{
    let n = s.unicode_len();
    let mut a: usize = 0;
    while a < n && wspace(s.get_char(a))
        invariant
            0 <= a <= n,
            n == s@.len(),
            forall|j: int| 0 <= j < a ==> is_wspace(s@[j]),
        decreases n - a,
    {
        a = a + 1;
    }
    let mut b: usize = n;
    while b > a && wspace(s.get_char(b - 1))
        invariant
            a <= b <= n,
            n == s@.len(),
            forall|j: int| b <= j < n ==> is_wspace(s@[j]),
        decreases b,
    {
        b = b - 1;
    }
    proof {
        lemma_trim_start_skip(s@, a as int);
        let sk = s@.skip(a as int);
        assert forall|j: int| b - a <= j < sk.len() implies is_wspace(sk[j]) by {
            assert(sk[j] == s@[j + a]);
        }
        if b > a {
            assert(sk[b - a - 1] == s@[b - 1]);
        }
        lemma_trim_end_take(sk, b - a);
        assert(sk.take(b - a) =~= s@.subrange(a as int, b as int));
    }
    s.substring_char(a, b)
}

// ---------------------------------------------------------------------------
// ASCII upper-casing
// ---------------------------------------------------------------------------

/// `c` with an ASCII lower-case letter folded to its upper-case form.
pub open spec fn upper_char(c: char) -> char {
    match c {
        'a' => 'A',
        'b' => 'B',
        'c' => 'C',
        'd' => 'D',
        'e' => 'E',
        'f' => 'F',
        'g' => 'G',
        'h' => 'H',
        'i' => 'I',
        'j' => 'J',
        'k' => 'K',
        'l' => 'L',
        'm' => 'M',
        'n' => 'N',
        'o' => 'O',
        'p' => 'P',
        'q' => 'Q',
        'r' => 'R',
        's' => 'S',
        't' => 'T',
        'u' => 'U',
        'v' => 'V',
        'w' => 'W',
        'x' => 'X',
        'y' => 'Y',
        'z' => 'Z',
        _ => c,
    }
}

/// `s` with every ASCII lower-case letter folded to upper case.
pub open spec fn upper(s: Seq<char>) -> Seq<char> {
    s.map_values(|c: char| upper_char(c))
}

fn upper_char_exec(c: char) -> (r: char)
    ensures
        r == upper_char(c),
{
    match c {
        'a' => 'A',
        'b' => 'B',
        'c' => 'C',
        'd' => 'D',
        'e' => 'E',
        'f' => 'F',
        'g' => 'G',
        'h' => 'H',
        'i' => 'I',
        'j' => 'J',
        'k' => 'K',
        'l' => 'L',
        'm' => 'M',
        'n' => 'N',
        'o' => 'O',
        'p' => 'P',
        'q' => 'Q',
        'r' => 'R',
        's' => 'S',
        't' => 'T',
        'u' => 'U',
        'v' => 'V',
        'w' => 'W',
        'x' => 'X',
        'y' => 'Y',
        'z' => 'Z',
        _ => c,
    }
}

/// Whether `s`, upper-cased, equals `t` exactly.
pub fn upper_eq(s: &str, t: &str) -> (r: bool)
    ensures
        r == (upper(s@) == t@),
{
    let sn = s.unicode_len();
    let tn = t.unicode_len();
    if sn != tn {
        return false;
    }
    let mut i: usize = 0;
    while i < sn
        invariant
            0 <= i <= sn,
            sn == s@.len(),
            tn == t@.len(),
            sn == tn,
            forall|j: int| 0 <= j < i ==> upper(s@)[j] == t@[j],
        decreases sn - i,
    {
        if upper_char_exec(s.get_char(i)) != t.get_char(i) {
            return false;
        }
        i = i + 1;
    }
    proof {
        assert(upper(s@) =~= t@);
    }
    true
}

// ---------------------------------------------------------------------------
// Decimal rendering
// ---------------------------------------------------------------------------

/// The character for a single decimal digit.
pub open spec fn digit_char(d: nat) -> char {
    if d == 0 {
        '0'
    } else if d == 1 {
        '1'
    } else if d == 2 {
        '2'
    } else if d == 3 {
        '3'
    } else if d == 4 {
        '4'
    } else if d == 5 {
        '5'
    } else if d == 6 {
        '6'
    } else if d == 7 {
        '7'
    } else if d == 8 {
        '8'
    } else {
        '9'
    }
}

/// The decimal digits of `n`, most significant first, with no leading zeros.
pub open spec fn dec_digits(n: nat) -> Seq<char>
    decreases n,
{
    if n < 10 {
        seq![digit_char(n)]
    } else {
        dec_digits(n / 10).push(digit_char(n % 10))
    }
}

fn digit_str(d: u64) -> (r: &'static str)
    requires
        d < 10,
    ensures
        r@ == seq![digit_char(d as nat)],
{
    let r: &'static str = match d {
        0 => "0",
        1 => "1",
        2 => "2",
        3 => "3",
        4 => "4",
        5 => "5",
        6 => "6",
        7 => "7",
        8 => "8",
        _ => "9",
    };
    proof {
        reveal_strlit("0");
        reveal_strlit("1");
        reveal_strlit("2");
        reveal_strlit("3");
        reveal_strlit("4");
        reveal_strlit("5");
        reveal_strlit("6");
        reveal_strlit("7");
        reveal_strlit("8");
        reveal_strlit("9");
        assert(r@ =~= seq![digit_char(d as nat)]);
    }
    r
}

/// Renders `n` in decimal.
pub fn u64_to_string(n: u64) -> (r: String)
    ensures
        r@ == dec_digits(n as nat),
    decreases n,
{
    if n < 10 {
        String::from_str(digit_str(n))
    } else {
        let mut s = u64_to_string(n / 10);
        s.append(digit_str(n % 10));
        proof {
            assert(dec_digits((n / 10) as nat) + seq![digit_char((n % 10) as nat)] =~= dec_digits(
                n as nat,
            ));
        }
        s
    }
}

// ---------------------------------------------------------------------------
// Association lists over character sequences
// ---------------------------------------------------------------------------

/// A sequence of string pairs seen as pairs of character sequences.
pub open spec fn pairs_view(s: Seq<(String, String)>) -> Seq<(Seq<char>, Seq<char>)> {
    s.map_values(|p: (String, String)| (p.0@, p.1@))
}

/// No two pairs share a key.
pub open spec fn unique_keys(s: Seq<(Seq<char>, Seq<char>)>) -> bool {
    forall|i: int, j: int| 0 <= i < j < s.len() ==> s[i].0 != s[j].0
}

/// The value of the first pair whose key is `k`, if any.
pub open spec fn lookup_pairs(s: Seq<(Seq<char>, Seq<char>)>, k: Seq<char>) -> Option<Seq<char>>
    decreases s.len(),
{
    if s.len() == 0 {
        None
    } else if s[0].0 == k {
        Some(s[0].1)
    } else {
        lookup_pairs(s.drop_first(), k)
    }
}

/// Index of the first pair whose key is `k`, or `s.len()` if there is none.
pub open spec fn first_key_index(s: Seq<(Seq<char>, Seq<char>)>, k: Seq<char>) -> int
    decreases s.len(),
{
    if s.len() == 0 {
        0
    } else if s[0].0 == k {
        0
    } else {
        1 + first_key_index(s.drop_first(), k)
    }
}

/// Overwrite-or-append: replaces the value of the first pair keyed `k`, or
/// appends `(k, v)` when no pair has that key.
pub open spec fn insert_pair(
    s: Seq<(Seq<char>, Seq<char>)>,
    k: Seq<char>,
    v: Seq<char>,
) -> Seq<(Seq<char>, Seq<char>)> {
    if first_key_index(s, k) < s.len() {
        s.update(first_key_index(s, k), (k, v))
    } else {
        s.push((k, v))
    }
}

pub proof fn lemma_first_key_index(s: Seq<(Seq<char>, Seq<char>)>, k: Seq<char>)
    ensures
        0 <= first_key_index(s, k) <= s.len(),
        first_key_index(s, k) < s.len() ==> s[first_key_index(s, k)].0 == k,
        forall|j: int| 0 <= j < first_key_index(s, k) ==> s[j].0 != k,
    decreases s.len(),
{
    if s.len() == 0 {
    } else if s[0].0 == k {
    } else {
        lemma_first_key_index(s.drop_first(), k);
        assert forall|j: int| 0 <= j < first_key_index(s, k) implies s[j].0 != k by {
            if j > 0 {
                assert(s.drop_first()[j - 1] == s[j]);
            }
        }
    }
}

/// Looking a key up returns the value stored at its first index.
pub proof fn lemma_lookup_at(s: Seq<(Seq<char>, Seq<char>)>, k: Seq<char>)
    ensures
        first_key_index(s, k) < s.len() ==> lookup_pairs(s, k) == Some(
            s[first_key_index(s, k)].1,
        ),
        first_key_index(s, k) == s.len() ==> lookup_pairs(s, k) is None,
    decreases s.len(),
{
    lemma_first_key_index(s, k);
    if s.len() == 0 {
    } else if s[0].0 == k {
    } else {
        lemma_lookup_at(s.drop_first(), k);
    }
}

/// Overwrite-or-append gives the map semantics the contracts speak of: the
/// inserted key now yields `v`, and every other key is untouched.
pub proof fn lemma_insert_pair(s: Seq<(Seq<char>, Seq<char>)>, k: Seq<char>, v: Seq<char>)
    ensures
        lookup_pairs(insert_pair(s, k, v), k) == Some(v),
        forall|k2: Seq<char>| k2 != k ==> lookup_pairs(insert_pair(s, k, v), k2) == lookup_pairs(
            s,
            k2,
        ),
    decreases s.len(),
{
    lemma_first_key_index(s, k);
    if s.len() == 0 {
        assert forall|k2: Seq<char>| k2 != k implies lookup_pairs(insert_pair(s, k, v), k2)
            == lookup_pairs(s, k2) by {
            assert(insert_pair(s, k, v).drop_first() =~= s);
        }
    } else if s[0].0 == k {
        assert(insert_pair(s, k, v) =~= s.update(0, (k, v)));
        assert forall|k2: Seq<char>| k2 != k implies lookup_pairs(insert_pair(s, k, v), k2)
            == lookup_pairs(s, k2) by {
            assert(insert_pair(s, k, v).drop_first() =~= s.drop_first());
        }
    } else {
        lemma_insert_pair(s.drop_first(), k, v);
        let t = insert_pair(s, k, v);
        lemma_first_key_index(s.drop_first(), k);
        assert(t[0] == s[0]);
        assert(t.drop_first() =~= insert_pair(s.drop_first(), k, v));
        assert(lookup_pairs(t, k) == Some(v));
        assert forall|k2: Seq<char>| k2 != k implies lookup_pairs(t, k2) == lookup_pairs(
            s,
            k2,
        ) by {
            if s[0].0 == k2 {
                assert(lookup_pairs(t, k2) == Some(t[0].1));
            } else {
                assert(lookup_pairs(t, k2) == lookup_pairs(t.drop_first(), k2));
                assert(lookup_pairs(s, k2) == lookup_pairs(s.drop_first(), k2));
            }
        }
    }
}

/// Overwrite-or-append keeps the keys distinct.
pub proof fn lemma_insert_pair_unique(s: Seq<(Seq<char>, Seq<char>)>, k: Seq<char>, v: Seq<char>)
    requires
        unique_keys(s),
    ensures
        unique_keys(insert_pair(s, k, v)),
{
    lemma_first_key_index(s, k);
    let t = insert_pair(s, k, v);
    let fki = first_key_index(s, k);
    if fki < s.len() {
        assert forall|i: int, j: int| 0 <= i < j < t.len() implies t[i].0 != t[j].0 by {
            assert(s[fki].0 == k);
        }
    } else {
        assert forall|i: int, j: int| 0 <= i < j < t.len() implies t[i].0 != t[j].0 by {
            if j == s.len() {
                assert(s[i].0 != k);
            }
        }
    }
}

/// A sequence of strings seen as character sequences.
pub open spec fn strs_view(s: Seq<String>) -> Seq<Seq<char>> {
    s.map_values(|x: String| x@)
}

/// Overwrite-or-append on a stored pair list: the executable counterpart of
/// `insert_pair`, keeping keys distinct.
pub fn insert_pair_vec(headers: &mut Vec<(String, String)>, key: &str, value: &str)
    requires
        unique_keys(pairs_view(old(headers)@)),
    ensures
        pairs_view(final(headers)@) == insert_pair(pairs_view(old(headers)@), key@, value@),
        unique_keys(pairs_view(final(headers)@)),
{
    let i = find_pair(headers, key);
    proof {
        lemma_first_key_index(pairs_view(headers@), key@);
        lemma_insert_pair_unique(pairs_view(headers@), key@, value@);
    }
    if i < headers.len() {
        headers.remove(i);
        headers.insert(i, (String::from_str(key), String::from_str(value)));
        proof {
            assert(pairs_view(headers@) =~= insert_pair(pairs_view(old(headers)@), key@, value@));
        }
    } else {
        headers.push((String::from_str(key), String::from_str(value)));
        proof {
            assert(pairs_view(headers@) =~= insert_pair(pairs_view(old(headers)@), key@, value@));
        }
    }
}

/// Finds the first pair of `headers` whose key equals `key`, reported as
/// `headers.len()` when no pair has that key.
pub fn find_pair(headers: &Vec<(String, String)>, key: &str) -> (r: usize)
    ensures
        r == first_key_index(pairs_view(headers@), key@),
{
    let n = headers.len();
    let mut i: usize = 0;
    while i < n
        invariant
            0 <= i <= n,
            n == headers@.len(),
            forall|j: int| 0 <= j < i ==> pairs_view(headers@)[j].0 != key@,
        decreases n - i,
    {
        if str_eq(headers[i].0.as_str(), key) {
            proof {
                assert(pairs_view(headers@)[i as int].0 == key@);
                lemma_first_key_index(pairs_view(headers@), key@);
            }
            return i;
        }
        i = i + 1;
    }
    proof {
        lemma_first_key_index(pairs_view(headers@), key@);
    }
    i
}

} // verus!


