//! Character-sequence operations used by the panels and parsers.
//!
//! Strings are modelled by their view, a `Seq<char>`; each operation
//! here states its result over that model.

use vstd::prelude::*;
use vstd::std_specs::iter::IteratorSpec;

verus! {

/// The character of a decimal digit `d < 10`.
pub open spec fn digit_char(d: nat) -> char {
    ((48 + d) as u32) as char
}

/// The decimal notation of `n`, without sign or leading zeros.
pub open spec fn decimal(n: nat) -> Seq<char>
    decreases n,
{
    if n < 10 {
        seq![digit_char(n)]
    } else {
        decimal(n / 10).push(digit_char(n % 10))
    }
}

/// Appends `c` to `s` (`String::push`).
#[verifier::external_body]
pub(crate) fn push_char(s: &mut String, c: char)
    ensures
        final(s)@ == old(s)@.push(c),
{
    s.push(c);
}

/// The digit character of `d`.
fn digit_to_char(d: u64) -> (c: char)
    requires
        d < 10,
    ensures
        c == digit_char(d as nat),
{
    let b: u8 = 48u8 + (d as u8);
    b as char
}

/// Appends the decimal notation of `n` to `s`.
pub fn push_decimal(s: &mut String, n: u64)
    ensures
        final(s)@ == old(s)@ + decimal(n as nat),
    decreases n,
{
    if n >= 10 {
        push_decimal(s, n / 10);
    }
    push_char(s, digit_to_char(n % 10));
    proof {
        assert(old(s)@ + decimal(n as nat) =~= if n >= 10 {
            old(s)@ + decimal((n / 10) as nat) + seq![digit_char((n % 10) as nat)]
        } else {
            old(s)@ + seq![digit_char(n as nat)]
        });
    }
}


/// The characters of `s`, in order.
pub fn chars_of(s: &str) -> (v: Vec<char>)
    ensures
        v@ == s@,
{
    broadcast use vstd::string::group_string_axioms;

    let mut v: Vec<char> = Vec::new();
    let mut chars = s.chars();
    loop
        invariant
            v@ + chars.remaining() == s@,
            chars.decrease() is Some,
        ensures
            v@ == s@,
        decreases chars.decrease()->0,
    {
        match chars.next() {
            Some(c) => {
                v.push(c);
            },
            None => {
                proof {
                    assert(v@ + chars.remaining() =~= v@);
                }
                break;
            },
        }
    }
    v
}

/// A `String` holding the characters of `v`, in order.
pub fn string_of(v: &[char]) -> (s: String)
    ensures
        s@ == v@,
{
    let mut s = String::new();
    let mut i: usize = 0;
    while i < v.len()
        invariant
            i <= v@.len(),
            s@ == v@.take(i as int),
        decreases v@.len() - i,
    {
        push_char(&mut s, v[i]);
        proof {
            assert(v@.take(i + 1) =~= v@.take(i as int).push(v@[i as int]));
        }
        i = i + 1;
    }
    proof {
        assert(v@.take(v@.len() as int) =~= v@);
    }
    s
}

/// The characters `v[from..to]`.
pub fn copy_range(v: &[char], from: usize, to: usize) -> (r: Vec<char>)
    requires
        from <= to <= v@.len(),
    ensures
        r@ == v@.subrange(from as int, to as int),
{
    let mut r: Vec<char> = Vec::new();
    let mut i: usize = from;
    while i < to
        invariant
            from <= i <= to,
            to <= v@.len(),
            r@ == v@.subrange(from as int, i as int),
        decreases to - i,
    {
        r.push(v[i]);
        proof {
            assert(v@.subrange(from as int, i + 1) =~= v@.subrange(from as int, i as int).push(v@[i as int]));
        }
        i = i + 1;
    }
    r
}

/// Whether `c` has the Unicode property `White_Space`, the test of `char::is_whitespace`.
pub open spec fn is_whitespace(c: char) -> bool {
    let u = c as u32;
    ||| 9 <= u <= 13
    ||| u == 32
    ||| u == 0x85
    ||| u == 0xA0
    ||| u == 0x1680
    ||| 0x2000 <= u <= 0x200A
    ||| u == 0x2028
    ||| u == 0x2029
    ||| u == 0x202F
    ||| u == 0x205F
    ||| u == 0x3000
}

/// The characters that a trim removes.
#[derive(Clone, Copy)]
pub enum Trimmed {
    /// Unicode white space, as `str::trim` removes.
    Whitespace,
    /// One given character, as `str::trim_matches(c)` removes.
    Exactly(char),
}

/// Whether `c` is among the characters of `kind`.
pub open spec fn removes(kind: Trimmed, c: char) -> bool {
    match kind {
        Trimmed::Whitespace => is_whitespace(c),
        Trimmed::Exactly(d) => c == d,
    }
}

/// `s` without its leading characters of `kind`.
pub open spec fn trim_start(s: Seq<char>, kind: Trimmed) -> Seq<char>
    decreases s.len(),
{
    if s.len() > 0 && removes(kind, s[0]) {
        trim_start(s.drop_first(), kind)
    } else {
        s
    }
}

/// `s` without its trailing characters of `kind`.
pub open spec fn trim_end(s: Seq<char>, kind: Trimmed) -> Seq<char>
    decreases s.len(),
{
    if s.len() > 0 && removes(kind, s.last()) {
        trim_end(s.drop_last(), kind)
    } else {
        s
    }
}

/// `s` without its leading and trailing characters of `kind`.
pub open spec fn trim(s: Seq<char>, kind: Trimmed) -> Seq<char> {
    trim_end(trim_start(s, kind), kind)
}

/// Whether `c` is among the characters of `kind`.
pub fn is_removed(kind: Trimmed, c: char) -> (b: bool)
    ensures
        b == removes(kind, c),
{
    match kind {
        Trimmed::Whitespace => {
            let u: u32 = c as u32;
            (9 <= u && u <= 13) || u == 32 || u == 0x85 || u == 0xA0 || u == 0x1680 || (0x2000
                <= u && u <= 0x200A) || u == 0x2028 || u == 0x2029 || u == 0x202F || u == 0x205F
                || u == 0x3000
        },
        Trimmed::Exactly(d) => c == d,
    }
}

/// `v` without its leading and trailing characters of `kind`.
pub fn trim_chars(v: &[char], kind: Trimmed) -> (r: Vec<char>)
    ensures
        r@ == trim(v@, kind),
{
    let n = v.len();
    let mut i: usize = 0;
    proof {
        assert(v@.skip(0) =~= v@);
    }
    while i < n && is_removed(kind, v[i])
        invariant
            i <= n,
            n == v@.len(),
            trim_start(v@, kind) == trim_start(v@.skip(i as int), kind),
        decreases n - i,
    {
        proof {
            assert(v@.skip(i as int).drop_first() =~= v@.skip(i + 1));
        }
        i = i + 1;
    }
    proof {
        assert(trim_start(v@, kind) == v@.subrange(i as int, n as int)) by {
            assert(v@.skip(i as int) =~= v@.subrange(i as int, n as int));
        }
    }
    let mut j: usize = n;
    while j > i && is_removed(kind, v[j - 1])
        invariant
            i <= j <= n,
            n == v@.len(),
            trim(v@, kind) == trim_end(v@.subrange(i as int, j as int), kind),
        decreases j,
    {
        proof {
            assert(v@.subrange(i as int, j as int).drop_last() =~= v@.subrange(i as int, j - 1));
        }
        j = j - 1;
    }
    copy_range(v, i, j)
}

/// `s` without its leading and trailing white space (`str::trim`).
pub fn trim_str(s: &str) -> (r: Vec<char>)
    ensures
        r@ == trim(s@, Trimmed::Whitespace),
{
    let v = chars_of(s);
    trim_chars(&v, Trimmed::Whitespace)
}


/// Whether `p` occurs in `s` starting at index `i`.
pub open spec fn occurs_at(s: Seq<char>, p: Seq<char>, i: int) -> bool {
    &&& 0 <= i
    &&& i + p.len() <= s.len()
    &&& s.subrange(i, i + p.len()) == p
}

/// Whether `p` occurs in `s` (`str::contains` with a string pattern).
pub open spec fn contains(s: Seq<char>, p: Seq<char>) -> bool {
    exists|i: int| occurs_at(s, p, i)
}

/// Whether `p` occurs in `s` at index `i`.
fn matches_at(s: &[char], p: &[char], i: usize) -> (b: bool)
    requires
        i + p@.len() <= s@.len(),
    ensures
        b == occurs_at(s@, p@, i as int),
{
    let m = p.len();
    let n = s.len();
    let mut k: usize = 0;
    while k < m
        invariant
            k <= m,
            m == p@.len(),
            n == s@.len(),
            i + m <= s@.len(),
            forall|j: int| 0 <= j < k ==> s@[i + j] == p@[j],
        decreases m - k,
    {
        if s[i + k] != p[k] {
            proof {
                assert(s@.subrange(i as int, i + m)[k as int] != p@[k as int]);
            }
            return false;
        }
        k = k + 1;
    }
    proof {
        assert(s@.subrange(i as int, i + m) =~= p@);
    }
    true
}

/// Whether `p` occurs in `s`.
pub fn contains_chars(s: &[char], p: &[char]) -> (b: bool)
    ensures
        b == contains(s@, p@),
{
    let n = s.len();
    let m = p.len();
    if m > n {
        proof {
            assert forall|i: int| !occurs_at(s@, p@, i) by {}
        }
        return false;
    }
    if m == 0 {
        proof {
            assert(s@.subrange(0, 0) =~= p@);
            assert(occurs_at(s@, p@, 0));
        }
        return true;
    }
    let last = n - m;
    let mut i: usize = 0;
    while i <= last
        invariant
            last == n - m,
            n == s@.len(),
            m == p@.len(),
            1 <= m <= n,
            forall|j: int| 0 <= j < i ==> !occurs_at(s@, p@, j),
        decreases last + 1 - i,
    {
        if matches_at(s, p, i) {
            return true;
        }
        i = i + 1;
    }
    proof {
        assert forall|j: int| !occurs_at(s@, p@, j) by {
            if 0 <= j < i {
            }
        }
    }
    false
}

/// Whether the string `s` contains the string `p`.
pub fn str_contains(s: &[char], p: &str) -> (b: bool)
    ensures
        b == contains(s@, p@),
{
    let pv = chars_of(p);
    contains_chars(s, &pv)
}

/// The pieces of `s` between the occurrences of `c` (`str::split` with a
/// character pattern): one more piece than there are occurrences.
pub open spec fn split(s: Seq<char>, c: char) -> Seq<Seq<char>>
    decreases s.len(),
{
    if s.len() == 0 {
        seq![Seq::<char>::empty()]
    } else {
        let prev = split(s.drop_last(), c);
        if s.last() == c {
            prev.push(Seq::<char>::empty())
        } else {
            prev.update(prev.len() - 1, prev.last().push(s.last()))
        }
    }
}

/// `split` always yields at least one piece.
pub proof fn lemma_split_nonempty(s: Seq<char>, c: char)
    ensures
        split(s, c).len() >= 1,
    decreases s.len(),
{
    if s.len() > 0 {
        lemma_split_nonempty(s.drop_last(), c);
    }
}

/// The views of a sequence of character vectors.
pub open spec fn views(parts: Seq<Vec<char>>) -> Seq<Seq<char>> {
    parts.map_values(|p: Vec<char>| p@)
}

/// The pieces of `v` between the occurrences of `c`.
pub fn split_chars(v: &[char], c: char) -> (parts: Vec<Vec<char>>)
    ensures
        views(parts@) == split(v@, c),
{
    let n = v.len();
    let mut parts: Vec<Vec<char>> = Vec::new();
    let mut cur: Vec<char> = Vec::new();
    let mut i: usize = 0;
    proof {
        assert(v@.take(0) =~= Seq::<char>::empty());
        assert(views(parts@).push(cur@) =~= split(v@.take(0), c));
    }
    while i < n
        invariant
            i <= n,
            n == v@.len(),
            views(parts@).push(cur@) == split(v@.take(i as int), c),
        decreases n - i,
    {
        let x = v[i];
        proof {
            let t = v@.take(i + 1);
            assert(t.drop_last() =~= v@.take(i as int));
            assert(t.last() == x);
        }
        if x == c {
            let ghost old_cur = cur@;
            let ghost old_parts = parts@;
            parts.push(cur);
            cur = Vec::new();
            proof {
                assert(views(parts@) =~= views(old_parts).push(old_cur));
                assert(views(parts@).push(cur@) =~= split(v@.take(i + 1), c));
            }
        } else {
            cur.push(x);
            proof {
                assert(views(parts@).push(cur@) =~= split(v@.take(i + 1), c));
            }
        }
        i = i + 1;
    }
    let ghost old_parts = parts@;
    let ghost old_cur = cur@;
    parts.push(cur);
    proof {
        assert(v@.take(n as int) =~= v@);
        assert(views(parts@) =~= views(old_parts).push(old_cur));
    }
    parts
}


/// The index of the first occurrence of `c` in `s`.
pub open spec fn find(s: Seq<char>, c: char) -> Option<nat>
    decreases s.len(),
{
    if s.len() == 0 {
        None
    } else if s[0] == c {
        Some(0)
    } else {
        match find(s.drop_first(), c) {
            Some(k) => Some(k + 1),
            None => None,
        }
    }
}

/// `s` cut at the first occurrence of `c`, which neither part keeps
/// (`str::split_once` with a character pattern).
pub open spec fn split_once(s: Seq<char>, c: char) -> Option<(Seq<char>, Seq<char>)> {
    match find(s, c) {
        Some(i) => Some((s.take(i as int), s.skip(i as int + 1))),
        None => None,
    }
}

/// What `find` answers once the first `i` characters are known not to be `c`.
pub proof fn lemma_find_after(s: Seq<char>, c: char, i: int)
    requires
        0 <= i <= s.len(),
        forall|j: int| 0 <= j < i ==> s[j] != c,
    ensures
        i < s.len() && s[i] == c ==> find(s, c) == Some(i as nat),
        i == s.len() ==> find(s, c) is None,
    decreases i,
{
    if i > 0 {
        lemma_find_after(s.drop_first(), c, i - 1);
    }
}

/// What a found index is.
pub proof fn lemma_find_found(s: Seq<char>, c: char)
    ensures
        find(s, c) matches Some(i) ==> {
            &&& i < s.len()
            &&& s[i as int] == c
            &&& forall|j: int| 0 <= j < i ==> s[j] != c
        },
        find(s, c) is None ==> forall|j: int| 0 <= j < s.len() ==> s[j] != c,
    decreases s.len(),
{
    if s.len() > 0 {
        lemma_find_found(s.drop_first(), c);
        if s[0] != c {
            assert forall|j: int| 1 <= j < s.len() implies s[j] == s.drop_first()[j - 1] by {}
        }
    }
}

/// The index of the first occurrence of `c` in `v`.
pub fn find_char(v: &[char], c: char) -> (r: Option<usize>)
    ensures
        match r {
            Some(i) => find(v@, c) == Some(i as nat),
            None => find(v@, c) is None,
        },
{
    let n = v.len();
    let mut i: usize = 0;
    while i < n
        invariant
            i <= n,
            n == v@.len(),
            forall|j: int| 0 <= j < i ==> v@[j] != c,
        decreases n - i,
    {
        if v[i] == c {
            proof {
                lemma_find_after(v@, c, i as int);
            }
            return Some(i);
        }
        i = i + 1;
    }
    proof {
        lemma_find_after(v@, c, i as int);
    }
    None
}

/// `v` cut at the first occurrence of `c`.
pub fn split_once_chars(v: &[char], c: char) -> (r: Option<(Vec<char>, Vec<char>)>)
    ensures
        match r {
            Some((a, b)) => split_once(v@, c) == Some((a@, b@)),
            None => split_once(v@, c) is None,
        },
{
    match find_char(v, c) {
        Some(i) => {
            let n = v.len();
            proof {
                lemma_find_found(v@, c);
                assert(i < n);
            }
            let a = copy_range(v, 0, i);
            let b = copy_range(v, i + 1, v.len());
            proof {
                assert(a@ =~= v@.take(i as int));
                assert(b@ =~= v@.skip(i + 1));
            }
            Some((a, b))
        },
        None => None,
    }
}

/// Cutting at the first `c` loses nothing but that `c`, and the first part holds no `c`.
pub proof fn law_split_once_reassembles(s: Seq<char>, c: char)
    ensures
        split_once(s, c) matches Some((a, b)) ==> {
            &&& a + seq![c] + b == s
            &&& !a.contains(c)
        },
        split_once(s, c) is None ==> !s.contains(c),
{
    lemma_find_found(s, c);
    if let Some(i) = find(s, c) {
        assert(s.take(i as int) + seq![c] + s.skip(i as int + 1) =~= s);
    }
}

/// `l` without one trailing carriage return.
pub open spec fn strip_cr(l: Seq<char>) -> Seq<char> {
    if l.len() > 0 && l.last() == '\r' {
        l.drop_last()
    } else {
        l
    }
}

/// The lines of `s` (`str::lines`): split at `\n`, each line ended by `\n`
/// loses one trailing `\r`, and an empty last piece is no line.
pub open spec fn lines(s: Seq<char>) -> Seq<Seq<char>> {
    let parts = split(s, '\n');
    let n = parts.len();
    let ls = Seq::new(n, |i: int| if i < n - 1 { strip_cr(parts[i]) } else { parts[i] });
    if parts.last().len() == 0 {
        ls.drop_last()
    } else {
        ls
    }
}

/// The lines of `v`.
pub fn lines_chars(v: &[char]) -> (ls: Vec<Vec<char>>)
    ensures
        views(ls@) == lines(v@),
{
    let parts = split_chars(v, '\n');
    proof {
        lemma_split_nonempty(v@, '\n');
        assert(parts@.len() == split(v@, '\n').len());
    }
    let n = parts.len();
    let ghost target = Seq::new(
        n as nat,
        |i: int|
            if i < n - 1 {
                strip_cr(split(v@, '\n')[i])
            } else {
                split(v@, '\n')[i]
            },
    );
    let mut ls: Vec<Vec<char>> = Vec::new();
    let mut i: usize = 0;
    while i < n
        invariant
            i <= n,
            n == parts@.len(),
            n >= 1,
            views(parts@) == split(v@, '\n'),
            target.len() == n,
            target == Seq::new(
                n as nat,
                |i: int|
                    if i < n - 1 {
                        strip_cr(split(v@, '\n')[i])
                    } else {
                        split(v@, '\n')[i]
                    },
            ),
            views(ls@) == target.take(i as int),
        decreases n - i,
    {
        let part = &parts[i];
        let len = part.len();
        proof {
            assert(part@ == split(v@, '\n')[i as int]);
        }
        let line = if i < n - 1 && len > 0 && part[len - 1] == '\r' {
            copy_range(part, 0, len - 1)
        } else {
            copy_range(part, 0, len)
        };
        proof {
            assert(part@.subrange(0, len as int) =~= part@);
            assert(part@.subrange(0, len - 1) =~= part@.drop_last());
            assert(line@ == target[i as int]);
        }
        let ghost old_ls = ls@;
        ls.push(line);
        proof {
            assert(views(ls@) =~= views(old_ls).push(line@));
            assert(target.take(i + 1) =~= target.take(i as int).push(target[i as int]));
        }
        i = i + 1;
    }
    proof {
        assert(target.take(n as int) =~= target);
    }
    if parts[n - 1].len() == 0 {
        let ghost old_ls = ls@;
        ls.pop();
        proof {
            assert(views(ls@) =~= views(old_ls).drop_last());
        }
    }
    ls
}

/// Whether `s` ends with `p`.
pub open spec fn ends_with(s: Seq<char>, p: Seq<char>) -> bool {
    p.len() <= s.len() && s.subrange(s.len() - p.len(), s.len() as int) == p
}

/// `s` with every trailing repetition of `p` removed (`str::trim_end_matches`
/// with a string pattern).
pub open spec fn trim_end_matches(s: Seq<char>, p: Seq<char>) -> Seq<char>
    decreases s.len(),
{
    if p.len() > 0 && ends_with(s, p) {
        trim_end_matches(s.subrange(0, s.len() - p.len()), p)
    } else {
        s
    }
}

/// `v` with every trailing repetition of `p` removed.
pub fn trim_end_matches_chars(v: &[char], p: &[char]) -> (r: Vec<char>)
    ensures
        r@ == trim_end_matches(v@, p@),
{
    let m = p.len();
    let mut j: usize = v.len();
    proof {
        assert(v@.take(j as int) =~= v@);
    }
    while m > 0 && m <= j && matches_at(v, p, j - m)
        invariant
            j <= v@.len(),
            m == p@.len(),
            trim_end_matches(v@, p@) == trim_end_matches(v@.take(j as int), p@),
        decreases j,
    {
        proof {
            let t = v@.take(j as int);
            assert(t.subrange(t.len() - m, t.len() as int) =~= v@.subrange(j - m, j as int));
            assert(t.subrange(0, t.len() - m) =~= v@.take(j - m));
        }
        j = j - m;
    }
    proof {
        let t = v@.take(j as int);
        if m > 0 && m <= j {
            assert(t.subrange(t.len() - m, t.len() as int) =~= v@.subrange(j - m, j as int));
        }
    }
    copy_range(v, 0, j)
}

/// `s` without any occurrence of `c` (`str::replace(c, "")`).
pub open spec fn without(s: Seq<char>, c: char) -> Seq<char>
    decreases s.len(),
{
    if s.len() == 0 {
        s
    } else if s.last() == c {
        without(s.drop_last(), c)
    } else {
        without(s.drop_last(), c).push(s.last())
    }
}

/// `v` without any occurrence of `c`.
pub fn without_char(v: &[char], c: char) -> (r: Vec<char>)
    ensures
        r@ == without(v@, c),
{
    let mut r: Vec<char> = Vec::new();
    let mut i: usize = 0;
    proof {
        assert(v@.take(0) =~= Seq::<char>::empty());
    }
    while i < v.len()
        invariant
            i <= v@.len(),
            r@ == without(v@.take(i as int), c),
        decreases v@.len() - i,
    {
        proof {
            assert(v@.take(i + 1).drop_last() =~= v@.take(i as int));
        }
        if v[i] != c {
            r.push(v[i]);
        }
        i = i + 1;
    }
    proof {
        assert(v@.take(v@.len() as int) =~= v@);
    }
    r
}


/// Whether `c` is an ASCII decimal digit.
pub open spec fn is_digit(c: char) -> bool {
    48 <= (c as u32) <= 57
}

/// The value of the digit character `c`.
pub open spec fn digit_value(c: char) -> nat {
    ((c as u32) - 48) as nat
}

/// The number that the digit characters `d` denote.
pub open spec fn digits_value(d: Seq<char>) -> nat
    decreases d.len(),
{
    if d.len() == 0 {
        0
    } else {
        digits_value(d.drop_last()) * 10 + digit_value(d.last())
    }
}

/// Whether every character of `d` is a digit.
pub open spec fn all_digits(d: Seq<char>) -> bool {
    forall|i: int| 0 <= i < d.len() ==> is_digit(#[trigger] d[i])
}

/// `s` without one leading `+`.
pub open spec fn unsigned_digits(s: Seq<char>) -> Seq<char> {
    if s.len() > 0 && s[0] == '+' {
        s.drop_first()
    } else {
        s
    }
}

/// What `s.parse()` gives for an unsigned integer type whose largest value
/// is `max`: an optional `+`, then one or more digits, of value at most `max`.
pub open spec fn parse_unsigned(s: Seq<char>, max: nat) -> Option<nat> {
    let d = unsigned_digits(s);
    if d.len() > 0 && all_digits(d) && digits_value(d) <= max {
        Some(digits_value(d))
    } else {
        None
    }
}

/// A longer run of digits denotes no smaller number.
proof fn lemma_digits_value_grows(d: Seq<char>, k: int)
    requires
        0 <= k <= d.len(),
    ensures
        digits_value(d.take(k)) <= digits_value(d),
    decreases d.len() - k,
{
    if k < d.len() {
        lemma_digits_value_grows(d, k + 1);
        assert(d.take(k + 1).drop_last() =~= d.take(k));
    } else {
        assert(d.take(k) =~= d);
    }
}

/// `v` read as an unsigned decimal number, if it is one that fits in a `u64`.
pub fn parse_u64(v: &[char]) -> (r: Option<u64>)
    ensures
        match r {
            Some(x) => parse_unsigned(v@, u64::MAX as nat) == Some(x as nat),
            None => parse_unsigned(v@, u64::MAX as nat) is None,
        },
{
    let n = v.len();
    let start: usize = if n > 0 && v[0] == '+' {
        1
    } else {
        0
    };
    let ghost d = unsigned_digits(v@);
    proof {
        assert(d =~= v@.subrange(start as int, n as int));
    }
    if start == n {
        return None;
    }
    let mut acc: u64 = 0;
    let mut i: usize = start;
    proof {
        assert(d.take(0) =~= Seq::<char>::empty());
    }
    while i < n
        invariant
            start <= i <= n,
            n == v@.len(),
            d == unsigned_digits(v@),
            d == v@.subrange(start as int, n as int),
            acc as nat == digits_value(d.take(i - start)),
            all_digits(d.take(i - start)),
        decreases n - i,
    {
        let c = v[i];
        let u: u32 = c as u32;
        if !(48 <= u && u <= 57) {
            proof {
                assert(d[i - start] == c);
                assert(!is_digit(d[i - start]));
                assert(!all_digits(d));
            }
            return None;
        }
        let digit: u64 = (u - 48) as u64;
        proof {
            let t = d.take(i - start + 1);
            assert(t.drop_last() =~= d.take(i - start));
            assert(t.last() == c);
            assert(digits_value(t) == acc * 10 + digit);
            assert(all_digits(t)) by {
                assert forall|j: int| 0 <= j < t.len() implies is_digit(#[trigger] t[j]) by {
                    if j < t.len() - 1 {
                        assert(t[j] == d.take(i - start)[j]);
                    }
                }
            }
        }
        match acc.checked_mul(10) {
            Some(m) => match m.checked_add(digit) {
                Some(next) => {
                    acc = next;
                },
                None => {
                    proof {
                        lemma_digits_value_grows(d, i - start + 1);
                        assert(digits_value(d) > u64::MAX);
                    }
                    return None;
                },
            },
            None => {
                proof {
                    lemma_digits_value_grows(d, i - start + 1);
                    assert(digits_value(d) > u64::MAX);
                }
                return None;
            },
        }
        i = i + 1;
    }
    proof {
        assert(d.take(n - start) =~= d);
    }
    Some(acc)
}

/// `v` read as an unsigned decimal number, if it is one that fits in a `u32`.
pub fn parse_u32(v: &[char]) -> (r: Option<u32>)
    ensures
        match r {
            Some(x) => parse_unsigned(v@, u32::MAX as nat) == Some(x as nat),
            None => parse_unsigned(v@, u32::MAX as nat) is None,
        },
{
    match parse_u64(v) {
        Some(x) => if x <= 0xFFFF_FFFF {
            Some(x as u32)
        } else {
            None
        },
        None => None,
    }
}

/// A digit character is a digit, of the value it was made from.
pub proof fn lemma_digit_char(k: nat)
    requires
        k < 10,
    ensures
        is_digit(digit_char(k)),
        digit_value(digit_char(k)) == k,
        digit_char(k) != '+',
{
    assert((((48 + k) as u32) as char) as u32 == (48 + k) as u32);
}

/// Printing a number in decimal and reading it back gives the number.
pub proof fn law_decimal_parses_back(n: nat, max: nat)
    requires
        n <= max,
    ensures
        parse_unsigned(decimal(n), max) == Some(n),
{
    lemma_decimal_digits(n);
}

/// The decimal notation is a non-empty run of digits that denotes `n`,
/// and starts with no `+`.
pub proof fn lemma_decimal_digits(n: nat)
    ensures
        decimal(n).len() > 0,
        all_digits(decimal(n)),
        digits_value(decimal(n)) == n,
        decimal(n)[0] != '+',
    decreases n,
{
    lemma_digit_char(n % 10);
    if n >= 10 {
        lemma_decimal_digits(n / 10);
        let d = decimal(n);
        assert(d.drop_last() =~= decimal(n / 10));
        assert(d.last() == digit_char(n % 10));
        assert(digits_value(d) == digits_value(decimal(n / 10)) * 10 + digit_value(digit_char(n % 10)));
        assert(n == (n / 10) * 10 + n % 10);
        assert(all_digits(d)) by {
            assert forall|j: int| 0 <= j < d.len() implies is_digit(#[trigger] d[j]) by {
                if j < d.len() - 1 {
                    assert(d[j] == decimal(n / 10)[j]);
                }
            }
        }
    } else {
        assert(n % 10 == n);
        assert(decimal(n).drop_last() =~= Seq::<char>::empty());
        assert(digits_value(decimal(n)) == digits_value(Seq::<char>::empty()) * 10 + digit_value(
            digit_char(n),
        ));
    }
}

/// Whether `a` comes strictly before `b` in lexicographic order of code
/// points, the order of `<` on `str` and `String`.
pub open spec fn lex_lt(a: Seq<char>, b: Seq<char>) -> bool
    decreases a.len(),
{
    if a.len() == 0 {
        b.len() > 0
    } else if b.len() == 0 {
        false
    } else if a[0] != b[0] {
        (a[0] as u32) < (b[0] as u32)
    } else {
        lex_lt(a.drop_first(), b.drop_first())
    }
}

/// Whether `a` comes strictly before `b`.
pub fn lex_less(a: &[char], b: &[char]) -> (r: bool)
    ensures
        r == lex_lt(a@, b@),
{
    let mut i: usize = 0;
    proof {
        assert(a@.skip(0) =~= a@);
        assert(b@.skip(0) =~= b@);
    }
    while i < a.len() && i < b.len() && a[i] == b[i]
        invariant
            i <= a@.len(),
            i <= b@.len(),
            lex_lt(a@, b@) == lex_lt(a@.skip(i as int), b@.skip(i as int)),
        decreases a@.len() - i,
    {
        proof {
            assert(a@.skip(i as int).drop_first() =~= a@.skip(i + 1));
            assert(b@.skip(i as int).drop_first() =~= b@.skip(i + 1));
        }
        i = i + 1;
    }
    if i == a.len() {
        i < b.len()
    } else if i == b.len() {
        false
    } else {
        (a[i] as u32) < (b[i] as u32)
    }
}

/// What `str::to_lowercase` gives for `s`.
pub uninterp spec fn lowercase(s: Seq<char>) -> Seq<char>;

/// `str::to_lowercase`: the lowercase mapping of Unicode, a function of the
/// characters of `s` alone; the mapping itself is not stated here.
#[verifier::external_body]
pub(crate) fn to_lowercase(s: &str) -> (r: String)
    ensures
        r@ == lowercase(s@),
{
    s.to_lowercase()
}


/// A number in decimal, followed by a newline as a one-line file holds it,
/// trims to the number's notation.
pub proof fn lemma_trim_decimal_line(n: nat)
    ensures
        trim(decimal(n) + seq!['\n'], Trimmed::Whitespace) == decimal(n),
{
    lemma_decimal_digits(n);
    let d = decimal(n);
    let l = d + seq!['\n'];
    assert(is_digit(d[0]));
    assert(l[0] == d[0]);
    assert(trim_start(l, Trimmed::Whitespace) == l);
    assert(l.drop_last() =~= d);
    assert(is_digit(d[d.len() - 1]));
    assert(trim_end(d, Trimmed::Whitespace) == d);
}


/// No sequence comes before itself.
pub proof fn lemma_lex_lt_irreflexive(a: Seq<char>)
    ensures
        !lex_lt(a, a),
    decreases a.len(),
{
    if a.len() > 0 {
        lemma_lex_lt_irreflexive(a.drop_first());
    }
}

/// The order is transitive.
pub proof fn lemma_lex_lt_transitive(a: Seq<char>, b: Seq<char>, c: Seq<char>)
    requires
        lex_lt(a, b),
        lex_lt(b, c),
    ensures
        lex_lt(a, c),
    decreases a.len(),
{
    if a.len() > 0 && b.len() > 0 && c.len() > 0 && a[0] == b[0] && b[0] == c[0] {
        lemma_lex_lt_transitive(a.drop_first(), b.drop_first(), c.drop_first());
    }
}

} // verus!
