//! Character-level string helpers: whitespace, trimming, substitution,
//! decimal rendering and decimal parsing, all over `Seq<char>` models.
use vstd::prelude::*;

verus! {

// ---------------------------------------------------------------------------
// Whitespace
// ---------------------------------------------------------------------------

/// The Unicode `White_Space` property, which is what `char::is_whitespace` tests.
pub open spec fn is_ws(c: char) -> bool {
    let u = c as u32;
    ||| 0x9 <= u <= 0xd
    ||| u == 0x20
    ||| u == 0x85
    ||| u == 0xa0
    ||| u == 0x1680
    ||| 0x2000 <= u <= 0x200a
    ||| u == 0x2028
    ||| u == 0x2029
    ||| u == 0x202f
    ||| u == 0x205f
    ||| u == 0x3000
}

/// `c` is a whitespace character.
pub fn is_whitespace(c: char) -> (r: bool)
    ensures
        r == is_ws(c),
{
    let u = c as u32;
    (0x9 <= u && u <= 0xd) || u == 0x20 || u == 0x85 || u == 0xa0 || u == 0x1680 || (0x2000 <= u
        && u <= 0x200a) || u == 0x2028 || u == 0x2029 || u == 0x202f || u == 0x205f || u == 0x3000
}

/// `s` with its leading whitespace removed.
pub open spec fn trim_start(s: Seq<char>) -> Seq<char>
    decreases s.len(),
{
    if s.len() > 0 && is_ws(s[0]) {
        trim_start(s.drop_first())
    } else {
        s
    }
}

/// `s` with its trailing whitespace removed.
pub open spec fn trim_end(s: Seq<char>) -> Seq<char>
    decreases s.len(),
{
    if s.len() > 0 && is_ws(s.last()) {
        trim_end(s.drop_last())
    } else {
        s
    }
}

/// `s` with whitespace removed at both ends, as `str::trim` does.
pub open spec fn trimmed(s: Seq<char>) -> Seq<char> {
    trim_end(trim_start(s))
}

/// Every character of `s` is whitespace.
pub open spec fn all_ws(s: Seq<char>) -> bool {
    forall|i: int| 0 <= i < s.len() ==> is_ws(#[trigger] s[i])
}

/// `s` with every whitespace character removed.
pub open spec fn strip_ws(s: Seq<char>) -> Seq<char> {
    s.filter(|c: char| !is_ws(c))
}

proof fn lemma_trim_start_shape(s: Seq<char>)
    ensures
        exists|k: int|
            0 <= k <= s.len() && trim_start(s) == s.skip(k) && all_ws(s.take(k)) && (k < s.len()
                ==> !is_ws(s[k])),
    decreases s.len(),
{
    if s.len() > 0 && is_ws(s[0]) {
        lemma_trim_start_shape(s.drop_first());
        let k = choose|k: int|
            0 <= k <= s.drop_first().len() && trim_start(s.drop_first()) == s.drop_first().skip(k)
                && all_ws(s.drop_first().take(k)) && (k < s.drop_first().len()
                ==> !is_ws(s.drop_first()[k]));
        assert(s.drop_first().skip(k) =~= s.skip(k + 1));
        assert forall|i: int| 0 <= i < s.take(k + 1).len() implies is_ws(#[trigger] s.take(k + 1)[i]) by {
            if i > 0 {
                assert(s.take(k + 1)[i] == s.drop_first().take(k)[i - 1]);
            }
        }
    } else {
        assert(s.skip(0) =~= s);
    }
}

proof fn lemma_trim_end_shape(s: Seq<char>)
    ensures
        exists|k: int|
            0 <= k <= s.len() && trim_end(s) == s.take(k) && all_ws(s.skip(k)) && (k > 0 ==> !is_ws(
                s[k - 1],
            )),
    decreases s.len(),
{
    if s.len() > 0 && is_ws(s.last()) {
        lemma_trim_end_shape(s.drop_last());
        let k = choose|k: int|
            0 <= k <= s.drop_last().len() && trim_end(s.drop_last()) == s.drop_last().take(k)
                && all_ws(s.drop_last().skip(k)) && (k > 0 ==> !is_ws(s.drop_last()[k - 1]));
        assert(s.drop_last().take(k) =~= s.take(k));
        assert forall|i: int| 0 <= i < s.skip(k).len() implies is_ws(#[trigger] s.skip(k)[i]) by {
            if i < s.skip(k).len() - 1 {
                assert(s.skip(k)[i] == s.drop_last().skip(k)[i]);
            }
        }
    } else {
        assert(s.take(s.len() as int) =~= s);
    }
}

/// Trimming leaves nothing exactly when every character is whitespace.
pub proof fn lemma_trimmed_empty_iff_all_ws(s: Seq<char>)
    ensures
        (trimmed(s).len() == 0) == all_ws(s),
{
    lemma_trim_start_shape(s);
    let k = choose|k: int|
        0 <= k <= s.len() && trim_start(s) == s.skip(k) && all_ws(s.take(k)) && (k < s.len()
            ==> !is_ws(s[k]));
    let t = s.skip(k);
    lemma_trim_end_shape(t);
    let j = choose|j: int|
        0 <= j <= t.len() && trim_end(t) == t.take(j) && all_ws(t.skip(j)) && (j > 0 ==> !is_ws(
            t[j - 1],
        ));
    if all_ws(s) {
        if k < s.len() {
            assert(is_ws(s[k]));
        }
    }
    if trimmed(s).len() == 0 {
        assert forall|i: int| 0 <= i < s.len() implies is_ws(#[trigger] s[i]) by {
            if i < k {
                assert(s.take(k)[i] == s[i]);
            } else {
                assert(t.skip(j)[i - k] == s[i]);
            }
        }
    }
}

proof fn lemma_strip_ws_of_all_ws(x: Seq<char>)
    requires
        all_ws(x),
    ensures
        strip_ws(x) == Seq::<char>::empty(),
{
    assert(x.all(|c: char| !(!is_ws(c)))) by {
        assert forall|i: int| 0 <= i < x.len() implies !(!is_ws(#[trigger] x[i])) by {}
    }
    x.lemma_all_neg_filter_empty(|c: char| !is_ws(c));
    assert(strip_ws(x) =~= Seq::<char>::empty());
}

/// Removing all whitespace gives the same text whether or not the ends were
/// trimmed first.
pub proof fn lemma_strip_ws_ignores_trim(s: Seq<char>)
    ensures
        strip_ws(trimmed(s)) == strip_ws(s),
{
    broadcast use Seq::filter_distributes_over_add;

    lemma_trim_start_shape(s);
    let k = choose|k: int|
        0 <= k <= s.len() && trim_start(s) == s.skip(k) && all_ws(s.take(k)) && (k < s.len()
            ==> !is_ws(s[k]));
    let t = s.skip(k);
    lemma_trim_end_shape(t);
    let j = choose|j: int|
        0 <= j <= t.len() && trim_end(t) == t.take(j) && all_ws(t.skip(j)) && (j > 0 ==> !is_ws(
            t[j - 1],
        ));
    assert(s =~= s.take(k) + t);
    assert(t =~= t.take(j) + t.skip(j));
    lemma_strip_ws_of_all_ws(s.take(k));
    lemma_strip_ws_of_all_ws(t.skip(j));
    assert(strip_ws(s) == strip_ws(s.take(k)) + strip_ws(t));
    assert(strip_ws(t) == strip_ws(t.take(j)) + strip_ws(t.skip(j)));
    assert(strip_ws(t) =~= strip_ws(t.take(j)));
    assert(strip_ws(s) =~= strip_ws(t));
}

/// The characters of `s`, in order.
pub fn chars_of(s: &str) -> (v: Vec<char>)
    ensures
        v@ == s@,
{
    let mut v: Vec<char> = Vec::new();
    for c in it: s.chars()
        invariant
            v@ == it.seq().take(it.index() as int),
            it.seq() == s@,
    {
        v.push(c);
    }
    v
}

/// `String::push`: appends one character.
#[verifier::external_body]
pub(crate) fn push_char(s: &mut String, c: char)
    ensures
        final(s)@ == old(s)@.push(c),
{
    s.push(c);
}

/// A string made of the characters `v[lo..hi]`.
pub fn string_of_range(v: &Vec<char>, lo: usize, hi: usize) -> (r: String)
    requires
        lo <= hi <= v.len(),
    ensures
        r@ == v@.subrange(lo as int, hi as int),
{
    let mut r = String::new();
    let mut i = lo;
    while i < hi
        invariant
            lo <= i <= hi <= v.len(),
            r@ == v@.subrange(lo as int, i as int),
        decreases hi - i,
    {
        push_char(&mut r, v[i]);
        assert(v@.subrange(lo as int, i + 1) =~= v@.subrange(lo as int, i as int).push(v@[i as int]));
        i = i + 1;
    }
    r
}

/// `s` with whitespace removed at both ends (`str::trim`).
pub fn trim(s: &str) -> (r: String)
    ensures
        r@ == trimmed(s@),
{
    let v = chars_of(s);
    let n = v.len();
    let mut lo: usize = 0;
    assert(v@.skip(0) =~= v@);
    while lo < n && is_whitespace(v[lo])
        invariant
            lo <= n == v.len(),
            trim_start(v@) == trim_start(v@.skip(lo as int)),
        decreases n - lo,
    {
        assert(v@.skip(lo as int).drop_first() =~= v@.skip(lo + 1));
        lo = lo + 1;
    }
    assert(trim_start(v@.skip(lo as int)) == v@.skip(lo as int));
    let mut hi: usize = n;
    while hi > lo && is_whitespace(v[hi - 1])
        invariant
            lo <= hi <= n == v.len(),
            trim_end(v@.skip(lo as int)) == trim_end(v@.subrange(lo as int, hi as int)),
        decreases hi,
    {
        assert(v@.subrange(lo as int, hi as int).drop_last() =~= v@.subrange(lo as int, hi - 1));
        hi = hi - 1;
    }
    assert(trim_end(v@.subrange(lo as int, hi as int)) == v@.subrange(lo as int, hi as int));
    assert(v@.skip(0) =~= v@);
    string_of_range(&v, lo, hi)
}

/// `s` is empty or made of whitespace only (`s.trim().is_empty()`).
pub fn is_blank(s: &str) -> (r: bool)
    ensures
        r == (trimmed(s@).len() == 0),
        r == all_ws(s@),
{
    proof {
        lemma_trimmed_empty_iff_all_ws(s@);
    }
    let v = chars_of(s);
    let mut i: usize = 0;
    while i < v.len()
        invariant
            i <= v.len(),
            v@ == s@,
            (trimmed(s@).len() == 0) == all_ws(s@),
            forall|j: int| 0 <= j < i ==> is_ws(#[trigger] v@[j]),
        decreases v.len() - i,
    {
        if !is_whitespace(v[i]) {
            assert(!is_ws(s@[i as int]));
            return false;
        }
        i = i + 1;
    }
    true
}

/// `s` with every whitespace character removed.
pub fn remove_whitespace(s: &str) -> (r: String)
    ensures
        r@ == strip_ws(s@),
{
    let v = chars_of(s);
    let mut r = String::new();
    let mut i: usize = 0;
    while i < v.len()
        invariant
            i <= v.len(),
            v@ == s@,
            r@ == strip_ws(v@.take(i as int)),
        decreases v.len() - i,
    {
        let c = v[i];
        assert(v@.take(i + 1).drop_last() =~= v@.take(i as int));
        reveal_with_fuel(Seq::filter, 1);
        if !is_whitespace(c) {
            push_char(&mut r, c);
        }
        i = i + 1;
    }
    assert(v@.take(v.len() as int) =~= v@);
    r
}

// ---------------------------------------------------------------------------
// Substring replacement
// ---------------------------------------------------------------------------

/// `s` with every non-overlapping occurrence of `p`, scanned from the left,
/// replaced by `r` (`str::replace` for a non-empty pattern).
pub open spec fn replaced(s: Seq<char>, p: Seq<char>, r: Seq<char>) -> Seq<char>
    decreases s.len(),
{
    if s.len() == 0 {
        Seq::empty()
    } else if p.len() > 0 && p.len() <= s.len() && s.take(p.len() as int) == p {
        r + replaced(s.skip(p.len() as int), p, r)
    } else {
        seq![s[0]] + replaced(s.drop_first(), p, r)
    }
}

fn matches_at(v: &Vec<char>, i: usize, p: &Vec<char>) -> (b: bool)
    requires
        i <= v.len(),
    ensures
        b == (p.len() <= v.len() - i && v@.skip(i as int).take(p.len() as int) == p@),
{
    if p.len() > v.len() - i {
        return false;
    }
    let mut j: usize = 0;
    while j < p.len()
        invariant
            j <= p.len() <= v.len() - i,
            forall|k: int| 0 <= k < j ==> v@[i + k] == p@[k],
        decreases p.len() - j,
    {
        if v[i + j] != p[j] {
            assert(v@.skip(i as int).take(p.len() as int)[j as int] != p@[j as int]);
            return false;
        }
        j = j + 1;
    }
    assert(v@.skip(i as int).take(p.len() as int) =~= p@);
    true
}

/// Replaces every occurrence of the non-empty `from` in `s` by `to`.
pub fn replace_all(s: &str, from: &str, to: &str) -> (r: String)
    requires
        from@.len() > 0,
    ensures
        r@ == replaced(s@, from@, to@),
{
    let v = chars_of(s);
    let p = chars_of(from);
    let mut r = String::new();
    let mut i: usize = 0;
    assert(v@.skip(0) =~= v@);
    while i < v.len()
        invariant
            i <= v.len(),
            v@ == s@,
            p@ == from@,
            p@.len() > 0,
            r@ + replaced(v@.skip(i as int), p@, to@) == replaced(s@, from@, to@),
        decreases v.len() - i,
    {
        let ghost rest = v@.skip(i as int);
        if matches_at(&v, i, &p) {
            assert(rest.skip(p.len() as int) =~= v@.skip(i + p.len()));
            proof {
                assert(r@ + to@ + replaced(rest.skip(p@.len() as int), p@, to@) =~= r@ + (to@
                    + replaced(rest.skip(p@.len() as int), p@, to@)));
            }
            r.append(to);
            i = i + p.len();
        } else {
            assert(rest.drop_first() =~= v@.skip(i + 1));
            assert(rest[0] == v@[i as int]);
            proof {
                assert(r@.push(v@[i as int]) + replaced(rest.drop_first(), p@, to@) =~= r@ + (seq![
                    rest[0],
                ] + replaced(rest.drop_first(), p@, to@)));
            }
            push_char(&mut r, v[i]);
            i = i + 1;
        }
    }
    assert(v@.skip(i as int) =~= Seq::<char>::empty());
    assert(r@ + Seq::<char>::empty() =~= r@);
    r
}

/// A one-character pattern is replaced in each part of a concatenation
/// separately: no occurrence straddles the cut.
pub proof fn lemma_replaced_char_concat(a: Seq<char>, b: Seq<char>, x: char, r: Seq<char>)
    ensures
        replaced(a + b, seq![x], r) == replaced(a, seq![x], r) + replaced(b, seq![x], r),
    decreases a.len(),
{
    let p = seq![x];
    if a.len() == 0 {
        assert(a + b =~= b);
        assert(replaced(a, p, r) + replaced(b, p, r) =~= replaced(b, p, r));
    } else {
        let s = a + b;
        assert(s.take(1) =~= seq![a[0]]);
        assert(a.take(1) =~= seq![a[0]]);
        assert(seq![a[0]][0] == a[0]);
        assert(s.skip(1) =~= a.skip(1) + b);
        assert(s.drop_first() =~= a.drop_first() + b);
        assert(a.skip(1) =~= a.drop_first());
        lemma_replaced_char_concat(a.drop_first(), b, x, r);
        let tail = replaced(a.drop_first(), p, r) + replaced(b, p, r);
        if a[0] == x {
            assert(r + tail =~= (r + replaced(a.drop_first(), p, r)) + replaced(b, p, r));
        } else {
            assert(seq![a[0]] + tail =~= (seq![a[0]] + replaced(a.drop_first(), p, r)) + replaced(
                b,
                p,
                r,
            ));
        }
    }
}

/// Replacing a one-character pattern in a one-character text.
pub proof fn lemma_replaced_single(c: char, x: char, r: Seq<char>)
    ensures
        replaced(seq![c], seq![x], r) == (if c == x {
            r
        } else {
            seq![c]
        }),
{
    let s = seq![c];
    let e = Seq::<char>::empty();
    assert(s.take(1) =~= s);
    assert(s.skip(1) =~= e);
    assert(s.drop_first() =~= e);
    assert(replaced(e, seq![x], r) == e);
    if c == x {
        assert(s =~= seq![x]);
        assert(r + e =~= r);
    } else {
        assert(s[0] != seq![x][0]);
        assert(s != seq![x]);
        assert(seq![s[0]] + e =~= s);
    }
}

/// When no character of `u` starts `p`, replacing in `u + v` keeps `u` and
/// works on `v` alone.
pub proof fn lemma_replaced_skip_prefix(u: Seq<char>, v: Seq<char>, p: Seq<char>, r: Seq<char>)
    requires
        p.len() > 0,
        forall|j: int| 0 <= j < u.len() ==> #[trigger] u[j] != p[0],
    ensures
        replaced(u + v, p, r) == u + replaced(v, p, r),
    decreases u.len(),
{
    if u.len() == 0 {
        assert(u + v =~= v);
        assert(u + replaced(v, p, r) =~= replaced(v, p, r));
    } else {
        let s = u + v;
        assert(s[0] == u[0]);
        assert(u[0] != p[0]);
        if p.len() <= s.len() {
            assert(s.take(p.len() as int)[0] == s[0]);
        }
        assert(s.drop_first() =~= u.drop_first() + v);
        assert forall|j: int| 0 <= j < u.drop_first().len() implies #[trigger] u.drop_first()[j]
            != p[0] by {
            assert(u.drop_first()[j] == u[j + 1]);
        }
        lemma_replaced_skip_prefix(u.drop_first(), v, p, r);
        assert(seq![u[0]] + (u.drop_first() + replaced(v, p, r)) =~= u + replaced(v, p, r));
    }
}

/// The concatenation of a sequence of blocks.
pub open spec fn concat_blocks(bs: Seq<Seq<char>>) -> Seq<char>
    decreases bs.len(),
{
    if bs.len() == 0 {
        Seq::empty()
    } else {
        bs[0] + concat_blocks(bs.drop_first())
    }
}

/// An entity: `&`, then characters other than `&` and `;`, then `;`.
pub open spec fn is_entity(e: Seq<char>) -> bool {
    &&& e.len() >= 2
    &&& e[0] == '&'
    &&& e[e.len() - 1] == ';'
    &&& forall|j: int| 1 <= j < e.len() - 1 ==> #[trigger] e[j] != '&' && e[j] != ';'
}

/// A block of escaped text: one character other than `&`, or an entity.
pub open spec fn is_text_block(b: Seq<char>) -> bool {
    (b.len() == 1 && b[0] != '&') || is_entity(b)
}

/// In text made of blocks, an entity occurs exactly where a block equals it:
/// replacing it replaces those blocks and leaves the others as they are.
pub proof fn lemma_replaced_blocks(bs: Seq<Seq<char>>, p: Seq<char>, r: Seq<char>)
    requires
        is_entity(p),
        forall|i: int| 0 <= i < bs.len() ==> is_text_block(#[trigger] bs[i]),
    ensures
        replaced(concat_blocks(bs), p, r) == concat_blocks(
            bs.map_values(|b: Seq<char>| if b == p { r } else { b }),
        ),
    decreases bs.len(),
{
    let f = |b: Seq<char>| if b == p { r } else { b };
    if bs.len() > 0 {
        let b = bs[0];
        let rest = bs.drop_first();
        assert forall|i: int| 0 <= i < rest.len() implies is_text_block(#[trigger] rest[i]) by {
            assert(rest[i] == bs[i + 1]);
        }
        lemma_replaced_blocks(rest, p, r);
        assert(bs.map_values(f).drop_first() =~= rest.map_values(f));
        assert(bs.map_values(f)[0] == f(b));
        let tail = concat_blocks(rest);
        let s = concat_blocks(bs);
        assert(s == b + tail);
        assert(is_text_block(bs[0]));
        if b == p {
            assert(s.take(p.len() as int) =~= p);
            assert(s.skip(p.len() as int) =~= tail);
        } else if b.len() == 1 && b[0] != '&' {
            assert(s[0] == b[0]);
            if p.len() <= s.len() {
                assert(s.take(p.len() as int)[0] == s[0]);
            }
            assert(s.drop_first() =~= tail);
            assert(seq![s[0]] =~= b);
        } else {
            assert(is_entity(b));
            if p.len() <= s.len() && s.take(p.len() as int) == p {
                let t = s.take(p.len() as int);
                if p.len() < b.len() {
                    assert(t[p.len() - 1] == b[p.len() - 1]);
                } else if p.len() == b.len() {
                    assert(b =~= p);
                } else {
                    assert(t[b.len() - 1] == b[b.len() - 1]);
                }
            }
            let u = b.drop_first();
            assert forall|j: int| 0 <= j < u.len() implies #[trigger] u[j] != p[0] by {
                assert(u[j] == b[j + 1]);
            }
            lemma_replaced_skip_prefix(u, tail, p, r);
            assert(s.drop_first() =~= u + tail);
            assert(s[0] == b[0]);
            if p.len() <= s.len() {
                assert(!(s.take(p.len() as int) == p));
            }
            assert(seq![s[0]] + (u + replaced(tail, p, r)) =~= b + replaced(tail, p, r));
        }
    } else {
        assert(bs.map_values(f).len() == 0);
    }
}

// ---------------------------------------------------------------------------
// Decimal rendering
// ---------------------------------------------------------------------------

/// The ASCII digit for `d` (`0 <= d < 10`).
pub open spec fn digit_char(d: nat) -> char {
    ((48 + d) as u32) as char
}

/// The shortest decimal rendering of `n`, as `Display` writes it.
pub open spec fn decimal(n: nat) -> Seq<char>
    decreases n,
{
    if n < 10 {
        seq![digit_char(n)]
    } else {
        decimal(n / 10) + seq![digit_char(n % 10)]
    }
}

/// The decimal rendering of a signed integer, with `-` before a negative one.
pub open spec fn signed_decimal(n: int) -> Seq<char> {
    if n < 0 {
        seq!['-'] + decimal((-n) as nat)
    } else {
        decimal(n as nat)
    }
}

fn digit_of(d: u64) -> (c: char)
    requires
        d < 10,
    ensures
        c == digit_char(d as nat),
{
    let c = if d == 0 { '0' } else if d == 1 { '1' } else if d == 2 { '2' } else if d == 3 { '3' }
    else if d == 4 { '4' } else if d == 5 { '5' } else if d == 6 { '6' } else if d == 7 { '7' }
    else if d == 8 { '8' } else { '9' };
    assert(c == digit_char(d as nat)) by {
        assert(('0' as u32) == 48);
    }
    c
}

/// Appends the decimal rendering of `n` to `out`.
pub fn push_decimal(out: &mut String, n: u64)
    ensures
        final(out)@ == old(out)@ + decimal(n as nat),
    decreases n,
{
    if n < 10 {
        push_char(out, digit_of(n));
        assert(old(out)@.push(digit_char(n as nat)) =~= old(out)@ + decimal(n as nat));
    } else {
        push_decimal(out, n / 10);
        push_char(out, digit_of(n % 10));
        assert(old(out)@ + decimal((n / 10) as nat) + seq![digit_char((n % 10) as nat)]
            =~= old(out)@ + decimal(n as nat));
    }
}

/// The decimal rendering of `n` (`n.to_string()`).
pub fn u64_to_string(n: u64) -> (r: String)
    ensures
        r@ == decimal(n as nat),
{
    let mut r = String::new();
    push_decimal(&mut r, n);
    assert(Seq::<char>::empty() + decimal(n as nat) =~= decimal(n as nat));
    r
}

/// Appends the decimal rendering of the signed `n` to `out`.
pub fn push_signed_decimal(out: &mut String, n: i64)
    ensures
        final(out)@ == old(out)@ + signed_decimal(n as int),
{
    if n < 0 {
        push_char(out, '-');
        let m: u64 = if n == i64::MIN {
            9223372036854775808u64
        } else {
            (-n) as u64
        };
        push_decimal(out, m);
        assert(old(out)@.push('-') + decimal(m as nat) =~= old(out)@ + (seq!['-'] + decimal(
            m as nat,
        )));
    } else {
        push_decimal(out, n as u64);
    }
}

/// `n` spaces.
pub open spec fn spaces(n: nat) -> Seq<char> {
    Seq::new(n, |i: int| ' ')
}

/// `s` right-aligned in a field of `width` characters, as `{:>width}` pads it.
pub open spec fn pad_left(s: Seq<char>, width: nat) -> Seq<char> {
    if s.len() < width {
        spaces((width - s.len()) as nat) + s
    } else {
        s
    }
}

/// Appends `s` right-aligned in a field of `width` characters.
pub fn push_padded_left(out: &mut String, s: &str, width: usize)
    ensures
        final(out)@ == old(out)@ + pad_left(s@, width as nat),
{
    let n = s.unicode_len();
    if n < width {
        let mut k: usize = 0;
        while k < width - n
            invariant
                n < width,
                k <= width - n,
                out@ == old(out)@ + spaces(k as nat),
            decreases width - n - k,
        {
            push_char(out, ' ');
            assert(old(out)@ + spaces(k as nat) + seq![' '] =~= old(out)@ + spaces((k + 1) as nat));
            k = k + 1;
        }
        out.append(s);
        assert(old(out)@ + spaces((width - n) as nat) + s@ =~= old(out)@ + pad_left(s@, width as nat));
    } else {
        out.append(s);
    }
}

/// `c` repeated `n` times.
pub open spec fn repeated(c: char, n: nat) -> Seq<char> {
    Seq::new(n, |i: int| c)
}

/// Appends `c` repeated `n` times.
pub fn push_repeated(out: &mut String, c: char, n: usize)
    ensures
        final(out)@ == old(out)@ + repeated(c, n as nat),
{
    let mut k: usize = 0;
    while k < n
        invariant
            k <= n,
            out@ == old(out)@ + repeated(c, k as nat),
        decreases n - k,
    {
        push_char(out, c);
        assert(old(out)@ + repeated(c, k as nat) + seq![c] =~= old(out)@ + repeated(c, (k + 1) as nat));
        k = k + 1;
    }
}

// ---------------------------------------------------------------------------
// Decimal parsing
// ---------------------------------------------------------------------------

/// `c` is one of the ASCII digits `0`..`9`.
pub open spec fn is_ascii_digit(c: char) -> bool {
    '0' <= c <= '9'
}

/// The value of the ASCII digit `c`.
pub open spec fn digit_value(c: char) -> nat {
    ((c as u32) - 48) as nat
}

/// The value of a string of ASCII digits, most significant first.
pub open spec fn digits_value(s: Seq<char>) -> nat
    decreases s.len(),
{
    if s.len() == 0 {
        0
    } else {
        digits_value(s.drop_last()) * 10 + digit_value(s.last())
    }
}

/// Every character of `s` is an ASCII digit.
pub open spec fn all_digits(s: Seq<char>) -> bool {
    forall|i: int| 0 <= i < s.len() ==> is_ascii_digit(#[trigger] s[i])
}

/// What `str::parse::<u64>` gives: an optional `+`, then at least one ASCII
/// digit and nothing else, with a value that fits in 64 bits.
pub open spec fn parsed_u64(s: Seq<char>) -> Option<u64> {
    let d = if s.len() > 0 && s[0] == '+' {
        s.drop_first()
    } else {
        s
    };
    if d.len() > 0 && all_digits(d) && digits_value(d) <= u64::MAX {
        Some(digits_value(d) as u64)
    } else {
        None
    }
}

proof fn lemma_digits_value_monotone(s: Seq<char>, k: int)
    requires
        0 <= k <= s.len(),
        all_digits(s),
    ensures
        digits_value(s.take(k)) <= digits_value(s),
    decreases s.len() - k,
{
    if k < s.len() {
        lemma_digits_value_monotone(s, k + 1);
        assert(s.take(k + 1).drop_last() =~= s.take(k));
        assert(s.take(k + 1).last() == s[k]);
    } else {
        assert(s.take(k) =~= s);
    }
}

fn ascii_digit_value(c: char) -> (r: Option<u64>)
    ensures
        r.is_some() == is_ascii_digit(c),
        r.is_some() ==> r.unwrap() == digit_value(c) && r.unwrap() < 10,
{
    if '0' <= c && c <= '9' {
        Some((c as u32 - 48) as u64)
    } else {
        None
    }
}

/// Parses `s` as `str::parse::<u64>` does.
pub fn parse_u64(s: &str) -> (r: Option<u64>)
    ensures
        r == parsed_u64(s@),
{
    let v = chars_of(s);
    let start: usize = if v.len() > 0 && v[0] == '+' { 1 } else { 0 };
    let ghost d = if s@.len() > 0 && s@[0] == '+' {
        s@.drop_first()
    } else {
        s@
    };
    assert(d =~= v@.skip(start as int));
    if start >= v.len() {
        return None;
    }
    let mut acc: u64 = 0;
    let mut i: usize = start;
    while i < v.len()
        invariant
            start <= i <= v.len(),
            v@ == s@,
            d == v@.skip(start as int),
            d == (if s@.len() > 0 && s@[0] == '+' {
                s@.drop_first()
            } else {
                s@
            }),
            all_digits(v@.subrange(start as int, i as int)),
            acc == digits_value(v@.subrange(start as int, i as int)),
        decreases v.len() - i,
    {
        let ghost pre = v@.subrange(start as int, i as int);
        let ghost next = v@.subrange(start as int, i + 1);
        assert(next.drop_last() =~= pre);
        assert(next.last() == v@[i as int]);
        match ascii_digit_value(v[i]) {
            None => {
                assert(d[i - start] == v@[i as int]);
                assert(!is_ascii_digit(d[i - start]));
                return None;
            },
            Some(dv) => {
                assert(all_digits(next)) by {
                    assert forall|j: int| 0 <= j < next.len() implies is_ascii_digit(
                        #[trigger] next[j],
                    ) by {
                        if j < pre.len() {
                            assert(next[j] == pre[j]);
                        }
                    }
                }
                if acc > (u64::MAX - dv) / 10 {
                    proof {
                        let a = acc as int;
                        let dd = dv as int;
                        assert(a * 10 + dd > u64::MAX) by (nonlinear_arith)
                            requires
                                a > (u64::MAX - dd) / 10,
                                0 <= dd < 10,
                        ;
                        assert(digits_value(next) > u64::MAX);
                        assert forall|j: int| 0 <= j < d.len() implies is_ascii_digit(#[trigger] d[j])
                            || !all_digits(d) by {}
                        if all_digits(d) {
                            assert(d.take(next.len() as int) =~= next);
                            lemma_digits_value_monotone(d, next.len() as int);
                        }
                    }
                    return None;
                }
                acc = acc * 10 + dv;
            },
        }
        i = i + 1;
    }
    assert(v@.subrange(start as int, v.len() as int) =~= d);
    Some(acc)
}


/// The decimal rendering of a 64-bit number reads back as that number.
pub proof fn lemma_decimal_parses(n: nat)
    requires
        n <= u64::MAX,
    ensures
        parsed_u64(decimal(n)) == Some(n as u64),
{
    lemma_decimal_digits(n);
    let d = decimal(n);
    assert(is_ascii_digit(d[0]));
}

proof fn lemma_decimal_digits(n: nat)
    ensures
        decimal(n).len() > 0,
        all_digits(decimal(n)),
        digits_value(decimal(n)) == n,
    decreases n,
{
    let c = digit_char(n % 10);
    assert(digit_value(c) == n % 10 && is_ascii_digit(c)) by {
        let v = (48 + n % 10) as u32;
        assert((v as char) as u32 == v);
    }
    if n < 10 {
        let d = decimal(n);
        assert(d.drop_last() =~= Seq::<char>::empty());
        assert(n % 10 == n);
        assert(d.last() == c);
        assert(digits_value(d) == digits_value(d.drop_last()) * 10 + digit_value(d.last()));
    } else {
        lemma_decimal_digits(n / 10);
        let d = decimal(n);
        assert(d.drop_last() =~= decimal(n / 10));
        assert(d.last() == c);
        assert(digits_value(d) == digits_value(d.drop_last()) * 10 + digit_value(d.last()));
        assert((n / 10) * 10 + n % 10 == n);
        assert forall|i: int| 0 <= i < d.len() implies is_ascii_digit(#[trigger] d[i]) by {
            if i < d.len() - 1 {
                assert(d[i] == decimal(n / 10)[i]);
            }
        }
    }
}

} // verus!
