//! Strings: decimal numbers, joining, searching and the order of names.

use vstd::prelude::*;
use vstd::string::*;
use vstd::utf8::*;

verus! {

/// The character of a decimal digit.
pub open spec fn digit(d: int) -> char {
    (('0' as int) + d) as char
}

/// The decimal digits of a natural number, most significant first, without leading zeros.
pub open spec fn digits(n: nat) -> Seq<char>
    decreases n,
{
    if n < 10 {
        seq![digit(n as int)]
    } else {
        digits(n / 10).push(digit((n % 10) as int))
    }
}

/// An integer in decimal: its digits, behind a minus sign where it is negative.
pub open spec fn decimal(n: int) -> Seq<char> {
    if n < 0 {
        seq!['-'] + digits((-n) as nat)
    } else {
        digits(n as nat)
    }
}

/// The string of a single digit.
fn digit_str(d: u32) -> (s: &'static str)
    requires
        d < 10,
    ensures
        s@ == seq![digit(d as int)],
{
    proof {
        reveal_strlit("0");
        reveal_strlit("1");
        reveal_strlit("2");
        reveal_strlit("3");
        reveal_strlit("4");
        reveal_strlit("5");
        reveal_strlit("6");
        reveal_strlit("7");
        reveal_strlit("8");
        reveal_strlit("9");
    }
    match d {
        0 => "0",
        1 => "1",
        2 => "2",
        3 => "3",
        4 => "4",
        5 => "5",
        6 => "6",
        7 => "7",
        8 => "8",
        _ => "9",
    }
}

/// Appends the decimal digits of `n`.
fn push_digits(out: &mut String, n: u32)
    ensures
        final(out)@ == old(out)@ + digits(n as nat),
    decreases n,
{
    if n >= 10 {
        push_digits(out, n / 10);
    }
    out.append(digit_str(n % 10));
}

/// Appends `n` in decimal.
pub fn push_decimal(out: &mut String, n: i32)
    ensures
        final(out)@ == old(out)@ + decimal(n as int),
{
    let wide: i64 = n as i64;
    if wide < 0 {
        proof {
            reveal_strlit("-");
        }
        out.append("-");
        push_digits(out, (-wide) as u32);
    } else {
        push_digits(out, wide as u32);
    }
}

/// The given strings one behind the other, with `sep` between each two of them.
pub open spec fn joined(items: Seq<Seq<char>>, sep: Seq<char>) -> Seq<char>
    decreases items.len(),
{
    if items.len() == 0 {
        Seq::empty()
    } else if items.len() == 1 {
        items[0]
    } else {
        joined(items.drop_last(), sep) + sep + items.last()
    }
}

/// The characters of each string.
pub open spec fn views(items: Seq<String>) -> Seq<Seq<char>> {
    items.map_values(|s: String| s@)
}

/// Joins `items`, with `sep` between each two of them.
pub fn join(items: &Vec<String>, sep: &str) -> (out: String)
    ensures
        out@ == joined(views(items@), sep@),
{
    let mut out = String::new();
    let ghost all = views(items@);
    let mut i: usize = 0;
    while i < items.len()
        invariant
            all == views(items@),
            0 <= i <= items.len(),
            out@ == joined(all.take(i as int), sep@),
        decreases items.len() - i,
    {
        if i != 0 {
            out.append(sep);
        }
        out.append(items[i].as_str());
        proof {
            let next = all.take(i + 1);
            assert(next.drop_last() =~= all.take(i as int));
            assert(next.last() == items[i as int]@);
        }
        i = i + 1;
    }
    assert(all.take(i as int) =~= all);
    out
}

/// `needle` stands in `haystack` from position `at` on.
pub open spec fn occurs_at(haystack: Seq<char>, needle: Seq<char>, at: int) -> bool {
    0 <= at && at + needle.len() <= haystack.len() && haystack.subrange(at, at + needle.len())
        == needle
}

/// `needle` stands somewhere in `haystack`.
pub open spec fn occurs(haystack: Seq<char>, needle: Seq<char>) -> bool {
    exists|at: int| occurs_at(haystack, needle, at)
}

/// The characters of `s`, in a vector.
fn chars_of(s: &str) -> (out: Vec<char>)
    ensures
        out@ == s@,
{
    let mut out: Vec<char> = Vec::new();
    for c in it: s.chars()
        invariant
            out@ == it.seq().take(it.index()),
            it.seq() == s@,
    {
        out.push(c);
        proof {
            assert(it.seq().take(it.index() + 1) =~= it.seq().take(it.index()).push(c));
        }
    }
    out
}

/// Whether `needle` stands in `haystack` from position `at` on.
fn stands_at(haystack: &Vec<char>, needle: &Vec<char>, at: usize) -> (found: bool)
    requires
        at + needle.len() <= haystack.len(),
    ensures
        found == occurs_at(haystack@, needle@, at as int),
{
    let mut i: usize = 0;
    while i < needle.len()
        invariant
            at + needle.len() <= haystack.len(),
            0 <= i <= needle.len(),
            forall|j: int| 0 <= j < i ==> haystack@[at + j] == #[trigger] needle@[j],
        decreases needle.len() - i,
    {
        if haystack[at + i] != needle[i] {
            proof {
                let part = haystack@.subrange(at as int, at + needle@.len());
                assert(part[i as int] != needle@[i as int]);
            }
            return false;
        }
        i = i + 1;
    }
    assert(haystack@.subrange(at as int, at + needle@.len()) =~= needle@);
    true
}

/// Whether `needle` stands somewhere in `haystack`.
pub fn contains(haystack: &str, needle: &str) -> (found: bool)
    ensures
        found == occurs(haystack@, needle@),
{
    let hay = chars_of(haystack);
    let pin = chars_of(needle);
    if pin.len() > hay.len() {
        return false;
    }
    let last: usize = hay.len() - pin.len();
    let mut at: usize = 0;
    while at < last
        invariant
            hay@ == haystack@,
            pin@ == needle@,
            last + pin.len() == hay.len(),
            0 <= at <= last,
            forall|k: int| 0 <= k < at ==> !occurs_at(hay@, pin@, k),
        decreases last - at,
    {
        if stands_at(&hay, &pin, at) {
            return true;
        }
        at = at + 1;
    }
    stands_at(&hay, &pin, last)
}

/// At position `k` two byte strings part, and `a` is the smaller there: it ends or has the smaller
/// byte.
pub open spec fn smaller_at(a: Seq<u8>, b: Seq<u8>, k: int) -> bool {
    &&& 0 <= k <= a.len()
    &&& k < b.len()
    &&& forall|j: int| 0 <= j < k ==> a[j] == b[j]
    &&& k == a.len() || a[k] < b[k]
}

/// The order of strings: lexicographic by the bytes of their UTF-8 form.
pub open spec fn before(a: Seq<char>, b: Seq<char>) -> bool {
    exists|k: int| smaller_at(encode_utf8(a), encode_utf8(b), k)
}

/// Strings with the same UTF-8 form are the same.
proof fn lemma_encoding_injective(a: Seq<char>, b: Seq<char>)
    requires
        encode_utf8(a) == encode_utf8(b),
    ensures
        a == b,
{
    encode_utf8_decode_utf8(a);
    encode_utf8_decode_utf8(b);
}

/// Whether two strings are the same.
pub fn same(a: &str, b: &str) -> (equal: bool)
    ensures
        equal == (a@ == b@),
{
    let x: &[u8] = a.as_bytes();
    let y: &[u8] = b.as_bytes();
    if x.len() != y.len() {
        return false;
    }
    let mut i: usize = 0;
    while i < x.len()
        invariant
            x@ == encode_utf8(a@),
            y@ == encode_utf8(b@),
            x.len() == y.len(),
            forall|j: int| 0 <= j < i ==> x@[j] == y@[j],
        decreases x.len() - i,
    {
        if x[i] != y[i] {
            return false;
        }
        i = i + 1;
    }
    proof {
        assert(x@ =~= y@);
        lemma_encoding_injective(a@, b@);
    }
    true
}

/// No string comes before itself.
pub proof fn before_irreflexive(a: Seq<char>)
    ensures
        !before(a, a),
{
}

/// Of two different strings one comes before the other.
pub proof fn before_total(a: Seq<char>, b: Seq<char>)
    requires
        a != b,
    ensures
        before(a, b) || before(b, a),
{
    let x = encode_utf8(a);
    let y = encode_utf8(b);
    if x == y {
        lemma_encoding_injective(a, b);
    }
    let k = lemma_first_difference(x, y);
    assert(smaller_at(x, y, k) || smaller_at(y, x, k));
}

/// Where two different byte strings part.
proof fn lemma_first_difference(x: Seq<u8>, y: Seq<u8>) -> (k: int)
    requires
        x != y,
    ensures
        smaller_at(x, y, k) || smaller_at(y, x, k),
    decreases x.len(),
{
    if x.len() == 0 || y.len() == 0 {
        if x.len() == 0 && y.len() == 0 {
            assert(x =~= y);
        }
        0
    } else if x[0] != y[0] {
        0
    } else {
        let p = x.drop_first();
        let q = y.drop_first();
        if p == q {
            assert forall|j: int| 0 <= j < x.len() implies x[j] == y[j] by {
                if j > 0 {
                    assert(p[j - 1] == q[j - 1]);
                }
            }
            assert(x.len() == p.len() + 1 && y.len() == q.len() + 1);
            assert(x =~= y);
        }
        let k = lemma_first_difference(p, q);
        assert forall|j: int| 0 <= j < k + 1 implies x[j] == y[j] by {
            if j > 0 {
                assert(p[j - 1] == q[j - 1]);
            }
        }
        if k < p.len() {
            assert(p[k] == x[k + 1]);
        }
        if k < q.len() {
            assert(q[k] == y[k + 1]);
        }
        k + 1
    }
}

/// The order of strings is transitive.
pub proof fn before_transitive(a: Seq<char>, b: Seq<char>, c: Seq<char>)
    requires
        before(a, b),
        before(b, c),
    ensures
        before(a, c),
{
    let x = encode_utf8(a);
    let y = encode_utf8(b);
    let z = encode_utf8(c);
    let k = choose|k: int| smaller_at(x, y, k);
    let m = choose|m: int| smaller_at(y, z, m);
    let least = if k < m {
        k
    } else {
        m
    };
    assert(smaller_at(x, z, least));
}

/// Of two strings not both come before the other.
pub proof fn before_asymmetric(a: Seq<char>, b: Seq<char>)
    requires
        before(a, b),
    ensures
        !before(b, a),
{
    if before(b, a) {
        before_transitive(a, b, a);
        before_irreflexive(a);
    }
}

/// Whether `a` comes before `b`.
pub fn comes_before(a: &str, b: &str) -> (earlier: bool)
    ensures
        earlier == before(a@, b@),
{
    let x: &[u8] = a.as_bytes();
    let y: &[u8] = b.as_bytes();
    let mut i: usize = 0;
    while i < x.len() && i < y.len() && x[i] == y[i]
        invariant
            x@ == encode_utf8(a@),
            y@ == encode_utf8(b@),
            0 <= i <= x.len(),
            i <= y.len(),
            forall|j: int| 0 <= j < i ==> x@[j] == y@[j],
        decreases x.len() - i,
    {
        i = i + 1;
    }
    let earlier: bool = i < y.len() && (i == x.len() || x[i] < y[i]);
    proof {
        if earlier {
            assert(smaller_at(x@, y@, i as int));
        } else if before(a@, b@) {
            let k = choose|k: int| smaller_at(x@, y@, k);
            assert(k == i);
        }
    }
    earlier
}

/// The number that decimal digits stand for.
pub open spec fn number(chars: Seq<char>) -> int
    decreases chars.len(),
{
    if chars.len() == 0 {
        0
    } else {
        10 * number(chars.drop_last()) + (chars.last() as int - '0' as int)
    }
}

/// The digits of a number are digits, stand for that number and have no zero in front, but for zero
/// itself.
pub proof fn digits_read_back(n: nat)
    ensures
        number(digits(n)) == n,
        digits(n).len() > 0,
        forall|i: int| 0 <= i < digits(n).len() ==> '0' <= #[trigger] digits(n)[i] <= '9',
        n > 0 ==> digits(n)[0] != '0',
        n == 0 ==> digits(n).len() == 1,
    decreases n,
{
    let all = digits(n);
    if n < 10 {
        assert(all.drop_last() =~= Seq::<char>::empty());
        assert(number(all.drop_last()) == 0);
    } else {
        digits_read_back(n / 10);
        assert(all.drop_last() =~= digits(n / 10));
    }
}

/// A number in decimal reads back as that number: with a minus sign and the digits of its absolute value
/// where it is negative, with its digits alone otherwise.
pub proof fn decimal_reads_back(n: int)
    ensures
        n < 0 ==> decimal(n)[0] == '-' && number(decimal(n).skip(1)) == -n && decimal(n).skip(1)[0]
            != '0',
        n >= 0 ==> number(decimal(n)) == n && (n > 0 ==> decimal(n)[0] != '0'),
        decimal(n).len() > 0,
        n == 0 ==> decimal(n).len() == 1,
        forall|i: int|
            0 <= i < decimal(n).len() && !(n < 0 && i == 0) ==> '0' <= #[trigger] decimal(n)[i] <= '9',
{
    if n < 0 {
        digits_read_back((-n) as nat);
        assert(decimal(n).skip(1) =~= digits((-n) as nat));
        assert forall|i: int| 0 < i < decimal(n).len() implies '0' <= #[trigger] decimal(n)[i]
            <= '9' by {
            assert(decimal(n)[i] == digits((-n) as nat)[i - 1]);
        }
    } else {
        digits_read_back(n as nat);
    }
}

/// Different numbers are written differently.
pub proof fn decimal_tells_numbers_apart(a: int, b: int)
    requires
        decimal(a) == decimal(b),
    ensures
        a == b,
{
    decimal_reads_back(a);
    decimal_reads_back(b);
}

/// The characters of each string stand in their places.
pub proof fn views_keep_places(items: Seq<String>, i: int)
    requires
        0 <= i < items.len(),
    ensures
        views(items).len() == items.len(),
        views(items)[i] == items[i]@,
{
}

/// Joined strings begin with the first of them; the separator and the rest follow.
pub proof fn joined_from_the_front(first: Seq<char>, rest: Seq<Seq<char>>, sep: Seq<char>)
    ensures
        joined(Seq::empty(), sep) == Seq::<char>::empty(),
        joined(seq![first], sep) == first,
        rest.len() > 0 ==> joined(seq![first] + rest, sep) == first + sep + joined(rest, sep),
    decreases rest.len(),
{
    if rest.len() > 0 {
        let all = seq![first] + rest;
        assert(all.last() == rest.last());
        assert(all.drop_last() =~= seq![first] + rest.drop_last());
        if rest.len() == 1 {
            assert(all.drop_last() =~= seq![first]);
            assert(joined(all, sep) =~= first + sep + joined(rest, sep));
        } else {
            joined_from_the_front(first, rest.drop_last(), sep);
            assert(joined(all, sep) =~= first + sep + joined(rest, sep));
        }
    }
}

/// Each of the joined strings stands in the whole.
pub proof fn joined_holds_each(items: Seq<Seq<char>>, sep: Seq<char>, i: int)
    requires
        0 <= i < items.len(),
    ensures
        occurs(joined(items, sep), items[i]),
    decreases items.len(),
{
    let whole = joined(items, sep);
    if items.len() == 1 {
        assert(whole.subrange(0, whole.len() as int) =~= items[i]);
        assert(occurs_at(whole, items[i], 0));
    } else {
        let front = joined(items.drop_last(), sep);
        if i == items.len() - 1 {
            let at: int = (front.len() + sep.len()) as int;
            assert(whole.subrange(at, at + items[i].len()) =~= items[i]);
            assert(occurs_at(whole, items[i], at));
        } else {
            joined_holds_each(items.drop_last(), sep, i);
            let at = choose|at: int| occurs_at(front, items.drop_last()[i], at);
            assert(whole.subrange(at, at + items[i].len()) =~= front.subrange(
                at,
                at + items[i].len(),
            ));
            assert(occurs_at(whole, items[i], at));
        }
    }
}

/// A string stands in another exactly where the other is made of something, that string and something.
pub proof fn occurs_is_being_between(haystack: Seq<char>, needle: Seq<char>)
    ensures
        occurs(haystack, needle) <==> exists|front: Seq<char>, back: Seq<char>|
            haystack == #[trigger] (front + needle + back),
{
    if occurs(haystack, needle) {
        let at = choose|at: int| occurs_at(haystack, needle, at);
        let front = haystack.take(at);
        let back = haystack.skip(at + needle.len());
        assert(haystack.subrange(at, at + needle.len()) == needle);
        assert forall|i: int| 0 <= i < haystack.len() implies haystack[i] == (front + needle + back)[i] by {
            if at <= i < at + needle.len() {
                assert(haystack.subrange(at, at + needle.len())[i - at] == haystack[i]);
            }
        }
        assert(haystack =~= front + needle + back);
    }
    if exists|front: Seq<char>, back: Seq<char>| haystack == #[trigger] (front + needle + back) {
        let (front, back) = choose|front: Seq<char>, back: Seq<char>|
            haystack == #[trigger] (front + needle + back);
        let at = front.len() as int;
        assert(haystack.subrange(at, at + needle.len()) =~= needle);
        assert(occurs_at(haystack, needle, at));
    }
}

/// The UTF-8 form of two strings in a row is the UTF-8 form of one and then of the other.
proof fn lemma_encoding_concat(a: Seq<char>, b: Seq<char>)
    ensures
        encode_utf8(a + b) == encode_utf8(a) + encode_utf8(b),
    decreases a.len(),
{
    if a.len() == 0 {
        assert(a + b =~= b);
        assert(encode_utf8(a) + encode_utf8(b) =~= encode_utf8(b));
    } else {
        assert((a + b)[0] == a[0]);
        assert((a + b).drop_first() =~= a.drop_first() + b);
        lemma_encoding_concat(a.drop_first(), b);
        assert(encode_utf8(a + b) =~= encode_utf8(a) + encode_utf8(b));
    }
}

/// The UTF-8 form of a string with a character in its middle.
proof fn lemma_encoding_middle(front: Seq<char>, c: char, back: Seq<char>)
    ensures
        encode_utf8(front.push(c) + back) == encode_utf8(front) + encode_scalar(c as u32)
            + encode_utf8(back),
{
    let one = seq![c];
    assert(front.push(c) + back =~= front + (one + back));
    lemma_encoding_concat(front, one + back);
    lemma_encoding_concat(one, back);
    assert(one.drop_first() =~= Seq::<char>::empty());
    assert(encode_utf8(one.drop_first()) =~= Seq::<u8>::empty());
    assert(encode_utf8(one) =~= encode_scalar(c as u32));
    assert(encode_utf8(front.push(c) + back) =~= encode_utf8(front) + encode_scalar(c as u32)
        + encode_utf8(back));
}

proof fn lemma_lead_ranges(v: u32)
    by (bit_vector)
    ensures
        has_width_1_encoding(v) ==> leading_byte_width_1(v) <= 0x7f,
        has_width_2_encoding(v) ==> 0xc0 <= leading_byte_width_2(v) <= 0xdf,
        has_width_3_encoding(v) ==> 0xe0 <= leading_byte_width_3(v) <= 0xef,
        has_width_4_encoding(v) ==> 0xf0 <= leading_byte_width_4(v),
{
}

proof fn lemma_width_1_order(c: u32, d: u32)
    by (bit_vector)
    requires
        c < d,
        has_width_1_encoding(c),
        has_width_1_encoding(d),
    ensures
        leading_byte_width_1(c) < leading_byte_width_1(d),
{
}

proof fn lemma_width_2_order(c: u32, d: u32)
    by (bit_vector)
    requires
        c < d,
        has_width_2_encoding(c),
        has_width_2_encoding(d),
    ensures
        leading_byte_width_2(c) < leading_byte_width_2(d) || (leading_byte_width_2(c)
            == leading_byte_width_2(d) && last_continuation_byte(c) < last_continuation_byte(d)),
{
}

proof fn lemma_width_3_order(c: u32, d: u32)
    by (bit_vector)
    requires
        c < d,
        has_width_3_encoding(c),
        has_width_3_encoding(d),
    ensures
        leading_byte_width_3(c) < leading_byte_width_3(d) || (leading_byte_width_3(c)
            == leading_byte_width_3(d) && (second_last_continuation_byte(c)
            < second_last_continuation_byte(d) || (second_last_continuation_byte(c)
            == second_last_continuation_byte(d) && last_continuation_byte(c)
            < last_continuation_byte(d)))),
{
}

proof fn lemma_width_4_order(c: u32, d: u32)
    by (bit_vector)
    requires
        c < d,
        has_width_4_encoding(c),
        has_width_4_encoding(d),
    ensures
        leading_byte_width_4(c) < leading_byte_width_4(d) || (leading_byte_width_4(c)
            == leading_byte_width_4(d) && (third_last_continuation_byte(c)
            < third_last_continuation_byte(d) || (third_last_continuation_byte(c)
            == third_last_continuation_byte(d) && (second_last_continuation_byte(c)
            < second_last_continuation_byte(d) || (second_last_continuation_byte(c)
            == second_last_continuation_byte(d) && last_continuation_byte(c)
            < last_continuation_byte(d)))))),
{
}

/// The UTF-8 forms of two characters part before either ends, and the smaller character has the smaller
/// byte there.
proof fn lemma_scalar_order(c: char, d: char) -> (k: int)
    requires
        (c as u32) < (d as u32),
    ensures
        smaller_at(encode_scalar(c as u32), encode_scalar(d as u32), k),
        k < encode_scalar(c as u32).len(),
{
    let x = c as u32;
    let y = d as u32;
    char_is_scalar(c);
    char_is_scalar(d);
    lemma_lead_ranges(x);
    lemma_lead_ranges(y);
    let p = encode_scalar(x);
    let q = encode_scalar(y);
    if has_width_1_encoding(x) && has_width_1_encoding(y) {
        lemma_width_1_order(x, y);
    } else if has_width_2_encoding(x) && has_width_2_encoding(y) {
        lemma_width_2_order(x, y);
    } else if has_width_3_encoding(x) && has_width_3_encoding(y) {
        lemma_width_3_order(x, y);
    } else if has_width_4_encoding(x) && has_width_4_encoding(y) {
        lemma_width_4_order(x, y);
    }
    if p[0] != q[0] {
        0
    } else if p[1] != q[1] {
        1
    } else if p[2] != q[2] {
        2
    } else {
        3
    }
}

/// Two strings that part at some character are ordered by the code points there, whatever follows.
pub proof fn order_is_by_code_point(
    front: Seq<char>,
    c: char,
    d: char,
    c_rest: Seq<char>,
    d_rest: Seq<char>,
)
    requires
        (c as u32) < (d as u32),
    ensures
        before(front.push(c) + c_rest, front.push(d) + d_rest),
{
    let k = lemma_scalar_order(c, d);
    lemma_encoding_middle(front, c, c_rest);
    lemma_encoding_middle(front, d, d_rest);
    let a = encode_utf8(front.push(c) + c_rest);
    let b = encode_utf8(front.push(d) + d_rest);
    let at = encode_utf8(front).len() + k;
    assert forall|j: int| 0 <= j < at implies a[j] == b[j] by {
        if j >= encode_utf8(front).len() {
            let m = j - encode_utf8(front).len();
            assert(encode_scalar(c as u32)[m] == encode_scalar(d as u32)[m]);
        }
    }
    assert(a[at] == encode_scalar(c as u32)[k]);
    assert(b[at] == encode_scalar(d as u32)[k]);
    assert(smaller_at(a, b, at));
}

/// A string comes before every longer one that begins with it.
pub proof fn shorter_comes_first(a: Seq<char>, rest: Seq<char>)
    requires
        rest.len() > 0,
    ensures
        before(a, a + rest),
{
    lemma_encoding_concat(a, rest);
    encode_utf8_first_scalar(rest);
    assert(encode_utf8(rest).len() > 0);
    assert(smaller_at(encode_utf8(a), encode_utf8(a + rest), encode_utf8(a).len() as int));
}

} // verus!
