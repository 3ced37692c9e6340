//! Update checking: version comparison, the disabled update check, the update
//! settings, and the decisions around a Homebrew Cask upgrade.
use vstd::prelude::*;
use crate::text::{
    all_digits, chars_of, contains_str, digits_value, is_digit, parse_u32, seq_contains,
    to_owned_string, u32_body,
};
use crate::stream::{utf8_lossy, utf8_lossy_text};

verus! {

// ---------------------------------------------------------------------------
// Version comparison
// ---------------------------------------------------------------------------

/// `str::split('.')` on a text: the pieces between dots, including empty ones.
/// The empty text splits into one empty piece.
pub open spec fn split_on_dot(s: Seq<char>) -> Seq<Seq<char>>
    decreases s.len(),
{
    if s.len() == 0 {
        seq![Seq::<char>::empty()]
    } else {
        let pieces = split_on_dot(s.drop_last());
        if s.last() == '.' {
            pieces.push(Seq::<char>::empty())
        } else {
            pieces.update(pieces.len() - 1, pieces.last().push(s.last()))
        }
    }
}

/// The pieces that parse as `u32`, in order (a `filter_map` over the pieces).
pub open spec fn parsed_pieces(pieces: Seq<Seq<char>>) -> Seq<u32>
    decreases pieces.len(),
{
    if pieces.len() == 0 {
        Seq::<u32>::empty()
    } else {
        let rest = parsed_pieces(pieces.drop_last());
        match parse_u32(pieces.last()) {
            Some(n) => rest.push(n),
            None => rest,
        }
    }
}

/// The numeric components of a version text such as `3.3.35`.
pub open spec fn version_parts(s: Seq<char>) -> Seq<u32> {
    parsed_pieces(split_on_dot(s))
}

/// Component `i` of a version, with missing components read as zero.
pub open spec fn part_at(v: Seq<u32>, i: int) -> u32 {
    if 0 <= i < v.len() {
        v[i]
    } else {
        0
    }
}

/// The longer of the two component lists' lengths.
pub open spec fn max_len(a: Seq<u32>, b: Seq<u32>) -> int {
    if a.len() >= b.len() {
        a.len() as int
    } else {
        b.len() as int
    }
}

/// `a` is greater than `b` when compared component by component from index
/// `i` on, missing components counting as zero.
pub open spec fn greater_from(a: Seq<u32>, b: Seq<u32>, i: int) -> bool
    decreases max_len(a, b) - i,
{
    if i < 0 || i >= max_len(a, b) {
        false
    } else if part_at(a, i) > part_at(b, i) {
        true
    } else if part_at(a, i) < part_at(b, i) {
        false
    } else {
        greater_from(a, b, i + 1)
    }
}

/// Version `a` is strictly newer than version `b`.
pub open spec fn version_newer(a: Seq<u32>, b: Seq<u32>) -> bool {
    greater_from(a, b, 0)
}

/// Parses a text as `u32` the way `str::parse::<u32>` does.
pub fn parse_u32_chars(v: &Vec<char>, from: usize, to: usize) -> (r: Option<u32>)
    requires
        from <= to <= v.len(),
    ensures
        r == parse_u32(v@.subrange(from as int, to as int)),
{
    let ghost s = v@.subrange(from as int, to as int);
    let mut start = from;
    if from < to && v[from] == '+' {
        start = from + 1;
    }
    let ghost body = v@.subrange(start as int, to as int);
    proof {
        if s.len() > 0 && s[0] == '+' {
            assert(body =~= s.drop_first());
        } else {
            assert(body =~= s);
        }
        assert(body == u32_body(s));
    }
    if start == to {
        return None;
    }
    let mut value: u64 = 0;
    let mut i = start;
    while i < to
        invariant
            from <= start < to <= v.len(),
            start <= i <= to,
            body == v@.subrange(start as int, to as int),
            s == v@.subrange(from as int, to as int),
            body == u32_body(s),
            all_digits(v@.subrange(start as int, i as int)),
            value == digits_value(v@.subrange(start as int, i as int)),
            value <= u32::MAX,
        decreases to - i,
    {
        let c = v[i];
        let ghost prefix = v@.subrange(start as int, i as int);
        let ghost next = v@.subrange(start as int, i + 1);
        assert(next.drop_last() =~= prefix);
        assert(prefix =~= body.subrange(0, i - start));
        assert(next =~= body.subrange(0, i + 1 - start));
        if !('0' <= c && c <= '9') {
            assert(!is_digit(body[i - start]));
            assert(!all_digits(body));
            return None;
        }
        let d = (c as u32) - ('0' as u32);
        value = value * 10 + d as u64;
        assert(value == digits_value(next));
        if value > u32::MAX as u64 {
            proof {
                lemma_digits_value_prefix_bound(body, (i + 1 - start) as nat);
            }
            return None;
        }
        i = i + 1;
    }
    assert(v@.subrange(start as int, to as int) =~= body);
    Some(value as u32)
}

/// The value of a digit prefix never exceeds the value of the whole digit text.
proof fn lemma_digits_value_prefix_bound(s: Seq<char>, k: nat)
    requires
        k <= s.len(),
        all_digits(s.subrange(0, k as int)),
    ensures
        all_digits(s) ==> digits_value(s.subrange(0, k as int)) <= digits_value(s),
    decreases s.len() - k,
{
    if k < s.len() && all_digits(s) {
        lemma_digits_value_prefix_bound(s, k + 1);
        let p = s.subrange(0, k as int);
        let q = s.subrange(0, (k + 1) as int);
        assert(q.drop_last() =~= p);
        assert(is_digit(s[k as int]));
    } else if k == s.len() {
        assert(s.subrange(0, k as int) =~= s);
    }
}

/// The numeric components of a version text, as
/// `split('.').filter_map(parse).collect()` computes them.
pub fn parse_version(s: &str) -> (parts: Vec<u32>)
    ensures
        parts@ == version_parts(s@),
{
    let v = chars_of(s);
    let mut parts: Vec<u32> = Vec::new();
    let mut piece_start: usize = 0;
    let mut i: usize = 0;
    proof {
        assert(v@.subrange(0, 0) =~= Seq::<char>::empty());
    }
    while i < v.len()
        invariant
            v@ == s@,
            piece_start <= i <= v.len(),
            split_on_dot(v@.subrange(0, i as int)).len() >= 1,
            split_on_dot(v@.subrange(0, i as int)).last() == v@.subrange(
                piece_start as int,
                i as int,
            ),
            parts@ == parsed_pieces(split_on_dot(v@.subrange(0, i as int)).drop_last()),
        decreases v.len() - i,
    {
        let ghost pre = v@.subrange(0, i as int);
        let ghost post = v@.subrange(0, i + 1);
        assert(post.drop_last() =~= pre);
        let ghost pieces = split_on_dot(pre);
        if v[i] == '.' {
            let parsed = parse_u32_chars(&v, piece_start, i);
            assert(split_on_dot(post) == pieces.push(Seq::<char>::empty()));
            assert(split_on_dot(post).drop_last() =~= pieces);
            assert(pieces =~= pieces.drop_last().push(pieces.last()));
            match parsed {
                Some(n) => parts.push(n),
                None => {},
            }
            piece_start = i + 1;
            assert(v@.subrange(piece_start as int, i + 1) =~= Seq::<char>::empty());
        } else {
            let ghost np = split_on_dot(post);
            assert(np == pieces.update(pieces.len() - 1, pieces.last().push(v@[i as int])));
            assert(np.drop_last() =~= pieces.drop_last());
            assert(np.last() =~= v@.subrange(piece_start as int, i + 1));
        }
        i = i + 1;
    }
    let parsed = parse_u32_chars(&v, piece_start, v.len());
    let ghost pieces = split_on_dot(v@.subrange(0, v.len() as int));
    assert(v@.subrange(0, v.len() as int) =~= s@);
    assert(pieces =~= pieces.drop_last().push(pieces.last()));
    match parsed {
        Some(n) => parts.push(n),
        None => {},
    }
    parts
}

/// Whether version `latest` is strictly newer than version `current`
/// (for example `3.3.36` is newer than `3.3.35`; equal versions are not).
pub fn compare_versions(latest: &str, current: &str) -> (newer: bool)
    ensures
        newer == version_newer(version_parts(latest@), version_parts(current@)),
{
    let latest_parts = parse_version(latest);
    let current_parts = parse_version(current);
    let n = if latest_parts.len() >= current_parts.len() {
        latest_parts.len()
    } else {
        current_parts.len()
    };
    let ghost a = latest_parts@;
    let ghost b = current_parts@;
    let mut i: usize = 0;
    while i < n
        invariant
            a == latest_parts@,
            b == current_parts@,
            a == version_parts(latest@),
            b == version_parts(current@),
            n == max_len(a, b),
            i <= n,
            greater_from(a, b, 0) == greater_from(a, b, i as int),
        decreases n - i,
    {
        let l = if i < latest_parts.len() {
            latest_parts[i]
        } else {
            0
        };
        let c = if i < current_parts.len() {
            current_parts[i]
        } else {
            0
        };
        assert(l == part_at(a, i as int) && c == part_at(b, i as int));
        if l > c {
            assert(greater_from(a, b, i as int));
            return true;
        } else if l < c {
            assert(!greater_from(a, b, i as int));
            return false;
        }
        assert(greater_from(a, b, i as int) == greater_from(a, b, i + 1));
        i = i + 1;
    }
    false
}

/// A version is never newer than itself.
pub proof fn lemma_version_newer_irreflexive(a: Seq<u32>)
    ensures
        !version_newer(a, a),
{
    lemma_greater_from_irreflexive(a, 0);
}

proof fn lemma_greater_from_irreflexive(a: Seq<u32>, i: int)
    ensures
        !greater_from(a, a, i),
    decreases max_len(a, a) - i,
{
    if 0 <= i < max_len(a, a) {
        lemma_greater_from_irreflexive(a, i + 1);
    }
}

/// If `a` is newer than `b`, then `b` is not newer than `a`.
pub proof fn lemma_version_newer_asymmetric(a: Seq<u32>, b: Seq<u32>)
    ensures
        version_newer(a, b) ==> !version_newer(b, a),
{
    lemma_greater_from_asymmetric(a, b, 0);
}

proof fn lemma_greater_from_asymmetric(a: Seq<u32>, b: Seq<u32>, i: int)
    ensures
        greater_from(a, b, i) ==> !greater_from(b, a, i),
    decreases max_len(a, b) - i,
{
    assert(max_len(a, b) == max_len(b, a));
    if 0 <= i < max_len(a, b) {
        lemma_greater_from_asymmetric(a, b, i + 1);
    }
}

/// Newer-than is transitive: if `a` is newer than `b` and `b` newer than `c`,
/// then `a` is newer than `c`.
pub proof fn lemma_version_newer_transitive(a: Seq<u32>, b: Seq<u32>, c: Seq<u32>)
    requires
        version_newer(a, b),
        version_newer(b, c),
    ensures
        version_newer(a, c),
{
    lemma_greater_from_transitive(a, b, c, 0);
}

/// Two versions are equal when every component (missing ones read as zero)
/// is equal.
pub open spec fn version_same(a: Seq<u32>, b: Seq<u32>) -> bool {
    forall|i: int| 0 <= i ==> #[trigger] part_at(a, i) == part_at(b, i)
}

/// Any two versions compare: one is newer, or the other is, or they are the
/// same version.
pub proof fn lemma_version_trichotomy(a: Seq<u32>, b: Seq<u32>)
    ensures
        version_newer(a, b) || version_newer(b, a) || version_same(a, b),
{
    lemma_greater_from_trichotomy(a, b, 0);
    if !version_newer(a, b) && !version_newer(b, a) {
        assert forall|i: int| 0 <= i implies #[trigger] part_at(a, i) == part_at(b, i) by {
            if i >= max_len(a, b) {
                assert(part_at(a, i) == 0 && part_at(b, i) == 0);
            }
        }
    }
}

proof fn lemma_greater_from_trichotomy(a: Seq<u32>, b: Seq<u32>, i: int)
    requires
        0 <= i,
    ensures
        greater_from(a, b, i) || greater_from(b, a, i) || forall|j: int|
            i <= j < max_len(a, b) ==> part_at(a, j) == part_at(b, j),
    decreases max_len(a, b) - i,
{
    assert(max_len(a, b) == max_len(b, a));
    if i < max_len(a, b) {
        lemma_greater_from_trichotomy(a, b, i + 1);
    }
}

/// Past the longer of the two lengths, no component differs.
proof fn lemma_greater_from_beyond(a: Seq<u32>, b: Seq<u32>, i: int)
    requires
        i >= max_len(a, b),
    ensures
        !greater_from(a, b, i),
{
}

proof fn lemma_greater_from_transitive(a: Seq<u32>, b: Seq<u32>, c: Seq<u32>, i: int)
    requires
        0 <= i,
        greater_from(a, b, i),
        greater_from(b, c, i),
    ensures
        greater_from(a, c, i),
    decreases max_len(a, b) - i,
{
    assert(i < max_len(a, b));
    assert(i < max_len(b, c));
    if part_at(a, i) > part_at(b, i) || part_at(b, i) > part_at(c, i) {
        assert(part_at(a, i) > part_at(c, i));
    } else {
        assert(part_at(a, i) == part_at(b, i) && part_at(b, i) == part_at(c, i));
        lemma_greater_from_transitive(a, b, c, i + 1);
        if i >= max_len(a, c) {
            assert(part_at(a, i) == 0 && part_at(c, i) == 0);
            lemma_greater_from_beyond(a, c, i + 1);
            assert(false);
        }
    }
}

/// `split_on_dot` always yields at least one piece.
proof fn lemma_split_nonempty(s: Seq<char>)
    ensures
        split_on_dot(s).len() >= 1,
    decreases s.len(),
{
    if s.len() > 0 {
        lemma_split_nonempty(s.drop_last());
    }
}

/// A text without a dot is one piece.
proof fn lemma_split_no_dot(x: Seq<char>)
    requires
        forall|i: int| 0 <= i < x.len() ==> x[i] != '.',
    ensures
        split_on_dot(x) == seq![x],
    decreases x.len(),
{
    if x.len() > 0 {
        lemma_split_no_dot(x.drop_last());
        assert(x.drop_last().push(x.last()) =~= x);
        assert(seq![x.drop_last()].update(0, x.drop_last().push(x.last())) =~= seq![x]);
    } else {
        assert(x =~= Seq::<char>::empty());
    }
}

/// Splitting `x.y` gives the pieces of `x` followed by the pieces of `y`.
proof fn lemma_split_dot(x: Seq<char>, y: Seq<char>)
    ensures
        split_on_dot(x + seq!['.'] + y) == split_on_dot(x) + split_on_dot(y),
    decreases y.len(),
{
    let z = x + seq!['.'] + y;
    if y.len() == 0 {
        assert(z =~= x.push('.'));
        assert(z.drop_last() =~= x);
        assert(split_on_dot(x) + seq![Seq::<char>::empty()] =~= split_on_dot(x).push(
            Seq::<char>::empty(),
        ));
    } else {
        assert(z.drop_last() =~= x + seq!['.'] + y.drop_last());
        assert(z.last() == y.last());
        lemma_split_dot(x, y.drop_last());
        lemma_split_nonempty(y.drop_last());
        lemma_split_nonempty(x);
        let px = split_on_dot(x);
        let py = split_on_dot(y.drop_last());
        if y.last() == '.' {
            assert((px + py).push(Seq::<char>::empty()) =~= px + py.push(Seq::<char>::empty()));
        } else {
            assert((px + py).update((px + py).len() - 1, (px + py).last().push(y.last())) =~= px
                + py.update(py.len() - 1, py.last().push(y.last())));
        }
    }
}

/// The parsed components of consecutive pieces are those of each part, in order.
proof fn lemma_parsed_append(p: Seq<Seq<char>>, q: Seq<Seq<char>>)
    ensures
        parsed_pieces(p + q) == parsed_pieces(p) + parsed_pieces(q),
    decreases q.len(),
{
    if q.len() == 0 {
        assert(p + q =~= p);
        assert(parsed_pieces(p) + parsed_pieces(q) =~= parsed_pieces(p));
    } else {
        assert((p + q).drop_last() =~= p + q.drop_last());
        assert((p + q).last() == q.last());
        lemma_parsed_append(p, q.drop_last());
        match parse_u32(q.last()) {
            Some(n) => {
                assert((parsed_pieces(p) + parsed_pieces(q.drop_last())).push(n) =~= parsed_pieces(p)
                    + parsed_pieces(q.drop_last()).push(n));
            },
            None => {},
        }
    }
}

/// The components of `x.y` are the components of `x` followed by those of
/// `y`: a dot separates components, whatever the texts around it.
pub proof fn lemma_version_parts_dot(x: Seq<char>, y: Seq<char>)
    ensures
        version_parts(x + seq!['.'] + y) == version_parts(x) + version_parts(y),
{
    lemma_split_dot(x, y);
    lemma_parsed_append(split_on_dot(x), split_on_dot(y));
}

/// A text without a dot is one component when it parses as `u32`, else none.
pub proof fn lemma_version_parts_single(x: Seq<char>)
    requires
        forall|i: int| 0 <= i < x.len() ==> x[i] != '.',
    ensures
        version_parts(x) == match parse_u32(x) {
            Some(n) => seq![n],
            None => Seq::<u32>::empty(),
        },
{
    lemma_split_no_dot(x);
    let p = seq![x];
    assert(p.drop_last() =~= Seq::<Seq<char>>::empty());
    assert(p.last() == x);
    assert(parsed_pieces(p.drop_last()) == Seq::<u32>::empty());
    match parse_u32(x) {
        Some(n) => {
            assert(Seq::<u32>::empty().push(n) =~= seq![n]);
        },
        None => {},
    }
}

/// Components compare as numbers: when all earlier components are equal, the
/// first component that differs decides, by numeric order (missing components
/// read as zero).
pub proof fn lemma_first_difference_decides(a: Seq<u32>, b: Seq<u32>, k: int)
    requires
        0 <= k,
        forall|j: int| 0 <= j < k ==> #[trigger] part_at(a, j) == part_at(b, j),
        part_at(a, k) != part_at(b, k),
    ensures
        version_newer(a, b) <==> part_at(a, k) > part_at(b, k),
{
    lemma_first_difference_from(a, b, 0, k);
}

proof fn lemma_first_difference_from(a: Seq<u32>, b: Seq<u32>, i: int, k: int)
    requires
        0 <= i <= k,
        forall|j: int| 0 <= j < k ==> #[trigger] part_at(a, j) == part_at(b, j),
        part_at(a, k) != part_at(b, k),
    ensures
        greater_from(a, b, i) <==> part_at(a, k) > part_at(b, k),
    decreases k - i,
{
    if k >= max_len(a, b) {
        assert(part_at(a, k) == 0 && part_at(b, k) == 0);
    }
    if i < k {
        assert(part_at(a, i) == part_at(b, i));
        lemma_first_difference_from(a, b, i + 1, k);
    }
}

/// Versions that are the same (equal components, missing ones read as zero)
/// compare alike against every version: `3.3` and `3.3.0` are one version.
pub proof fn lemma_same_versions_compare_alike(a: Seq<u32>, a2: Seq<u32>, b: Seq<u32>)
    requires
        version_same(a, a2),
    ensures
        version_newer(a, b) == version_newer(a2, b),
        version_newer(b, a) == version_newer(b, a2),
        !version_newer(a, a2),
        !version_newer(a2, a),
{
    lemma_same_from(a, a2, b, 0);
    if version_newer(a, a2) || version_newer(a2, a) {
        lemma_version_trichotomy(a, a2);
        lemma_version_newer_irreflexive(a);
        lemma_same_from(a, a2, a, 0);
        assert(false);
    }
}

proof fn lemma_same_from(a: Seq<u32>, a2: Seq<u32>, b: Seq<u32>, i: int)
    requires
        0 <= i,
        version_same(a, a2),
    ensures
        greater_from(a, b, i) == greater_from(a2, b, i),
        greater_from(b, a, i) == greater_from(b, a2, i),
    decreases (if max_len(a, b) >= max_len(a2, b) {
        max_len(a, b)
    } else {
        max_len(a2, b)
    }) - i,
{
    assert(part_at(a, i) == part_at(a2, i));
    if i < max_len(a, b) || i < max_len(a2, b) {
        lemma_same_from(a, a2, b, i + 1);
        if i >= max_len(a, b) {
            assert(part_at(a, i) == 0 && part_at(b, i) == 0);
            lemma_greater_from_beyond(a, b, i + 1);
            lemma_greater_from_beyond(b, a, i + 1);
        }
        if i >= max_len(a2, b) {
            assert(part_at(a2, i) == 0 && part_at(b, i) == 0);
            lemma_greater_from_beyond(a2, b, i + 1);
            lemma_greater_from_beyond(b, a2, i + 1);
        }
    }
}

/// Trailing zero components do not change a version.
pub proof fn lemma_trailing_zero_same(a: Seq<u32>)
    ensures
        version_same(a, a.push(0)),
{
    assert forall|i: int| 0 <= i implies #[trigger] part_at(a, i) == part_at(a.push(0), i) by {
        if i < a.len() {
            assert(a.push(0)[i] == a[i]);
        }
    }
}

/// The order on the texts the update check compares: `3.10.0` is newer than
/// `3.9.9` (components compare as numbers, not as text), and `3.3` and
/// `3.3.0` are the same version, neither newer than the other.
pub proof fn lemma_version_text_examples()
    ensures
        version_newer(version_parts("3.10.0"@), version_parts("3.9.9"@)),
        !version_newer(version_parts("3.9.9"@), version_parts("3.10.0"@)),
        !version_newer(version_parts("3.3"@), version_parts("3.3.0"@)),
        !version_newer(version_parts("3.3.0"@), version_parts("3.3"@)),
{
    reveal_strlit("3.10.0");
    reveal_strlit("3.9.9");
    reveal_strlit("3.3");
    reveal_strlit("3.3.0");
    let three = seq!['3'];
    let ten = seq!['1', '0'];
    let nine = seq!['9'];
    let zero = seq!['0'];
    assert(digits_value(ten) == 10) by {
        reveal_with_fuel(digits_value, 3);
        assert(ten.drop_last() =~= seq!['1']);
        assert(ten.drop_last().drop_last() =~= Seq::<char>::empty());
    }
    assert(digits_value(three) == 3) by {
        reveal_with_fuel(digits_value, 2);
        assert(three.drop_last() =~= Seq::<char>::empty());
    }
    assert(digits_value(nine) == 9) by {
        reveal_with_fuel(digits_value, 2);
        assert(nine.drop_last() =~= Seq::<char>::empty());
    }
    assert(digits_value(zero) == 0) by {
        reveal_with_fuel(digits_value, 2);
        assert(zero.drop_last() =~= Seq::<char>::empty());
    }
    assert(parse_u32(three) == Some(3u32));
    assert(parse_u32(ten) == Some(10u32));
    assert(parse_u32(nine) == Some(9u32));
    assert(parse_u32(zero) == Some(0u32));
    lemma_version_parts_single(three);
    lemma_version_parts_single(ten);
    lemma_version_parts_single(nine);
    lemma_version_parts_single(zero);
    // 3.10.0
    lemma_version_parts_dot(ten, zero);
    assert("3.10.0"@ =~= three + seq!['.'] + (ten + seq!['.'] + zero));
    lemma_version_parts_dot(three, ten + seq!['.'] + zero);
    let v3100 = version_parts("3.10.0"@);
    assert(v3100 =~= seq![3u32, 10u32, 0u32]);
    // 3.9.9
    lemma_version_parts_dot(nine, nine);
    assert("3.9.9"@ =~= three + seq!['.'] + (nine + seq!['.'] + nine));
    lemma_version_parts_dot(three, nine + seq!['.'] + nine);
    let v399 = version_parts("3.9.9"@);
    assert(v399 =~= seq![3u32, 9u32, 9u32]);
    // 3.3 and 3.3.0
    assert("3.3"@ =~= three + seq!['.'] + three);
    lemma_version_parts_dot(three, three);
    let v33 = version_parts("3.3"@);
    assert(v33 =~= seq![3u32, 3u32]);
    lemma_version_parts_dot(three, zero);
    assert("3.3.0"@ =~= three + seq!['.'] + (three + seq!['.'] + zero));
    lemma_version_parts_dot(three, three + seq!['.'] + zero);
    let v330 = version_parts("3.3.0"@);
    assert(v330 =~= seq![3u32, 3u32, 0u32]);

    assert(part_at(v3100, 0) == part_at(v399, 0));
    lemma_first_difference_decides(v3100, v399, 1);
    lemma_first_difference_decides(v399, v3100, 1);
    assert(v33.push(0) =~= v330);
    lemma_trailing_zero_same(v33);
    lemma_same_versions_compare_alike(v33, v330, v33);
}

// ---------------------------------------------------------------------------
// Update information and settings
// ---------------------------------------------------------------------------

/// The default interval between automatic update checks, in hours.
pub const DEFAULT_CHECK_INTERVAL_HOURS: u64 = 24;

/// What an update check reports.
#[derive(Debug, PartialEq, Eq)]
pub struct UpdateInfo {
    pub current_version: String,
    pub latest_version: String,
    pub has_update: bool,
    pub download_url: String,
    pub release_notes: String,
    pub published_at: String,
    pub source: Option<String>,
}

/// The update checker's settings.
#[derive(Debug, Clone, Copy, PartialEq, Eq)]
pub struct UpdateSettings {
    pub auto_check: bool,
    pub last_check_time: u64,
    pub check_interval_hours: u64,
}

/// The check interval used when stored settings do not name one.
pub fn default_check_interval() -> (hours: u64)
    ensures
        hours == DEFAULT_CHECK_INTERVAL_HOURS,
{
    DEFAULT_CHECK_INTERVAL_HOURS
}

impl Default for UpdateSettings {
    /// Automatic checks off, never checked, the default interval.
    fn default() -> (s: Self)
        ensures
            !s.auto_check,
            s.last_check_time == 0,
            s.check_interval_hours == DEFAULT_CHECK_INTERVAL_HOURS,
    {
        UpdateSettings {
            auto_check: false,
            last_check_time: 0,
            check_interval_hours: DEFAULT_CHECK_INTERVAL_HOURS,
        }
    }
}

/// The release notes of the disabled update check.
pub open spec fn disabled_notes() -> Seq<char> {
    "自动更新检查已禁用。"@
}

/// The update check. Automatic updates are not published, so the check makes
/// no network access and always reports that the running version is the
/// latest one, with no download and the source `disabled`.
pub fn check_for_updates(current_version: &str) -> (r: Result<UpdateInfo, String>)
    ensures
        r matches Ok(info) && info.current_version@ == current_version@
            && info.latest_version@ == current_version@ && !info.has_update
            && info.download_url@ == Seq::<char>::empty() && info.release_notes@
            == disabled_notes() && info.published_at@ == Seq::<char>::empty()
            && (info.source matches Some(src) && src@ == "disabled"@),
{
    Ok(
        UpdateInfo {
            current_version: to_owned_string(current_version),
            latest_version: to_owned_string(current_version),
            has_update: false,
            download_url: String::new(),
            release_notes: to_owned_string("自动更新检查已禁用。"),
            published_at: String::new(),
            source: Some(to_owned_string("disabled")),
        },
    )
}

// ---------------------------------------------------------------------------
// Homebrew Cask
// ---------------------------------------------------------------------------

/// The Caskroom directories that show a Homebrew Cask installation.
pub open spec fn caskroom_paths_spec() -> Seq<Seq<char>> {
    seq!["/opt/homebrew/Caskroom/llm-proxy-manager"@, "/usr/local/Caskroom/llm-proxy-manager"@]
}

/// The Caskroom directories to look for, in order.
pub fn homebrew_caskroom_paths() -> (paths: Vec<&'static str>)
    ensures
        paths@.len() == 2,
        forall|i: int| 0 <= i < 2 ==> #[trigger] paths@[i]@ == caskroom_paths_spec()[i],
{
    let mut paths: Vec<&'static str> = Vec::new();
    paths.push("/opt/homebrew/Caskroom/llm-proxy-manager");
    paths.push("/usr/local/Caskroom/llm-proxy-manager");
    paths
}

/// Whether the app was installed with Homebrew Cask: only on macOS, when one
/// of the Caskroom directories exists (`caskroom_present[i]` says whether the
/// `i`-th of `homebrew_caskroom_paths` exists).
pub fn is_homebrew_installed(target_is_macos: bool, caskroom_present: &Vec<bool>) -> (installed:
    bool)
    ensures
        installed == (target_is_macos && caskroom_present@.contains(true)),
{
    if !target_is_macos {
        return false;
    }
    let mut i: usize = 0;
    while i < caskroom_present.len()
        invariant
            target_is_macos,
            i <= caskroom_present.len(),
            forall|j: int| 0 <= j < i ==> !caskroom_present@[j],
        decreases caskroom_present.len() - i,
    {
        if caskroom_present[i] {
            assert(caskroom_present@[i as int] == true);
            return true;
        }
        i = i + 1;
    }
    false
}

/// The result of `brew upgrade` off macOS.
pub fn brew_upgrade_unsupported() -> (r: Result<String, String>)
    ensures
        r matches Err(e) && e@ == "brew_not_supported"@,
{
    Err(to_owned_string("brew_not_supported"))
}

/// The brew binary to run: the Apple-silicon location first, then the Intel
/// one; an error when neither exists.
pub fn select_brew_path(opt_homebrew_exists: bool, usr_local_exists: bool) -> (r: Result<
    &'static str,
    String,
>)
    ensures
        opt_homebrew_exists ==> (r matches Ok(p) && p@ == "/opt/homebrew/bin/brew"@),
        !opt_homebrew_exists && usr_local_exists ==> (r matches Ok(p) && p@
            == "/usr/local/bin/brew"@),
        !opt_homebrew_exists && !usr_local_exists ==> (r matches Err(e) && e@
            == "brew_not_found"@),
{
    if opt_homebrew_exists {
        Ok("/opt/homebrew/bin/brew")
    } else if usr_local_exists {
        Ok("/usr/local/bin/brew")
    } else {
        Err(to_owned_string("brew_not_found"))
    }
}

/// How running `brew upgrade --cask` went.
#[derive(Debug, PartialEq, Eq)]
pub enum BrewRun {
    /// The command could not be started.
    ExecFailed,
    /// The command did not finish within the time limit.
    TimedOut,
    /// The command finished with this status and these output bytes.
    Finished { success: bool, stdout: Vec<u8>, stderr: Vec<u8> },
}

/// The upgrade's result: the standard output (decoded as
/// `String::from_utf8_lossy` does) on success; otherwise an error key for the
/// user interface.
pub fn brew_upgrade_outcome(run: BrewRun) -> (r: Result<String, String>)
    ensures
        match run {
            BrewRun::ExecFailed => r matches Err(e) && e@ == "brew_exec_failed"@,
            BrewRun::TimedOut => r matches Err(e) && e@ == "brew_timeout"@,
            BrewRun::Finished { success, stdout, stderr } => if success {
                r matches Ok(o) && o@ == utf8_lossy_text(stdout@)
            } else if seq_contains(utf8_lossy_text(stderr@), "already installed"@) || seq_contains(
                utf8_lossy_text(stdout@),
                "already installed"@,
            ) {
                r matches Err(e) && e@ == "brew_already_latest"@
            } else {
                r matches Err(e) && e@ == "brew_upgrade_failed"@
            },
        },
{
    match run {
        BrewRun::ExecFailed => Err(to_owned_string("brew_exec_failed")),
        BrewRun::TimedOut => Err(to_owned_string("brew_timeout")),
        BrewRun::Finished { success, stdout, stderr } => {
            let out = utf8_lossy(stdout.as_slice());
            if success {
                return Ok(out);
            }
            let err = utf8_lossy(stderr.as_slice());
            if contains_str(err.as_str(), "already installed") || contains_str(
                out.as_str(),
                "already installed",
            ) {
                Err(to_owned_string("brew_already_latest"))
            } else {
                Err(to_owned_string("brew_upgrade_failed"))
            }
        },
    }
}

} // verus!
