//! Verified building blocks for strings: equality, lexicographic order,
//! decimal rendering, joining, and prefix stripping.  Diagnostic messages in
//! this crate are specified character by character, so these helpers carry
//! exact contracts over `Seq<char>` views.

use vstd::prelude::*;
use vstd::string::StrSliceExecFns;
use vstd::string::StringExecFns;

verus! {

/// Relies on `String::push`: appends exactly the one character to the end of
/// the string.
#[verifier::external_body]
pub fn push_char(s: &mut String, c: char)
    ensures
        final(s)@ == old(s)@.push(c),
{
    s.push(c);
}

/// Character-for-character equality of two string slices.
pub fn str_eq(a: &str, b: &str) -> (r: bool)
    ensures
        r == (a@ == b@),
{
    let a_len = a.unicode_len();
    let b_len = b.unicode_len();
    if a_len != b_len {
        return false;
    }
    let mut i: usize = 0;
    while i < a_len
        invariant
            a_len == a@.len(),
            b_len == b@.len(),
            a_len == b_len,
            i <= a_len,
            forall|j: int| 0 <= j < i ==> a@[j] == b@[j],
        decreases a_len - i,
    {
        if a.get_char(i) != b.get_char(i) {
            return false;
        }
        i += 1;
    }
    proof {
        assert(a@ =~= b@);
    }
    true
}

/// Lexicographic order on character sequences, comparing scalar values; the
/// order Rust's own string comparison uses.
pub open spec fn lex_le(a: Seq<char>, b: Seq<char>) -> bool
    decreases a.len(),
{
    if a.len() == 0 {
        true
    } else if b.len() == 0 {
        false
    } else if (a[0] as u32) < (b[0] as u32) {
        true
    } else if a[0] == b[0] {
        lex_le(a.subrange(1, a.len() as int), b.subrange(1, b.len() as int))
    } else {
        false
    }
}

/// Decides `lex_le` on string slices.
pub fn str_lex_le(a: &str, b: &str) -> (r: bool)
    ensures
        r == lex_le(a@, b@),
    decreases a@.len(),
{
    let a_len = a.unicode_len();
    let b_len = b.unicode_len();
    if a_len == 0 {
        true
    } else if b_len == 0 {
        false
    } else {
        let ca = a.get_char(0);
        let cb = b.get_char(0);
        if (ca as u32) < (cb as u32) {
            true
        } else if ca == cb {
            str_lex_le(a.substring_char(1, a_len), b.substring_char(1, b_len))
        } else {
            false
        }
    }
}

/// `lex_le` is total: any two sequences compare one way or the other.
pub proof fn lemma_lex_le_total(a: Seq<char>, b: Seq<char>)
    ensures
        lex_le(a, b) || lex_le(b, a),
    decreases a.len(),
{
    if a.len() == 0 || b.len() == 0 {
    } else if a[0] == b[0] {
        lemma_lex_le_total(a.subrange(1, a.len() as int), b.subrange(1, b.len() as int));
    } else {
        vstd::utf8::char_u32_cast(a[0], a[0] as u32);
        vstd::utf8::char_u32_cast(b[0], b[0] as u32);
    }
}

/// `lex_le` is reflexive.
pub proof fn lemma_lex_le_refl(a: Seq<char>)
    ensures
        lex_le(a, a),
    decreases a.len(),
{
    if a.len() > 0 {
        lemma_lex_le_refl(a.subrange(1, a.len() as int));
    }
}

/// `lex_le` is antisymmetric: sequences below each other are equal.
pub proof fn lemma_lex_le_antisym(a: Seq<char>, b: Seq<char>)
    requires
        lex_le(a, b),
        lex_le(b, a),
    ensures
        a == b,
    decreases a.len(),
{
    if a.len() == 0 {
        assert(a =~= b);
    } else if a[0] == b[0] {
        assert(b.len() > 0);
        lemma_lex_le_antisym(a.subrange(1, a.len() as int), b.subrange(1, b.len() as int));
        assert(a.subrange(1, a.len() as int).len() == b.subrange(1, b.len() as int).len());
        assert(a.len() == b.len());
        assert forall|i: int| 0 <= i < a.len() implies a[i] == b[i] by {
            if i > 0 {
                assert(a.subrange(1, a.len() as int)[i - 1] == b.subrange(1, b.len() as int)[i
                    - 1]);
            }
        }
        assert(a =~= b);
    } else {
        if (a[0] as u32) < (b[0] as u32) {
            assert(!lex_le(b, a));
        } else {
            assert(!lex_le(a, b));
        }
    }
}

/// `lex_le` is transitive.
pub proof fn lemma_lex_le_trans(a: Seq<char>, b: Seq<char>, c: Seq<char>)
    requires
        lex_le(a, b),
        lex_le(b, c),
    ensures
        lex_le(a, c),
    decreases a.len(),
{
    if a.len() == 0 || b.len() == 0 || c.len() == 0 {
    } else if a[0] == b[0] && b[0] == c[0] {
        lemma_lex_le_trans(
            a.subrange(1, a.len() as int),
            b.subrange(1, b.len() as int),
            c.subrange(1, c.len() as int),
        );
    }
}

/// The views of a sequence of owned strings.
pub open spec fn views(v: Seq<String>) -> Seq<Seq<char>> {
    v.map_values(|s: String| s@)
}

/// `lex_le` packaged as a relation value, for use with ordering lemmas.
pub open spec fn lex_leq() -> spec_fn(Seq<char>, Seq<char>) -> bool {
    |a: Seq<char>, b: Seq<char>| lex_le(a, b)
}

/// `lex_le` is a total ordering on character sequences.
pub proof fn lemma_lex_total_ordering()
    ensures
        vstd::relations::total_ordering(lex_leq()),
{
    assert forall|a: Seq<char>| #[trigger] lex_leq()(a, a) by {
        lemma_lex_le_refl(a);
    }
    assert forall|a: Seq<char>, b: Seq<char>|
        #[trigger] lex_leq()(a, b) && #[trigger] lex_leq()(b, a) implies a == b by {
        lemma_lex_le_antisym(a, b);
    }
    assert forall|a: Seq<char>, b: Seq<char>, c: Seq<char>|
        #[trigger] lex_leq()(a, b) && #[trigger] lex_leq()(b, c) implies lex_leq()(a, c) by {
        lemma_lex_le_trans(a, b, c);
    }
    assert forall|a: Seq<char>, b: Seq<char>|
        #[trigger] lex_leq()(a, b) || #[trigger] lex_leq()(b, a) by {
        lemma_lex_le_total(a, b);
    }
}

/// Whether one of the strings in `v` reads `k`.
pub fn contains_str(v: &Vec<String>, k: &str) -> (r: bool)
    ensures
        r == views(v@).contains(k@),
{
    let mut i: usize = 0;
    while i < v.len()
        invariant
            i <= v@.len(),
            forall|j: int| 0 <= j < i ==> views(v@)[j] != k@,
        decreases v@.len() - i,
    {
        if str_eq(v[i].as_str(), k) {
            assert(views(v@)[i as int] == k@);
            return true;
        }
        i += 1;
    }
    false
}

/// The decimal digit character for `d`.
pub open spec fn dec_digit(d: nat) -> char
    recommends
        d < 10,
{
    if d == 0 {
        '0'
    } else if d == 1 {
        '1'
    } else if d == 2 {
        '2'
    } else if d == 3 {
        '3'
    } else if d == 4 {
        '4'
    } else if d == 5 {
        '5'
    } else if d == 6 {
        '6'
    } else if d == 7 {
        '7'
    } else if d == 8 {
        '8'
    } else {
        '9'
    }
}

/// The usual decimal rendering of `n`, most significant digit first, with no
/// leading zeros (except for `n == 0` itself).
pub open spec fn dec_str(n: nat) -> Seq<char>
    decreases n,
{
    if n < 10 {
        seq![dec_digit(n)]
    } else {
        dec_str(n / 10).push(dec_digit(n % 10))
    }
}

fn dec_digit_char(d: u64) -> (c: char)
    requires
        d < 10,
    ensures
        c == dec_digit(d as nat),
{
    if d == 0 {
        '0'
    } else if d == 1 {
        '1'
    } else if d == 2 {
        '2'
    } else if d == 3 {
        '3'
    } else if d == 4 {
        '4'
    } else if d == 5 {
        '5'
    } else if d == 6 {
        '6'
    } else if d == 7 {
        '7'
    } else if d == 8 {
        '8'
    } else {
        '9'
    }
}

/// Appends the decimal rendering of `n` to `s`.
pub fn append_dec(s: &mut String, n: u64)
    ensures
        final(s)@ == old(s)@ + dec_str(n as nat),
    decreases n,
{
    if n < 10 {
        push_char(s, dec_digit_char(n));
    } else {
        append_dec(s, n / 10);
        push_char(s, dec_digit_char(n % 10));
    }
}

/// The strings of `parts`, joined by a comma and a space.
pub open spec fn join_comma(parts: Seq<Seq<char>>) -> Seq<char> {
    if parts.len() == 0 {
        Seq::<char>::empty()
    } else {
        parts[0] + join_comma_tail(parts.subrange(1, parts.len() as int))
    }
}

/// The tail of a comma join: each part preceded by a separator.
pub open spec fn join_comma_tail(parts: Seq<Seq<char>>) -> Seq<char>
    decreases parts.len(),
{
    if parts.len() == 0 {
        Seq::<char>::empty()
    } else {
        ", "@ + parts[0] + join_comma_tail(parts.subrange(1, parts.len() as int))
    }
}

fn append_join_tail(s: &mut String, parts: &Vec<String>, from: usize)
    requires
        1 <= from <= parts@.len(),
    ensures
        final(s)@ == old(s)@ + join_comma_tail(
            views(parts@).subrange(from as int, parts@.len() as int),
        ),
    decreases parts@.len() - from,
{
    if from == parts.len() {
        proof {
            assert(views(parts@).subrange(from as int, parts@.len() as int) =~= Seq::<
                Seq<char>,
            >::empty());
            assert(s@ =~= s@ + Seq::<char>::empty());
        }
    } else {
        s.append(", ");
        s.append(parts[from].as_str());
        append_join_tail(s, parts, from + 1);
        proof {
            let all = views(parts@);
            let sub = all.subrange(from as int, all.len() as int);
            assert(sub[0] == all[from as int]);
            assert(sub.subrange(1, sub.len() as int) =~= all.subrange(
                from as int + 1,
                all.len() as int,
            ));
            assert(final(s)@ =~= old(s)@ + join_comma_tail(sub));
        }
    }
}

/// Appends `parts`, joined by ", ", to `s`.
pub fn append_joined(s: &mut String, parts: &Vec<String>)
    ensures
        final(s)@ == old(s)@ + join_comma(views(parts@)),
{
    if parts.len() == 0 {
        proof {
            assert(s@ =~= s@ + join_comma(views(parts@)));
        }
    } else {
        s.append(parts[0].as_str());
        append_join_tail(s, parts, 1);
        proof {
            let all = views(parts@);
            assert(final(s)@ =~= old(s)@ + join_comma(all));
        }
    }
}

/// The strings of `parts`, joined by a newline.
pub open spec fn join_lines(parts: Seq<Seq<char>>) -> Seq<char> {
    if parts.len() == 0 {
        Seq::<char>::empty()
    } else {
        parts[0] + join_lines_tail(parts.subrange(1, parts.len() as int))
    }
}

/// The tail of a newline join: each part preceded by a newline.
pub open spec fn join_lines_tail(parts: Seq<Seq<char>>) -> Seq<char>
    decreases parts.len(),
{
    if parts.len() == 0 {
        Seq::<char>::empty()
    } else {
        seq!['\n'] + parts[0] + join_lines_tail(parts.subrange(1, parts.len() as int))
    }
}

fn append_lines_tail(s: &mut String, parts: &Vec<String>, from: usize)
    requires
        1 <= from <= parts@.len(),
    ensures
        final(s)@ == old(s)@ + join_lines_tail(
            views(parts@).subrange(from as int, parts@.len() as int),
        ),
    decreases parts@.len() - from,
{
    if from == parts.len() {
        proof {
            assert(views(parts@).subrange(from as int, parts@.len() as int) =~= Seq::<
                Seq<char>,
            >::empty());
            assert(s@ =~= s@ + Seq::<char>::empty());
        }
    } else {
        push_char(s, '\n');
        s.append(parts[from].as_str());
        append_lines_tail(s, parts, from + 1);
        proof {
            let all = views(parts@);
            let sub = all.subrange(from as int, all.len() as int);
            assert(sub[0] == all[from as int]);
            assert(sub.subrange(1, sub.len() as int) =~= all.subrange(
                from as int + 1,
                all.len() as int,
            ));
            assert(final(s)@ =~= old(s)@ + join_lines_tail(sub));
        }
    }
}

/// Appends `parts`, joined by newlines, to `s`.
pub fn append_lines(s: &mut String, parts: &Vec<String>)
    ensures
        final(s)@ == old(s)@ + join_lines(views(parts@)),
{
    if parts.len() == 0 {
        proof {
            assert(s@ =~= s@ + join_lines(views(parts@)));
        }
    } else {
        s.append(parts[0].as_str());
        append_lines_tail(s, parts, 1);
        proof {
            let all = views(parts@);
            assert(final(s)@ =~= old(s)@ + join_lines(all));
        }
    }
}

/// `m` with one leading occurrence of `p` removed; `m` itself when `p` is not
/// a prefix.
pub open spec fn strip_prefix_spec(m: Seq<char>, p: Seq<char>) -> Seq<char> {
    if p.len() <= m.len() && m.subrange(0, p.len() as int) == p {
        m.subrange(p.len() as int, m.len() as int)
    } else {
        m
    }
}

/// Strips one leading occurrence of `prefix` from `msg`.
pub fn strip_prefix(msg: &str, prefix: &str) -> (r: String)
    ensures
        r@ == strip_prefix_spec(msg@, prefix@),
{
    let m_len = msg.unicode_len();
    let p_len = prefix.unicode_len();
    if p_len <= m_len {
        let head = msg.substring_char(0, p_len);
        if str_eq(head, prefix) {
            return String::from_str(msg.substring_char(p_len, m_len));
        }
    }
    String::from_str(msg)
}

/// Sorts owned strings into `lex_le` order; the result is exactly the
/// `sort_by` of the input's views.
pub fn sorted_strings(input: &Vec<String>) -> (r: Vec<String>)
    ensures
        views(r@) == views(input@).sort_by(lex_leq()),
{
    let mut r: Vec<String> = Vec::new();
    let mut i: usize = 0;
    proof {
        assert(views(r@) =~= views(input@.subrange(0, 0)));
    }
    while i < input.len()
        invariant
            i <= input@.len(),
            vstd::relations::sorted_by(views(r@), lex_leq()),
            views(r@).to_multiset() == views(input@.subrange(0, i as int)).to_multiset(),
        decreases input@.len() - i,
    {
        let ghost pre = views(input@.subrange(0, i as int));
        let x = input[i].clone();
        insert_sorted(&mut r, x);
        i += 1;
        proof {
            let post = views(input@.subrange(0, i as int));
            assert(post =~= pre.push(input@[i - 1]@));
            broadcast use vstd::seq_lib::group_to_multiset_ensures;

            assert(views(r@).to_multiset() == post.to_multiset());
        }
    }
    proof {
        assert(input@.subrange(0, input@.len() as int) =~= input@);
        lemma_lex_total_ordering();
        views(input@).lemma_sort_by_ensures(lex_leq());
        vstd::seq_lib::lemma_sorted_unique(
            views(r@),
            views(input@).sort_by(lex_leq()),
            lex_leq(),
        );
    }
    r
}

fn insert_sorted(r: &mut Vec<String>, x: String)
    requires
        vstd::relations::sorted_by(views(old(r)@), lex_leq()),
    ensures
        vstd::relations::sorted_by(views(final(r)@), lex_leq()),
        views(final(r)@).to_multiset() == views(old(r)@).to_multiset().insert(x@),
{
    let mut pos: usize = 0;
    while pos < r.len() && str_lex_le(r[pos].as_str(), x.as_str())
        invariant
            pos <= r@.len(),
            forall|j: int| 0 <= j < pos ==> lex_le(views(r@)[j], x@),
            r == old(r),
        decreases r@.len() - pos,
    {
        pos += 1;
    }
    proof {
        if pos < r@.len() {
            lemma_lex_le_total(views(r@)[pos as int], x@);
        }
    }
    let ghost before = r@;
    r.insert(pos, x);
    proof {
        let old_views = views(before);
        let new_views = views(r@);
        assert(new_views =~= old_views.insert(pos as int, x@));
        lemma_sorted_insert(old_views, pos as int, x@);
        lemma_views_multiset_insert(old_views, pos as int, x@);
    }
}

proof fn lemma_sorted_insert(s: Seq<Seq<char>>, pos: int, x: Seq<char>)
    requires
        0 <= pos <= s.len(),
        vstd::relations::sorted_by(s, lex_leq()),
        forall|j: int| 0 <= j < pos ==> lex_le(s[j], x),
        pos < s.len() ==> lex_le(x, s[pos]),
    ensures
        vstd::relations::sorted_by(s.insert(pos, x), lex_leq()),
{
    let t = s.insert(pos, x);
    assert forall|i: int, j: int| 0 <= i <= j < t.len() implies lex_leq()(t[i], t[j]) by {
        lemma_lex_le_refl(t[i]);
        if i < j {
            if j < pos {
                assert(t[i] == s[i] && t[j] == s[j]);
            } else if i > pos {
                assert(t[i] == s[i - 1] && t[j] == s[j - 1]);
            } else if i == pos && j == pos {
            } else if i == pos {
                // t[i] == x, t[j] == s[j - 1] with j - 1 >= pos
                if j - 1 > pos {
                    assert(lex_leq()(s[pos], s[j - 1]));
                    lemma_lex_le_trans(x, s[pos], s[j - 1]);
                }
            } else if j == pos {
                assert(t[i] == s[i]);
            } else {
                // i < pos <= j - 1
                assert(t[i] == s[i] && t[j] == s[j - 1]);
                assert(lex_leq()(s[i], s[j - 1]));
            }
        }
    }
}

proof fn lemma_views_multiset_insert(s: Seq<Seq<char>>, pos: int, x: Seq<char>)
    requires
        0 <= pos <= s.len(),
    ensures
        s.insert(pos, x).to_multiset() == s.to_multiset().insert(x),
{
    broadcast use vstd::seq_lib::group_to_multiset_ensures;
    broadcast use vstd::multiset::group_multiset_axioms;

    let t = s.insert(pos, x);
    assert(t.remove(pos) =~= s);
    assert(t[pos] == x);
    assert(t.remove(pos).to_multiset() =~= t.to_multiset().remove(x));
    assert(t.contains(x));
    assert(t.to_multiset().count(x) > 0);
    assert(t.to_multiset() =~= t.to_multiset().remove(x).insert(x));
    assert(t.to_multiset() =~= s.to_multiset().insert(x));
}

} // verus!
