use vstd::prelude::*;
use vstd::std_specs::iter::IteratorSpec;
use vstd::string::StrSliceExecFns;
use vstd::string::StringExecFns;
use vstd::string::StringSliceAdditionalSpecFns;

verus! {

broadcast use vstd::string::group_string_axioms;

/// The pieces of `s` between the occurrences of `sep`, in order; there is always at
/// least one piece, and `s` with `k` separators has `k + 1` pieces.
pub open spec fn split_on(s: Seq<char>, sep: char) -> Seq<Seq<char>>
    decreases s.len(),
{
    if s.len() == 0 {
        seq![Seq::<char>::empty()]
    } else {
        let parts = split_on(s.drop_last(), sep);
        if s.last() == sep {
            parts.push(Seq::<char>::empty())
        } else {
            parts.update(parts.len() - 1, parts.last().push(s.last()))
        }
    }
}

/// The pieces of `parts` glued together with `sep` between neighbours.
pub open spec fn join_on(parts: Seq<Seq<char>>, sep: char) -> Seq<char>
    decreases parts.len(),
{
    if parts.len() == 0 {
        Seq::<char>::empty()
    } else if parts.len() == 1 {
        parts[0]
    } else {
        join_on(parts.drop_last(), sep).push(sep) + parts.last()
    }
}

/// The views of a sequence of string slices.
pub open spec fn views_of(parts: Seq<&str>) -> Seq<Seq<char>> {
    parts.map_values(|p: &str| p@)
}

pub proof fn lemma_split_on_len(s: Seq<char>, sep: char)
    ensures
        split_on(s, sep).len() >= 1,
    decreases s.len(),
{
    if s.len() > 0 {
        lemma_split_on_len(s.drop_last(), sep);
    }
}

/// No piece of a split holds the separator.
pub proof fn lemma_split_on_pieces_free(s: Seq<char>, sep: char)
    ensures
        forall|i: int|
            0 <= i < split_on(s, sep).len() ==> !(#[trigger] split_on(s, sep)[i]).contains(sep),
    decreases s.len(),
{
    if s.len() > 0 {
        lemma_split_on_pieces_free(s.drop_last(), sep);
        lemma_split_on_len(s.drop_last(), sep);
        let parts = split_on(s.drop_last(), sep);
        if s.last() != sep {
            let last = parts.last().push(s.last());
            assert forall|j: int| 0 <= j < last.len() implies last[j] != sep by {
                if j < parts.last().len() {
                    assert(last[j] == parts.last()[j]);
                    assert(!parts[parts.len() - 1].contains(sep));
                }
            }
        }
    }
}

/// Gluing the pieces of a split back together gives the string that was split.
pub proof fn law_join_split(s: Seq<char>, sep: char)
    ensures
        join_on(split_on(s, sep), sep) == s,
    decreases s.len(),
{
    if s.len() > 0 {
        let t = s.drop_last();
        law_join_split(t, sep);
        lemma_split_on_len(t, sep);
        let parts = split_on(t, sep);
        if s.last() == sep {
            assert(split_on(s, sep).drop_last() =~= parts);
            assert(s =~= t.push(sep) + Seq::<char>::empty());
        } else {
            lemma_join_extend_last(parts, sep, s.last());
            assert(s =~= t.push(s.last()));
        }
    }
}

proof fn lemma_join_extend_last(parts: Seq<Seq<char>>, sep: char, c: char)
    requires
        parts.len() >= 1,
    ensures
        join_on(parts.update(parts.len() - 1, parts.last().push(c)), sep) == join_on(parts, sep).push(c),
{
    let up = parts.update(parts.len() - 1, parts.last().push(c));
    if parts.len() == 1 {
    } else {
        assert(up.drop_last() =~= parts.drop_last());
        assert(join_on(up, sep) =~= join_on(parts, sep).push(c));
    }
}

proof fn lemma_split_append_free(a: Seq<char>, b: Seq<char>, sep: char)
    requires
        !b.contains(sep),
    ensures
        split_on(a + b, sep) == split_on(a, sep).update(
            split_on(a, sep).len() - 1,
            split_on(a, sep).last() + b,
        ),
    decreases b.len(),
{
    lemma_split_on_len(a, sep);
    let pa = split_on(a, sep);
    if b.len() == 0 {
        assert(a + b =~= a);
        assert(pa.last() + b =~= pa.last());
        assert(pa.update(pa.len() - 1, pa.last() + b) =~= pa);
    } else {
        let b1 = b.drop_last();
        assert(!b1.contains(sep)) by {
            assert forall|j: int| 0 <= j < b1.len() implies b1[j] != sep by {
                assert(b1[j] == b[j]);
            }
        }
        lemma_split_append_free(a, b1, sep);
        assert((a + b).drop_last() =~= a + b1);
        assert((a + b).last() == b.last());
        assert(b[b.len() - 1] != sep);
        let p1 = split_on(a + b1, sep);
        assert(p1.last() =~= pa.last() + b1);
        assert((pa.last() + b1).push(b.last()) =~= pa.last() + b);
        assert(split_on(a + b, sep) =~= pa.update(pa.len() - 1, pa.last() + b));
    }
}

/// Splitting pieces that were glued together, none of which holds the separator,
/// gives back the same pieces.
pub proof fn law_split_join(parts: Seq<Seq<char>>, sep: char)
    requires
        parts.len() >= 1,
        forall|i: int| 0 <= i < parts.len() ==> !(#[trigger] parts[i]).contains(sep),
    ensures
        split_on(join_on(parts, sep), sep) == parts,
    decreases parts.len(),
{
    if parts.len() == 1 {
        lemma_split_append_free(Seq::<char>::empty(), parts[0], sep);
        assert(Seq::<char>::empty() + parts[0] =~= parts[0]);
        assert(split_on(parts[0], sep) =~= parts);
    } else {
        let init = parts.drop_last();
        assert forall|i: int| 0 <= i < init.len() implies !(#[trigger] init[i]).contains(sep) by {
            assert(init[i] == parts[i]);
        }
        law_split_join(init, sep);
        let j = join_on(init, sep);
        assert(split_on(j.push(sep), sep) =~= init.push(Seq::<char>::empty())) by {
            assert(j.push(sep).drop_last() =~= j);
        }
        assert(!parts[parts.len() - 1].contains(sep));
        lemma_split_append_free(j.push(sep), parts.last(), sep);
        assert(Seq::<char>::empty() + parts.last() =~= parts.last());
        assert(split_on(join_on(parts, sep), sep) =~= parts);
    }
}

/// Splits `s` at every NUL character, as `str::split('\0')` does.
pub fn split_nul(s: &str) -> (parts: Vec<&str>)
    ensures
        views_of(parts@) == split_on(s@, '\0'),
{
    let n = s.unicode_len();
    let mut parts: Vec<&str> = Vec::new();
    let mut start: usize = 0;
    let mut i: usize = 0;
    let chars = s.chars();
    assert(chars.remaining() == s@);
    assert(s@.take(0) =~= Seq::<char>::empty());
    assert(views_of(parts@).push(s@.subrange(0, 0)) =~= seq![Seq::<char>::empty()]);
    for c in it: chars
        invariant
            n == s@.len(),
            i == it.index(),
            it.seq() == s@,
            start <= i <= n,
            split_on(s@.take(i as int), '\0') == views_of(parts@).push(s@.subrange(start as int, i as int)),
    {
        assert(c == s@[i as int]);
        let ghost before = s@.take(i as int);
        let ghost cur = s@.subrange(start as int, i as int);
        let ghost done = views_of(parts@);
        assert(s@.take(i + 1).drop_last() =~= before);
        assert(s@.take(i + 1).last() == c);
        if c == '\0' {
            let ghost old_parts = parts@;
            let piece = s.substring_char(start, i);
            parts.push(piece);
            start = i + 1;
            assert(views_of(parts@) =~= views_of(old_parts).push(piece@)) by {
                assert(parts@ =~= old_parts.push(piece));
            }
            assert(piece@ == cur);
            assert(i < n);
            assert(s@.subrange(i + 1, i + 1) =~= Seq::<char>::empty());
            assert(split_on(s@.take(i + 1), '\0') =~= done.push(cur).push(Seq::<char>::empty()));
            assert(views_of(parts@).push(s@.subrange(i + 1, i + 1)) =~= done.push(cur).push(Seq::<char>::empty()));
        } else {
            assert(s@.subrange(start as int, i + 1) =~= cur.push(c));
            assert(split_on(s@.take(i + 1), '\0') =~= done.push(cur.push(c)));
        }
        i = i + 1;
    }
    let piece = s.substring_char(start, n);
    parts.push(piece);
    assert(s@.take(n as int) =~= s@);
    parts
}


/// `parts` glued together with NUL characters, as `[&str]::join("\0")` does.
pub fn join_nul(parts: &Vec<&str>) -> (joined: String)
    ensures
        joined@ == join_on(views_of(parts@), '\0'),
{
    let mut joined = String::new();
    let n = parts.len();
    for i in 0..n
        invariant
            n == parts@.len(),
            joined@ == join_on(views_of(parts@).take(i as int), '\0'),
    {
        let ghost before = joined@;
        if i > 0 {
            crate::bindings::string_push(&mut joined, '\0');
        }
        joined.append(parts[i]);
        let ghost vs = views_of(parts@);
        assert(vs.take(i + 1).drop_last() =~= vs.take(i as int));
        assert(vs.take(i + 1).last() == parts@[i as int]@);
        if i == 0 {
            assert(joined@ =~= vs.take(1)[0]);
        } else {
            assert(joined@ =~= join_on(vs.take(i + 1), '\0'));
        }
    }
    assert(views_of(parts@).take(n as int) =~= views_of(parts@));
    joined
}


/// The largest character boundary of `b` that is at most `i`.
pub open spec fn boundary_at_most(b: Seq<u8>, i: int) -> int
    decreases i,
{
    if i <= 0 {
        0
    } else if vstd::utf8::is_char_boundary(b, i) {
        i
    } else {
        boundary_at_most(b, i - 1)
    }
}

/// `s` cut to at most `max` bytes of UTF-8 without splitting a character: unchanged when
/// it already fits, else the longest prefix that ends on a character boundary.
pub open spec fn truncate_spec(s: Seq<char>, max: int) -> Seq<char> {
    let b = vstd::utf8::encode_utf8(s);
    if b.len() <= max {
        s
    } else {
        vstd::utf8::decode_utf8(b.take(boundary_at_most(b, max)))
    }
}

proof fn lemma_boundary_at_most(b: Seq<u8>, i: int)
    requires
        vstd::utf8::valid_utf8(b),
        0 <= i <= b.len(),
    ensures
        0 <= boundary_at_most(b, i) <= i,
        vstd::utf8::is_char_boundary(b, boundary_at_most(b, i)),
    decreases i,
{
    broadcast use vstd::utf8::is_char_boundary_start_end_of_seq;
    if i > 0 && !vstd::utf8::is_char_boundary(b, i) {
        lemma_boundary_at_most(b, i - 1);
    }
}

/// Cuts `value` to at most `max` bytes without splitting a character.
pub fn truncate_utf8(value: &str, max: usize) -> (r: String)
    ensures
        r@ == truncate_spec(value@, max as int),
{
    broadcast use vstd::utf8::encode_utf8_valid_utf8, vstd::utf8::encode_utf8_decode_utf8;
    let bytes = value.as_bytes();
    let ghost b = value.spec_bytes();
    assert(bytes@ == b);
    if bytes.len() <= max {
        return String::from_str(value);
    }
    let mut end = max;
    while end > 0 && !value.is_char_boundary(end)
        invariant
            0 <= end <= max < b.len(),
            b == value.spec_bytes(),
            boundary_at_most(b, end as int) == boundary_at_most(b, max as int),
        decreases end,
    {
        end = end - 1;
    }
    proof {
        lemma_boundary_at_most(b, max as int);
    }
    let (head, _) = value.split_at(end);
    assert(head@ == vstd::utf8::decode_utf8(head.spec_bytes()));
    assert(head.spec_bytes() =~= b.take(end as int));
    String::from_str(head)
}

/// `s` with every space replaced by an underscore.
pub open spec fn spaces_replaced(s: Seq<char>) -> Seq<char> {
    s.map_values(|c: char| if c == ' ' { '_' } else { c })
}

/// Replaces every space of `s` with an underscore, as `str::replace(' ', "_")` does.
pub fn replace_spaces(s: &str) -> (r: String)
    ensures
        r@ == spaces_replaced(s@),
{
    let mut r = String::new();
    let chars = s.chars();
    assert(chars.remaining() == s@);
    for c in it: chars
        invariant
            it.seq() == s@,
            0 <= it.index() <= s@.len(),
            r@ == spaces_replaced(s@.take(it.index())),
    {
        let ghost i = it.index();
        assert(c == s@[i]);
        if c == ' ' {
            crate::bindings::string_push(&mut r, '_');
        } else {
            crate::bindings::string_push(&mut r, c);
        }
        assert(r@ =~= spaces_replaced(s@.take(i + 1)));
    }
    assert(s@.take(s@.len() as int) =~= s@);
    r
}

/// The UTF-8 encoding of a concatenation is the concatenation of the encodings.
pub proof fn lemma_encode_utf8_concat(a: Seq<char>, b: Seq<char>)
    ensures
        vstd::utf8::encode_utf8(a + b) == vstd::utf8::encode_utf8(a) + vstd::utf8::encode_utf8(b),
    decreases a.len(),
{
    if a.len() == 0 {
        assert(a + b =~= b);
        assert(vstd::utf8::encode_utf8(a) =~= Seq::<u8>::empty());
        assert(Seq::<u8>::empty() + vstd::utf8::encode_utf8(b) =~= vstd::utf8::encode_utf8(b));
    } else {
        lemma_encode_utf8_concat(a.drop_first(), b);
        assert((a + b).drop_first() =~= a.drop_first() + b);
        assert((a + b)[0] == a[0]);
        assert(vstd::utf8::encode_utf8(a + b) =~= vstd::utf8::encode_utf8(a) + vstd::utf8::encode_utf8(b));
    }
}

/// Replacing spaces keeps the UTF-8 length: both characters take one byte.
pub proof fn lemma_spaces_replaced_len(s: Seq<char>)
    ensures
        vstd::utf8::encode_utf8(spaces_replaced(s)).len() == vstd::utf8::encode_utf8(s).len(),
    decreases s.len(),
{
    if s.len() > 0 {
        lemma_spaces_replaced_len(s.drop_first());
        assert(spaces_replaced(s).drop_first() =~= spaces_replaced(s.drop_first()));
        if s[0] == ' ' {
            assert((' ' as u32) == 32);
            assert(('_' as u32) == 95);
        }
    }
}


/// Truncation never gives more than `max` bytes of UTF-8.
pub proof fn law_truncate_fits(s: Seq<char>, max: int)
    requires
        max >= 0,
    ensures
        vstd::utf8::encode_utf8(truncate_spec(s, max)).len() <= max,
{
    let b = vstd::utf8::encode_utf8(s);
    if b.len() > max {
        vstd::utf8::encode_utf8_valid_utf8(s);
        lemma_boundary_at_most(b, max);
        let e = boundary_at_most(b, max);
        vstd::utf8::valid_utf8_split(b, e);
        assert(b.take(e) =~= b.subrange(0, e));
        vstd::utf8::decode_utf8_encode_utf8(b.take(e));
    }
}

/// Truncation gives a prefix of the text it cuts.
pub proof fn law_truncate_prefix(s: Seq<char>, max: int)
    requires
        max >= 0,
    ensures
        truncate_spec(s, max).len() <= s.len(),
        truncate_spec(s, max) == s.take(truncate_spec(s, max).len() as int),
{
    let b = vstd::utf8::encode_utf8(s);
    if b.len() > max {
        vstd::utf8::encode_utf8_valid_utf8(s);
        vstd::utf8::encode_utf8_decode_utf8(s);
        lemma_boundary_at_most(b, max);
        let e = boundary_at_most(b, max);
        vstd::utf8::decode_utf8_split(b, e);
        assert(b.take(e) =~= b.subrange(0, e));
        let r = truncate_spec(s, max);
        let rest = vstd::utf8::decode_utf8(b.subrange(e, b.len() as int));
        assert(s =~= r + rest);
        assert(s.take(r.len() as int) =~= r);
    } else {
        assert(s.take(s.len() as int) =~= s);
    }
}

proof fn lemma_boundary_at_most_largest(b: Seq<u8>, i: int, j: int)
    requires
        vstd::utf8::valid_utf8(b),
        0 <= j <= i,
        vstd::utf8::is_char_boundary(b, j),
    ensures
        j <= boundary_at_most(b, i),
    decreases i,
{
    if i > 0 && !vstd::utf8::is_char_boundary(b, i) {
        lemma_boundary_at_most_largest(b, i - 1, j);
    }
}

proof fn lemma_prefix_is_boundary(s: Seq<char>, k: int)
    requires
        0 <= k <= s.len(),
    ensures
        vstd::utf8::is_char_boundary(
            vstd::utf8::encode_utf8(s),
            vstd::utf8::encode_utf8(s.take(k)).len() as int,
        ),
        vstd::utf8::encode_utf8(s.take(k)).len() <= vstd::utf8::encode_utf8(s).len(),
    decreases k,
{
    let b = vstd::utf8::encode_utf8(s);
    vstd::utf8::encode_utf8_valid_utf8(s);
    if k == 0 {
        assert(s.take(0) =~= Seq::<char>::empty());
        assert(vstd::utf8::encode_utf8(s.take(0)).len() == 0);
    } else {
        let t = s.drop_first();
        lemma_prefix_is_boundary(t, k - 1);
        vstd::utf8::encode_utf8_first_scalar(s);
        assert(vstd::utf8::pop_first_scalar(b) =~= vstd::utf8::encode_utf8(t));
        assert(s.take(k).drop_first() =~= t.take(k - 1));
        assert(s.take(k)[0] == s[0]);
        let first = vstd::utf8::encode_scalar(s[0] as u32);
        assert(vstd::utf8::encode_utf8(s.take(k)) == first + vstd::utf8::encode_utf8(t.take(k - 1)));
        assert(b == first + vstd::utf8::encode_utf8(t));
        assert(first.len() >= 1);
    }
}

proof fn lemma_prefix_bytes_grow(s: Seq<char>, k: int, m: int)
    requires
        0 <= k < m <= s.len(),
    ensures
        vstd::utf8::encode_utf8(s.take(k)).len() < vstd::utf8::encode_utf8(s.take(m)).len(),
{
    lemma_encode_utf8_concat(s.take(k), s.subrange(k, m));
    assert(s.take(k) + s.subrange(k, m) =~= s.take(m));
    let mid = s.subrange(k, m);
    assert(mid.len() > 0);
    vstd::utf8::encode_utf8_first_scalar(mid);
    assert(vstd::utf8::encode_utf8(mid).len() >= 1);
}

/// Truncation keeps as many characters as fit: one more would exceed `max` bytes.
pub proof fn law_truncate_longest(s: Seq<char>, max: int, k: int)
    requires
        max >= 0,
        truncate_spec(s, max).len() < k <= s.len(),
    ensures
        vstd::utf8::encode_utf8(s.take(k)).len() > max,
{
    let b = vstd::utf8::encode_utf8(s);
    let r = truncate_spec(s, max);
    law_truncate_prefix(s, max);
    law_truncate_fits(s, max);
    if b.len() <= max {
        assert(r == s);
    } else {
        vstd::utf8::encode_utf8_valid_utf8(s);
        lemma_boundary_at_most(b, max);
        let e = boundary_at_most(b, max);
        let rl = r.len() as int;
        vstd::utf8::valid_utf8_split(b, e);
        assert(b.take(e) =~= b.subrange(0, e));
        vstd::utf8::decode_utf8_encode_utf8(b.take(e));
        assert(vstd::utf8::encode_utf8(s.take(rl)) == b.take(e));
        lemma_prefix_bytes_grow(s, rl, k);
        lemma_prefix_is_boundary(s, k);
        let c = vstd::utf8::encode_utf8(s.take(k)).len() as int;
        if c <= max {
            lemma_boundary_at_most_largest(b, max, c);
        }
    }
}

/// Replacing spaces keeps every other character in place and leaves no space.
pub proof fn law_spaces_replaced(s: Seq<char>)
    ensures
        spaces_replaced(s).len() == s.len(),
        !spaces_replaced(s).contains(' '),
        forall|i: int| 0 <= i < s.len() && s[i] != ' ' ==> #[trigger] spaces_replaced(s)[i] == s[i],
        forall|i: int| 0 <= i < s.len() && s[i] == ' ' ==> #[trigger] spaces_replaced(s)[i] == '_',
{
    let r = spaces_replaced(s);
    assert forall|i: int| 0 <= i < r.len() implies r[i] != ' ' by {
        assert(r[i] == (if s[i] == ' ' { '_' } else { s[i] }));
    }
}

} // verus!
