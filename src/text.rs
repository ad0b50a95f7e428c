//! Character-level helpers on strings, stated over `Seq<char>`.
use vstd::prelude::*;
use vstd::std_specs::iter::IteratorSpec;

use vstd::utf8::{decode_utf8, valid_utf8};

verus! {

/// The characters after the last `/` of `s` (all of `s` when it holds none).
pub open spec fn last_segment(s: Seq<char>) -> Seq<char>
    decreases s.len(),
{
    if s.len() == 0 {
        s
    } else if s.last() == '/' {
        Seq::empty()
    } else {
        last_segment(s.drop_last()).push(s.last())
    }
}

/// The characters of `s`, in order.
pub fn chars_of(s: &str) -> (r: Vec<char>)
    ensures
        r@ == s@,
{
    broadcast use vstd::string::group_string_axioms;

    let mut it = s.chars();
    let mut r: Vec<char> = Vec::new();
    assert(it.remaining() == s@);
    loop
        invariant
            it.obeys_prophetic_iter_laws(),
            it.decrease() is Some,
            r@ + it.remaining() == s@,
        ensures
            r@ == s@,
        decreases it.decrease()->0,
    {
        let ghost before = it.remaining();
        match it.next() {
            Some(c) => {
                r.push(c);
                assert(r@ + it.remaining() =~= s@) by {
                    assert(before == seq![c] + before.drop_first());
                }
            },
            None => {
                assert(r@ =~= s@);
                break;
            },
        }
    }
    r
}

/// Relies on `String: FromIterator<&char>`: the string of the given characters.
#[verifier::external_body]
pub fn string_of(cs: &[char]) -> (r: String)
    ensures
        r@ == cs@,
{
    cs.iter().collect()
}

/// The characters of `cs` from index `from` up to, not including, `to`.
pub fn char_range(cs: &Vec<char>, from: usize, to: usize) -> (r: Vec<char>)
    requires
        from <= to <= cs@.len(),
    ensures
        r@ == cs@.subrange(from as int, to as int),
{
    let mut r: Vec<char> = Vec::new();
    let mut i: usize = from;
    while i < to
        invariant
            from <= i <= to <= cs@.len(),
            r@ == cs@.subrange(from as int, i as int),
        decreases to - i,
    {
        r.push(cs[i]);
        assert(cs@.subrange(from as int, i + 1) == cs@.subrange(from as int, i as int).push(cs@[i as int]));
        i = i + 1;
    }
    r
}

/// The final `/`-separated segment of a path.
pub fn last_path_segment(path: &str) -> (r: String)
    ensures
        r@ == last_segment(path@),
{
    let cs = chars_of(path);
    let mut start: usize = cs.len();
    assert(cs@.take(start as int) == cs@);
    assert(cs@.subrange(start as int, start as int) == Seq::<char>::empty());
    while start > 0 && cs[start - 1] != '/'
        invariant
            cs@ == path@,
            start <= cs@.len(),
            last_segment(path@) == last_segment(cs@.take(start as int)) + cs@.subrange(
                start as int,
                cs@.len() as int,
            ),
        decreases start,
    {
        let ghost t = cs@.take(start as int);
        assert(t.drop_last() == cs@.take(start - 1));
        assert(cs@.subrange(start - 1, cs@.len() as int) == seq![t.last()] + cs@.subrange(
            start as int,
            cs@.len() as int,
        ));
        start = start - 1;
    }
    proof {
        if start > 0 {
            assert(cs@.take(start as int).last() == '/');
        }
        assert(cs@.take(cs@.len() as int) == cs@);
    }
    let tail = char_range(&cs, start, cs.len());
    string_of(tail.as_slice())
}

/// The pieces of `s` between occurrences of `c`, empty pieces included.
pub open spec fn split_on(s: Seq<char>, c: char) -> Seq<Seq<char>>
    decreases s.len(),
{
    if s.len() == 0 {
        seq![Seq::empty()]
    } else {
        let rest = split_on(s.drop_last(), c);
        if s.last() == c {
            rest.push(Seq::empty())
        } else {
            rest.update(rest.len() - 1, rest.last().push(s.last()))
        }
    }
}

proof fn lemma_split_on_nonempty(s: Seq<char>, c: char)
    ensures
        split_on(s, c).len() >= 1,
    decreases s.len(),
{
    if s.len() > 0 {
        lemma_split_on_nonempty(s.drop_last(), c);
    }
}

/// Splits `s` at every occurrence of `c`, as `str::split` with a char does.
pub fn split_at_char(s: &str, c: char) -> (r: Vec<String>)
    ensures
        r@.map_values(|p: String| p@) == split_on(s@, c),
{
    let cs = chars_of(s);
    let mut done: Vec<String> = Vec::new();
    let mut cur: Vec<char> = Vec::new();
    let mut i: usize = 0;
    while i < cs.len()
        invariant
            cs@ == s@,
            i <= cs@.len(),
            done@.map_values(|p: String| p@).push(cur@) == split_on(cs@.take(i as int), c),
        decreases cs.len() - i,
    {
        let ghost prev = cs@.take(i as int);
        proof {
            assert(cs@.take(i + 1).drop_last() == prev);
            lemma_split_on_nonempty(prev, c);
        }
        if cs[i] == c {
            let piece = string_of(cur.as_slice());
            let ghost old_done = done@;
            done.push(piece);
            cur = Vec::new();
            assert(done@.map_values(|p: String| p@) =~= old_done.map_values(|p: String| p@).push(
                piece@,
            ));
            assert(done@.map_values(|p: String| p@).push(cur@) =~= split_on(
                cs@.take(i + 1),
                c,
            ));
        } else {
            let ghost old_cur = cur@;
            cur.push(cs[i]);
            assert(done@.map_values(|p: String| p@).push(cur@) =~= split_on(
                cs@.take(i + 1),
                c,
            ));
        }
        i = i + 1;
    }
    assert(cs@.take(cs@.len() as int) == cs@);
    let last = string_of(cur.as_slice());
    let ghost old_done = done@;
    done.push(last);
    assert(done@.map_values(|p: String| p@) =~= old_done.map_values(|p: String| p@).push(last@));
    done
}

/// `s` with every occurrence of `p` removed, scanning from the left and
/// taking matches that do not overlap, as `str::replace(p, "")` does.
pub open spec fn without(s: Seq<char>, p: Seq<char>) -> Seq<char>
    decreases s.len(),
{
    if p.len() == 0 || s.len() < p.len() {
        s
    } else if s.take(p.len() as int) == p {
        without(s.skip(p.len() as int), p)
    } else {
        seq![s[0]] + without(s.skip(1), p)
    }
}

/// Whether `p` occurs in `cs` at position `at`.
fn occurs_at(cs: &Vec<char>, at: usize, p: &Vec<char>) -> (r: bool)
    requires
        at + p@.len() <= cs@.len(),
    ensures
        r == (cs@.subrange(at as int, at + p@.len()) == p@),
{
    let n: usize = cs.len();
    let mut k: usize = 0;
    while k < p.len()
        invariant
            at + p@.len() <= cs@.len(),
            k <= p@.len(),
            n == cs@.len(),
            cs@.subrange(at as int, at + k) == p@.take(k as int),
        decreases p.len() - k,
    {
        assert(at + k < cs@.len());
        if cs[at + k] != p[k] {
            assert(cs@.subrange(at as int, at + p@.len())[k as int] != p@[k as int]);
            return false;
        }
        assert(cs@.subrange(at as int, at + k + 1) =~= p@.take(k + 1));
        k = k + 1;
    }
    assert(p@.take(p@.len() as int) == p@);
    true
}

/// Removes every occurrence of `pattern` from `s`.
pub fn remove_all(s: &str, pattern: &str) -> (r: String)
    ensures
        r@ == without(s@, pattern@),
{
    let cs = chars_of(s);
    let p = chars_of(pattern);
    if p.len() == 0 {
        return string_of(cs.as_slice());
    }
    let mut out: Vec<char> = Vec::new();
    let mut i: usize = 0;
    assert(cs@.skip(0) == cs@);
    while i <= cs.len() && p.len() <= cs.len() - i
        invariant
            cs@ == s@,
            p@ == pattern@,
            p@.len() > 0,
            i <= cs@.len(),
            out@ + without(cs@.skip(i as int), p@) == without(cs@, p@),
        decreases cs.len() - i,
    {
        let ghost rest = cs@.skip(i as int);
        assert(rest.take(p@.len() as int) == cs@.subrange(i as int, i + p@.len()));
        if occurs_at(&cs, i, &p) {
            assert(rest.skip(p@.len() as int) == cs@.skip(i + p@.len()));
            i = i + p.len();
        } else {
            assert(rest.skip(1) == cs@.skip(i + 1));
            let ghost before = out@;
            out.push(cs[i]);
            assert(out@ + without(cs@.skip(i + 1), p@) =~= before + (seq![rest[0]] + without(
                rest.skip(1),
                p@,
            )));
            i = i + 1;
        }
    }
    let tail = char_range(&cs, i, cs.len());
    assert(tail@ == cs@.skip(i as int));
    let ghost before = out@;
    let mut k: usize = 0;
    while k < tail.len()
        invariant
            out@ == before + tail@.take(k as int),
            k <= tail@.len(),
        decreases tail.len() - k,
    {
        out.push(tail[k]);
        assert(tail@.take(k + 1) == tail@.take(k as int).push(tail@[k as int]));
        k = k + 1;
    }
    assert(tail@.take(tail@.len() as int) == tail@);
    string_of(out.as_slice())
}

/// `s` with every trailing pair `"00"` removed, as
/// `str::trim_end_matches("00")` does.
pub open spec fn without_zero_pairs(s: Seq<char>) -> Seq<char>
    decreases s.len(),
{
    if s.len() >= 2 && s[s.len() - 2] == '0' && s[s.len() - 1] == '0' {
        without_zero_pairs(s.take(s.len() - 2))
    } else {
        s
    }
}

/// Removes every trailing pair `"00"` from `s`.
pub fn trim_zero_pairs(s: &str) -> (r: String)
    ensures
        r@ == without_zero_pairs(s@),
{
    let cs = chars_of(s);
    let mut end: usize = cs.len();
    assert(cs@.take(end as int) == cs@);
    while end >= 2 && cs[end - 2] == '0' && cs[end - 1] == '0'
        invariant
            cs@ == s@,
            end <= cs@.len(),
            without_zero_pairs(s@) == without_zero_pairs(cs@.take(end as int)),
        decreases end,
    {
        assert(cs@.take(end as int).take(end - 2) == cs@.take(end - 2));
        end = end - 2;
    }
    let r = char_range(&cs, 0, end);
    assert(r@ == cs@.take(end as int));
    string_of(r.as_slice())
}

/// Whether `c` has the Unicode property White_Space.
pub open spec fn is_white(c: char) -> bool {
    let v = c as u32;
    ||| 0x09 <= v <= 0x0d
    ||| v == 0x20
    ||| v == 0x85
    ||| v == 0xa0
    ||| v == 0x1680
    ||| 0x2000 <= v <= 0x200a
    ||| v == 0x2028
    ||| v == 0x2029
    ||| v == 0x202f
    ||| v == 0x205f
    ||| v == 0x3000
}

/// Whether `c` has the Unicode property White_Space.
pub fn white(c: char) -> (r: bool)
    ensures
        r == is_white(c),
{
    let v = c as u32;
    (0x09 <= v && v <= 0x0d) || v == 0x20 || v == 0x85 || v == 0xa0 || v == 0x1680 || (0x2000 <= v
        && v <= 0x200a) || v == 0x2028 || v == 0x2029 || v == 0x202f || v == 0x205f || v == 0x3000
}

/// `s` without its leading White_Space characters.
pub open spec fn trim_start(s: Seq<char>) -> Seq<char>
    decreases s.len(),
{
    if s.len() > 0 && is_white(s[0]) {
        trim_start(s.drop_first())
    } else {
        s
    }
}

/// `s` without its trailing White_Space characters.
pub open spec fn trim_end(s: Seq<char>) -> Seq<char>
    decreases s.len(),
{
    if s.len() > 0 && is_white(s.last()) {
        trim_end(s.drop_last())
    } else {
        s
    }
}

/// `s` without leading and trailing White_Space characters, as
/// `str::trim` leaves it.
pub open spec fn trimmed(s: Seq<char>) -> Seq<char> {
    trim_end(trim_start(s))
}

/// Removes leading and trailing White_Space characters.
pub fn trim_text(s: &str) -> (r: String)
    ensures
        r@ == trimmed(s@),
{
    let cs = chars_of(s);
    let mut start: usize = 0;
    assert(cs@.skip(0) == cs@);
    while start < cs.len() && white(cs[start])
        invariant
            cs@ == s@,
            start <= cs@.len(),
            trim_start(s@) == trim_start(cs@.skip(start as int)),
        decreases cs.len() - start,
    {
        assert(cs@.skip(start as int).drop_first() == cs@.skip(start + 1));
        start = start + 1;
    }
    let mut end: usize = cs.len();
    assert(cs@.subrange(start as int, end as int) == cs@.skip(start as int));
    while end > start && white(cs[end - 1])
        invariant
            cs@ == s@,
            start <= end <= cs@.len(),
            trim_start(s@) == cs@.skip(start as int),
            trimmed(s@) == trim_end(cs@.subrange(start as int, end as int)),
        decreases end,
    {
        assert(cs@.subrange(start as int, end as int).drop_last() == cs@.subrange(
            start as int,
            end - 1,
        ));
        end = end - 1;
    }
    let r = char_range(&cs, start, end);
    string_of(r.as_slice())
}

/// Relies on `String::from_utf8`: the text that the bytes encode, `None`
/// when they are not valid UTF-8.
#[verifier::external_body]
pub fn utf8_text(b: Vec<u8>) -> (r: Option<String>)
    ensures
        r is Some <==> valid_utf8(b@),
        r matches Some(t) ==> t@ == decode_utf8(b@),
{
    String::from_utf8(b).ok()
}

} // verus!
