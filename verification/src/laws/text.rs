//! Text: trimming, words, parts and order.
use crate::protocol::{level_of, DebugLevel};
use crate::text::{
    before, first_word, is_space, joined_by, lists, second_word, spaces_after, spaces_before, split_on, starts_with,
    text_le, trimmed, word_len,
};
use vstd::prelude::*;

verus! {

/// Nothing but white space.
pub open spec fn all_space(s: Seq<char>) -> bool {
    forall|i: int| 0 <= i < s.len() ==> is_space(#[trigger] s[i])
}

/// No white space at all.
pub open spec fn no_space(s: Seq<char>) -> bool {
    forall|i: int| 0 <= i < s.len() ==> !is_space(#[trigger] s[i])
}

/// The end of a text, or more of it behind white space.
pub open spec fn ends_here(s: Seq<char>) -> bool {
    s.len() == 0 || is_space(s[0])
}

/// These characters are white space and no others.
pub proof fn white_space_is(c: char)
    ensures
        is_space(c) <==> {
            ||| c == '\t'
            ||| c == '\n'
            ||| c == '\u{b}'
            ||| c == '\u{c}'
            ||| c == '\r'
            ||| c == ' '
            ||| c == '\u{85}'
            ||| c == '\u{a0}'
            ||| c == '\u{1680}'
            ||| c == '\u{2000}'
            ||| c == '\u{2001}'
            ||| c == '\u{2002}'
            ||| c == '\u{2003}'
            ||| c == '\u{2004}'
            ||| c == '\u{2005}'
            ||| c == '\u{2006}'
            ||| c == '\u{2007}'
            ||| c == '\u{2008}'
            ||| c == '\u{2009}'
            ||| c == '\u{200a}'
            ||| c == '\u{2028}'
            ||| c == '\u{2029}'
            ||| c == '\u{202f}'
            ||| c == '\u{205f}'
            ||| c == '\u{3000}'
        },
{
}

proof fn leading_spaces(a: Seq<char>, x: Seq<char>)
    requires
        all_space(a),
        x.len() == 0 || !is_space(x[0]),
    ensures
        spaces_before(a + x) == a.len(),
    decreases a.len(),
{
    if a.len() == 0 {
        assert(a + x =~= x);
    } else {
        let rest = a.skip(1);
        assert((a + x).skip(1) =~= rest + x);
        assert(all_space(rest)) by {
            assert forall|i: int| 0 <= i < rest.len() implies is_space(#[trigger] rest[i]) by {
                assert(rest[i] == a[i + 1]);
            }
        }
        leading_spaces(rest, x);
        assert(is_space(a[0]));
    }
}

proof fn trailing_spaces(x: Seq<char>, b: Seq<char>)
    requires
        all_space(b),
        x.len() == 0 || !is_space(x.last()),
    ensures
        spaces_after(x + b) == b.len(),
    decreases b.len(),
{
    if b.len() == 0 {
        assert(x + b =~= x);
    } else {
        let rest = b.drop_last();
        assert((x + b).drop_last() =~= x + rest);
        assert(all_space(rest)) by {
            assert forall|i: int| 0 <= i < rest.len() implies is_space(#[trigger] rest[i]) by {
                assert(rest[i] == b[i]);
            }
        }
        trailing_spaces(x, rest);
        assert(is_space(b[b.len() - 1]));
        assert((x + b).last() == b.last());
    }
}

/// Trimming takes the white space off both ends, and nothing else.
pub proof fn trimming_takes_white_space_off(a: Seq<char>, t: Seq<char>, b: Seq<char>)
    requires
        all_space(a),
        all_space(b),
        t.len() > 0 ==> !is_space(t[0]) && !is_space(t.last()),
    ensures
        trimmed(a + t + b) == t,
{
    let s = a + t + b;
    if t.len() == 0 {
        let ab = a + b;
        assert(s =~= ab);
        assert(all_space(ab)) by {
            assert forall|i: int| 0 <= i < ab.len() implies is_space(#[trigger] ab[i]) by {
                if i < a.len() {
                    assert(ab[i] == a[i]);
                } else {
                    assert(ab[i] == b[i - a.len()]);
                }
            }
        }
        leading_spaces(ab, Seq::empty());
        assert(ab + Seq::<char>::empty() =~= ab);
        assert(trimmed(s) =~= t);
    } else {
        assert(s =~= a + (t + b));
        assert((t + b)[0] == t[0]);
        leading_spaces(a, t + b);
        assert(s.skip(a.len() as int) =~= t + b);
        trailing_spaces(t, b);
        assert((t + b).take(t.len() as int) =~= t);
    }
}

proof fn word_is(w: Seq<char>, r: Seq<char>)
    requires
        no_space(w),
        ends_here(r),
    ensures
        word_len(w + r) == w.len(),
    decreases w.len(),
{
    if w.len() == 0 {
        assert(w + r =~= r);
    } else {
        let rest = w.skip(1);
        assert((w + r).skip(1) =~= rest + r);
        assert(no_space(rest)) by {
            assert forall|i: int| 0 <= i < rest.len() implies !is_space(#[trigger] rest[i]) by {
                assert(rest[i] == w[i + 1]);
            }
        }
        word_is(rest, r);
        assert(!is_space(w[0]));
    }
}

/// The first word is what stands between the white space at the start and the next.
pub proof fn the_first_word_is(a: Seq<char>, w: Seq<char>, r: Seq<char>)
    requires
        all_space(a),
        no_space(w),
        w.len() > 0,
        ends_here(r),
    ensures
        first_word(a + w + r) == w,
{
    let s = a + w + r;
    assert(s =~= a + (w + r));
    assert((w + r)[0] == w[0]);
    assert(!is_space(w[0]));
    leading_spaces(a, w + r);
    assert(s.skip(a.len() as int) =~= w + r);
    word_is(w, r);
    assert((w + r).take(w.len() as int) =~= w);
}

/// White space has no words.
pub proof fn white_space_has_no_words(a: Seq<char>)
    requires
        all_space(a),
    ensures
        first_word(a) == Seq::<char>::empty(),
{
    leading_spaces(a, Seq::empty());
    assert(a + Seq::<char>::empty() =~= a);
    assert(first_word(a) =~= Seq::<char>::empty());
}

/// The second word is the first one behind the first and white space.
pub proof fn the_second_word_is(a: Seq<char>, w: Seq<char>, g: Seq<char>, v: Seq<char>, r: Seq<char>)
    requires
        all_space(a),
        no_space(w),
        w.len() > 0,
        all_space(g),
        g.len() > 0,
        no_space(v),
        v.len() > 0,
        ends_here(r),
    ensures
        second_word(a + w + g + v + r) == v,
        second_word(a + w + g) == Seq::<char>::empty(),
{
    let tail = g + v + r;
    let s = a + w + g + v + r;
    assert(s =~= a + (w + tail));
    assert(is_space(g[0]));
    assert(tail[0] == g[0]);
    assert((w + tail)[0] == w[0]);
    assert(!is_space(w[0]));
    leading_spaces(a, w + tail);
    assert(s.skip(a.len() as int) =~= w + tail);
    word_is(w, tail);
    assert((w + tail).skip(w.len() as int) =~= tail);
    the_first_word_is(g, v, r);
    let short = a + w + g;
    assert(short =~= a + (w + g));
    assert((w + g)[0] == w[0]);
    leading_spaces(a, w + g);
    assert(short.skip(a.len() as int) =~= w + g);
    word_is(w, g);
    assert((w + g).skip(w.len() as int) =~= g);
    white_space_has_no_words(g);
}

/// What stands before a character is all up to where it first occurs.
pub proof fn what_stands_before(head: Seq<char>, tail: Seq<char>, c: char)
    requires
        !head.contains(c),
    ensures
        before(head + seq![c] + tail, c) == head.len(),
        before(head, c) == head.len(),
    decreases head.len(),
{
    let s = head + seq![c] + tail;
    if head.len() == 0 {
        assert(s[0] == c);
    } else {
        let rest = head.skip(1);
        assert(!rest.contains(c)) by {
            if rest.contains(c) {
                let i = rest.index_of(c);
                assert(head[i + 1] == c);
            }
        }
        what_stands_before(rest, tail, c);
        assert(s.skip(1) =~= rest + seq![c] + tail);
        assert(head[0] != c);
    }
}

/// A text starts with another exactly where it is that one with something behind it.
pub proof fn starting_is_going_on(s: Seq<char>, prefix: Seq<char>, rest: Seq<char>)
    ensures
        starts_with(prefix + rest, prefix),
        (prefix + rest).skip(prefix.len() as int) == rest,
        starts_with(s, prefix) ==> s == prefix + s.skip(prefix.len() as int),
{
    assert((prefix + rest).take(prefix.len() as int) =~= prefix);
    assert((prefix + rest).skip(prefix.len() as int) =~= rest);
    if starts_with(s, prefix) {
        assert(s =~= s.take(prefix.len() as int) + s.skip(prefix.len() as int));
    }
}

/// Texts are ordered by the first character in which they differ, and one that goes on comes
/// after one that ends there.
pub proof fn texts_are_ordered_by_where_they_differ(p: Seq<char>, x: char, a: Seq<char>, y: char, b: Seq<char>)
    requires
        x < y,
    ensures
        text_le(p, p + a),
        a.len() > 0 ==> !text_le(p + a, p),
        text_le(p + seq![x] + a, p + seq![y] + b),
        !text_le(p + seq![y] + b, p + seq![x] + a),
    decreases p.len(),
{
    let l = p + seq![x] + a;
    let r = p + seq![y] + b;
    if p.len() == 0 {
        assert(l[0] == x && r[0] == y);
    } else {
        let rest = p.skip(1);
        texts_are_ordered_by_where_they_differ(rest, x, a, y, b);
        assert(l.skip(1) =~= rest + seq![x] + a);
        assert(r.skip(1) =~= rest + seq![y] + b);
        assert((p + a).skip(1) =~= rest + a);
    }
}

/// Two texts that come before each other are the same.
pub proof fn text_le_is_antisymmetric(a: Seq<char>, b: Seq<char>)
    requires
        text_le(a, b),
        text_le(b, a),
    ensures
        a == b,
    decreases a.len(),
{
    if a.len() > 0 && b.len() > 0 {
        assert(a[0] == b[0]);
        text_le_is_antisymmetric(a.skip(1), b.skip(1));
        assert(a =~= seq![a[0]] + a.skip(1));
        assert(b =~= seq![b[0]] + b.skip(1));
    } else {
        assert(a =~= b);
    }
}

/// Joining two lists one after the other is joining each and putting the separator between.
pub proof fn joining_is_putting_between(a: Seq<Seq<char>>, b: Seq<Seq<char>>, separator: Seq<char>, x: Seq<char>)
    requires
        a.len() > 0,
        b.len() > 0,
    ensures
        joined_by(a + b, separator) == joined_by(a, separator) + separator + joined_by(b, separator),
        joined_by(seq![x], separator) == x,
        joined_by(Seq::empty(), separator) == Seq::<char>::empty(),
    decreases b.len(),
{
    let ab = a + b;
    if b.len() == 1 {
        assert(ab.drop_last() =~= a);
        assert(ab.last() == b[0]);
    } else {
        assert(ab.drop_last() =~= a + b.drop_last());
        joining_is_putting_between(a, b.drop_last(), separator, x);
        assert(joined_by(ab, separator) =~= joined_by(a, separator) + separator + joined_by(b, separator));
    }
}

/// Splitting a text and joining the parts gives the text back, and no part has in it what the text
/// was split on.
pub proof fn joining_undoes_splitting(s: Seq<char>, c: char)
    ensures
        split_on(s, c).len() > 0,
        joined_by(split_on(s, c), seq![c]) == s,
        forall|i: int| 0 <= i < split_on(s, c).len() ==> !(#[trigger] split_on(s, c)[i]).contains(c),
    decreases s.len(),
{
    let n = before(s, c) as int;
    up_to_the_first(s, c);
    let parts = split_on(s, c);
    if n >= s.len() {
        assert(parts =~= seq![s]);
        assert(s.take(n) =~= s);
    } else {
        let rest = s.skip(n + 1);
        joining_undoes_splitting(rest, c);
        let tail = split_on(rest, c);
        joining_is_putting_between(seq![s.take(n)], tail, seq![c], s.take(n));
        assert(parts =~= seq![s.take(n)] + tail);
        assert(s =~= s.take(n) + seq![c] + rest);
        assert forall|i: int| 0 <= i < parts.len() implies !(#[trigger] parts[i]).contains(c) by {
            if i > 0 {
                assert(parts[i] == tail[i - 1]);
            }
        }
    }
}

proof fn up_to_the_first(s: Seq<char>, c: char)
    ensures
        before(s, c) <= s.len(),
        before(s, c) < s.len() ==> s[before(s, c) as int] == c,
        !s.take(before(s, c) as int).contains(c),
    decreases s.len(),
{
    if s.len() > 0 && s[0] != c {
        let rest = s.skip(1);
        up_to_the_first(rest, c);
        let n = before(s, c) as int;
        assert(rest.take(n - 1) =~= s.take(n).skip(1));
        if s.take(n).contains(c) {
            let i = s.take(n).index_of(c);
            assert(i > 0);
            assert(rest.take(n - 1)[i - 1] == c);
        }
    }
}

/// A list lists what was put in it, and nothing else.
pub proof fn lists_list_what_is_in_them(list: Seq<String>, item: String, text: Seq<char>)
    ensures
        !lists(Seq::empty(), text),
        lists(list.push(item), text) <==> lists(list, text) || item@ == text,
{
    let more = list.push(item);
    if lists(list, text) {
        let i = choose|i: int| 0 <= i < list.len() && (#[trigger] list[i])@ == text;
        assert(more[i]@ == text);
    }
    if item@ == text {
        assert(more[list.len() as int]@ == text);
    }
    if lists(more, text) {
        let i = choose|i: int| 0 <= i < more.len() && (#[trigger] more[i])@ == text;
        if i < list.len() {
            assert(list[i]@ == text);
        }
    }
}

/// The client reports everything where one of its arguments asks for that, whatever the others
/// are; else more than little where one asks for that; and no other argument matters.
pub proof fn arguments_set_the_level(args: Seq<String>, more: String)
    ensures
        level_of(Seq::empty()) == DebugLevel::Clean,
        more@ == "-dd"@ || more@ == "--debug-full"@ ==> level_of(args.push(more)) == DebugLevel::Full,
        more@ == "-d"@ || more@ == "--debug"@ ==> level_of(args.push(more)) == if level_of(args)
            == DebugLevel::Full {
            DebugLevel::Full
        } else {
            DebugLevel::Basic
        },
        more@ != "-dd"@ && more@ != "--debug-full"@ && more@ != "-d"@ && more@ != "--debug"@ ==> level_of(
            args.push(more),
        ) == level_of(args),
{
    lists_list_what_is_in_them(args, more, "-dd"@);
    lists_list_what_is_in_them(args, more, "--debug-full"@);
    lists_list_what_is_in_them(args, more, "-d"@);
    lists_list_what_is_in_them(args, more, "--debug"@);
    reveal_strlit("-dd");
    reveal_strlit("--debug-full");
    reveal_strlit("-d");
    reveal_strlit("--debug");
    assert("-dd"@.len() == 3 && "--debug-full"@.len() == 12 && "-d"@.len() == 2 && "--debug"@.len() == 7);
}

} // verus!
