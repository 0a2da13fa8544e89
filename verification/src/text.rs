//! Text as sequences of characters: comparing, trimming and splitting.
use vstd::prelude::*;
use vstd::string::{StrSliceExecFns, StringExecFns};
use vstd::utf8::{encode_utf8, is_char_boundary};

verus! {

/// Whether `c` is white space, as Unicode's `White_Space` property has it.
pub open spec fn is_space(c: char) -> bool {
    ||| 0x09 <= c as u32 <= 0x0d
    ||| c as u32 == 0x20
    ||| c as u32 == 0x85
    ||| c as u32 == 0xa0
    ||| c as u32 == 0x1680
    ||| 0x2000 <= c as u32 <= 0x200a
    ||| c as u32 == 0x2028
    ||| c as u32 == 0x2029
    ||| c as u32 == 0x202f
    ||| c as u32 == 0x205f
    ||| c as u32 == 0x3000
}

/// How many characters at the start of `s` are white space.
pub open spec fn spaces_before(s: Seq<char>) -> nat
    decreases s.len(),
{
    if s.len() == 0 || !is_space(s[0]) {
        0
    } else {
        1 + spaces_before(s.skip(1))
    }
}

/// How many characters at the end of `s` are white space.
pub open spec fn spaces_after(s: Seq<char>) -> nat
    decreases s.len(),
{
    if s.len() == 0 || !is_space(s.last()) {
        0
    } else {
        1 + spaces_after(s.drop_last())
    }
}

/// `s` without the white space at its two ends.
pub open spec fn trimmed(s: Seq<char>) -> Seq<char> {
    let rest = s.skip(spaces_before(s) as int);
    rest.take(rest.len() - spaces_after(rest))
}

/// How many characters stand at the start of `s` before any white space.
pub open spec fn word_len(s: Seq<char>) -> nat
    decreases s.len(),
{
    if s.len() == 0 || is_space(s[0]) {
        0
    } else {
        1 + word_len(s.skip(1))
    }
}

/// The first word of `s`: what stands between its leading white space and the next
/// white space. Empty where `s` has no word.
pub open spec fn first_word(s: Seq<char>) -> Seq<char> {
    let rest = s.skip(spaces_before(s) as int);
    rest.take(word_len(rest) as int)
}

/// How many characters stand in `s` before the first `c`, or in all where there is none.
pub open spec fn before(s: Seq<char>, c: char) -> nat
    decreases s.len(),
{
    if s.len() == 0 || s[0] == c {
        0
    } else {
        1 + before(s.skip(1), c)
    }
}

/// The parts of `s` between the occurrences of `c`: one more than there are of those.
pub open spec fn split_on(s: Seq<char>, c: char) -> Seq<Seq<char>>
    decreases s.len(),
{
    let n = before(s, c) as int;
    if n >= s.len() {
        seq![s]
    } else {
        seq![s.take(n)] + split_on(s.skip(n + 1), c)
    }
}

pub open spec fn starts_with(s: Seq<char>, prefix: Seq<char>) -> bool {
    prefix.len() <= s.len() && s.take(prefix.len() as int) == prefix
}

/// The characters of `s`.
pub fn chars_of(s: &str) -> (out: Vec<char>)
    ensures
        out@ == s@,
{
    let mut out: Vec<char> = Vec::new();
    for c in it: s.chars()
        invariant
            out@ == it.seq().take(it.index() as int),
            it.seq() == s@,
    {
        out.push(c);
        assert(it.seq().take(it.index() + 1) =~= it.seq().take(it.index() as int).push(c));
    }
    assert(s@.take(s@.len() as int) =~= s@);
    out
}

/// Whether `c` is white space.
pub fn is_white(c: char) -> (r: bool)
    ensures
        r == is_space(c),
{
    let n: u32 = c as u32;
    (0x09 <= n && n <= 0x0d) || n == 0x20 || n == 0x85 || n == 0xa0 || n == 0x1680 || (0x2000 <= n
        && n <= 0x200a) || n == 0x2028 || n == 0x2029 || n == 0x202f || n == 0x205f || n == 0x3000
}

/// Whether two texts are the same.
pub fn same_text(a: &str, b: &str) -> (r: bool)
    ensures
        r == (a@ == b@),
{
    same_chars(&chars_of(a), &chars_of(b))
}

/// Whether two runs of characters are the same.
fn same_chars(a: &Vec<char>, b: &Vec<char>) -> (r: bool)
    ensures
        r == (a@ == b@),
{
    if a.len() != b.len() {
        return false;
    }
    for i in 0..a.len()
        invariant
            a@.len() == b@.len(),
            forall|j: int| 0 <= j < i ==> a@[j] == b@[j],
    {
        if a[i] != b[i] {
            return false;
        }
    }
    assert(a@ =~= b@);
    true
}

/// Whether `s` starts with `prefix`.
pub fn has_prefix(s: &str, prefix: &str) -> (r: bool)
    ensures
        r == starts_with(s@, prefix@),
{
    let a = chars_of(s);
    let b = chars_of(prefix);
    if a.len() < b.len() {
        return false;
    }
    for i in 0..b.len()
        invariant
            a@ == s@,
            b@ == prefix@,
            b@.len() <= a@.len(),
            forall|j: int| 0 <= j < i ==> a@[j] == b@[j],
    {
        if a[i] != b[i] {
            assert(s@.take(prefix@.len() as int)[i as int] != prefix@[i as int]);
            return false;
        }
    }
    assert(s@.take(prefix@.len() as int) =~= prefix@);
    true
}

/// What follows the first `n` characters of `s`.
pub fn after_chars(s: &str, n: usize) -> (rest: String)
    requires
        n <= s@.len(),
    ensures
        rest@ == s@.skip(n as int),
{
    let rest = s.substring_char(n, s.unicode_len()).to_owned();
    assert(s@.subrange(n as int, s@.len() as int) =~= s@.skip(n as int));
    rest
}

/// Two texts one after the other.
pub fn joined(a: &str, b: &str) -> (r: String)
    ensures
        r@ == a@ + b@,
{
    let mut r = a.to_owned();
    r.append(b);
    r
}

/// The number of characters at the start of `s`, from position `from`, that are white
/// space.
fn count_spaces(s: &Vec<char>, from: usize) -> (n: usize)
    requires
        from <= s@.len(),
    ensures
        n == spaces_before(s@.skip(from as int)),
        from + n <= s@.len(),
{
    let total: usize = s.len();
    let mut n: usize = 0;
    while from + n < total && is_white(s[from + n])
        invariant
            total == s@.len(),
            from + n <= total,
            spaces_before(s@.skip(from as int)) == n + spaces_before(s@.skip(from + n)),
        decreases s@.len() - from - n,
    {
        assert(s@.skip(from + n).skip(1) =~= s@.skip(from + n + 1));
        n = n + 1;
    }
    n
}

/// The number of characters at the start of `s`, from position `from`, before any white
/// space.
fn count_word(s: &Vec<char>, from: usize) -> (n: usize)
    requires
        from <= s@.len(),
    ensures
        n == word_len(s@.skip(from as int)),
        from + n <= s@.len(),
{
    let total: usize = s.len();
    let mut n: usize = 0;
    while from + n < total && !is_white(s[from + n])
        invariant
            total == s@.len(),
            from + n <= total,
            word_len(s@.skip(from as int)) == n + word_len(s@.skip(from + n)),
        decreases s@.len() - from - n,
    {
        assert(s@.skip(from + n).skip(1) =~= s@.skip(from + n + 1));
        n = n + 1;
    }
    n
}

/// The number of characters at the start of `s`, from position `from`, before the first
/// `c`.
fn count_before(s: &Vec<char>, from: usize, c: char) -> (n: usize)
    requires
        from <= s@.len(),
    ensures
        n == before(s@.skip(from as int), c),
        from + n <= s@.len(),
{
    let total: usize = s.len();
    let mut n: usize = 0;
    while from + n < total && s[from + n] != c
        invariant
            total == s@.len(),
            from + n <= total,
            before(s@.skip(from as int), c) == n + before(s@.skip(from + n), c),
        decreases s@.len() - from - n,
    {
        assert(s@.skip(from + n).skip(1) =~= s@.skip(from + n + 1));
        n = n + 1;
    }
    n
}

/// `s` without the white space at its two ends.
#[verifier::spinoff_prover]
#[verifier::rlimit(50)]
pub fn trim_text(s: &str) -> (r: String)
    ensures
        r@ == trimmed(s@),
{
    let chars = chars_of(s);
    assert(s@.skip(0) =~= s@);
    let from = count_spaces(&chars, 0);
    let ghost rest = s@.skip(from as int);
    let mut to: usize = chars.len();
    assert(rest.take(rest.len() as int) =~= rest);
    while to > from && is_white(chars[to - 1])
        invariant
            from <= to <= chars@.len(),
            chars@ == s@,
            rest == s@.skip(from as int),
            spaces_after(rest) == (chars@.len() - to) + spaces_after(rest.take(to - from)),
        decreases to,
    {
        assert(rest.take(to - from).drop_last() =~= rest.take(to - from - 1));
        to = to - 1;
    }
    assert(s@.subrange(from as int, to as int) =~= rest.take(to - from));
    s.substring_char(from, to).to_owned()
}

/// The first word of `s`, empty where it has none.
#[verifier::spinoff_prover]
#[verifier::rlimit(50)]
pub fn take_word(s: &str) -> (r: String)
    ensures
        r@ == first_word(s@),
{
    let chars = chars_of(s);
    assert(chars.len() <= usize::MAX);
    assert(s@.skip(0) =~= s@);
    let from = count_spaces(&chars, 0);
    let n = count_word(&chars, from);
    assert(s@.subrange(from as int, from + n) =~= s@.skip(from as int).take(n as int));
    s.substring_char(from, from + n).to_owned()
}

/// What stands in `s` before the first `c`, and what follows it where there is one.
pub fn split_once(s: &str, c: char) -> (r: (String, Option<String>))
    ensures
        r.0@ == s@.take(before(s@, c) as int),
        r.1 is Some <==> before(s@, c) < s@.len(),
        r.1 is Some ==> r.1->0@ == s@.skip(before(s@, c) as int + 1),
{
    let chars = chars_of(s);
    assert(s@.skip(0) =~= s@);
    let n = count_before(&chars, 0, c);
    assert(s@.subrange(0, n as int) =~= s@.take(n as int));
    let head = s.substring_char(0, n).to_owned();
    if n < chars.len() {
        (head, Some(after_chars(s, n + 1)))
    } else {
        (head, None)
    }
}

/// The parts of `s` between the occurrences of `c`.
pub fn split_text(s: &str, c: char) -> (parts: Vec<String>)
    ensures
        parts@.len() == split_on(s@, c).len(),
        forall|i: int| 0 <= i < parts@.len() ==> (#[trigger] parts@[i])@ == split_on(s@, c)[i],
{
    let chars = chars_of(s);
    let mut parts: Vec<String> = Vec::new();
    let total: usize = chars.len();
    let mut from: usize = 0;
    assert(s@.skip(0) =~= s@);
    loop
        invariant_except_break
            chars@ == s@,
            total == s@.len(),
            from <= total,
            split_on(s@, c) == parts@.map_values(|p: String| p@) + split_on(s@.skip(from as int), c),
        ensures
            split_on(s@, c) == parts@.map_values(|p: String| p@),
        decreases s@.len() - from,
    {
        let n = count_before(&chars, from, c);
        let ghost rest = s@.skip(from as int);
        let ghost done = parts@.map_values(|p: String| p@);
        assert(s@.subrange(from as int, from + n) =~= rest.take(n as int));
        parts.push(s.substring_char(from, from + n).to_owned());
        assert(parts@.map_values(|p: String| p@) =~= done + seq![rest.take(n as int)]);
        if from + n >= total {
            assert(rest.take(n as int) =~= rest);
            break;
        }
        assert(rest.skip(n + 1) =~= s@.skip(from + n + 1));
        from = from + n + 1;
        assert(done + (seq![rest.take(n as int)] + split_on(s@.skip(from as int), c)) =~= done + seq![
            rest.take(n as int),
        ] + split_on(s@.skip(from as int), c));
    }
    parts
}

/// Whether `text` is one of `list`.
pub open spec fn lists(list: Seq<String>, text: Seq<char>) -> bool {
    exists|i: int| 0 <= i < list.len() && (#[trigger] list[i])@ == text
}

/// Whether `text` is one of `list`.
pub fn contains_text(list: &Vec<String>, text: &str) -> (r: bool)
    ensures
        r == lists(list@, text@),
{
    for i in 0..list.len()
        invariant
            forall|j: int| 0 <= j < i ==> (#[trigger] list@[j])@ != text@,
    {
        if same_text(list[i].as_str(), text) {
            assert(list@[i as int]@ == text@);
            return true;
        }
    }
    false
}

/// What follows `prefix` in `s`, where `s` starts with it.
pub fn strip(s: &str, prefix: &str) -> (r: Option<String>)
    ensures
        match r {
            Some(rest) => starts_with(s@, prefix@) && rest@ == s@.skip(prefix@.len() as int),
            None => !starts_with(s@, prefix@),
        },
{
    if has_prefix(s, prefix) {
        Some(after_chars(s, prefix.unicode_len()))
    } else {
        None
    }
}

/// The second word of `s`, empty where it has none.
pub open spec fn second_word(s: Seq<char>) -> Seq<char> {
    let rest = s.skip(spaces_before(s) as int);
    first_word(rest.skip(word_len(rest) as int))
}

/// The second word of `s`, empty where it has none.
#[verifier::spinoff_prover]
#[verifier::rlimit(50)]
pub fn take_second_word(s: &str) -> (r: String)
    ensures
        r@ == second_word(s@),
{
    let chars = chars_of(s);
    assert(chars.len() <= usize::MAX);
    assert(s@.skip(0) =~= s@);
    let from = count_spaces(&chars, 0);
    let n = count_word(&chars, from);
    let ghost rest = s@.skip(from as int);
    let ghost tail = s@.skip(from + n);
    assert(rest.skip(n as int) =~= tail);
    let gap = count_spaces(&chars, from + n);
    let start: usize = from + n + gap;
    assert(tail.skip(gap as int) =~= s@.skip(start as int));
    let len = count_word(&chars, start);
    let end: usize = start + len;
    assert(s@.subrange(start as int, end as int) =~= s@.skip(start as int).take(len as int));
    s.substring_char(start, end).to_owned()
}

/// The order of texts: by their first characters that differ, the shorter first where one
/// starts with the other.
pub open spec fn text_le(a: Seq<char>, b: Seq<char>) -> bool
    decreases a.len(),
{
    if a.len() == 0 {
        true
    } else if b.len() == 0 {
        false
    } else if a[0] == b[0] {
        text_le(a.skip(1), b.skip(1))
    } else {
        a[0] < b[0]
    }
}

/// Whether `a` comes before `b`, or is the same.
pub fn not_after(a: &str, b: &str) -> (r: bool)
    ensures
        r == text_le(a@, b@),
{
    let x = chars_of(a);
    let y = chars_of(b);
    let mut i: usize = 0;
    assert(a@.skip(0) =~= a@ && b@.skip(0) =~= b@);
    while i < x.len() && i < y.len() && x[i] == y[i]
        invariant
            x@ == a@,
            y@ == b@,
            i <= x@.len(),
            i <= y@.len(),
            text_le(a@, b@) == text_le(a@.skip(i as int), b@.skip(i as int)),
        decreases x@.len() - i,
    {
        assert(a@.skip(i as int).skip(1) =~= a@.skip(i + 1));
        assert(b@.skip(i as int).skip(1) =~= b@.skip(i + 1));
        i = i + 1;
    }
    if i >= x.len() {
        true
    } else if i >= y.len() {
        false
    } else {
        x[i] < y[i]
    }
}

pub proof fn text_le_is_total(a: Seq<char>, b: Seq<char>)
    ensures
        text_le(a, b) || text_le(b, a),
    decreases a.len(),
{
    if a.len() > 0 && b.len() > 0 && a[0] == b[0] {
        text_le_is_total(a.skip(1), b.skip(1));
    }
}

pub proof fn text_le_is_transitive(a: Seq<char>, b: Seq<char>, c: Seq<char>)
    requires
        text_le(a, b),
        text_le(b, c),
    ensures
        text_le(a, c),
    decreases a.len(),
{
    if a.len() > 0 && b.len() > 0 && c.len() > 0 && a[0] == b[0] && b[0] == c[0] {
        text_le_is_transitive(a.skip(1), b.skip(1), c.skip(1));
    }
}

/// The texts of a list.
pub open spec fn texts(list: Seq<String>) -> Seq<Seq<char>> {
    list.map_values(|s: String| s@)
}

/// Every text comes before those that follow it.
pub open spec fn is_sorted(list: Seq<Seq<char>>) -> bool {
    forall|i: int, j: int| #![trigger list[i], list[j]] 0 <= i <= j < list.len() ==> text_le(list[i], list[j])
}

/// Puts a text in its place in a sorted list.
pub fn insert_sorted(list: &mut Vec<String>, item: String)
    requires
        is_sorted(texts(old(list)@)),
    ensures
        is_sorted(texts(final(list)@)),
        texts(final(list)@).to_multiset() == texts(old(list)@).to_multiset().insert(item@),
{
    let ghost before = texts(list@);
    let mut i: usize = 0;
    while i < list.len() && not_after(list[i].as_str(), item.as_str())
        invariant
            texts(list@) == before,
            i <= list@.len(),
            forall|j: int| #![trigger before[j]] 0 <= j < i ==> text_le(before[j], item@),
        decreases list@.len() - i,
    {
        assert(before[i as int] == list@[i as int]@);
        i = i + 1;
    }
    let ghost text = item@;
    list.insert(i, item);
    proof {
        let after = texts(list@);
        assert(after =~= before.insert(i as int, text));
        before.insert_ensures(i as int, text);
        broadcast use vstd::seq_lib::group_to_multiset_ensures;

        assert(after.to_multiset() =~= before.to_multiset().insert(text)) by {
            let head = before.take(i as int);
            let tail = before.skip(i as int);
            assert(after =~= head.push(text) + tail);
            assert(before =~= head + tail);
            vstd::seq_lib::lemma_multiset_commutative(head, tail);
            vstd::seq_lib::lemma_multiset_commutative(head.push(text), tail);
        }
        if i < before.len() {
            text_le_is_total(before[i as int], text);
        }
        assert forall|a: int, b: int|
            #![trigger after[a], after[b]]
            0 <= a <= b < after.len() implies text_le(after[a], after[b]) by {
            if a == b {
                text_le_is_total(after[a], after[a]);
            } else if b < i {
                assert(after[a] == before[a] && after[b] == before[b]);
            } else if b == i {
                assert(after[a] == before[a]);
            } else if a < i {
                assert(after[a] == before[a] && after[b] == before[b - 1]);
            } else if a == i {
                assert(after[b] == before[b - 1]);
                assert(text_le(text, before[i as int]));
                text_le_is_transitive(text, before[i as int], before[b - 1]);
            } else {
                assert(after[a] == before[a - 1] && after[b] == before[b - 1]);
            }
        }
    }
}

/// Texts one after the other, with `separator` between.
pub open spec fn joined_by(list: Seq<Seq<char>>, separator: Seq<char>) -> Seq<char>
    decreases list.len(),
{
    if list.len() == 0 {
        Seq::empty()
    } else if list.len() == 1 {
        list[0]
    } else {
        joined_by(list.drop_last(), separator) + separator + list.last()
    }
}

/// Texts one after the other, with `separator` between.
pub fn join_texts(list: &Vec<String>, separator: &str) -> (r: String)
    ensures
        r@ == joined_by(texts(list@), separator@),
{
    let mut r = String::new();
    for i in 0..list.len()
        invariant
            r@ == joined_by(texts(list@).take(i as int), separator@),
    {
        if i > 0 {
            r.append(separator);
        }
        r.append(list[i].as_str());
        assert(texts(list@).take(i + 1).drop_last() =~= texts(list@).take(i as int));
        assert(texts(list@).take(i + 1).last() == list@[i as int]@);
        if i == 0 {
            assert(r@ =~= list@[0]@);
        }
    }
    assert(texts(list@).take(list@.len() as int) =~= texts(list@));
    r
}

/// No character of the text stands on both sides of its byte `n`.
pub open spec fn can_be_cut(s: Seq<char>, n: int) -> bool {
    encode_utf8(s).len() <= n || is_char_boundary(encode_utf8(s), n)
}

/// The first `n` bytes of a text, or all where it is shorter.
pub fn cut_to(s: &str, n: usize) -> (r: String)
    requires
        can_be_cut(s@, n as int),
    ensures
        encode_utf8(s@).len() <= n ==> r@ == s@,
        encode_utf8(s@).len() > n ==> encode_utf8(r@) == encode_utf8(s@).take(n as int),
{
    if s.as_bytes().len() <= n {
        s.to_owned()
    } else {
        let head = s.split_at(n).0;
        assert(encode_utf8(s@).subrange(0, n as int) =~= encode_utf8(s@).take(n as int));
        head.to_owned()
    }
}

/// A text without `c` in front of a `c` is split off as it is.
pub proof fn split_on_first(head: Seq<char>, tail: Seq<char>, c: char)
    requires
        !head.contains(c),
    ensures
        split_on(head + seq![c] + tail, c) == seq![head] + split_on(tail, c),
{
    let s = head + seq![c] + tail;
    before_is(head, seq![c] + tail, c);
    assert(s =~= head + (seq![c] + tail));
    assert(before(seq![c] + tail, c) == 0);
    assert(s.take(head.len() as int) =~= head);
    assert(s.skip(head.len() as int + 1) =~= tail);
}

/// A text without `c` is not split.
pub proof fn split_on_none(s: Seq<char>, c: char)
    requires
        !s.contains(c),
    ensures
        split_on(s, c) == seq![s],
{
    before_is(s, Seq::empty(), c);
    assert(s + Seq::<char>::empty() =~= s);
}

proof fn before_is(head: Seq<char>, tail: Seq<char>, c: char)
    requires
        !head.contains(c),
    ensures
        before(head + tail, c) == head.len() + before(tail, c),
    decreases head.len(),
{
    if head.len() == 0 {
        assert(head + tail =~= tail);
    } else {
        let rest = head.skip(1);
        assert(!rest.contains(c)) by {
            if rest.contains(c) {
                let i = rest.index_of(c);
                assert(head[i + 1] == c);
            }
        }
        before_is(rest, tail, c);
        assert((head + tail).skip(1) =~= rest + tail);
        assert(head[0] != c);
    }
}

proof fn spaces_before_end(s: Seq<char>)
    ensures
        spaces_before(s) <= s.len(),
        spaces_before(s) < s.len() ==> !is_space(s[spaces_before(s) as int]),
    decreases s.len(),
{
    if s.len() > 0 && is_space(s[0]) {
        spaces_before_end(s.skip(1));
    }
}

proof fn spaces_after_start(s: Seq<char>)
    ensures
        spaces_after(s) <= s.len(),
        spaces_after(s) < s.len() ==> !is_space(s[s.len() - spaces_after(s) - 1]),
    decreases s.len(),
{
    if s.len() > 0 && is_space(s.last()) {
        spaces_after_start(s.drop_last());
    }
}

/// Trimming a text twice is trimming it once.
pub proof fn trimming_is_final(s: Seq<char>)
    ensures
        trimmed(trimmed(s)) == trimmed(s),
{
    let rest = s.skip(spaces_before(s) as int);
    let t = trimmed(s);
    spaces_before_end(s);
    spaces_after_start(rest);
    if t.len() > 0 {
        assert(t[0] == rest[0]);
        assert(!is_space(t.last()));
    }
    assert(t.skip(0) =~= t);
    assert(t.take(t.len() as int) =~= t);
}

} // verus!
