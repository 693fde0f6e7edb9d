//! Character-level text operations shared by every stage of the pipeline.
//!
//! Every contract here speaks of a text as the sequence of its characters.

use vstd::prelude::*;

verus! {

/// The characters that Unicode marks as `White_Space`.
pub open spec fn is_space(c: char) -> bool {
    let n = c as u32;
    ||| 0x09 <= n <= 0x0D
    ||| n == 0x20
    ||| n == 0x85
    ||| n == 0xA0
    ||| n == 0x1680
    ||| 0x2000 <= n <= 0x200A
    ||| n == 0x2028
    ||| n == 0x2029
    ||| n == 0x202F
    ||| n == 0x205F
    ||| n == 0x3000
}

/// Tells whether `c` is white space.
pub fn is_whitespace(c: char) -> (r: bool)
    ensures
        r == is_space(c),
{
    let n: u32 = c as u32;
    (0x09 <= n && n <= 0x0D) || n == 0x20 || n == 0x85 || n == 0xA0 || n == 0x1680 || (0x2000 <= n
        && n <= 0x200A) || n == 0x2028 || n == 0x2029 || n == 0x202F || n == 0x205F || n == 0x3000
}

/// A class of characters that a scan runs over.
#[derive(Clone, Copy, Debug)]
pub enum Class {
    /// White space.
    Space,
    /// Anything but white space.
    Word,
    /// Anything but a line feed.
    LineBody,
}

impl Class {
    /// Whether `c` belongs to the class.
    pub open spec fn has(self, c: char) -> bool {
        match self {
            Class::Space => is_space(c),
            Class::Word => !is_space(c),
            Class::LineBody => c != '\n',
        }
    }

    /// Tells whether `c` belongs to the class.
    pub fn contains(self, c: char) -> (r: bool)
        ensures
            r == self.has(c),
    {
        match self {
            Class::Space => is_whitespace(c),
            Class::Word => !is_whitespace(c),
            Class::LineBody => c != '\n',
        }
    }
}

/// How many characters at the start of `s` belong to `class`.
pub open spec fn run(s: Seq<char>, class: Class) -> nat
    decreases s.len(),
{
    if s.len() > 0 && class.has(s[0]) {
        1 + run(s.drop_first(), class)
    } else {
        0
    }
}

/// How many characters at the end of `s` are white space.
pub open spec fn trailing(s: Seq<char>) -> nat
    decreases s.len(),
{
    if s.len() > 0 && is_space(s.last()) {
        1 + trailing(s.drop_last())
    } else {
        0
    }
}

/// A run is a prefix of members only, and stops at the first non-member.
pub proof fn lemma_run(s: Seq<char>, class: Class)
    ensures
        run(s, class) <= s.len(),
        forall|i: int| 0 <= i < run(s, class) ==> class.has(#[trigger] s[i]),
        run(s, class) < s.len() ==> !class.has(s[run(s, class) as int]),
    decreases s.len(),
{
    if s.len() > 0 && class.has(s[0]) {
        let t = s.drop_first();
        lemma_run(t, class);
        assert forall|i: int| 0 <= i < run(s, class) implies class.has(#[trigger] s[i]) by {
            if i > 0 {
                assert(s[i] == t[i - 1]);
            }
        }
        if run(s, class) < s.len() {
            assert(s[run(s, class) as int] == t[run(t, class) as int]);
        }
    }
}

/// The trailing white space is a suffix of white space only, and the
/// character before it is none.
pub proof fn lemma_trailing(s: Seq<char>)
    ensures
        trailing(s) <= s.len(),
        forall|i: int| s.len() - trailing(s) <= i < s.len() ==> is_space(#[trigger] s[i]),
        trailing(s) < s.len() ==> !is_space(s[s.len() - trailing(s) - 1]),
    decreases s.len(),
{
    if s.len() > 0 && is_space(s.last()) {
        let t = s.drop_last();
        lemma_trailing(t);
        assert forall|i: int| s.len() - trailing(s) <= i < s.len() implies is_space(
            #[trigger] s[i],
        ) by {
            if i < s.len() - 1 {
                assert(s[i] == t[i]);
            }
        }
        if trailing(s) < s.len() {
            assert(s[s.len() - trailing(s) - 1] == t[t.len() - trailing(t) - 1]);
        }
    }
}

/// `s` without its leading white space.
pub open spec fn left_trimmed(s: Seq<char>) -> Seq<char> {
    s.skip(run(s, Class::Space) as int)
}

/// `s` without its trailing white space.
pub open spec fn right_trimmed(s: Seq<char>) -> Seq<char> {
    s.take(s.len() - trailing(s))
}

/// `s` without the white space at either end.
pub open spec fn trimmed(s: Seq<char>) -> Seq<char> {
    right_trimmed(left_trimmed(s))
}

/// What is left of a text after trimming is empty, or begins and ends with
/// a character that is no white space.
pub proof fn lemma_trimmed_edges(s: Seq<char>)
    ensures
        trimmed(s).len() > 0 ==> !is_space(trimmed(s)[0]) && !is_space(trimmed(s).last()),
        trimmed(s).len() <= s.len(),
{
    let l = left_trimmed(s);
    lemma_run(s, Class::Space);
    lemma_trailing(l);
    let t = trimmed(s);
    if t.len() > 0 {
        assert(t[0] == l[0]);
        assert(l[0] == s[run(s, Class::Space) as int]);
        assert(t.last() == l[l.len() - trailing(l) - 1]);
    }
}

/// The `n`-th field of `s`, counted from 0, where fields are the maximal runs
/// of characters other than white space; empty where `s` has no such field.
pub open spec fn field(s: Seq<char>, n: nat) -> Seq<char>
    decreases n,
{
    let t = left_trimmed(s);
    if n == 0 {
        t.take(run(t, Class::Word) as int)
    } else {
        field(t.skip(run(t, Class::Word) as int), (n - 1) as nat)
    }
}

/// A field holds no white space.
pub proof fn lemma_field_is_a_word(s: Seq<char>, n: nat)
    ensures
        forall|i: int| 0 <= i < field(s, n).len() ==> !is_space(#[trigger] field(s, n)[i]),
    decreases n,
{
    let t = left_trimmed(s);
    lemma_run(t, Class::Word);
    if n > 0 {
        let rest = t.skip(run(t, Class::Word) as int);
        lemma_field_is_a_word(rest, (n - 1) as nat);
        assert(field(s, n) == field(rest, (n - 1) as nat));
    } else {
        let w = t.take(run(t, Class::Word) as int);
        assert(field(s, n) == w);
        assert forall|i: int| 0 <= i < w.len() implies !is_space(#[trigger] w[i]) by {
            assert(w[i] == t[i]);
            assert(Class::Word.has(t[i]));
        }
    }
}

/// A text of white space alone has no field: each one asked for is empty.
pub proof fn lemma_missing_field_is_empty(s: Seq<char>, n: nat)
    requires
        left_trimmed(s).len() == 0,
    ensures
        field(s, n).len() == 0,
    decreases n,
{
    let t = left_trimmed(s);
    if n > 0 {
        let rest = t.skip(run(t, Class::Word) as int);
        assert(rest.len() == 0);
        lemma_run(rest, Class::Space);
        lemma_missing_field_is_empty(rest, (n - 1) as nat);
    }
}

/// Once a field is empty, every later field is empty too.
pub proof fn lemma_fields_run_out(s: Seq<char>, n: nat)
    requires
        field(s, n).len() == 0,
    ensures
        field(s, n + 1).len() == 0,
    decreases n,
{
    let t = left_trimmed(s);
    lemma_run(s, Class::Space);
    lemma_run(t, Class::Word);
    let rest = t.skip(run(t, Class::Word) as int);
    if n == 0 {
        // An empty first field means that nothing is left after trimming.
        if t.len() > 0 {
            assert(t[0] == s[run(s, Class::Space) as int]);
            assert(run(t, Class::Word) > 0);
        }
        assert(rest.len() == 0);
        lemma_run(rest, Class::Space);
        lemma_missing_field_is_empty(rest, 0);
    } else {
        lemma_fields_run_out(rest, (n - 1) as nat);
    }
}

/// What one character becomes when it is escaped for the shell: a double
/// quote, a dollar sign and a backslash get a backslash in front.
pub open spec fn escaped_char(c: char) -> Seq<char> {
    if c == '"' || c == '$' || c == '\\' {
        seq!['\\', c]
    } else {
        seq![c]
    }
}

/// In an escaped text every double quote and every dollar sign stands right
/// behind a backslash.
pub proof fn lemma_escaped_marks(s: Seq<char>)
    ensures
        forall|i: int|
            0 <= i < escaped(s).len() && (#[trigger] escaped(s)[i] == '"'
                || escaped(s)[i] == '$') ==> i > 0 && escaped(s)[i - 1]
                == '\\',
    decreases s.len(),
{
    if s.len() > 0 {
        let before = escaped(s.drop_last());
        let e = escaped(s);
        lemma_escaped_marks(s.drop_last());
        assert forall|i: int| 0 <= i < e.len() && (#[trigger] e[i] == '"' || e[i] == '$') implies i
            > 0 && e[i - 1] == '\\' by {
            if i < before.len() {
                assert(e[i] == before[i]);
                assert(e[i - 1] == before[i - 1]);
            }
        }
    }
}

/// `s` with each character escaped for the shell.
pub open spec fn escaped(s: Seq<char>) -> Seq<char>
    decreases s.len(),
{
    if s.len() == 0 {
        Seq::empty()
    } else {
        escaped(s.drop_last()) + escaped_char(s.last())
    }
}

/// `s` cut into lines at each line feed. A text that ends in a line feed has
/// no empty last line. With `cr`, a line that ended in a line feed also drops
/// one carriage return before it.
pub open spec fn split(s: Seq<char>, cr: bool) -> Seq<Seq<char>>
    decreases s.len(),
{
    let k = run(s, Class::LineBody) as int;
    if s.len() == 0 {
        Seq::empty()
    } else if k >= s.len() {
        seq![s]
    } else {
        seq![line_body(s.take(k), cr)] + split(s.skip(k + 1), cr)
    }
}

/// A line as it was cut before a line feed: with `cr`, without the carriage
/// return at its end, if there is one.
pub open spec fn line_body(s: Seq<char>, cr: bool) -> Seq<char> {
    if cr && s.len() > 0 && s.last() == '\r' {
        s.drop_last()
    } else {
        s
    }
}

/// The lines with a line feed between each two.
pub open spec fn joined(lines: Seq<Seq<char>>) -> Seq<char>
    decreases lines.len(),
{
    if lines.len() == 0 {
        Seq::empty()
    } else if lines.len() == 1 {
        lines[0]
    } else {
        joined(lines.drop_last()) + seq!['\n'] + lines.last()
    }
}

/// The lines with a line feed after each.
pub open spec fn terminated(lines: Seq<Seq<char>>) -> Seq<char>
    decreases lines.len(),
{
    if lines.len() == 0 {
        Seq::empty()
    } else {
        terminated(lines.drop_last()) + lines.last() + seq!['\n']
    }
}

/// Escaping goes character by character: the escaped form of two texts in
/// a row is the two escaped forms in a row.
pub proof fn lemma_escaped_concat(a: Seq<char>, b: Seq<char>)
    ensures
        escaped(a + b) == escaped(a) + escaped(b),
    decreases b.len(),
{
    if b.len() == 0 {
        assert(a + b =~= a);
        assert(escaped(a) + escaped(b) =~= escaped(a));
    } else {
        lemma_escaped_concat(a, b.drop_last());
        assert((a + b).drop_last() =~= a + b.drop_last());
        assert((a + b).last() == b.last());
        assert(escaped(a + b) =~= escaped(a) + escaped(b));
    }
}

/// One character alone is escaped as that character is.
pub proof fn lemma_escaped_single(c: char)
    ensures
        escaped(seq![c]) == escaped_char(c),
{
    let one = seq![c];
    assert(one.drop_last() =~= Seq::<char>::empty());
    assert(escaped(one.drop_last()) =~= Seq::<char>::empty());
    assert(one.last() == c);
    assert(escaped(one) =~= escaped_char(c));
}

/// What is read from `s` where a backslash before a double quote, a dollar
/// sign or a backslash stands for that character, as between the double
/// quotes of a shell word.
pub open spec fn unescaped(s: Seq<char>) -> Seq<char>
    decreases s.len(),
{
    if s.len() == 0 {
        Seq::empty()
    } else if s[0] == '\\' && s.len() >= 2 && (s[1] == '"' || s[1] == '$' || s[1] == '\\') {
        seq![s[1]] + unescaped(s.skip(2))
    } else {
        seq![s[0]] + unescaped(s.drop_first())
    }
}

/// An escaped text reads back as the text itself.
pub proof fn lemma_unescaped_escaped(s: Seq<char>)
    ensures
        unescaped(escaped(s)) == s,
    decreases s.len(),
{
    if s.len() > 0 {
        let c = s[0];
        let rest = s.drop_first();
        let head = seq![c];
        assert(head + rest =~= s);
        lemma_escaped_concat(head, rest);
        lemma_escaped_single(c);
        lemma_unescaped_escaped(rest);
        let e = escaped(s);
        assert(e == escaped_char(c) + escaped(rest));
        if c == '"' || c == '$' || c == '\\' {
            assert(e[0] == '\\' && e[1] == c);
            assert(e.skip(2) =~= escaped(rest));
            assert(unescaped(e) =~= s);
        } else {
            assert(e[0] == c);
            assert(e.drop_first() =~= escaped(rest));
            assert(unescaped(e) =~= s);
        }
    } else {
        assert(unescaped(escaped(s)) =~= s);
    }
}

/// Whether a text holds no line feed.
pub open spec fn feed_free(s: Seq<char>) -> bool {
    forall|i: int| 0 <= i < s.len() ==> #[trigger] s[i] != '\n'
}

/// Every line that a text is cut into is free of line feeds.
pub proof fn lemma_split_lines_are_feed_free(s: Seq<char>, cr: bool)
    ensures
        forall|i: int| 0 <= i < split(s, cr).len() ==> feed_free(#[trigger] split(s, cr)[i]),
    decreases s.len(),
{
    let k = run(s, Class::LineBody) as int;
    lemma_run(s, Class::LineBody);
    if s.len() == 0 {
    } else if k >= s.len() {
        assert(feed_free(s));
    } else {
        let head = line_body(s.take(k), cr);
        let rest = split(s.skip(k + 1), cr);
        lemma_split_lines_are_feed_free(s.skip(k + 1), cr);
        assert(feed_free(head)) by {
            assert forall|i: int| 0 <= i < head.len() implies #[trigger] head[i] != '\n' by {
                assert(head[i] == s[i]);
            }
        }
        assert forall|i: int| 0 <= i < split(s, cr).len() implies feed_free(
            #[trigger] split(s, cr)[i],
        ) by {
            if i > 0 {
                assert(split(s, cr)[i] == rest[i - 1]);
            }
        }
    }
}

/// A text free of line feeds, then a line feed: the line ends there.
pub proof fn lemma_run_stops_at_feed(line: Seq<char>, rest: Seq<char>)
    requires
        feed_free(line),
    ensures
        run(line + seq!['\n'] + rest, Class::LineBody) == line.len(),
    decreases line.len(),
{
    let whole = line + seq!['\n'] + rest;
    if line.len() == 0 {
        assert(whole[0] == '\n');
    } else {
        assert(whole[0] == line[0]);
        assert(feed_free(line.drop_first())) by {
            assert forall|i: int| 0 <= i < line.drop_first().len() implies #[trigger] line.drop_first()[i]
                != '\n' by {
                assert(line.drop_first()[i] == line[i + 1]);
            }
        }
        lemma_run_stops_at_feed(line.drop_first(), rest);
        assert(whole.drop_first() =~= line.drop_first() + seq!['\n'] + rest);
    }
}

/// Lines that are each followed by a line feed: the first line, a line
/// feed, then the other lines in the same way.
pub proof fn lemma_terminated_front(lines: Seq<Seq<char>>)
    requires
        lines.len() > 0,
    ensures
        terminated(lines) == lines[0] + seq!['\n'] + terminated(lines.drop_first()),
    decreases lines.len(),
{
    if lines.len() == 1 {
        assert(lines.drop_last() =~= Seq::<Seq<char>>::empty());
        assert(lines.drop_first() =~= Seq::<Seq<char>>::empty());
        assert(terminated(lines) =~= lines[0] + seq!['\n'] + terminated(lines.drop_first()));
    } else {
        let init = lines.drop_last();
        lemma_terminated_front(init);
        assert(lines.drop_first().drop_last() =~= init.drop_first());
        assert(lines.drop_first().last() == lines.last());
        assert(init[0] == lines[0]);
        assert(terminated(lines) =~= lines[0] + seq!['\n'] + terminated(lines.drop_first()));
    }
}

/// Lines free of line feeds, each followed by a line feed, are cut into the
/// same lines again.
pub proof fn lemma_split_of_terminated(lines: Seq<Seq<char>>)
    requires
        forall|i: int| 0 <= i < lines.len() ==> feed_free(#[trigger] lines[i]),
    ensures
        split(terminated(lines), false) == lines,
    decreases lines.len(),
{
    if lines.len() == 0 {
        assert(split(terminated(lines), false) =~= lines);
    } else {
        let text = terminated(lines);
        let tail = terminated(lines.drop_first());
        lemma_terminated_front(lines);
        lemma_run_stops_at_feed(lines[0], tail);
        let k = lines[0].len() as int;
        assert(text.take(k) =~= lines[0]);
        assert(text.skip(k + 1) =~= tail);
        assert forall|i: int| 0 <= i < lines.drop_first().len() implies feed_free(
            #[trigger] lines.drop_first()[i],
        ) by {
            assert(lines.drop_first()[i] == lines[i + 1]);
        }
        lemma_split_of_terminated(lines.drop_first());
        assert(split(text, false) =~= seq![lines[0]] + lines.drop_first());
        assert(seq![lines[0]] + lines.drop_first() =~= lines);
    }
}

/// The texts that a vector of strings holds.
pub open spec fn texts(v: Seq<String>) -> Seq<Seq<char>> {
    v.map_values(|s: String| s@)
}

/// The texts that a vector of character vectors holds.
pub open spec fn rows(v: Seq<Vec<char>>) -> Seq<Seq<char>> {
    v.map_values(|l: Vec<char>| l@)
}

/// The characters of `s`, in order.
pub fn chars_of(s: &str) -> (v: Vec<char>)
    ensures
        v@ == s@,
{
    let mut v: Vec<char> = Vec::new();
    for c in it: s.chars()
        invariant
            v@ == it.seq().take(it.index()),
            it.seq() == s@,
    {
        v.push(c);
    }
    v
}

/// `String::push`: the string gets `c` as its new last character.
#[verifier::external_body]
fn push_char(s: &mut String, c: char)
    ensures
        final(s)@ == old(s)@.push(c),
{
    s.push(c)
}

/// The string made of the characters `v[from..to]`.
pub(crate) fn string_of(v: &Vec<char>, from: usize, to: usize) -> (s: String)
    requires
        from <= to <= v.len(),
    ensures
        s@ == v@.subrange(from as int, to as int),
{
    let mut s = String::new();
    let mut i: usize = from;
    while i < to
        invariant
            from <= i <= to <= v.len(),
            s@ == v@.subrange(from as int, i as int),
        decreases to - i,
    {
        push_char(&mut s, v[i]);
        i += 1;
        assert(s@ =~= v@.subrange(from as int, i as int));
    }
    s
}

/// The whole of `v` as a string.
pub fn string_from(v: &Vec<char>) -> (s: String)
    ensures
        s@ == v@,
{
    let s = string_of(v, 0, v.len());
    assert(v@.subrange(0, v.len() as int) =~= v@);
    s
}

/// The end of the run of `class` that starts at `from`, within `v[from..to]`.
pub(crate) fn scan(v: &Vec<char>, from: usize, to: usize, class: Class) -> (k: usize)
    requires
        from <= to <= v.len(),
    ensures
        from <= k <= to,
        k == from + run(v@.subrange(from as int, to as int), class),
{
    let mut k: usize = from;
    while k < to && class.contains(v[k])
        invariant
            from <= k <= to <= v.len(),
            run(v@.subrange(from as int, to as int), class) == (k - from) + run(
                v@.subrange(k as int, to as int),
                class,
            ),
        decreases to - k,
    {
        proof {
            let t = v@.subrange(k as int, to as int);
            assert(t[0] == v@[k as int]);
            assert(t.drop_first() =~= v@.subrange(k + 1, to as int));
        }
        k += 1;
    }
    proof {
        let t = v@.subrange(k as int, to as int);
        if k < to {
            assert(t[0] == v@[k as int]);
        }
    }
    k
}

/// The start of the white space that ends `v[from..to]`.
pub(crate) fn scan_back(v: &Vec<char>, from: usize, to: usize) -> (k: usize)
    requires
        from <= to <= v.len(),
    ensures
        from <= k <= to,
        k == to - trailing(v@.subrange(from as int, to as int)),
{
    let mut k: usize = to;
    while k > from && is_whitespace(v[k - 1])
        invariant
            from <= k <= to <= v.len(),
            trailing(v@.subrange(from as int, to as int)) == (to - k) + trailing(
                v@.subrange(from as int, k as int),
            ),
        decreases k - from,
    {
        proof {
            let t = v@.subrange(from as int, k as int);
            assert(t.last() == v@[k - 1]);
            assert(t.drop_last() =~= v@.subrange(from as int, k - 1));
        }
        k -= 1;
    }
    proof {
        let t = v@.subrange(from as int, k as int);
        if k > from {
            assert(t.last() == v@[k - 1]);
        }
    }
    k
}

/// `s` without the white space at either end.
pub fn trim(s: &str) -> (r: String)
    ensures
        r@ == trimmed(s@),
{
    let v = chars_of(s);
    let a = scan(&v, 0, v.len(), Class::Space);
    let b = scan_back(&v, a, v.len());
    proof {
        assert(v@.subrange(0, v.len() as int) =~= v@);
        assert(v@.subrange(a as int, v.len() as int) =~= left_trimmed(v@));
        assert(v@.subrange(a as int, b as int) =~= right_trimmed(left_trimmed(v@)));
    }
    string_of(&v, a, b)
}

/// The `n`-th field of `s`, counted from 0; empty where `s` has fewer fields.
pub fn nth_field(s: &str, n: usize) -> (r: String)
    ensures
        r@ == field(s@, n as nat),
{
    let v = chars_of(s);
    let len = v.len();
    let mut at: usize = 0;
    let mut left: usize = n;
    proof {
        assert(v@.subrange(0, len as int) =~= v@);
    }
    while left > 0
        invariant
            at <= len == v.len(),
            field(s@, n as nat) == field(v@.subrange(at as int, len as int), left as nat),
        decreases left,
    {
        let a = scan(&v, at, len, Class::Space);
        let b = scan(&v, a, len, Class::Word);
        proof {
            let cur = v@.subrange(at as int, len as int);
            assert(left_trimmed(cur) =~= v@.subrange(a as int, len as int));
            assert(left_trimmed(cur).skip(run(left_trimmed(cur), Class::Word) as int)
                =~= v@.subrange(b as int, len as int));
        }
        at = b;
        left -= 1;
    }
    let a = scan(&v, at, len, Class::Space);
    let b = scan(&v, a, len, Class::Word);
    proof {
        let cur = v@.subrange(at as int, len as int);
        assert(left_trimmed(cur) =~= v@.subrange(a as int, len as int));
        assert(left_trimmed(cur).take(run(left_trimmed(cur), Class::Word) as int)
            =~= v@.subrange(a as int, b as int));
    }
    string_of(&v, a, b)
}

/// `s` with each character escaped for the shell: a double quote, a dollar
/// sign and a backslash get a backslash in front.
pub fn escape(s: &str) -> (r: String)
    ensures
        r@ == escaped(s@),
{
    let v = chars_of(s);
    let mut r = String::new();
    let mut i: usize = 0;
    while i < v.len()
        invariant
            i <= v.len(),
            r@ == escaped(v@.take(i as int)),
        decreases v.len() - i,
    {
        let c = v[i];
        if c == '"' || c == '$' || c == '\\' {
            push_char(&mut r, '\\');
        }
        push_char(&mut r, c);
        proof {
            let t = v@.take(i + 1);
            assert(t.drop_last() =~= v@.take(i as int));
            assert(t.last() == c);
            assert(r@ =~= escaped(v@.take(i as int)) + escaped_char(c));
        }
        i += 1;
    }
    proof {
        assert(v@.take(v.len() as int) =~= v@);
    }
    r
}

/// Tells whether `s` begins with `prefix`.
pub fn starts_with(s: &Vec<char>, prefix: &Vec<char>) -> (r: bool)
    ensures
        r == prefix@.is_prefix_of(s@),
{
    if prefix.len() > s.len() {
        return false;
    }
    let mut i: usize = 0;
    while i < prefix.len()
        invariant
            i <= prefix.len() <= s.len(),
            forall|j: int| 0 <= j < i ==> s@[j] == prefix@[j],
        decreases prefix.len() - i,
    {
        if s[i] != prefix[i] {
            return false;
        }
        i += 1;
    }
    assert(prefix@ =~= s@.subrange(0, prefix@.len() as int));
    true
}

/// Puts the characters `v[from..to]` at the end of `out`.
pub(crate) fn append_range(out: &mut Vec<char>, v: &Vec<char>, from: usize, to: usize)
    requires
        from <= to <= v.len(),
    ensures
        final(out)@ == old(out)@ + v@.subrange(from as int, to as int),
{
    let mut i: usize = from;
    while i < to
        invariant
            from <= i <= to <= v.len(),
            out@ == old(out)@ + v@.subrange(from as int, i as int),
        decreases to - i,
    {
        out.push(v[i]);
        i += 1;
        assert(out@ =~= old(out)@ + v@.subrange(from as int, i as int));
    }
}

/// The characters `v[from..to]` as a vector of their own.
pub(crate) fn copy_range(v: &Vec<char>, from: usize, to: usize) -> (r: Vec<char>)
    requires
        from <= to <= v.len(),
    ensures
        r@ == v@.subrange(from as int, to as int),
{
    let mut r: Vec<char> = Vec::new();
    append_range(&mut r, v, from, to);
    assert(r@ =~= v@.subrange(from as int, to as int));
    r
}

/// `v` cut into lines at each line feed; with `cr`, a line that ended in a
/// line feed also drops one carriage return before it.
pub fn split_lines(v: &Vec<char>, cr: bool) -> (lines: Vec<Vec<char>>)
    ensures
        rows(lines@) == split(v@, cr),
{
    let len = v.len();
    let mut lines: Vec<Vec<char>> = Vec::new();
    let mut at: usize = 0;
    proof {
        assert(v@.subrange(0, len as int) =~= v@);
        assert(rows(lines@) + split(v@, cr) =~= split(v@, cr));
    }
    while at < len
        invariant
            at <= len == v.len(),
            split(v@, cr) == rows(lines@) + split(v@.subrange(at as int, len as int), cr),
        decreases len - at,
    {
        let k = scan(v, at, len, Class::LineBody);
        let ghost cur = v@.subrange(at as int, len as int);
        let ghost before = rows(lines@);
        if k == len {
            let line = copy_range(v, at, len);
            lines.push(line);
            proof {
                assert(split(cur, cr) == seq![cur]);
                assert(split(v@.subrange(len as int, len as int), cr) == Seq::<Seq<char>>::empty());
                assert(rows(lines@) =~= before.push(cur));
                assert(before + seq![cur] =~= rows(lines@) + Seq::<Seq<char>>::empty());
            }
            at = len;
        } else {
            let mut end: usize = k;
            if cr && end > at && v[end - 1] == '\r' {
                end -= 1;
            }
            let line = copy_range(v, at, end);
            lines.push(line);
            proof {
                let body = cur.take(k - at);
                assert(body =~= v@.subrange(at as int, k as int));
                if k > at {
                    assert(body.last() == v@[k - 1]);
                }
                assert(line_body(body, cr) =~= v@.subrange(at as int, end as int));
                assert(cur.skip(k - at + 1) =~= v@.subrange(k + 1, len as int));
                assert(rows(lines@) =~= before.push(line_body(body, cr)));
                assert(before + (seq![line_body(body, cr)] + split(cur.skip(k - at + 1), cr))
                    =~= rows(lines@) + split(v@.subrange(k + 1, len as int), cr));
            }
            at = k + 1;
        }
    }
    proof {
        assert(split(v@.subrange(at as int, len as int), cr) == Seq::<Seq<char>>::empty());
        assert(rows(lines@) + Seq::<Seq<char>>::empty() =~= rows(lines@));
    }
    lines
}

/// The lines with a line feed between each two.
pub fn join_lines(lines: &Vec<Vec<char>>) -> (r: Vec<char>)
    ensures
        r@ == joined(rows(lines@)),
{
    let mut r: Vec<char> = Vec::new();
    let mut i: usize = 0;
    proof {
        assert(rows(lines@).take(0) =~= Seq::<Seq<char>>::empty());
    }
    while i < lines.len()
        invariant
            i <= lines.len(),
            r@ == joined(rows(lines@).take(i as int)),
        decreases lines.len() - i,
    {
        if i > 0 {
            r.push('\n');
        }
        let line = &lines[i];
        append_range(&mut r, line, 0, line.len());
        proof {
            let done = rows(lines@).take(i + 1);
            assert(done.drop_last() =~= rows(lines@).take(i as int));
            assert(done.last() == line@);
            assert(line@.subrange(0, line.len() as int) =~= line@);
            if i > 0 {
                assert(r@ =~= joined(done.drop_last()) + seq!['\n'] + line@);
            } else {
                assert(r@ =~= line@);
            }
        }
        i += 1;
    }
    proof {
        assert(rows(lines@).take(lines.len() as int) =~= rows(lines@));
    }
    r
}

/// The lines with a line feed after each.
pub fn terminate_lines(lines: &Vec<Vec<char>>) -> (r: Vec<char>)
    ensures
        r@ == terminated(rows(lines@)),
{
    let mut r: Vec<char> = Vec::new();
    let mut i: usize = 0;
    proof {
        assert(rows(lines@).take(0) =~= Seq::<Seq<char>>::empty());
    }
    while i < lines.len()
        invariant
            i <= lines.len(),
            r@ == terminated(rows(lines@).take(i as int)),
        decreases lines.len() - i,
    {
        let line = &lines[i];
        append_range(&mut r, line, 0, line.len());
        r.push('\n');
        proof {
            let done = rows(lines@).take(i + 1);
            assert(done.drop_last() =~= rows(lines@).take(i as int));
            assert(done.last() == line@);
            assert(line@.subrange(0, line.len() as int) =~= line@);
            assert(r@ =~= terminated(done.drop_last()) + line@ + seq!['\n']);
        }
        i += 1;
    }
    proof {
        assert(rows(lines@).take(lines.len() as int) =~= rows(lines@));
    }
    r
}

} // verus!
