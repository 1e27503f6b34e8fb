use vstd::prelude::*;

verus! {

/// A list of strings, by their texts.
pub open spec fn strings_view(v: Seq<String>) -> Seq<Seq<char>> {
    v.map_values(|s: String| s@)
}

/// The decimal digit character for `d`, which must lie in `0..10`.
pub open spec fn digit_char(d: nat) -> char {
    ((48 + d) as u32) as char
}

/// The decimal representation of `n`, without sign or leading zeros.
pub open spec fn decimal(n: nat) -> Seq<char>
    decreases n,
{
    if n < 10 {
        seq![digit_char(n)]
    } else {
        decimal(n / 10).push(digit_char(n % 10))
    }
}

/// The number a string of decimal digits stands for.
pub open spec fn digits_value(s: Seq<char>) -> nat
    decreases s.len(),
{
    if s.len() == 0 {
        0
    } else {
        digits_value(s.drop_last()) * 10 + ((s.last() as int) - 48) as nat
    }
}

/// The decimal text of a number is made of digits only, starts with a zero only when it
/// is the number zero, and reads back as the number.
pub proof fn law_decimal_reads_back(n: nat)
    ensures
        decimal(n).len() > 0,
        forall|i: int| 0 <= i < decimal(n).len() ==> '0' <= #[trigger] decimal(n)[i] <= '9',
        decimal(n)[0] == '0' ==> n == 0,
        digits_value(decimal(n)) == n,
    decreases n,
{
    if n < 10 {
        assert(digit_char(n) as int == 48 + n);
        assert(decimal(n).drop_last() =~= Seq::<char>::empty());
        assert(digits_value(Seq::<char>::empty()) == 0);
        assert(decimal(n).last() == digit_char(n));
    } else {
        law_decimal_reads_back(n / 10);
        let d = digit_char(n % 10);
        assert(d as int == 48 + n % 10);
        assert(decimal(n).drop_last() == decimal(n / 10));
        assert(decimal(n)[0] == decimal(n / 10)[0]);
        assert(decimal(n).last() == d);
        assert(digits_value(decimal(n)) == digits_value(decimal(n / 10)) * 10 + n % 10);
        assert((n / 10) * 10 + n % 10 == n);
    }
}

/// Appends one character to a string (`String::push`).
#[verifier::external_body]
pub(crate) fn push_char(s: &mut String, c: char)
    ensures
        final(s)@ == old(s)@.push(c),
{
    s.push(c);
}

fn digit(d: u64) -> (c: char)
    requires
        d < 10,
    ensures
        c == digit_char(d as nat),
{
    let b: u8 = 48u8 + (d as u8);
    b as char
}

/// Appends the decimal representation of `n` to `s`.
pub fn push_decimal(s: &mut String, n: u64)
    ensures
        final(s)@ == old(s)@ + decimal(n as nat),
    decreases n,
{
    if n < 10 {
        push_char(s, digit(n));
        assert(decimal(n as nat) == seq![digit_char(n as nat)]);
    } else {
        push_decimal(s, n / 10);
        push_char(s, digit(n % 10));
    }
}


/// Compares two string slices for equality (`str == str`).
#[verifier::external_body]
pub(crate) fn str_eq(a: &str, b: &str) -> (r: bool)
    ensures
        r == (a@ == b@),
{
    a == b
}

/// How `<@id>` mentions a user in a chat message.
pub open spec fn mention_text(id: nat) -> Seq<char> {
    "<@"@ + decimal(id) + ">"@
}

/// Appends the mention of user `id` to `s`.
pub fn push_mention(s: &mut String, id: u64)
    ensures
        final(s)@ == old(s)@ + mention_text(id as nat),
{
    s.append("<@");
    push_decimal(s, id);
    s.append(">");
}

/// Splits a number of seconds into whole hours, the minutes of the hour begun and the
/// seconds of the minute begun.
pub fn split_duration(secs: u64) -> (r: (u64, u64, u64))
    ensures
        r.0 == secs / 3600,
        r.1 == (secs % 3600) / 60,
        r.2 == secs % 60,
{
    (secs / 3600, (secs % 3600) / 60, secs % 60)
}

/// Whatever number of seconds is split, the parts add back up to it, and minutes and
/// seconds stay below 60.
pub proof fn law_duration_parts_add_up(secs: nat)
    ensures
        (secs / 3600) * 3600 + ((secs % 3600) / 60) * 60 + secs % 60 == secs,
        (secs % 3600) / 60 < 60,
        secs % 60 < 60,
{
    let h = secs / 3600;
    let r = secs % 3600;
    assert(h * 3600 + r == secs);
    assert((r / 60) * 60 + r % 60 == r);
    assert(secs % 60 == r % 60) by {
        vstd::arithmetic::div_mod::lemma_mod_mod(secs as int, 60, 60);
        assert(secs == (h * 60) * 60 + r);
        vstd::arithmetic::div_mod::lemma_mod_multiples_vanish((h * 60) as int, r as int, 60);
    }
}


/// The characters of a string slice.
pub fn chars_of(s: &str) -> (r: Vec<char>)
    ensures
        r@ == s@,
{
    broadcast use vstd::string::group_string_axioms;
    let mut r: Vec<char> = Vec::new();
    for c in it: s.chars()
        invariant
            r@ == it.seq().take(it.index()),
    {
        r.push(c);
    }
    r
}

/// Whether `needle` occurs in `hay` starting at position `i`.
pub open spec fn occurs_at(hay: Seq<char>, needle: Seq<char>, i: int) -> bool {
    &&& 0 <= i
    &&& i + needle.len() <= hay.len()
    &&& hay.subrange(i, i + needle.len()) == needle
}

/// Whether `needle` occurs in `hay` (`str::contains` with a string pattern).
pub open spec fn contains(hay: Seq<char>, needle: Seq<char>) -> bool {
    exists|i: int| occurs_at(hay, needle, i)
}

/// Whether `needle` occurs in `hay[start..end]`.
pub fn contains_in(hay: &Vec<char>, start: usize, end: usize, needle: &Vec<char>) -> (r: bool)
    requires
        start <= end <= hay@.len(),
    ensures
        r == contains(hay@.subrange(start as int, end as int), needle@),
{
    let ghost sub = hay@.subrange(start as int, end as int);
    let n = needle.len();
    if n > end - start {
        assert forall|i: int| !occurs_at(sub, needle@, i) by {}
        return false;
    }
    let last = end - n;
    let mut p = start;
    while p <= last
        invariant
            start <= p <= last + 1,
            last + n == end,
            end <= hay@.len(),
            n == needle@.len(),
            sub == hay@.subrange(start as int, end as int),
            forall|q: int| 0 <= q < p - start ==> !occurs_at(sub, needle@, q),
        decreases last + 1 - p,
    {
        let mut j: usize = 0;
        let mut same = true;
        while j < n
            invariant
                j <= n,
                p + n <= end,
                end <= hay@.len(),
                n == needle@.len(),
                same ==> forall|t: int| 0 <= t < j ==> hay@[p + t] == needle@[t],
                !same ==> exists|t: int| 0 <= t < n && hay@[p + t] != needle@[t],
            decreases n - j,
        {
            if hay[p + j] != needle[j] {
                same = false;
            }
            j = j + 1;
        }
        if same {
            assert(sub.subrange(p - start, p - start + n) =~= needle@);
            assert(occurs_at(sub, needle@, p - start));
            return true;
        }
        proof {
            let t = choose|t: int| 0 <= t < n && hay@[p + t] != needle@[t];
            assert(sub.subrange(p - start, p - start + n)[t] != needle@[t]);
        }
        p = p + 1;
    }
    assert forall|i: int| !occurs_at(sub, needle@, i) by {
        if occurs_at(sub, needle@, i) {
            assert(i < p - start);
        }
    }
    false
}

/// A line without the carriage return that ended it, if one did.
pub open spec fn strip_cr(line: Seq<char>) -> Seq<char> {
    if line.len() > 0 && line.last() == '\r' {
        line.drop_last()
    } else {
        line
    }
}

/// The position of the first line feed at or after `from`, or the length if none.
pub open spec fn next_newline(s: Seq<char>, from: int) -> int
    decreases s.len() - from,
{
    if from >= s.len() {
        s.len() as int
    } else if s[from] == '\n' {
        from
    } else {
        next_newline(s, from + 1)
    }
}

/// The lines of `s` from position `from` on, as `str::lines` splits them: at each line
/// feed, which is dropped with a carriage return just before it; a last line without line
/// feed counts only if it is not empty.
pub open spec fn lines_from(s: Seq<char>, from: int) -> Seq<Seq<char>>
    decreases s.len() - from,
{
    if from < 0 || from >= s.len() {
        seq![]
    } else {
        let j = next_newline(s, from);
        proof {
            lemma_next_newline_bounds(s, from);
        }
        if j >= s.len() {
            seq![s.subrange(from, s.len() as int)]
        } else {
            seq![strip_cr(s.subrange(from, j))] + lines_from(s, j + 1)
        }
    }
}

/// The lines of `s` (`str::lines`).
pub open spec fn lines_of(s: Seq<char>) -> Seq<Seq<char>> {
    lines_from(s, 0)
}

/// The first line feed at or after `from` lies between `from` and the end.
pub proof fn lemma_next_newline_bounds(s: Seq<char>, from: int)
    requires
        0 <= from <= s.len(),
    ensures
        from <= next_newline(s, from) <= s.len(),
        next_newline(s, from) < s.len() ==> s[next_newline(s, from)] == '\n',
    decreases s.len() - from,
{
    if from < s.len() && s[from] != '\n' {
        lemma_next_newline_bounds(s, from + 1);
    }
}

proof fn lemma_next_newline(s: Seq<char>, from: int, i: int)
    requires
        0 <= from <= i <= s.len(),
        forall|j: int| from <= j < i ==> s[j] != '\n',
        i == s.len() || s[i] == '\n',
    ensures
        next_newline(s, from) == i,
    decreases i - from,
{
    if from < i {
        lemma_next_newline(s, from + 1, i);
    }
}

/// The first line feed at or after a place in the second part of a text is found at the
/// same place in that part alone, shifted by the length of the first part.
proof fn lemma_next_newline_shift(x: Seq<char>, y: Seq<char>, i: int)
    requires
        0 <= i <= y.len(),
    ensures
        next_newline(x + y, x.len() + i) == x.len() + next_newline(y, i),
    decreases y.len() - i,
{
    if i < y.len() {
        assert((x + y)[x.len() + i] == y[i]);
        if y[i] != '\n' {
            lemma_next_newline_shift(x, y, i + 1);
        }
    }
}

/// The lines of a text from a place in its second part are those of that part alone.
proof fn lemma_lines_shift(x: Seq<char>, y: Seq<char>, i: int)
    requires
        0 <= i,
    ensures
        lines_from(x + y, x.len() + i) == lines_from(y, i),
    decreases y.len() - i,
{
    let s = x + y;
    if i < y.len() {
        lemma_next_newline_shift(x, y, i);
        lemma_next_newline_bounds(y, i);
        let j = next_newline(y, i);
        if j >= y.len() {
            assert(s.subrange(x.len() + i, s.len() as int) =~= y.subrange(i, y.len() as int));
        } else {
            assert(s.subrange(x.len() + i, x.len() + j) =~= y.subrange(i, j));
            lemma_lines_shift(x, y, j + 1);
        }
    }
}

/// The lines of a text are read off one line feed at a time, as `str::lines` does: a first
/// part without line feed, then a line feed, give the first line (without a carriage
/// return that ended it), and the lines of the rest follow.
pub proof fn law_lines_split_at_line_feed(a: Seq<char>, b: Seq<char>)
    requires
        forall|i: int| 0 <= i < a.len() ==> a[i] != '\n',
    ensures
        lines_of(a + seq!['\n'] + b) == seq![strip_cr(a)] + lines_of(b),
{
    let x = a + seq!['\n'];
    let s = x + b;
    assert(s == a + seq!['\n'] + b);
    assert forall|j: int| 0 <= j < a.len() implies s[j] != '\n' by {
        assert(s[j] == a[j]);
    }
    assert(s[a.len() as int] == '\n');
    lemma_next_newline(s, 0, a.len() as int);
    assert(s.subrange(0, a.len() as int) =~= a);
    lemma_lines_shift(x, b, 0);
    assert(x.len() + 0 == a.len() + 1);
}

/// A text without line feed is one line, unless it is empty, which has none.
pub proof fn law_last_line(a: Seq<char>)
    requires
        forall|i: int| 0 <= i < a.len() ==> a[i] != '\n',
    ensures
        a.len() == 0 ==> lines_of(a) == Seq::<Seq<char>>::empty(),
        a.len() > 0 ==> lines_of(a) == seq![a],
{
    if a.len() > 0 {
        lemma_next_newline(a, 0, a.len() as int);
        assert(a.subrange(0, a.len() as int) =~= a);
    }
}

/// A needle found on any line of the text after a first line is found on some line of the
/// whole text: the search does not stop at the first line.
pub proof fn law_needle_on_later_line(a: Seq<char>, b: Seq<char>, needle: Seq<char>, k: int)
    requires
        forall|i: int| 0 <= i < a.len() ==> a[i] != '\n',
        0 <= k < lines_of(b).len(),
        contains(lines_of(b)[k], needle),
    ensures
        exists|m: int| 0 <= m < lines_of(a + seq!['\n'] + b).len() && contains(
            #[trigger] lines_of(a + seq!['\n'] + b)[m],
            needle,
        ),
{
    law_lines_split_at_line_feed(a, b);
    assert(lines_of(a + seq!['\n'] + b)[k + 1] == lines_of(b)[k]);
}

/// Whether some line of `text` contains `needle`.
pub fn some_line_contains(text: &Vec<char>, needle: &Vec<char>) -> (r: bool)
    ensures
        r == exists|k: int| 0 <= k < lines_of(text@).len() && contains(#[trigger] lines_of(text@)[k], needle@),
{
    let ghost s = text@;
    let ghost mut done: Seq<Seq<char>> = seq![];
    let mut start: usize = 0;
    let mut i: usize = 0;
    while i < text.len()
        invariant
            start <= i <= text@.len(),
            s == text@,
            lines_of(s) == done + lines_from(s, start as int),
            forall|k: int| 0 <= k < done.len() ==> !contains(#[trigger] done[k], needle@),
            forall|j: int| start <= j < i ==> s[j] != '\n',
        decreases text@.len() - i,
    {
        if text[i] == '\n' {
            proof {
                lemma_next_newline(s, start as int, i as int);
            }
            let mut end = i;
            if end > start && text[end - 1] == '\r' {
                end = end - 1;
            }
            assert(s.subrange(start as int, end as int) =~= strip_cr(s.subrange(start as int, i as int)));
            let hit = contains_in(text, start, end, needle);
            proof {
                assert(lines_from(s, start as int) == seq![strip_cr(s.subrange(start as int, i as int))]
                    + lines_from(s, i + 1));
                assert(lines_of(s) == (done + seq![strip_cr(s.subrange(start as int, i as int))]) + lines_from(s, i + 1));
            }
            if hit {
                assert(lines_of(s)[done.len() as int] == strip_cr(s.subrange(start as int, i as int)));
                return true;
            }
            proof {
                done = done + seq![strip_cr(s.subrange(start as int, i as int))];
            }
            start = i + 1;
        }
        i = i + 1;
    }
    if start < text.len() {
        proof {
            lemma_next_newline(s, start as int, s.len() as int);
            assert(lines_from(s, start as int) == seq![s.subrange(start as int, s.len() as int)]);
        }
        let hit = contains_in(text, start, text.len(), needle);
        if hit {
            assert(lines_of(s)[done.len() as int] == s.subrange(start as int, s.len() as int));
            return true;
        }
        proof {
            assert(lines_of(s) == done + seq![s.subrange(start as int, s.len() as int)]);
        }
    } else {
        assert(lines_of(s) =~= done);
    }
    false
}

} // verus!
