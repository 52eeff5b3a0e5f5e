//! Text helpers: lines, trimming, prefixes and appending.

use vstd::prelude::*;

verus! {

/// Index of the first line feed of `s`, or its length where it has none.
pub open spec fn line_end(s: Seq<char>) -> int
    decreases s.len(),
{
    if s.len() == 0 {
        0
    } else if s[0] == '\n' {
        0
    } else {
        1 + line_end(s.drop_first())
    }
}

/// `line` without the carriage return that ends it, if one does.
pub open spec fn without_carriage_return(line: Seq<char>) -> Seq<char> {
    if line.len() > 0 && line.last() == '\r' {
        line.drop_last()
    } else {
        line
    }
}

/// The lines of a text. A line ends at a line feed, or at a carriage return
/// directly followed by one; the terminator belongs to no line. What follows
/// the last terminator is a line unless it is empty, and keeps a carriage
/// return at its end.
pub open spec fn lines_of(text: Seq<char>) -> Seq<Seq<char>>
    decreases text.len(),
{
    if text.len() == 0 {
        Seq::empty()
    } else {
        let end = line_end(text);
        if end < 0 || end >= text.len() {
            seq![text]
        } else {
            seq![without_carriage_return(text.subrange(0, end))] + lines_of(
                text.subrange(end + 1, text.len() as int),
            )
        }
    }
}

/// The characters with the Unicode property `White_Space`.
pub open spec fn is_whitespace(c: char) -> bool {
    let u = c as u32;
    (0x09 <= u <= 0x0D) || u == 0x20 || u == 0x85 || u == 0xA0 || u == 0x1680 || (0x2000 <= u
        <= 0x200A) || u == 0x2028 || u == 0x2029 || u == 0x202F || u == 0x205F || u == 0x3000
}

/// `s` without the whitespace at its start.
pub open spec fn trimmed_start(s: Seq<char>) -> Seq<char>
    decreases s.len(),
{
    if s.len() > 0 && is_whitespace(s[0]) {
        trimmed_start(s.drop_first())
    } else {
        s
    }
}

/// `s` without the whitespace at its end.
pub open spec fn trimmed_end(s: Seq<char>) -> Seq<char>
    decreases s.len(),
{
    if s.len() > 0 && is_whitespace(s.last()) {
        trimmed_end(s.drop_last())
    } else {
        s
    }
}

/// `s` without the whitespace at its start and at its end.
pub open spec fn trimmed(s: Seq<char>) -> Seq<char> {
    trimmed_end(trimmed_start(s))
}

/// The contents of a list of strings.
pub open spec fn texts(v: Seq<String>) -> Seq<Seq<char>> {
    Seq::new(v.len(), |k: int| v[k]@)
}

/// `s` begins with `prefix`.
pub open spec fn starts_with(s: Seq<char>, prefix: Seq<char>) -> bool {
    prefix.len() <= s.len() && s.subrange(0, prefix.len() as int) == prefix
}

/// `line_end` is the first index that holds a line feed, or the length.
pub proof fn lemma_line_end(s: Seq<char>, k: int)
    requires
        0 <= k <= s.len(),
        forall|i: int| 0 <= i < k ==> s[i] != '\n',
        k == s.len() || s[k] == '\n',
    ensures
        line_end(s) == k,
    decreases k,
{
    if k > 0 {
        let t = s.drop_first();
        assert forall|i: int| 0 <= i < k - 1 implies t[i] != '\n' by {
            assert(t[i] == s[i + 1]);
        }
        if k < s.len() {
            assert(t[k - 1] == s[k]);
        }
        lemma_line_end(t, k - 1);
    }
}

/// The lines of a text, each as a string of its own.
pub fn split_lines(text: &str) -> (lines: Vec<String>)
    ensures
        texts(lines@) == lines_of(text@),
        lines@.len() == lines_of(text@).len(),
{
    let n = text.unicode_len();
    let mut lines: Vec<String> = Vec::new();
    let mut start: usize = 0;
    proof {
        assert(text@.subrange(0, n as int) =~= text@);
        assert(texts(lines@) + lines_of(text@) =~= lines_of(text@));
    }
    while start < n
        invariant
            n == text@.len(),
            start <= n,
            texts(lines@) + lines_of(text@.subrange(start as int, n as int)) == lines_of(text@),
        decreases n - start,
    {
        let ghost rest = text@.subrange(start as int, n as int);
        let ghost done = lines@;
        let mut end: usize = start;
        let mut scanning = true;
        while scanning && end < n
            invariant
                n == text@.len(),
                start <= end <= n,
                forall|k: int| start <= k < end ==> text@[k] != '\n',
                !scanning ==> end < n && text@[end as int] == '\n',
            decreases n - end + if scanning { 1int } else { 0int },
        {
            if text.get_char(end) == '\n' {
                scanning = false;
            } else {
                end += 1;
            }
        }
        proof {
            assert forall|i: int| 0 <= i < end - start implies rest[i] != '\n' by {
                assert(rest[i] == text@[start + i]);
            }
            if end < n {
                assert(rest[end - start] == text@[end as int]);
            }
            lemma_line_end(rest, end - start);
        }
        if end == n {
            lines.push(text.substring_char(start, n).to_owned());
            proof {
                assert(lines_of(rest) == seq![rest]);
                assert(texts(lines@) =~= texts(done).push(rest));
                assert(text@.subrange(n as int, n as int) =~= Seq::<char>::empty());
                assert(lines_of(Seq::<char>::empty()) =~= Seq::<Seq<char>>::empty());
                assert(texts(lines@) + lines_of(text@.subrange(n as int, n as int)) =~= texts(done)
                    + lines_of(rest));
            }
            start = n;
        } else {
            let cr = end > start && text.get_char(end - 1) == '\r';
            let stop = if cr {
                end - 1
            } else {
                end
            };
            lines.push(text.substring_char(start, stop).to_owned());
            proof {
                let raw = rest.subrange(0, end - start);
                assert(raw =~= text@.subrange(start as int, end as int));
                if end > start {
                    assert(raw.last() == text@[end - 1]);
                }
                if cr {
                    assert(raw.drop_last() =~= text@.subrange(start as int, end - 1));
                }
                let line = without_carriage_return(raw);
                assert(line == text@.subrange(start as int, stop as int));
                let tail = rest.subrange(end - start + 1, rest.len() as int);
                assert(tail =~= text@.subrange(end + 1, n as int));
                assert(lines_of(rest) == seq![line] + lines_of(tail));
                assert(texts(lines@) =~= texts(done).push(line));
                assert(texts(lines@) + lines_of(tail) =~= texts(done) + lines_of(rest));
            }
            start = end + 1;
        }
    }
    proof {
        assert(text@.subrange(n as int, n as int) =~= Seq::<char>::empty());
        assert(lines_of(Seq::<char>::empty()) =~= Seq::<Seq<char>>::empty());
        assert(texts(lines@) + Seq::<Seq<char>>::empty() =~= texts(lines@));
    }
    lines
}

/// Whether `c` has the Unicode property `White_Space`.
pub fn whitespace(c: char) -> (r: bool)
    ensures
        r == is_whitespace(c),
{
    let u: u32 = c as u32;
    (0x09 <= u && u <= 0x0D) || u == 0x20 || u == 0x85 || u == 0xA0 || u == 0x1680 || (0x2000 <= u
        && u <= 0x200A) || u == 0x2028 || u == 0x2029 || u == 0x202F || u == 0x205F || u == 0x3000
}

/// The string without the whitespace at its start and at its end.
pub fn trim(s: &str) -> (r: String)
    ensures
        r@ == trimmed(s@),
{
    let n = s.unicode_len();
    let mut start: usize = 0;
    let mut scanning = true;
    proof {
        assert(s@.subrange(0, n as int) =~= s@);
    }
    while scanning && start < n
        invariant
            n == s@.len(),
            start <= n,
            trimmed_start(s@) == trimmed_start(s@.subrange(start as int, n as int)),
            !scanning ==> start < n && !is_whitespace(s@[start as int]),
        decreases n - start + if scanning { 1int } else { 0int },
    {
        let c = s.get_char(start);
        proof {
            let rest = s@.subrange(start as int, n as int);
            assert(rest[0] == c);
            assert(rest.drop_first() =~= s@.subrange(start + 1, n as int));
        }
        if whitespace(c) {
            start += 1;
        } else {
            scanning = false;
        }
    }
    let ghost middle = s@.subrange(start as int, n as int);
    proof {
        if start < n {
            assert(middle[0] == s@[start as int]);
        }
        assert(trimmed_start(s@) == middle);
    }
    let mut end: usize = n;
    scanning = true;
    while scanning && end > start
        invariant
            n == s@.len(),
            start <= end <= n,
            middle == s@.subrange(start as int, n as int),
            trimmed_end(middle) == trimmed_end(s@.subrange(start as int, end as int)),
            !scanning ==> end > start && !is_whitespace(s@[end - 1]),
        decreases end - start + if scanning { 1int } else { 0int },
    {
        let c = s.get_char(end - 1);
        proof {
            let part = s@.subrange(start as int, end as int);
            assert(part.last() == c);
            assert(part.drop_last() =~= s@.subrange(start as int, end - 1));
        }
        if whitespace(c) {
            end -= 1;
        } else {
            scanning = false;
        }
    }
    proof {
        let part = s@.subrange(start as int, end as int);
        if end > start {
            assert(part.last() == s@[end - 1]);
        }
        assert(trimmed_end(middle) == part);
    }
    s.substring_char(start, end).to_owned()
}

/// Calls `String::push_str`, which appends `piece` to the end of `buf`.
#[verifier::external_body]
pub(crate) fn append(buf: &mut String, piece: &str)
    ensures
        final(buf)@ == old(buf)@ + piece@,
{
    buf.push_str(piece)
}

/// Whether `s` begins with `prefix`.
pub fn has_prefix(s: &str, prefix: &str) -> (r: bool)
    ensures
        r == starts_with(s@, prefix@),
{
    let n = prefix.unicode_len();
    if n > s.unicode_len() {
        return false;
    }
    let mut i: usize = 0;
    while i < n
        invariant
            n == prefix@.len(),
            n <= s@.len(),
            i <= n,
            forall|k: int| 0 <= k < i ==> s@[k] == prefix@[k],
        decreases n - i,
    {
        if s.get_char(i) != prefix.get_char(i) {
            proof {
                assert(s@.subrange(0, n as int)[i as int] == s@[i as int]);
            }
            return false;
        }
        i += 1;
    }
    proof {
        assert(s@.subrange(0, n as int) =~= prefix@);
    }
    true
}

} // verus!
